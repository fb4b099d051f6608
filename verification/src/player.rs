//! What the player reports, and finding the stream extractor it needs.
//!
//! mpv resolves a YouTube URL by running an extractor binary, and without
//! one it still starts, still accepts commands, and fails every single track
//! with nothing on screen to explain why. So the extractor is located at
//! startup; the file-system probes are the program's, the decision is here.
use vstd::prelude::*;
use crate::text::{chars_of, push_str, string_from, trim, trim_spec};

verus! {

/// Things the player reports that the session reacts to, rather than just
/// displays.
pub enum PlayerEvent {
    /// A file finished. `reason` is the player's: "eof", "stop", "quit",
    /// "error".
    EndFile { reason: String },
    FileLoaded,
    /// The player moved through its own playlist (gapless advance).
    PlaylistPos(i64),
    Idle,
    /// The player died. This is surfaced rather than silently hanging.
    Exited,
}

/// The stream extractors mpv can shell out to, best first.
pub open spec fn extractors_spec() -> Seq<Seq<char>> {
    seq!["yt-dlp"@, "youtube-dl"@]
}

/// The stream extractors mpv can shell out to, best first.
pub fn extractors() -> (r: [&'static str; 2])
    ensures
        r@.map_values(|n: &str| n@) == extractors_spec(),
{
    let r = ["yt-dlp", "youtube-dl"];
    assert(r@.map_values(|n: &str| n@) =~= extractors_spec());
    r
}

/// How `format!("{s:?}")` writes a string: quoted, with escapes.
pub uninterp spec fn debug_quoted(s: Seq<char>) -> Seq<char>;

/// Calls `format!` with `{:?}` on a string. Claimed: the result is
/// `debug_quoted` of it.
#[verifier::external_body]
fn debug_quote(s: &str) -> (r: String)
    ensures
        r@ == debug_quoted(s@),
{
    format!("{s:?}")
}

pub open spec fn bad_config_text(configured: Seq<char>) -> Seq<char> {
    "ytdlp_path points at "@ + debug_quoted(configured)
        + ", which is not an executable file.\nFix it in the config, or clear it to search PATH instead."@
}

pub open spec fn not_found_text() -> Seq<char> {
    "yt-dlp not found on PATH.\n\nmpv needs it to turn a YouTube video into a playable stream; without it nothing will play.\n\nInstall it with one of:\n  pipx install yt-dlp\n  apt install yt-dlp        # or dnf, pacman, zypper\n  brew install yt-dlp\n\nAlready have it somewhere else? Put the path in ~/.config/ytkew/config.toml:\n  ytdlp_path = \"/opt/bin/yt-dlp\""@
}

/// The extractor to use. A configured path (`configured`, surrounding
/// whitespace ignored) wins and must be executable, which the program has
/// checked (`configured_executable`); a wrong one is reported rather than
/// silently searched past. Otherwise `searched` holds each candidate path
/// in search order -- every extractor, best first, across the `PATH`
/// directories -- with whether it is executable, and the first that is wins.
pub fn find_extractor_in(
    configured: &str,
    configured_executable: bool,
    searched: &[(String, bool)],
) -> (r: Result<String, String>)
    ensures
        trim_spec(configured@).len() > 0 && configured_executable ==> (r matches Ok(p) && p@ == trim_spec(
            configured@,
        )),
        trim_spec(configured@).len() > 0 && !configured_executable ==> (r matches Err(m) && m@
            == bad_config_text(trim_spec(configured@))),
        trim_spec(configured@).len() == 0 ==> match r {
            Ok(p) => exists|i: int|
                0 <= i < searched@.len() && searched@[i].1 && p@ == searched@[i].0@ && forall|j: int|
                    0 <= j < i ==> !(#[trigger] searched@[j].1),
            Err(m) => m@ == not_found_text() && forall|j: int|
                0 <= j < searched@.len() ==> !(#[trigger] searched@[j].1),
        },
{
    let c = chars_of(configured);
    let t = trim(c.as_slice());
    if t.len() > 0 {
        let path = string_from(t);
        if configured_executable {
            return Ok(path);
        }
        let q = debug_quote(path.as_str());
        let mut m: Vec<char> = Vec::new();
        push_str(&mut m, "ytdlp_path points at ");
        push_str(&mut m, q.as_str());
        push_str(
            &mut m,
            ", which is not an executable file.\nFix it in the config, or clear it to search PATH instead.",
        );
        return Err(string_from(m.as_slice()));
    }
    let mut i: usize = 0;
    while i < searched.len()
        invariant
            i <= searched@.len(),
            trim_spec(configured@).len() == 0,
            forall|j: int| 0 <= j < i ==> !(#[trigger] searched@[j].1),
        decreases searched@.len() - i,
    {
        if searched[i].1 {
            return Ok(searched[i].0.clone());
        }
        i += 1;
    }
    Err(
        "yt-dlp not found on PATH.\n\nmpv needs it to turn a YouTube video into a playable stream; without it nothing will play.\n\nInstall it with one of:\n  pipx install yt-dlp\n  apt install yt-dlp        # or dnf, pacman, zypper\n  brew install yt-dlp\n\nAlready have it somewhere else? Put the path in ~/.config/ytkew/config.toml:\n  ytdlp_path = \"/opt/bin/yt-dlp\"".to_string(),
    )
}


/// A file name inside directory `dir`: a separator between them unless
/// `dir` is empty or already ends in one.
pub open spec fn join_spec(dir: Seq<char>, name: Seq<char>) -> Seq<char> {
    if dir.len() == 0 {
        name
    } else if dir.last() == '/' {
        dir + name
    } else {
        dir + "/"@ + name
    }
}

/// `dir` joined with `name`.
pub fn join_path(dir: &str, name: &str) -> (r: String)
    ensures
        r@ == join_spec(dir@, name@),
{
    let mut out = chars_of(dir);
    if out.len() > 0 && out[out.len() - 1] != '/' {
        push_str(&mut out, "/");
    }
    push_str(&mut out, name);
    proof {
        reveal_strlit("/");
    }
    string_from(out.as_slice())
}

/// Candidate `i` of the search over `dirs`: every directory for yt-dlp
/// first, then every directory for youtube-dl.
pub open spec fn candidate(dirs: Seq<Seq<char>>, i: int) -> Seq<char> {
    if i < dirs.len() {
        join_spec(dirs[i], "yt-dlp"@)
    } else {
        join_spec(dirs[i - dirs.len()], "youtube-dl"@)
    }
}

/// The plain texts of a list of strings.
pub open spec fn texts(v: Seq<String>) -> Seq<Seq<char>> {
    v.map_values(|s: String| s@)
}

/// The paths to probe, in search order.
pub fn extractor_candidates(dirs: &[String]) -> (r: Vec<String>)
    requires
        2 * dirs@.len() < usize::MAX,
    ensures
        r@.len() == 2 * dirs@.len(),
        forall|i: int| 0 <= i < r@.len() ==> #[trigger] r@[i]@ == candidate(texts(dirs@), i),
{
    let names = extractors();
    let nd = dirs.len();
    let mut out: Vec<String> = Vec::new();
    let mut a: usize = 0;
    while a < 2
        invariant
            a <= 2,
            nd == dirs@.len(),
            2 * nd < usize::MAX,
            names@.map_values(|n: &str| n@) == extractors_spec(),
            out@.len() == a * nd,
            forall|i: int| 0 <= i < out@.len() ==> #[trigger] out@[i]@ == candidate(texts(dirs@), i),
        decreases 2 - a,
    {
        let mut d: usize = 0;
        while d < nd
            invariant
                a < 2,
                d <= nd,
                nd == dirs@.len(),
                2 * nd < usize::MAX,
                names@.map_values(|n: &str| n@) == extractors_spec(),
                out@.len() == a * nd + d,
                forall|i: int| 0 <= i < out@.len() ==> #[trigger] out@[i]@ == candidate(texts(dirs@), i),
            decreases nd - d,
        {
            let p = join_path(dirs[d].as_str(), names[a]);
            proof {
                reveal_strlit("yt-dlp");
                reveal_strlit("youtube-dl");
                assert(names@[a as int]@ == extractors_spec()[a as int]);
                assert(texts(dirs@)[d as int] == dirs@[d as int]@);
                if a == 0 {
                    assert(p@ == candidate(texts(dirs@), (a * nd + d) as int));
                } else {
                    assert(a * nd == nd);
                    assert(p@ == candidate(texts(dirs@), (a * nd + d) as int));
                }
            }
            out.push(p);
            d += 1;
        }
        assert((a + 1) * nd == a * nd + nd) by (nonlinear_arith);
        a += 1;
    }
    out
}

/// The extractor to use, with `executable[i]` whether candidate `i` of
/// the search over `dirs` is an executable file. With no path configured,
/// the first executable candidate wins, so yt-dlp in any directory is
/// preferred to youtube-dl in any directory.
pub fn choose_extractor(configured: &str, configured_executable: bool, dirs: &[String], executable: &[bool]) -> (r: Result<String, String>)
    requires
        2 * dirs@.len() < usize::MAX,
        executable@.len() == 2 * dirs@.len(),
    ensures
        trim_spec(configured@).len() > 0 && configured_executable ==> (r matches Ok(p) && p@ == trim_spec(
            configured@,
        )),
        trim_spec(configured@).len() > 0 && !configured_executable ==> (r matches Err(m) && m@
            == bad_config_text(trim_spec(configured@))),
        trim_spec(configured@).len() == 0 ==> match r {
            Ok(p) => exists|i: int|
                0 <= i < executable@.len() && executable@[i] && p@ == candidate(texts(dirs@), i)
                    && forall|j: int| 0 <= j < i ==> !(#[trigger] executable@[j]),
            Err(m) => m@ == not_found_text() && forall|j: int|
                0 <= j < executable@.len() ==> !(#[trigger] executable@[j]),
        },
        trim_spec(configured@).len() == 0 && (exists|d: int| 0 <= d < dirs@.len() && #[trigger] executable@[d])
            ==> (r matches Ok(p) && exists|d: int|
            0 <= d < dirs@.len() && executable@[d] && p@ == join_spec(#[trigger] dirs@[d]@, "yt-dlp"@)),
{
    let cands = extractor_candidates(dirs);
    let mut searched: Vec<(String, bool)> = Vec::new();
    let mut k: usize = 0;
    let ghost mut names: Seq<Seq<char>> = Seq::empty();
    while k < cands.len()
        invariant
            k <= cands@.len(),
            cands@.len() == executable@.len(),
            searched@.len() == k,
            forall|i: int|
                0 <= i < k ==> (#[trigger] searched@[i]).1 == executable@[i] && searched@[i].0@ == cands@[i]@,
        decreases cands@.len() - k,
    {
        let c = string_from(chars_of(cands[k].as_str()).as_slice());
        searched.push((c, executable[k]));
        k += 1;
    }
    let r = find_extractor_in(configured, configured_executable, searched.as_slice());
    proof {
        if trim_spec(configured@).len() == 0 {
            if r is Ok {
                let p = r->Ok_0;
                {
                    let i = choose|i: int|
                        0 <= i < searched@.len() && searched@[i].1 && p@ == searched@[i].0@ && forall|j: int|
                            0 <= j < i ==> !(#[trigger] searched@[j].1);
                    assert(executable@[i]);
                    assert forall|j: int| 0 <= j < i implies !(#[trigger] executable@[j]) by {
                        assert(!searched@[j].1);
                    }
                    if exists|d: int| 0 <= d < dirs@.len() && #[trigger] executable@[d] {
                        let d = choose|d: int| 0 <= d < dirs@.len() && #[trigger] executable@[d];
                        assert(i <= d);
                        assert(texts(dirs@)[i] == dirs@[i]@);
                    }
                }
            } else {
                assert forall|j: int| 0 <= j < executable@.len() implies !(#[trigger] executable@[j]) by {
                    assert(!searched@[j].1);
                }
            }
        }
    }
    r
}

} // verus!
