//! Lifting an existing YouTube Music login out of the browser's cookie store.
//!
//! Firefox keeps its cookies in plain SQLite; the program reads the rows.
//! What is kept of them, and the header they become, is decided here.
use vstd::prelude::*;
use crate::text::{chars_of, push_chars, push_str, string_from};

verus! {

broadcast use vstd::string::group_string_axioms;

/// Cookies YouTube Music authenticates with, in ascending byte order of
/// name. `SAPISID` is the one that actually signs requests; the rest come
/// along because the endpoint expects a browser's full jar and behaves
/// oddly without them.
pub open spec fn wanted_spec() -> Seq<Seq<char>> {
    seq![
        "APISID"@,
        "HSID"@,
        "LOGIN_INFO"@,
        "PREF"@,
        "SAPISID"@,
        "SID"@,
        "SSID"@,
        "VISITOR_INFO1_LIVE"@,
        "YSC"@,
        "__Secure-1PAPISID"@,
        "__Secure-1PSID"@,
        "__Secure-3PAPISID"@,
        "__Secure-3PSID"@,
    ]
}

/// The cookies worth collecting, in ascending byte order of name.
pub fn wanted() -> (r: Vec<&'static str>)
    ensures
        r@.map_values(|n: &str| n@) == wanted_spec(),
{
    let r = vec![
        "APISID",
        "HSID",
        "LOGIN_INFO",
        "PREF",
        "SAPISID",
        "SID",
        "SSID",
        "VISITOR_INFO1_LIVE",
        "YSC",
        "__Secure-1PAPISID",
        "__Secure-1PSID",
        "__Secure-3PAPISID",
        "__Secure-3PSID",
    ];
    assert(r@.map_values(|n: &str| n@) =~= wanted_spec());
    r
}

/// A profile that yielded a usable cookie header.
pub struct Found {
    /// The profile directory.
    pub profile: String,
    pub header: String,
    /// Which of the wanted cookies were actually present.
    pub names: Vec<String>,
}

/// The first value a row gives the cookie `name`, ignoring empty values.
pub open spec fn first_value(rows: Seq<(Seq<char>, Seq<char>)>, name: Seq<char>) -> Option<Seq<char>>
    decreases rows.len(),
{
    if rows.len() == 0 {
        None
    } else if rows[0].0 == name && rows[0].1.len() > 0 {
        Some(rows[0].1)
    } else {
        first_value(rows.drop_first(), name)
    }
}

/// The wanted cookies among the first `k` in byte order that `rows` has a
/// value for, each with its first value.
pub open spec fn kept(rows: Seq<(Seq<char>, Seq<char>)>, k: int) -> Seq<(Seq<char>, Seq<char>)>
    decreases k,
{
    if k <= 0 {
        Seq::empty()
    } else {
        let name = wanted_spec()[k - 1];
        match first_value(rows, name) {
            Some(v) => kept(rows, k - 1).push((name, v)),
            None => kept(rows, k - 1),
        }
    }
}

proof fn lemma_kept_are_wanted(rows: Seq<(Seq<char>, Seq<char>)>, k: int)
    requires
        0 <= k <= 13,
    ensures
        forall|i: int|
            0 <= i < kept(rows, k).len() ==> exists|j: int|
                0 <= j < k && #[trigger] kept(rows, k)[i].0 == wanted_spec()[j],
        forall|i: int|
            0 <= i < kept(rows, k).len() ==> first_value(rows, #[trigger] kept(rows, k)[i].0) == Some(
                kept(rows, k)[i].1,
            ),
    decreases k,
{
    if k > 0 {
        lemma_kept_are_wanted(rows, k - 1);
        let prev = kept(rows, k - 1);
        let name = wanted_spec()[k - 1];
        match first_value(rows, name) {
            Some(v) => {
                assert(kept(rows, k) == prev.push((name, v)));
                assert forall|i: int| 0 <= i < kept(rows, k).len() implies exists|j: int|
                    0 <= j < k && #[trigger] kept(rows, k)[i].0 == wanted_spec()[j] by {
                    if i < prev.len() {
                        assert(kept(rows, k)[i] == prev[i]);
                        let j = choose|j: int| 0 <= j < k - 1 && #[trigger] prev[i].0 == wanted_spec()[j];
                        assert(kept(rows, k)[i].0 == wanted_spec()[j]);
                    } else {
                        assert(kept(rows, k)[i].0 == wanted_spec()[k - 1]);
                    }
                }
                assert forall|i: int| 0 <= i < kept(rows, k).len() implies first_value(
                    rows,
                    #[trigger] kept(rows, k)[i].0,
                ) == Some(kept(rows, k)[i].1) by {
                    if i < prev.len() {
                        assert(kept(rows, k)[i] == prev[i]);
                    }
                }
            },
            None => {
                assert(kept(rows, k) == prev);
                assert forall|i: int| 0 <= i < kept(rows, k).len() implies exists|j: int|
                    0 <= j < k && #[trigger] kept(rows, k)[i].0 == wanted_spec()[j] by {
                    let j = choose|j: int| 0 <= j < k - 1 && #[trigger] prev[i].0 == wanted_spec()[j];
                    assert(kept(rows, k)[i].0 == wanted_spec()[j]);
                }
            },
        }
    }
}

/// Only cookies on the wanted list are ever sent, each with the first
/// nonempty value the profile holds for it: the header carries nothing the
/// list does not name.
pub proof fn law_only_wanted_cookies_are_sent(rows: Seq<(Seq<char>, Seq<char>)>)
    ensures
        forall|i: int|
            0 <= i < kept(rows, 13).len() ==> wanted_spec().contains(#[trigger] kept(rows, 13)[i].0),
        forall|i: int|
            0 <= i < kept(rows, 13).len() ==> first_value(rows, #[trigger] kept(rows, 13)[i].0)
                == Some(kept(rows, 13)[i].1),
{
    lemma_kept_are_wanted(rows, 13);
    assert forall|i: int| 0 <= i < kept(rows, 13).len() implies wanted_spec().contains(
        #[trigger] kept(rows, 13)[i].0,
    ) by {
        let j = choose|j: int| 0 <= j < 13 && #[trigger] kept(rows, 13)[i].0 == wanted_spec()[j];
        assert(wanted_spec()[j] == kept(rows, 13)[i].0);
    }
}

/// `name=value; ` for each kept cookie, in order: the header, less its final
/// semicolon-space, is this with the trailing space replaced.
pub open spec fn pairs_text(ps: Seq<(Seq<char>, Seq<char>)>) -> Seq<char>
    decreases ps.len(),
{
    if ps.len() == 0 {
        Seq::empty()
    } else if ps.len() == 1 {
        ps[0].0 + seq!['='] + ps[0].1
    } else {
        pairs_text(ps.drop_last()) + seq![';', ' '] + ps.last().0 + seq!['='] + ps.last().1
    }
}

/// The rows as plain text pairs.
pub open spec fn row_views(rows: Seq<(String, String)>) -> Seq<(Seq<char>, Seq<char>)> {
    rows.map_values(|r: (String, String)| (r.0@, r.1@))
}

pub open spec fn no_sapisid_text() -> Seq<char> {
    "no SAPISID cookie -- not signed in to YouTube in this profile"@
}

fn eq_str(a: &str, b: &str) -> (r: bool)
    ensures
        r == (a@ == b@),
{
    let x = chars_of(a);
    let y = chars_of(b);
    crate::text::eq_chars(x.as_slice(), y.as_slice())
}

/// The first nonempty value `rows` gives cookie `name`.
fn first_value_of<'a>(rows: &'a [(String, String)], name: &str) -> (r: Option<&'a String>)
    ensures
        match r {
            Some(v) => first_value(row_views(rows@), name@) == Some(v@),
            None => first_value(row_views(rows@), name@) is None,
        },
{
    let ghost vs = row_views(rows@);
    assert(vs.skip(0) =~= vs);
    let mut i: usize = 0;
    while i < rows.len()
        invariant
            vs == row_views(rows@),
            i <= rows@.len(),
            first_value(vs, name@) == first_value(vs.skip(i as int), name@),
        decreases rows@.len() - i,
    {
        assert(vs.skip(i as int).drop_first() =~= vs.skip(i + 1));
        if eq_str(rows[i].0.as_str(), name) && !rows[i].1.as_str().is_empty() {
            assert(vs.skip(i as int)[0] == (rows@[i as int].0@, rows@[i as int].1@));
            return Some(&rows[i].1);
        }
        i += 1;
    }
    assert(vs.skip(i as int).len() == 0);
    None
}

/// The header and cookie names from a profile's YouTube cookie rows
/// (name, value): the wanted cookies with a nonempty value, each once with
/// the first value given, in ascending byte order of name, as
/// `name=value; name=value;`. The trailing semicolon is not cosmetic: the
/// API client finds `SAPISID` by splitting on the `;` after it. Without a
/// `SAPISID` the profile is not signed in.
pub fn cookie_header(rows: &[(String, String)]) -> (r: Result<(String, Vec<String>), String>)
    ensures
        first_value(row_views(rows@), "SAPISID"@) is None ==> (r matches Err(e) && e@ == no_sapisid_text()),
        first_value(row_views(rows@), "SAPISID"@) is Some ==> (r matches Ok(ok) && {
            let ps = kept(row_views(rows@), 13);
            &&& ok.0@ == pairs_text(ps) + seq![';']
            &&& ok.1@.map_values(|n: String| n@) == ps.map_values(|p: (Seq<char>, Seq<char>)| p.0)
        }),
{
    if first_value_of(rows, "SAPISID").is_none() {
        return Err("no SAPISID cookie -- not signed in to YouTube in this profile".to_string());
    }
    let names_in_order = wanted();
    let ghost rv = row_views(rows@);
    assert(names_in_order@.map_values(|n: &str| n@).len() == names_in_order@.len());
    let mut header: Vec<char> = Vec::new();
    let mut names: Vec<String> = Vec::new();
    let mut k: usize = 0;
    while k < names_in_order.len()
        invariant
            rv == row_views(rows@),
            names_in_order@.map_values(|n: &str| n@) == wanted_spec(),
            names_in_order@.len() == 13,
            k <= 13,
            header@ == pairs_text(kept(rv, k as int)),
            names@.map_values(|n: String| n@) == kept(rv, k as int).map_values(
                |p: (Seq<char>, Seq<char>)| p.0,
            ),
        decreases 13 - k,
    {
        let name = names_in_order[k];
        assert(name@ == wanted_spec()[k as int]);
        match first_value_of(rows, name) {
            Some(v) => {
                let ghost prev = kept(rv, k as int);
                let ghost before = header@;
                if names.len() > 0 {
                    header.push(';');
                    header.push(' ');
                }
                push_str(&mut header, name);
                header.push('=');
                push_str(&mut header, v.as_str());
                let owned = name.to_string();
                assert(owned@ == name@);
                let ghost names_before = names@;
                names.push(owned);
                assert(names@.map_values(|n: String| n@) =~= names_before.map_values(|n: String| n@).push(
                    name@,
                ));
                proof {
                    let now = kept(rv, k + 1);
                    assert(now == prev.push((name@, v@)));
                    assert(now.drop_last() == prev);
                    assert(prev.map_values(|p: (Seq<char>, Seq<char>)| p.0).len() == prev.len());
                    if prev.len() == 0 {
                        assert(header@ =~= pairs_text(now));
                    } else {
                        assert(header@ =~= pairs_text(now));
                    }
                    assert(names@.map_values(|n: String| n@) =~= now.map_values(
                        |p: (Seq<char>, Seq<char>)| p.0,
                    ));
                }
            },
            None => {},
        }
        k += 1;
    }
    let ghost body = header@;
    header.push(';');
    assert(header@ =~= body + seq![';']);
    Ok((string_from(header.as_slice()), names))
}

/// What a profile read gave: its cookie header and names, or why not.
pub type ProfileResult = Result<(String, Vec<String>), String>;

pub open spec fn no_profile_text() -> Seq<char> {
    "no Firefox profile found -- use `ytkew --auth cookie` to paste a header instead"@
}

/// The first usable set among the profiles tried, most recently used first:
/// `attempts` pairs each profile read so far with what reading it gave, and
/// the reading stops at the first success. No profile at all, and no
/// success, are each their own error; the latter names the last failure.
pub fn find_cookies(attempts: Vec<(String, ProfileResult)>) -> (r: Result<Found, String>)
    ensures
        attempts@.len() == 0 ==> (r matches Err(e) && e@ == no_profile_text()),
        (exists|i: int| 0 <= i < attempts@.len() && #[trigger] attempts@[i].1 is Ok) ==> (r matches Ok(f) && exists|i: int|
            #![trigger attempts@[i]]
            0 <= i < attempts@.len() && (attempts@[i].1 matches Ok(ok) && f.profile@ == attempts@[i].0@ && f.header@ == ok.0@ && f.names@ == ok.1@) && forall|j: int|
                0 <= j < i ==> #[trigger] attempts@[j].1 is Err),
        attempts@.len() > 0 && (forall|i: int| 0 <= i < attempts@.len() ==> #[trigger] attempts@[i].1 is Err) ==> (r matches Err(e) && e@
            == "no signed-in YouTube Music session in any Firefox profile ("@ + attempts@.last().0@ + ": "@ + (match attempts@.last().1 {
            Err(m) => m@,
            Ok(_) => Seq::empty(),
        }) + ")"@),
{
    if attempts.len() == 0 {
        return Err(
            "no Firefox profile found -- use `ytkew --auth cookie` to paste a header instead".to_string(),
        );
    }
    let n = attempts.len();
    let mut i: usize = 0;
    while i < n
        invariant
            n == attempts@.len(),
            i <= n,
            forall|j: int| 0 <= j < i ==> #[trigger] attempts@[j].1 is Err,
        decreases n - i,
    {
        match &attempts[i].1 {
            Ok(ok) => {
                let f = Found {
                    profile: attempts[i].0.clone(),
                    header: ok.0.clone(),
                    names: ok.1.clone(),
                };
                proof {
                    assert(f.names@ =~= ok.1@);
                }
                return Ok(f);
            },
            Err(_) => {},
        }
        i += 1;
    }
    let last = &attempts[n - 1];
    let mut msg: Vec<char> = Vec::new();
    push_str(&mut msg, "no signed-in YouTube Music session in any Firefox profile (");
    push_str(&mut msg, last.0.as_str());
    push_str(&mut msg, ": ");
    match &last.1 {
        Err(m) => push_str(&mut msg, m.as_str()),
        Ok(_) => {},
    }
    push_str(&mut msg, ")");
    Err(string_from(msg.as_slice()))
}

} // verus!
