//! The command line, as the program parses it, and what it asks for.
use vstd::prelude::*;
use crate::text::{push_chars, chars_of, string_from};

verus! {

/// A terminal YouTube Music player, in the spirit of kew.
pub struct Cli {
    /// Search terms -- plays the best match immediately, like `kew nirvana`.
    pub query: Vec<String>,
    /// Set up credentials: `browser` lifts an existing Firefox login,
    /// `cookie` takes a pasted header, `oauth` runs a device flow.
    pub auth: Option<String>,
    /// Report what the API can see with the current credentials.
    pub diagnose: bool,
}

/// What a run of the program does.
pub enum Mode {
    /// Guided credential setup with this method.
    Auth(String),
    /// Report what the API can see.
    Diagnose,
    /// Start the player, first searching for and playing these terms when
    /// some were given.
    Play(Option<String>),
}

/// Words joined with single spaces.
pub open spec fn joined(ws: Seq<Seq<char>>) -> Seq<char>
    decreases ws.len(),
{
    if ws.len() == 0 {
        Seq::empty()
    } else if ws.len() == 1 {
        ws[0]
    } else {
        joined(ws.drop_last()) + seq![' '] + ws.last()
    }
}

/// `words.join(" ")`.
pub fn join_words(words: &[String]) -> (r: String)
    ensures
        r@ == joined(words@.map_values(|w: String| w@)),
{
    let ghost ws = words@.map_values(|w: String| w@);
    let mut out: Vec<char> = Vec::new();
    let mut i: usize = 0;
    while i < words.len()
        invariant
            ws == words@.map_values(|w: String| w@),
            i <= words@.len(),
            out@ == joined(ws.take(i as int)),
        decreases words@.len() - i,
    {
        let ghost before = out@;
        if i > 0 {
            out.push(' ');
        }
        let w = chars_of(words[i].as_str());
        push_chars(&mut out, w.as_slice());
        proof {
            assert(ws.take(i + 1).drop_last() =~= ws.take(i as int));
            assert(ws[i as int] == words@[i as int]@);
            if i == 0 {
                assert(out@ =~= joined(ws.take(1)));
            } else {
                assert(out@ =~= joined(ws.take(i + 1)));
            }
        }
        i += 1;
    }
    assert(ws.take(words@.len() as int) =~= ws);
    string_from(out.as_slice())
}

/// What the command line asks for: credential setup outranks the
/// diagnosis, which outranks playing; search terms are joined with spaces.
pub fn mode(cli: &Cli) -> (m: Mode)
    ensures
        cli.auth matches Some(a) ==> (m matches Mode::Auth(x) && x@ == a@),
        cli.auth is None && cli.diagnose ==> m is Diagnose,
        cli.auth is None && !cli.diagnose && cli.query@.len() == 0 ==> m matches Mode::Play(None),
        cli.auth is None && !cli.diagnose && cli.query@.len() > 0 ==> (m matches Mode::Play(Some(q))
            && q@ == joined(cli.query@.map_values(|w: String| w@))),
{
    match &cli.auth {
        Some(a) => Mode::Auth(a.clone()),
        None => if cli.diagnose {
            Mode::Diagnose
        } else if cli.query.len() == 0 {
            Mode::Play(None)
        } else {
            Mode::Play(Some(join_words(cli.query.as_slice())))
        },
    }
}

} // verus!
