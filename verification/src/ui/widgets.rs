//! Text truncation by display width.
use vstd::prelude::*;
use crate::text::{chars_of, string_from};

verus! {

/// The number of terminal columns `unicode_width` gives a string
/// (`UnicodeWidthStr::width`). Named rather than stated: it follows the
/// Unicode East Asian Width tables.
pub uninterp spec fn str_width(s: Seq<char>) -> nat;

/// `n` spaces.
pub open spec fn blanks(n: nat) -> Seq<char> {
    Seq::new(n, |i: int| ' ')
}

/// Calls `unicode_width::UnicodeWidthStr::width`; the result is `str_width`
/// of the text. Also claimed, as the crate's right-to-left scan shows: a
/// space is one column and starts no sequence with what follows it, and
/// what precedes a space is measured as at the end of the text, so spaces
/// added before or after the text add one column each.
#[verifier::external_body]
pub(crate) fn display_width(s: &str) -> (r: usize)
    ensures
        r as nat == str_width(s@),
        forall|a: nat, b: nat| #[trigger] str_width(blanks(a) + s@ + blanks(b)) == r + a + b,
{
    unicode_width::UnicodeWidthStr::width(s)
}

/// The width of one character on its own.
pub fn char_width(c: char) -> (r: usize)
    ensures
        r as nat == str_width(seq![c]),
{
    let one: [char; 1] = [c];
    let s = string_from(one.as_slice());
    assert(one@ =~= seq![c]);
    display_width(s.as_str())
}

/// Greedy truncation from place `i`, `w` columns used so far, to fit
/// `limit` columns: characters are kept while they fit, and the first one
/// that does not is replaced by an ellipsis.
pub open spec fn elide_from(s: Seq<char>, i: int, w: nat, limit: nat) -> Seq<char>
    decreases s.len() - i,
{
    if i < 0 || i >= s.len() {
        seq![]
    } else {
        let cw = str_width(seq![s[i]]);
        if w + cw > limit {
            seq!['…']
        } else {
            seq![s[i]] + elide_from(s, i + 1, w + cw, limit)
        }
    }
}

/// `s` as is when it fits `width` columns; otherwise as much as fits in one
/// column less, then an ellipsis.
pub open spec fn elide_spec(s: Seq<char>, width: u16) -> Seq<char> {
    if str_width(s) <= width {
        s
    } else {
        elide_from(s, 0, 0, if width > 0 { (width - 1) as nat } else { 0 })
    }
}

/// Truncate to a display width, respecting wide characters.
pub fn elide(s: &str, width: u16) -> (r: String)
    ensures
        r@ == elide_spec(s@, width),
{
    let max = width as usize;
    if display_width(s) <= max {
        return string_from(chars_of(s).as_slice());
    }
    let limit: usize = if max > 0 {
        max - 1
    } else {
        0
    };
    let c = chars_of(s);
    let mut out: Vec<char> = Vec::new();
    let mut w: usize = 0;
    let mut i: usize = 0;
    let ghost whole = elide_from(c@, 0, 0, limit as nat);
    while i < c.len()
        invariant
            0 <= i <= c@.len(),
            w <= limit,
            limit < 0x10000,
            c@ == s@,
            str_width(s@) > width,
            limit as nat == (if width > 0 { (width - 1) as nat } else { 0 }),
            whole == elide_from(c@, 0, 0, limit as nat),
            whole == out@ + elide_from(c@, i as int, w as nat, limit as nat),
        decreases c@.len() - i,
    {
        let cw = char_width(c[i]);
        if cw > limit - w {
            out.push('…');
            assert(whole =~= out@);
            return string_from(out.as_slice());
        }
        let ghost before = out@;
        out.push(c[i]);
        assert(whole =~= out@ + elide_from(c@, i + 1, (w + cw) as nat, limit as nat));
        w += cw;
        i += 1;
    }
    assert(whole =~= out@);
    string_from(out.as_slice())
}

} // verus!
