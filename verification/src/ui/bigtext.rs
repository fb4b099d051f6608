//! Three-row box-drawing block letters, as btop uses for its menu.
//!
//! The font is defined once in single-line glyphs; the selected variant is
//! derived by substituting the double-line equivalents, which is exactly the
//! relationship between btop's `menu_normal` and `menu_selected` tables and
//! saves maintaining two copies that could drift apart.
use vstd::prelude::*;
use crate::text::{chars_of, push_chars, string_from};
use crate::theme::lower_ascii;

verus! {

/// `char::to_ascii_uppercase`.
pub open spec fn upper_ascii(c: char) -> char {
    if 'a' <= c && c <= 'z' {
        ((c as u32) - 32) as char
    } else {
        c
    }
}

fn to_ascii_upper(c: char) -> (r: char)
    ensures
        r == upper_ascii(c),
{
    if 'a' <= c && c <= 'z' {
        ((c as u8) - 32) as char
    } else {
        c
    }
}

/// The three rows of the glyph for `c` (case-insensitive); an unknown
/// character has empty rows.
pub open spec fn glyph_spec(c: char) -> (Seq<char>, Seq<char>, Seq<char>) {
    let u = upper_ascii(c);
    if u == 'A' {
        (seq!['┌', '─', '┐'], seq!['├', '─', '┤'], seq!['┴', ' ', '┴'])
    } else if u == 'B' {
        (seq!['┌', '┐', ' '], seq!['├', '┴', '┐'], seq!['└', '─', '┘'])
    } else if u == 'C' {
        (seq!['┌', '─', '┐'], seq!['│', ' ', ' '], seq!['└', '─', '┘'])
    } else if u == 'D' {
        (seq!['┌', '┬', '┐'], seq![' ', '│', '│'], seq!['─', '┴', '┘'])
    } else if u == 'E' {
        (seq!['┌', '─', '┐'], seq!['├', '┤', ' '], seq!['└', '─', '┘'])
    } else if u == 'F' {
        (seq!['┌', '─', '┐'], seq!['├', '┤', ' '], seq!['┴', ' ', ' '])
    } else if u == 'G' {
        (seq!['┌', '─', '┐'], seq!['│', ' ', '┬'], seq!['└', '─', '┘'])
    } else if u == 'H' {
        (seq!['┬', ' ', '┬'], seq!['├', '─', '┤'], seq!['┴', ' ', '┴'])
    } else if u == 'I' {
        (seq!['┬'], seq!['│'], seq!['┴'])
    } else if u == 'L' {
        (seq!['┬', ' ', ' '], seq!['│', ' ', ' '], seq!['┴', '─', '┘'])
    } else if u == 'N' {
        (seq!['┌', '┐', '┌'], seq!['│', '│', '│'], seq!['┘', '└', '┘'])
    } else if u == 'O' {
        (seq!['┌', '─', '┐'], seq!['│', ' ', '│'], seq!['└', '─', '┘'])
    } else if u == 'P' {
        (seq!['┌', '─', '┐'], seq!['├', '─', '┘'], seq!['┴', ' ', ' '])
    } else if u == 'Q' {
        (seq!['┌', '─', '┐'], seq!['│', ' ', '│'], seq!['└', '─', '┴'])
    } else if u == 'S' {
        (seq!['┌', '─', '┐'], seq!['└', '─', '┐'], seq!['└', '─', '┘'])
    } else if u == 'T' {
        (seq!['┌', '┬', '┐'], seq![' ', '│', ' '], seq![' ', '┴', ' '])
    } else if u == 'U' {
        (seq!['┬', ' ', '┬'], seq!['│', ' ', '│'], seq!['└', '─', '┘'])
    } else if u == ' ' {
        (seq![' '], seq![' '], seq![' '])
    } else {
        (seq![], seq![], seq![])
    }
}

pub fn glyph(c: char) -> (r: (Vec<char>, Vec<char>, Vec<char>))
    ensures
        (r.0@, r.1@, r.2@) == glyph_spec(c),
{
    let u = to_ascii_upper(c);
    if u == 'A' {
        let r = (vec!['┌', '─', '┐'], vec!['├', '─', '┤'], vec!['┴', ' ', '┴']);
        assert((r.0@, r.1@, r.2@) =~= glyph_spec(c));
        r
    } else if u == 'B' {
        let r = (vec!['┌', '┐', ' '], vec!['├', '┴', '┐'], vec!['└', '─', '┘']);
        assert((r.0@, r.1@, r.2@) =~= glyph_spec(c));
        r
    } else if u == 'C' {
        let r = (vec!['┌', '─', '┐'], vec!['│', ' ', ' '], vec!['└', '─', '┘']);
        assert((r.0@, r.1@, r.2@) =~= glyph_spec(c));
        r
    } else if u == 'D' {
        let r = (vec!['┌', '┬', '┐'], vec![' ', '│', '│'], vec!['─', '┴', '┘']);
        assert((r.0@, r.1@, r.2@) =~= glyph_spec(c));
        r
    } else if u == 'E' {
        let r = (vec!['┌', '─', '┐'], vec!['├', '┤', ' '], vec!['└', '─', '┘']);
        assert((r.0@, r.1@, r.2@) =~= glyph_spec(c));
        r
    } else if u == 'F' {
        let r = (vec!['┌', '─', '┐'], vec!['├', '┤', ' '], vec!['┴', ' ', ' ']);
        assert((r.0@, r.1@, r.2@) =~= glyph_spec(c));
        r
    } else if u == 'G' {
        let r = (vec!['┌', '─', '┐'], vec!['│', ' ', '┬'], vec!['└', '─', '┘']);
        assert((r.0@, r.1@, r.2@) =~= glyph_spec(c));
        r
    } else if u == 'H' {
        let r = (vec!['┬', ' ', '┬'], vec!['├', '─', '┤'], vec!['┴', ' ', '┴']);
        assert((r.0@, r.1@, r.2@) =~= glyph_spec(c));
        r
    } else if u == 'I' {
        let r = (vec!['┬'], vec!['│'], vec!['┴']);
        assert((r.0@, r.1@, r.2@) =~= glyph_spec(c));
        r
    } else if u == 'L' {
        let r = (vec!['┬', ' ', ' '], vec!['│', ' ', ' '], vec!['┴', '─', '┘']);
        assert((r.0@, r.1@, r.2@) =~= glyph_spec(c));
        r
    } else if u == 'N' {
        let r = (vec!['┌', '┐', '┌'], vec!['│', '│', '│'], vec!['┘', '└', '┘']);
        assert((r.0@, r.1@, r.2@) =~= glyph_spec(c));
        r
    } else if u == 'O' {
        let r = (vec!['┌', '─', '┐'], vec!['│', ' ', '│'], vec!['└', '─', '┘']);
        assert((r.0@, r.1@, r.2@) =~= glyph_spec(c));
        r
    } else if u == 'P' {
        let r = (vec!['┌', '─', '┐'], vec!['├', '─', '┘'], vec!['┴', ' ', ' ']);
        assert((r.0@, r.1@, r.2@) =~= glyph_spec(c));
        r
    } else if u == 'Q' {
        let r = (vec!['┌', '─', '┐'], vec!['│', ' ', '│'], vec!['└', '─', '┴']);
        assert((r.0@, r.1@, r.2@) =~= glyph_spec(c));
        r
    } else if u == 'S' {
        let r = (vec!['┌', '─', '┐'], vec!['└', '─', '┐'], vec!['└', '─', '┘']);
        assert((r.0@, r.1@, r.2@) =~= glyph_spec(c));
        r
    } else if u == 'T' {
        let r = (vec!['┌', '┬', '┐'], vec![' ', '│', ' '], vec![' ', '┴', ' ']);
        assert((r.0@, r.1@, r.2@) =~= glyph_spec(c));
        r
    } else if u == 'U' {
        let r = (vec!['┬', ' ', '┬'], vec!['│', ' ', '│'], vec!['└', '─', '┘']);
        assert((r.0@, r.1@, r.2@) =~= glyph_spec(c));
        r
    } else if u == ' ' {
        let r = (vec![' '], vec![' '], vec![' ']);
        assert((r.0@, r.1@, r.2@) =~= glyph_spec(c));
        r
    } else {
        (Vec::new(), Vec::new(), Vec::new())
    }
}

/// The double-line counterpart of a single-line box-drawing character.
pub open spec fn thick_char(c: char) -> char {
    if c == '─' {
        '═'
    } else if c == '│' {
        '║'
    } else if c == '┌' {
        '╔'
    } else if c == '┐' {
        '╗'
    } else if c == '└' {
        '╚'
    } else if c == '┘' {
        '╝'
    } else if c == '├' {
        '╠'
    } else if c == '┤' {
        '╣'
    } else if c == '┬' {
        '╦'
    } else if c == '┴' {
        '╩'
    } else if c == '┼' {
        '╬'
    } else {
        c
    }
}

fn thick(c: char) -> (r: char)
    ensures
        r == thick_char(c),
{
    if c == '─' {
        '═'
    } else if c == '│' {
        '║'
    } else if c == '┌' {
        '╔'
    } else if c == '┐' {
        '╗'
    } else if c == '└' {
        '╚'
    } else if c == '┘' {
        '╝'
    } else if c == '├' {
        '╠'
    } else if c == '┤' {
        '╣'
    } else if c == '┬' {
        '╦'
    } else if c == '┴' {
        '╩'
    } else if c == '┼' {
        '╬'
    } else {
        c
    }
}

pub open spec fn thicken_spec(s: Seq<char>) -> Seq<char> {
    s.map_values(|c: char| thick_char(c))
}

/// Turn single-line box drawing into its double-line counterpart.
fn thicken(s: &[char]) -> (r: Vec<char>)
    ensures
        r@ == thicken_spec(s@),
{
    let mut out: Vec<char> = Vec::new();
    let mut i: usize = 0;
    while i < s.len()
        invariant
            0 <= i <= s@.len(),
            out@ =~= thicken_spec(s@.take(i as int)),
        decreases s@.len() - i,
    {
        out.push(thick(s[i]));
        i += 1;
    }
    assert(s@.take(s@.len() as int) =~= s@);
    out
}

/// Row `k` (0, 1 or 2) of a glyph.
pub open spec fn glyph_row(c: char, k: int) -> Seq<char> {
    if k == 0 {
        glyph_spec(c).0
    } else if k == 1 {
        glyph_spec(c).1
    } else {
        glyph_spec(c).2
    }
}

/// Row `k` of a word: the glyphs' rows side by side.
pub open spec fn word_row(w: Seq<char>, k: int) -> Seq<char>
    decreases w.len(),
{
    if w.len() == 0 {
        seq![]
    } else {
        word_row(w.drop_last(), k) + glyph_row(w.last(), k)
    }
}

/// Display width of a rendered word: the widths of its glyphs.
pub open spec fn word_width(w: Seq<char>) -> nat
    decreases w.len(),
{
    if w.len() == 0 {
        0
    } else {
        word_width(w.drop_last()) + glyph_spec(w.last()).0.len()
    }
}

/// The rows of `word`, in the double-line variant when `emphasised`.
pub open spec fn render_row(w: Seq<char>, k: int, emphasised: bool) -> Seq<char> {
    if emphasised {
        thicken_spec(word_row(w, k))
    } else {
        word_row(w, k)
    }
}

/// Render `word` as three rows. `emphasised` picks the double-line variant.
pub fn render(word: &str, emphasised: bool) -> (r: [String; 3])
    ensures
        r[0]@ == render_row(word@, 0, emphasised),
        r[1]@ == render_row(word@, 1, emphasised),
        r[2]@ == render_row(word@, 2, emphasised),
{
    let w = chars_of(word);
    let mut r0: Vec<char> = Vec::new();
    let mut r1: Vec<char> = Vec::new();
    let mut r2: Vec<char> = Vec::new();
    let mut i: usize = 0;
    while i < w.len()
        invariant
            0 <= i <= w@.len(),
            r0@ == word_row(w@.take(i as int), 0),
            r1@ == word_row(w@.take(i as int), 1),
            r2@ == word_row(w@.take(i as int), 2),
        decreases w@.len() - i,
    {
        let g = glyph(w[i]);
        push_chars(&mut r0, g.0.as_slice());
        push_chars(&mut r1, g.1.as_slice());
        push_chars(&mut r2, g.2.as_slice());
        assert(w@.take(i + 1).drop_last() =~= w@.take(i as int));
        i += 1;
    }
    assert(w@.take(w@.len() as int) =~= w@);
    if emphasised {
        [
            string_from(thicken(r0.as_slice()).as_slice()),
            string_from(thicken(r1.as_slice()).as_slice()),
            string_from(thicken(r2.as_slice()).as_slice()),
        ]
    } else {
        [string_from(r0.as_slice()), string_from(r1.as_slice()), string_from(r2.as_slice())]
    }
}

/// Display width of a rendered word, in columns.
pub fn width(word: &str) -> (r: usize)
    requires
        word@.len() <= usize::MAX / 3,
    ensures
        r == word_width(word@),
{
    let w = chars_of(word);
    let mut total: usize = 0;
    let mut i: usize = 0;
    while i < w.len()
        invariant
            0 <= i <= w@.len(),
            total == word_width(w@.take(i as int)),
            total <= 3 * i,
            w@.len() <= usize::MAX / 3,
        decreases w@.len() - i,
    {
        let g = glyph(w[i]);
        proof {
            lemma_glyph_rows_align(w@[i as int]);
        }
        assert(w@.take(i + 1).drop_last() =~= w@.take(i as int));
        total = total + g.0.len();
        i += 1;
    }
    assert(w@.take(w@.len() as int) =~= w@);
    total
}

/// Every glyph is rectangular and at most three columns wide.
pub proof fn lemma_glyph_rows_align(c: char)
    ensures
        glyph_spec(c).0.len() == glyph_spec(c).1.len(),
        glyph_spec(c).1.len() == glyph_spec(c).2.len(),
        glyph_spec(c).0.len() <= 3,
{
}

/// A rendered word is at most three columns a character.
pub proof fn lemma_word_width_bound(w: Seq<char>)
    ensures
        word_width(w) <= 3 * w.len(),
    decreases w.len(),
{
    if w.len() > 0 {
        lemma_word_width_bound(w.drop_last());
        lemma_glyph_rows_align(w.last());
    }
}

/// A rendered word's three rows line up: each is exactly `width(word)`
/// characters, in either variant, whatever the word holds.
pub proof fn law_rows_line_up(w: Seq<char>, emphasised: bool)
    ensures
        render_row(w, 0, emphasised).len() == word_width(w),
        render_row(w, 1, emphasised).len() == word_width(w),
        render_row(w, 2, emphasised).len() == word_width(w),
    decreases w.len(),
{
    if w.len() > 0 {
        law_rows_line_up(w.drop_last(), emphasised);
        lemma_glyph_rows_align(w.last());
    }
}

} // verus!
