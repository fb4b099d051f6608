//! The ytkew wordmark, in the heavy block style btop uses for its logo:
//! the "ANSI Shadow" figlet font -- solid blocks with box-drawing shadows --
//! six rows tall, drawn in a colour ramp that darkens down the rows.
use vstd::prelude::*;
use crate::palette::Rgb;
use crate::text::{push_chars, string_from};

verus! {

/// Rows in the banner, including the shadow row.
pub const ROWS: usize = 6;

/// The rows of letter `l` of the wordmark (Y, T, K, E, W).
pub open spec fn letter_spec(l: int) -> Seq<Seq<char>> {
    if l == 0 {
        seq![seq!['█', '█', '╗', ' ', ' ', ' ', '█', '█', '╗'], seq!['╚', '█', '█', '╗', ' ', '█', '█', '╔', '╝'], seq![' ', '╚', '█', '█', '█', '█', '╔', '╝', ' '], seq![' ', ' ', '╚', '█', '█', '╔', '╝', ' ', ' '], seq![' ', ' ', ' ', '█', '█', '║', ' ', ' ', ' '], seq![' ', ' ', ' ', '╚', '═', '╝', ' ', ' ', ' ']]
    } else if l == 1 {
        seq![seq!['█', '█', '█', '█', '█', '█', '█', '█', '╗'], seq!['╚', '═', '═', '█', '█', '╔', '═', '═', '╝'], seq![' ', ' ', ' ', '█', '█', '║', ' ', ' ', ' '], seq![' ', ' ', ' ', '█', '█', '║', ' ', ' ', ' '], seq![' ', ' ', ' ', '█', '█', '║', ' ', ' ', ' '], seq![' ', ' ', ' ', '╚', '═', '╝', ' ', ' ', ' ']]
    } else if l == 2 {
        seq![seq!['█', '█', '╗', ' ', ' ', '█', '█', '╗'], seq!['█', '█', '║', ' ', '█', '█', '╔', '╝'], seq!['█', '█', '█', '█', '█', '╔', '╝', ' '], seq!['█', '█', '╔', '═', '█', '█', '╗', ' '], seq!['█', '█', '║', ' ', ' ', '█', '█', '╗'], seq!['╚', '═', '╝', ' ', ' ', '╚', '═', '╝']]
    } else if l == 3 {
        seq![seq!['█', '█', '█', '█', '█', '█', '█', '╗'], seq!['█', '█', '╔', '═', '═', '═', '═', '╝'], seq!['█', '█', '█', '█', '█', '╗', ' ', ' '], seq!['█', '█', '╔', '═', '═', '╝', ' ', ' '], seq!['█', '█', '█', '█', '█', '█', '█', '╗'], seq!['╚', '═', '═', '═', '═', '═', '═', '╝']]
    } else {
        seq![seq!['█', '█', '╗', ' ', ' ', ' ', ' ', '█', '█', '╗'], seq!['█', '█', '║', ' ', ' ', ' ', ' ', '█', '█', '║'], seq!['█', '█', '║', ' ', '█', '╗', ' ', '█', '█', '║'], seq!['█', '█', '║', '█', '█', '█', '╗', '█', '█', '║'], seq!['╚', '█', '█', '█', '╔', '█', '█', '█', '╔', '╝'], seq![' ', '╚', '═', '═', '╝', '╚', '═', '═', '╝', ' ']]
    }
}

fn letter(l: usize) -> (r: Vec<Vec<char>>)
    requires
        l < 5,
    ensures
        r@.len() == 6,
        forall|k: int| 0 <= k < 6 ==> #[trigger] r@[k]@ == letter_spec(l as int)[k],
{
    if l == 0 {
        let r = vec![vec!['█', '█', '╗', ' ', ' ', ' ', '█', '█', '╗'], vec!['╚', '█', '█', '╗', ' ', '█', '█', '╔', '╝'], vec![' ', '╚', '█', '█', '█', '█', '╔', '╝', ' '], vec![' ', ' ', '╚', '█', '█', '╔', '╝', ' ', ' '], vec![' ', ' ', ' ', '█', '█', '║', ' ', ' ', ' '], vec![' ', ' ', ' ', '╚', '═', '╝', ' ', ' ', ' ']];
        assert(r@.len() == 6);
        assert(forall|k: int| 0 <= k < 6 ==> #[trigger] r@[k]@ == letter_spec(l as int)[k]) by {
            assert(r@[0]@ =~= letter_spec(l as int)[0]); assert(r@[1]@ =~= letter_spec(l as int)[1]); assert(r@[2]@ =~= letter_spec(l as int)[2]); assert(r@[3]@ =~= letter_spec(l as int)[3]); assert(r@[4]@ =~= letter_spec(l as int)[4]); assert(r@[5]@ =~= letter_spec(l as int)[5]);
        }
        r
    } else if l == 1 {
        let r = vec![vec!['█', '█', '█', '█', '█', '█', '█', '█', '╗'], vec!['╚', '═', '═', '█', '█', '╔', '═', '═', '╝'], vec![' ', ' ', ' ', '█', '█', '║', ' ', ' ', ' '], vec![' ', ' ', ' ', '█', '█', '║', ' ', ' ', ' '], vec![' ', ' ', ' ', '█', '█', '║', ' ', ' ', ' '], vec![' ', ' ', ' ', '╚', '═', '╝', ' ', ' ', ' ']];
        assert(r@.len() == 6);
        assert(forall|k: int| 0 <= k < 6 ==> #[trigger] r@[k]@ == letter_spec(l as int)[k]) by {
            assert(r@[0]@ =~= letter_spec(l as int)[0]); assert(r@[1]@ =~= letter_spec(l as int)[1]); assert(r@[2]@ =~= letter_spec(l as int)[2]); assert(r@[3]@ =~= letter_spec(l as int)[3]); assert(r@[4]@ =~= letter_spec(l as int)[4]); assert(r@[5]@ =~= letter_spec(l as int)[5]);
        }
        r
    } else if l == 2 {
        let r = vec![vec!['█', '█', '╗', ' ', ' ', '█', '█', '╗'], vec!['█', '█', '║', ' ', '█', '█', '╔', '╝'], vec!['█', '█', '█', '█', '█', '╔', '╝', ' '], vec!['█', '█', '╔', '═', '█', '█', '╗', ' '], vec!['█', '█', '║', ' ', ' ', '█', '█', '╗'], vec!['╚', '═', '╝', ' ', ' ', '╚', '═', '╝']];
        assert(r@.len() == 6);
        assert(forall|k: int| 0 <= k < 6 ==> #[trigger] r@[k]@ == letter_spec(l as int)[k]) by {
            assert(r@[0]@ =~= letter_spec(l as int)[0]); assert(r@[1]@ =~= letter_spec(l as int)[1]); assert(r@[2]@ =~= letter_spec(l as int)[2]); assert(r@[3]@ =~= letter_spec(l as int)[3]); assert(r@[4]@ =~= letter_spec(l as int)[4]); assert(r@[5]@ =~= letter_spec(l as int)[5]);
        }
        r
    } else if l == 3 {
        let r = vec![vec!['█', '█', '█', '█', '█', '█', '█', '╗'], vec!['█', '█', '╔', '═', '═', '═', '═', '╝'], vec!['█', '█', '█', '█', '█', '╗', ' ', ' '], vec!['█', '█', '╔', '═', '═', '╝', ' ', ' '], vec!['█', '█', '█', '█', '█', '█', '█', '╗'], vec!['╚', '═', '═', '═', '═', '═', '═', '╝']];
        assert(r@.len() == 6);
        assert(forall|k: int| 0 <= k < 6 ==> #[trigger] r@[k]@ == letter_spec(l as int)[k]) by {
            assert(r@[0]@ =~= letter_spec(l as int)[0]); assert(r@[1]@ =~= letter_spec(l as int)[1]); assert(r@[2]@ =~= letter_spec(l as int)[2]); assert(r@[3]@ =~= letter_spec(l as int)[3]); assert(r@[4]@ =~= letter_spec(l as int)[4]); assert(r@[5]@ =~= letter_spec(l as int)[5]);
        }
        r
    } else {
        let r = vec![vec!['█', '█', '╗', ' ', ' ', ' ', ' ', '█', '█', '╗'], vec!['█', '█', '║', ' ', ' ', ' ', ' ', '█', '█', '║'], vec!['█', '█', '║', ' ', '█', '╗', ' ', '█', '█', '║'], vec!['█', '█', '║', '█', '█', '█', '╗', '█', '█', '║'], vec!['╚', '█', '█', '█', '╔', '█', '█', '█', '╔', '╝'], vec![' ', '╚', '═', '═', '╝', '╚', '═', '═', '╝', ' ']];
        assert(r@.len() == 6);
        assert(forall|k: int| 0 <= k < 6 ==> #[trigger] r@[k]@ == letter_spec(l as int)[k]) by {
            assert(r@[0]@ =~= letter_spec(l as int)[0]); assert(r@[1]@ =~= letter_spec(l as int)[1]); assert(r@[2]@ =~= letter_spec(l as int)[2]); assert(r@[3]@ =~= letter_spec(l as int)[3]); assert(r@[4]@ =~= letter_spec(l as int)[4]); assert(r@[5]@ =~= letter_spec(l as int)[5]);
        }
        r
    }
}

/// The letters of the wordmark, each as its six rows.
pub fn letters() -> (r: Vec<Vec<String>>)
    ensures
        r@.len() == 5,
        forall|l: int, k: int|
            0 <= l < 5 && 0 <= k < 6 ==> #[trigger] r@[l]@[k]@ == letter_spec(l)[k] && r@[l]@.len()
                == 6,
{
    let mut out: Vec<Vec<String>> = Vec::new();
    let mut l: usize = 0;
    while l < 5
        invariant
            0 <= l <= 5,
            out@.len() == l,
            forall|a: int, k: int|
                0 <= a < l && 0 <= k < 6 ==> #[trigger] out@[a]@[k]@ == letter_spec(a)[k]
                    && out@[a]@.len() == 6,
        decreases 5 - l,
    {
        let rows = letter(l);
        let mut strs: Vec<String> = Vec::new();
        let mut k: usize = 0;
        while k < 6
            invariant
                0 <= k <= 6,
                rows@.len() == 6,
                strs@.len() == k,
                forall|j: int| 0 <= j < k ==> #[trigger] strs@[j]@ == rows@[j]@,
            decreases 6 - k,
        {
            strs.push(string_from(rows[k].as_slice()));
            k += 1;
        }
        out.push(strs);
        l += 1;
    }
    out
}

/// Row `k` of the wordmark: the letters' rows side by side.
pub open spec fn banner_row(k: int) -> Seq<char> {
    letter_spec(0)[k] + letter_spec(1)[k] + letter_spec(2)[k] + letter_spec(3)[k] + letter_spec(
        4,
    )[k]
}

/// Display width of the wordmark: the widths of its letters.
pub open spec fn banner_width() -> nat {
    letter_spec(0)[0].len() + letter_spec(1)[0].len() + letter_spec(2)[0].len() + letter_spec(
        3,
    )[0].len() + letter_spec(4)[0].len()
}

/// The wordmark as six rows of equal width.
pub fn rows() -> (r: [String; 6])
    ensures
        forall|k: int| 0 <= k < 6 ==> #[trigger] r[k]@ == banner_row(k),
{
    let mut rs: Vec<Vec<char>> = vec![Vec::new(), Vec::new(), Vec::new(), Vec::new(), Vec::new(), Vec::new()];
    let mut l: usize = 0;
    while l < 5
        invariant
            0 <= l <= 5,
            rs@.len() == 6,
            forall|k: int| 0 <= k < 6 ==> #[trigger] rs@[k]@ == prefix_row(l as int, k),
        decreases 5 - l,
    {
        let g = letter(l);
        let mut k: usize = 0;
        while k < 6
            invariant
                0 <= k <= 6,
                0 <= l < 5,
                g@.len() == 6,
                forall|j: int| 0 <= j < 6 ==> #[trigger] g@[j]@ == letter_spec(l as int)[j],
                rs@.len() == 6,
                forall|j: int| 0 <= j < k ==> #[trigger] rs@[j]@ == prefix_row(l + 1, j),
                forall|j: int| k <= j < 6 ==> #[trigger] rs@[j]@ == prefix_row(l as int, j),
            decreases 6 - k,
        {
            let mut row: Vec<char> = Vec::new();
            push_chars(&mut row, rs[k].as_slice());
            push_chars(&mut row, g[k].as_slice());
            rs.set(k, row);
            k += 1;
        }
        l += 1;
    }
    assert forall|k: int| 0 <= k < 6 implies prefix_row(5, k) == banner_row(k) by {
        reveal_with_fuel(prefix_row, 6);
        assert(prefix_row(5, k) =~= banner_row(k));
    }
    [
        string_from(rs[0].as_slice()),
        string_from(rs[1].as_slice()),
        string_from(rs[2].as_slice()),
        string_from(rs[3].as_slice()),
        string_from(rs[4].as_slice()),
        string_from(rs[5].as_slice()),
    ]
}

/// Row `k` of the first `l` letters.
pub open spec fn prefix_row(l: int, k: int) -> Seq<char>
    decreases l,
{
    if l <= 0 {
        seq![]
    } else {
        prefix_row(l - 1, k) + letter_spec(l - 1)[k]
    }
}

/// Display width of the wordmark.
pub fn width() -> (r: usize)
    ensures
        r == banner_width(),
{
    let mut total: usize = 0;
    let mut l: usize = 0;
    while l < 5
        invariant
            0 <= l <= 5,
            total == prefix_width(l as int),
            total <= 10 * l,
        decreases 5 - l,
    {
        let g = letter(l);
        assert(g@[0]@ == letter_spec(l as int)[0]);
        proof {
            lemma_letters_rectangular(l as int);
        }
        total = total + g[0].len();
        l += 1;
    }
    assert(prefix_width(5) == banner_width()) by {
        reveal_with_fuel(prefix_width, 6);
    }
    total
}

/// Width of the first `l` letters.
pub open spec fn prefix_width(l: int) -> nat
    decreases l,
{
    if l <= 0 {
        0
    } else {
        prefix_width(l - 1) + letter_spec(l - 1)[0].len()
    }
}

/// Every letter is rectangular: its six rows are equally wide, at most ten
/// columns.
pub proof fn lemma_letters_rectangular(l: int)
    requires
        0 <= l < 5,
    ensures
        letter_spec(l).len() == 6,
        forall|k: int| 0 <= k < 6 ==> #[trigger] letter_spec(l)[k].len() == letter_spec(l)[0].len(),
        letter_spec(l)[0].len() <= 10,
{
}

/// The wordmark is at most fifty columns wide.
pub proof fn lemma_banner_width_bound()
    ensures
        banner_width() <= 50,
{
    lemma_letters_rectangular(0);
    lemma_letters_rectangular(1);
    lemma_letters_rectangular(2);
    lemma_letters_rectangular(3);
    lemma_letters_rectangular(4);
}

/// Every row of the wordmark is exactly as wide as the wordmark.
pub proof fn law_rows_match_width(k: int)
    requires
        0 <= k < 6,
    ensures
        banner_row(k).len() == banner_width(),
        banner_width() == 44,
{
    lemma_letters_rectangular(0);
    lemma_letters_rectangular(1);
    lemma_letters_rectangular(2);
    lemma_letters_rectangular(3);
    lemma_letters_rectangular(4);
}

/// btop's ramp, with the last row lifted off black so the shadow row still
/// reads on a dark background. The logo keeps this regardless of theme.
pub open spec fn ramp_spec() -> Seq<Rgb> {
    seq![
        Rgb(0xE6, 0x25, 0x25),
        Rgb(0xCD, 0x21, 0x21),
        Rgb(0xB3, 0x1D, 0x1D),
        Rgb(0x9A, 0x19, 0x19),
        Rgb(0x80, 0x14, 0x14),
        Rgb(0x4A, 0x0C, 0x0C),
    ]
}

/// Colour for each row, brightest at the top and fading into the shadow.
pub fn shades() -> (r: [Rgb; 6])
    ensures
        r@ == ramp_spec(),
{
    let r = [
        Rgb(0xE6, 0x25, 0x25),
        Rgb(0xCD, 0x21, 0x21),
        Rgb(0xB3, 0x1D, 0x1D),
        Rgb(0x9A, 0x19, 0x19),
        Rgb(0x80, 0x14, 0x14),
        Rgb(0x4A, 0x0C, 0x0C),
    ];
    assert(r@ =~= ramp_spec());
    r
}

/// Down the ramp each channel is no brighter than the row above.
pub proof fn law_ramp_darkens(i: int)
    requires
        1 <= i < 6,
    ensures
        ramp_spec()[i].0 <= ramp_spec()[i - 1].0,
        ramp_spec()[i].1 <= ramp_spec()[i - 1].1,
        ramp_spec()[i].2 <= ramp_spec()[i - 1].2,
{
}

} // verus!
