//! Scroll windows and fixed-width columns for the list panes.
use vstd::prelude::*;
use crate::text::{chars_of, push_chars, split_words, string_from, words_spec};
use crate::ui::widgets::{blanks, display_width, elide, elide_spec, str_width};

verus! {

/// Scroll window `[start, end)` that keeps the selection visible and
/// roughly centred.
pub open spec fn window_spec(sel: usize, len: usize, height: usize) -> (usize, usize) {
    if len == 0 || height == 0 {
        (0, 0)
    } else if len <= height {
        (0, len)
    } else {
        let half = height / 2;
        let from = if sel >= half { sel - half } else { 0 };
        let start = if from < len - height { from } else { len - height };
        (start as usize, (start + height) as usize)
    }
}

pub fn window(sel: usize, len: usize, height: usize) -> (r: (usize, usize))
    ensures
        r == window_spec(sel, len, height),
{
    if len == 0 || height == 0 {
        return (0, 0);
    }
    if len <= height {
        return (0, len);
    }
    let half = height / 2;
    let from = if sel >= half {
        sel - half
    } else {
        0
    };
    let start = if from < len - height {
        from
    } else {
        len - height
    };
    (start, start + height)
}

/// The window shows `min(len, height)` rows inside `0..len`, and holds the
/// selection whenever the selection is a row.
pub proof fn law_window_holds_the_selection(sel: usize, len: usize, height: usize)
    ensures
        ({
            let (start, end) = window_spec(sel, len, height);
            &&& start <= end <= len
            &&& end - start == if len < height { len } else { height }
            &&& (sel < len && height > 0) ==> start <= sel < end
        }),
{
}

/// `n` spaces.
pub open spec fn spaces(n: int) -> Seq<char> {
    Seq::new(if n > 0 { n as nat } else { 0 }, |i: int| ' ')
}

/// Text truncated to `w` columns, then padded on the right to `w` columns;
/// nothing at all in no columns. (The limit handed to `elide` is a `u16`.)
pub open spec fn fit_spec(s: Seq<char>, w: usize) -> Seq<char> {
    if w == 0 {
        Seq::empty()
    } else {
        let t = elide_spec(s, w as u16);
        t + spaces(w - str_width(t))
    }
}

/// Text truncated to `w` columns, then padded on the left to `w` columns;
/// nothing at all in no columns.
pub open spec fn rfit_spec(s: Seq<char>, w: usize) -> Seq<char> {
    if w == 0 {
        Seq::empty()
    } else {
        let t = elide_spec(s, w as u16);
        spaces(w - str_width(t)) + t
    }
}

fn push_spaces(out: &mut Vec<char>, from: usize, to: usize)
    ensures
        final(out)@ == old(out)@ + spaces(to - from),
{
    let ghost before = out@;
    let mut k = from;
    while k < to
        invariant
            from <= to ==> from <= k <= to,
            from > to ==> k == from,
            out@ =~= before + spaces(k - from),
        decreases to - k,
    {
        out.push(' ');
        k += 1;
    }
    assert(out@ =~= before + spaces(to - from));
}

/// Fit text to exactly `w` display columns, truncating or padding.
pub fn fit(s: &str, w: usize) -> (r: String)
    ensures
        r@ == fit_spec(s@, w),
        w > 0 ==> str_width(r@) == if str_width(elide_spec(s@, w as u16)) <= w {
            w as nat
        } else {
            str_width(elide_spec(s@, w as u16))
        },
        0 < w <= u16::MAX && str_width(s@) <= w ==> str_width(r@) == w,
{
    if w == 0 {
        return string_from(&[]);
    }
    #[verifier::truncate]
    let limit = w as u16;
    let t = elide(s, limit);
    let used = display_width(t.as_str());
    let mut out = chars_of(t.as_str());
    push_spaces(&mut out, used, w);
    proof {
        let k: nat = if used <= w { (w - used) as nat } else { 0 };
        assert(spaces(w - used) =~= blanks(k));
        assert(blanks(0) + t@ =~= t@);
        assert(str_width(blanks(0) + t@ + blanks(k)) == used + 0 + k);
        assert(out@ =~= blanks(0) + t@ + blanks(k));
    }
    string_from(out.as_slice())
}

/// Right-align text within `w` columns.
pub fn rfit(s: &str, w: usize) -> (r: String)
    ensures
        r@ == rfit_spec(s@, w),
        w > 0 ==> str_width(r@) == if str_width(elide_spec(s@, w as u16)) <= w {
            w as nat
        } else {
            str_width(elide_spec(s@, w as u16))
        },
        0 < w <= u16::MAX && str_width(s@) <= w ==> str_width(r@) == w,
{
    if w == 0 {
        return string_from(&[]);
    }
    #[verifier::truncate]
    let limit = w as u16;
    let t = elide(s, limit);
    let used = display_width(t.as_str());
    let mut out: Vec<char> = Vec::new();
    push_spaces(&mut out, used, w);
    let tc = chars_of(t.as_str());
    push_chars(&mut out, tc.as_slice());
    proof {
        let k: nat = if used <= w { (w - used) as nat } else { 0 };
        assert(spaces(w - used) =~= blanks(k));
        assert(t@ + blanks(0) =~= t@);
        assert(str_width(blanks(k) + t@ + blanks(0)) == used + k + 0);
        assert(out@ =~= blanks(k) + t@ + blanks(0));
    }
    string_from(out.as_slice())
}

/// Text truncated to `w` columns, then padded on both sides to `w`
/// columns, the odd column going to the right.
pub open spec fn centre_spec(s: Seq<char>, w: usize) -> Seq<char> {
    if w == 0 {
        Seq::empty()
    } else {
        let t = elide_spec(s, w as u16);
        let gap = w - str_width(t);
        spaces(gap / 2) + t + spaces(gap - gap / 2)
    }
}

/// Centre text in exactly `w` columns, padded on both sides so a
/// highlighted row spans the full width.
pub fn centre(s: &str, w: usize) -> (r: String)
    ensures
        r@ == centre_spec(s@, w),
        w > 0 ==> str_width(r@) == if str_width(elide_spec(s@, w as u16)) <= w {
            w as nat
        } else {
            str_width(elide_spec(s@, w as u16))
        },
        0 < w <= u16::MAX && str_width(s@) <= w ==> str_width(r@) == w,
{
    if w == 0 {
        return string_from(&[]);
    }
    #[verifier::truncate]
    let limit = w as u16;
    let t = elide(s, limit);
    let used = display_width(t.as_str());
    let gap = if used < w {
        w - used
    } else {
        0
    };
    let left = gap / 2;
    let mut out: Vec<char> = Vec::new();
    push_spaces(&mut out, 0, left);
    let tc = chars_of(t.as_str());
    push_chars(&mut out, tc.as_slice());
    push_spaces(&mut out, 0, gap - left);
    proof {
        let g = w - str_width(t@);
        if used >= w {
            assert(g / 2 <= 0);
            assert(g - g / 2 <= 0);
            assert(spaces(g / 2) =~= spaces(0));
            assert(spaces(g - g / 2) =~= spaces(0));
        }
        let a: nat = left as nat;
        let b: nat = (gap - left) as nat;
        assert(spaces(0 + left - 0) =~= blanks(a));
        assert(out@ =~= blanks(a) + t@ + blanks(b));
        assert(str_width(blanks(a) + t@ + blanks(b)) == used + a + b);
    }
    string_from(out.as_slice())
}

/// The views of a list of strings.
pub open spec fn string_views(v: Seq<String>) -> Seq<Seq<char>> {
    Seq::new(v.len(), |i: int| v[i]@)
}

/// Greedy wrapping from word `i`, with `line` being filled and `out`
/// holding the lines done: a word that would push a non-empty line past
/// `w` columns starts the next line, and once `max` lines are done the
/// last gets an ellipsis, if it has room for one, to show text was cut.
pub open spec fn wrap_from(
    words: Seq<Seq<char>>,
    i: int,
    line: Seq<char>,
    out: Seq<Seq<char>>,
    w: nat,
    max: nat,
) -> Seq<Seq<char>>
    decreases words.len() - i,
{
    if i < 0 || i >= words.len() {
        if line.len() > 0 && out.len() < max {
            out.push(line)
        } else {
            out
        }
    } else {
        let word = words[i];
        let cand = if line.len() == 0 {
            word
        } else {
            line + seq![' '] + word
        };
        if str_width(cand) > w && line.len() > 0 {
            if out.len() + 1 == max {
                out.push(
                    if str_width(line) < w {
                        line.push('…')
                    } else {
                        line
                    },
                )
            } else {
                wrap_from(words, i + 1, word, out.push(line), w, max)
            }
        } else {
            wrap_from(words, i + 1, cand, out, w, max)
        }
    }
}

/// The lines `wrap` makes of `text`.
pub open spec fn wrap_spec(text: Seq<char>, w: usize, max_lines: usize) -> Seq<Seq<char>> {
    if max_lines == 0 {
        seq![]
    } else {
        wrap_from(words_spec(text), 0, seq![], seq![], w as nat, max_lines as nat)
    }
}

/// Greedy wrap of the words of `text` to at most `max_lines` lines of `w`
/// columns.
pub fn wrap(text: &str, w: usize, max_lines: usize) -> (r: Vec<String>)
    ensures
        string_views(r@) == wrap_spec(text@, w, max_lines),
{
    if max_lines == 0 {
        let none: Vec<String> = Vec::new();
        assert(string_views(none@) =~= Seq::<Seq<char>>::empty());
        return none;
    }
    let tc = chars_of(text);
    let words = split_words(tc.as_slice());
    let ghost ws = words_spec(text@);
    let mut out: Vec<String> = Vec::new();
    let mut line: Vec<char> = Vec::new();
    let mut i: usize = 0;
    assert(string_views(out@) =~= Seq::<Seq<char>>::empty());
    while i < words.len()
        invariant
            i <= words@.len(),
            words@.len() == ws.len(),
            forall|k: int| 0 <= k < words@.len() ==> #[trigger] words@[k]@ == ws[k],
            out@.len() <= i,
            wrap_spec(text@, w, max_lines) == wrap_from(
                ws,
                i as int,
                line@,
                string_views(out@),
                w as nat,
                max_lines as nat,
            ),
        decreases words@.len() - i,
    {
        let word = &words[i];
        let mut cand: Vec<char> = Vec::new();
        if line.len() > 0 {
            push_chars(&mut cand, line.as_slice());
            cand.push(' ');
        }
        push_chars(&mut cand, word.as_slice());
        proof {
            if line@.len() > 0 {
                assert(cand@ =~= line@ + seq![' '] + ws[i as int]);
            } else {
                assert(cand@ =~= ws[i as int]);
            }
        }
        let cand_s = string_from(cand.as_slice());
        let cand_w = display_width(cand_s.as_str());
        if cand_w > w && line.len() > 0 {
            if out.len() + 1 == max_lines {
                let line_s = string_from(line.as_slice());
                let line_w = display_width(line_s.as_str());
                if line_w < w {
                    line.push('…');
                }
                let last = string_from(line.as_slice());
                let ghost before = out@;
                out.push(last);
                assert(string_views(out@) =~= string_views(before).push(last@));
                return out;
            }
            let done = string_from(line.as_slice());
            let ghost before = out@;
            out.push(done);
            assert(string_views(out@) =~= string_views(before).push(done@));
            let mut next: Vec<char> = Vec::new();
            push_chars(&mut next, word.as_slice());
            line = next;
        } else {
            line = cand;
        }
        i += 1;
    }
    if line.len() > 0 && out.len() < max_lines {
        let last = string_from(line.as_slice());
        let ghost before = out@;
        out.push(last);
        assert(string_views(out@) =~= string_views(before).push(last@));
    }
    out
}

/// Every line is at most `w` columns, except that the last may be a line
/// narrower than `w` with an ellipsis added.
pub open spec fn lines_fit(lines: Seq<Seq<char>>, w: nat) -> bool {
    forall|k: int|
        0 <= k < lines.len() ==> str_width(#[trigger] lines[k]) <= w || (k == lines.len() - 1
            && lines[k].len() > 0 && lines[k].last() == '…' && str_width(lines[k].drop_last()) < w)
}

proof fn lemma_wrap_fits(
    words: Seq<Seq<char>>,
    i: int,
    line: Seq<char>,
    out: Seq<Seq<char>>,
    w: nat,
    max: nat,
)
    requires
        forall|j: int| 0 <= j < words.len() ==> str_width(#[trigger] words[j]) <= w,
        line.len() == 0 || str_width(line) <= w,
        forall|k: int| 0 <= k < out.len() ==> str_width(#[trigger] out[k]) <= w,
    ensures
        lines_fit(wrap_from(words, i, line, out, w, max), w),
    decreases words.len() - i,
{
    if i < 0 || i >= words.len() {
        let r = wrap_from(words, i, line, out, w, max);
        assert forall|k: int| 0 <= k < r.len() implies str_width(#[trigger] r[k]) <= w by {
            if k < out.len() {
                assert(r[k] == out[k]);
            }
        }
    } else {
        let word = words[i];
        let cand = if line.len() == 0 {
            word
        } else {
            line + seq![' '] + word
        };
        if str_width(cand) > w && line.len() > 0 {
            if out.len() + 1 == max {
                let last = if str_width(line) < w {
                    line.push('…')
                } else {
                    line
                };
                let r = out.push(last);
                assert(last.len() > 0);
                assert(line.push('…').drop_last() =~= line);
                assert forall|k: int| 0 <= k < r.len() implies str_width(#[trigger] r[k]) <= w || (k == r.len()
                    - 1 && r[k].len() > 0 && r[k].last() == '…' && str_width(r[k].drop_last()) < w) by {
                    if k < out.len() {
                        assert(r[k] == out[k]);
                    }
                }
            } else {
                let o2 = out.push(line);
                assert forall|k: int| 0 <= k < o2.len() implies str_width(#[trigger] o2[k]) <= w by {
                    if k < out.len() {
                        assert(o2[k] == out[k]);
                    }
                }
                lemma_wrap_fits(words, i + 1, word, o2, w, max);
            }
        } else {
            lemma_wrap_fits(words, i + 1, cand, out, w, max);
        }
    }
}

/// When every word fits in `w` columns, so does every wrapped line but for
/// the ellipsis the last may carry. (A single word wider than `w` gets a
/// line of its own, wider than `w`.)
pub proof fn law_wrapped_lines_fit(text: Seq<char>, w: usize, max_lines: usize)
    requires
        forall|j: int| 0 <= j < words_spec(text).len() ==> str_width(#[trigger] words_spec(text)[j]) <= w,
    ensures
        lines_fit(wrap_spec(text, w, max_lines), w as nat),
{
    if max_lines > 0 {
        lemma_wrap_fits(words_spec(text), 0, seq![], seq![], w as nat, max_lines as nat);
    }
}

/// The position shown in a list panel's bottom border: the selection,
/// counted from one and kept within the list, over the length.
pub open spec fn position_label_spec(sel: usize, total: usize) -> Seq<char> {
    let shown: nat = if sel + 1 < (if total > 0 { total as nat } else { 1 }) {
        (sel + 1) as nat
    } else if total > 0 {
        total as nat
    } else {
        1
    };
    crate::text::decimal(shown) + "/"@ + crate::text::decimal(total as nat)
}

/// The `n/total` label of a list panel.
pub fn position_label(sel: usize, total: usize) -> (r: String)
    ensures
        r@ == position_label_spec(sel, total),
{
    let cap: usize = if total > 0 {
        total
    } else {
        1
    };
    let next: usize = if sel < usize::MAX {
        sel + 1
    } else {
        usize::MAX
    };
    let shown = if next < cap {
        next
    } else {
        cap
    };
    let mut out: Vec<char> = Vec::new();
    crate::text::push_decimal(&mut out, shown as u64);
    crate::text::push_str(&mut out, "/");
    crate::text::push_decimal(&mut out, total as u64);
    proof {
        reveal_strlit("/");
    }
    string_from(out.as_slice())
}

} // verus!
