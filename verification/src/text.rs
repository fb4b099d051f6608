//! Character-level helpers shared by the parsers: every string the library
//! reads is taken as its sequence of `char`s, and every string it builds is
//! assembled from one.
use vstd::prelude::*;

verus! {

broadcast use vstd::string::group_string_axioms;

/// The characters of `s`, in order.
pub fn chars_of(s: &str) -> (v: Vec<char>)
    ensures
        v@ == s@,
{
    let mut v: Vec<char> = Vec::new();
    for c in it: s.chars()
        invariant
            v@ == it.seq().take(it.index() as int),
            it.seq() == s@,
    {
        v.push(c);
    }
    v
}

/// Calls `String::push`: claimed to append `c` to the text.
#[verifier::external_body]
pub(crate) fn push_char(s: &mut String, c: char)
    ensures
        final(s)@ == old(s)@.push(c),
{
    s.push(c);
}

/// A string holding exactly the characters `v`.
pub fn string_from(v: &[char]) -> (s: String)
    ensures
        s@ == v@,
{
    let mut s = String::new();
    let mut i: usize = 0;
    while i < v.len()
        invariant
            0 <= i <= v@.len(),
            s@ == v@.take(i as int),
        decreases v@.len() - i,
    {
        push_char(&mut s, v[i]);
        i += 1;
        assert(s@ =~= v@.take(i as int));
    }
    assert(v@.take(v@.len() as int) =~= v@);
    s
}

/// The Unicode `White_Space` property, which `char::is_whitespace` tests.
pub open spec fn is_ws(c: char) -> bool {
    let u = c as u32;
    (0x9 <= u && u <= 0xd) || u == 0x20 || u == 0x85 || u == 0xa0 || u == 0x1680 || (0x2000 <= u
        && u <= 0x200a) || u == 0x2028 || u == 0x2029 || u == 0x202f || u == 0x205f || u == 0x3000
}

pub fn is_whitespace(c: char) -> (r: bool)
    ensures
        r == is_ws(c),
{
    let u = c as u32;
    (0x9 <= u && u <= 0xd) || u == 0x20 || u == 0x85 || u == 0xa0 || u == 0x1680 || (0x2000 <= u
        && u <= 0x200a) || u == 0x2028 || u == 0x2029 || u == 0x202f || u == 0x205f || u == 0x3000
}

pub open spec fn is_digit(c: char) -> bool {
    '0' <= c && c <= '9'
}

pub open spec fn is_hex(c: char) -> bool {
    ('0' <= c && c <= '9') || ('a' <= c && c <= 'f') || ('A' <= c && c <= 'F')
}

pub open spec fn digit_val(c: char) -> nat {
    ((c as u32) - ('0' as u32)) as nat
}

pub open spec fn all_digits(s: Seq<char>) -> bool {
    forall|i: int| 0 <= i < s.len() ==> #[trigger] is_digit(s[i])
}

/// The number a run of decimal digits spells.
pub open spec fn digits_value(s: Seq<char>) -> nat
    decreases s.len(),
{
    if s.len() == 0 {
        0
    } else {
        digits_value(s.drop_last()) * 10 + digit_val(s.last())
    }
}

/// What `str::parse` gives for an unsigned integer type whose largest value
/// is `max`: an optional `+`, then one or more ASCII digits, in range.
pub open spec fn parse_uint_spec(s: Seq<char>, max: nat) -> Option<nat> {
    let d = if s.len() > 0 && s[0] == '+' {
        s.drop_first()
    } else {
        s
    };
    if d.len() > 0 && all_digits(d) && digits_value(d) <= max {
        Some(digits_value(d))
    } else {
        None
    }
}

proof fn lemma_digits_value_grows(s: Seq<char>, i: int)
    requires
        0 <= i <= s.len(),
        all_digits(s),
    ensures
        digits_value(s.take(i)) <= digits_value(s),
    decreases s.len() - i,
{
    if i < s.len() {
        lemma_digits_value_grows(s, i + 1);
        assert(s.take(i + 1).drop_last() =~= s.take(i));
    } else {
        assert(s.take(i) =~= s);
    }
}

/// `str::parse` into an unsigned integer no larger than `max`.
pub fn parse_uint(s: &[char], max: u64) -> (r: Option<u64>)
    ensures
        match parse_uint_spec(s@, max as nat) {
            Some(v) => r == Some(v as u64),
            None => r is None,
        },
{
    let start: usize = if s.len() > 0 && s[0] == '+' {
        1
    } else {
        0
    };
    let ghost d = if s@.len() > 0 && s@[0] == '+' {
        s@.drop_first()
    } else {
        s@
    };
    assert(d =~= s@.skip(start as int));
    if start >= s.len() {
        return None;
    }
    let mut acc: u64 = 0;
    let mut i: usize = start;
    while i < s.len()
        invariant
            start <= i <= s@.len(),
            d == s@.skip(start as int),
            d == (if s@.len() > 0 && s@[0] == '+' {
                s@.drop_first()
            } else {
                s@
            }),
            d.len() > 0,
            acc == digits_value(d.take(i - start)),
            acc <= max,
            forall|j: int| 0 <= j < i - start ==> #[trigger] is_digit(d[j]),
        decreases s@.len() - i,
    {
        let c = s[i];
        if !('0' <= c && c <= '9') {
            assert(!is_digit(d[i - start]));
            assert(!all_digits(d));
            return None;
        }
        let dv = (c as u32 - '0' as u32) as u64;
        assert(d.take(i - start + 1).drop_last() =~= d.take(i - start));
        assert(d.take(i - start + 1).last() == c);
        assert(digits_value(d.take(i - start + 1)) == acc * 10 + dv);
        if dv > max || acc > (max - dv) / 10 {
            proof {
                if dv <= max {
                    assert(acc * 10 + dv > max) by (nonlinear_arith)
                        requires
                            acc > (max - dv) / 10,
                            dv <= max,
                    ;
                }
            }
            // value so far already exceeds max
            proof {
                if all_digits(d) {
                    lemma_digits_value_grows(d, i - start + 1);
                }
            }
            return None;
        }
        proof {
            assert(acc * 10 + dv <= max) by (nonlinear_arith)
                requires
                    acc <= (max - dv) / 10,
                    dv <= max,
            ;
        }
        acc = acc * 10 + dv;
        i += 1;
    }
    assert(d.take(d.len() as int) =~= d);
    Some(acc)
}

/// End of the run of whitespace that starts at `i`.
pub open spec fn ws_end_from(s: Seq<char>, i: int) -> int
    decreases s.len() - i,
{
    if 0 <= i < s.len() && is_ws(s[i]) {
        ws_end_from(s, i + 1)
    } else {
        i
    }
}

/// Start of the run of whitespace that ends just before `j`.
pub open spec fn ws_start_back(s: Seq<char>, j: int) -> int
    decreases j,
{
    if 0 < j <= s.len() && is_ws(s[j - 1]) {
        ws_start_back(s, j - 1)
    } else {
        j
    }
}

/// End of the run of non-whitespace that starts at `i`.
pub open spec fn word_end_from(s: Seq<char>, i: int) -> int
    decreases s.len() - i,
{
    if 0 <= i < s.len() && !is_ws(s[i]) {
        word_end_from(s, i + 1)
    } else {
        i
    }
}

pub proof fn lemma_ws_end_bounds(s: Seq<char>, i: int)
    requires
        0 <= i <= s.len(),
    ensures
        i <= ws_end_from(s, i) <= s.len(),
        ws_end_from(s, i) == s.len() || !is_ws(s[ws_end_from(s, i)]),
        forall|k: int| i <= k < ws_end_from(s, i) ==> is_ws(#[trigger] s[k]),
    decreases s.len() - i,
{
    if i < s.len() && is_ws(s[i]) {
        lemma_ws_end_bounds(s, i + 1);
    }
}

pub proof fn lemma_word_end_bounds(s: Seq<char>, i: int)
    requires
        0 <= i <= s.len(),
    ensures
        i <= word_end_from(s, i) <= s.len(),
        word_end_from(s, i) == s.len() || is_ws(s[word_end_from(s, i)]),
        forall|k: int| i <= k < word_end_from(s, i) ==> !is_ws(#[trigger] s[k]),
    decreases s.len() - i,
{
    if i < s.len() && !is_ws(s[i]) {
        lemma_word_end_bounds(s, i + 1);
    }
}

pub proof fn lemma_ws_start_bounds(s: Seq<char>, j: int)
    requires
        0 <= j <= s.len(),
    ensures
        0 <= ws_start_back(s, j) <= j,
        ws_start_back(s, j) == 0 || !is_ws(s[ws_start_back(s, j) - 1]),
        forall|k: int| ws_start_back(s, j) <= k < j ==> is_ws(#[trigger] s[k]),
    decreases j,
{
    if 0 < j && is_ws(s[j - 1]) {
        lemma_ws_start_bounds(s, j - 1);
    }
}

/// `str::trim_start`: leading whitespace removed.
pub open spec fn trim_start_spec(s: Seq<char>) -> Seq<char> {
    s.subrange(ws_end_from(s, 0), s.len() as int)
}

/// `str::trim_end`: trailing whitespace removed.
pub open spec fn trim_end_spec(s: Seq<char>) -> Seq<char> {
    s.subrange(0, ws_start_back(s, s.len() as int))
}

/// `str::trim`: whitespace removed from both ends.
pub open spec fn trim_spec(s: Seq<char>) -> Seq<char> {
    trim_end_spec(trim_start_spec(s))
}

pub fn trim_start(s: &[char]) -> (r: &[char])
    ensures
        r@ == trim_start_spec(s@),
{
    let mut i: usize = 0;
    while i < s.len() && is_whitespace(s[i])
        invariant
            0 <= i <= s@.len(),
            ws_end_from(s@, 0) == ws_end_from(s@, i as int),
        decreases s@.len() - i,
    {
        i += 1;
    }
    proof {
        lemma_ws_end_bounds(s@, 0);
    }
    &s[i..s.len()]
}

pub fn trim_end(s: &[char]) -> (r: &[char])
    ensures
        r@ == trim_end_spec(s@),
{
    let mut j: usize = s.len();
    while j > 0 && is_whitespace(s[j - 1])
        invariant
            0 <= j <= s@.len(),
            ws_start_back(s@, s@.len() as int) == ws_start_back(s@, j as int),
        decreases j,
    {
        j -= 1;
    }
    &s[0..j]
}

pub fn trim(s: &[char]) -> (r: &[char])
    ensures
        r@ == trim_spec(s@),
{
    trim_end(trim_start(s))
}

/// First place at or after `i` where `c` occurs.
pub open spec fn find_from(s: Seq<char>, c: char, i: int) -> Option<int>
    decreases s.len() - i,
{
    if i < 0 || i >= s.len() {
        None
    } else if s[i] == c {
        Some(i)
    } else {
        find_from(s, c, i + 1)
    }
}

/// `str::find` with a `char`, counted in characters.
pub open spec fn find_spec(s: Seq<char>, c: char) -> Option<int> {
    find_from(s, c, 0)
}

pub proof fn lemma_find_from(s: Seq<char>, c: char, i: int)
    requires
        0 <= i,
    ensures
        match find_from(s, c, i) {
            Some(k) => i <= k < s.len() && s[k] == c && forall|j: int| i <= j < k ==> s[j] != c,
            None => forall|j: int| i <= j < s.len() ==> s[j] != c,
        },
    decreases s.len() - i,
{
    if i < s.len() && s[i] != c {
        lemma_find_from(s, c, i + 1);
    }
}

pub fn find_char(s: &[char], c: char) -> (r: Option<usize>)
    ensures
        match r {
            Some(k) => find_spec(s@, c) == Some(k as int),
            None => find_spec(s@, c) is None,
        },
{
    let mut i: usize = 0;
    while i < s.len()
        invariant
            0 <= i <= s@.len(),
            find_spec(s@, c) == find_from(s@, c, i as int),
        decreases s@.len() - i,
    {
        if s[i] == c {
            return Some(i);
        }
        i += 1;
    }
    None
}

/// Last place before `j` where `c` occurs.
pub open spec fn rfind_before(s: Seq<char>, c: char, j: int) -> Option<int>
    decreases j,
{
    if j <= 0 || j > s.len() {
        None
    } else if s[j - 1] == c {
        Some(j - 1)
    } else {
        rfind_before(s, c, j - 1)
    }
}

/// `str::rfind` with a `char`, counted in characters.
pub open spec fn rfind_spec(s: Seq<char>, c: char) -> Option<int> {
    rfind_before(s, c, s.len() as int)
}

pub fn rfind_char(s: &[char], c: char) -> (r: Option<usize>)
    ensures
        match r {
            Some(k) => rfind_spec(s@, c) == Some(k as int),
            None => rfind_spec(s@, c) is None,
        },
{
    let mut j: usize = s.len();
    while j > 0
        invariant
            0 <= j <= s@.len(),
            rfind_spec(s@, c) == rfind_before(s@, c, j as int),
        decreases j,
    {
        if s[j - 1] == c {
            return Some(j - 1);
        }
        j -= 1;
    }
    None
}

/// `p` occurs in `s` starting at `i`.
pub open spec fn matches_at(s: Seq<char>, p: Seq<char>, i: int) -> bool {
    0 <= i && i + p.len() <= s.len() && s.subrange(i, i + p.len()) == p
}

/// First place at or after `i` where `p` occurs.
pub open spec fn find_pat_from(s: Seq<char>, p: Seq<char>, i: int) -> Option<int>
    decreases s.len() + 1 - i,
{
    if i < 0 || i + p.len() > s.len() {
        None
    } else if matches_at(s, p, i) {
        Some(i)
    } else {
        find_pat_from(s, p, i + 1)
    }
}

/// `str::find` with a string pattern, counted in characters.
pub open spec fn find_pat_spec(s: Seq<char>, p: Seq<char>) -> Option<int> {
    find_pat_from(s, p, 0)
}

/// Last place at or before `i` where `p` occurs.
pub open spec fn rfind_pat_from(s: Seq<char>, p: Seq<char>, i: int) -> Option<int>
    decreases i + 1,
{
    if i < 0 {
        None
    } else if matches_at(s, p, i) {
        Some(i)
    } else {
        rfind_pat_from(s, p, i - 1)
    }
}

/// `str::rfind` with a string pattern, counted in characters.
pub open spec fn rfind_pat_spec(s: Seq<char>, p: Seq<char>) -> Option<int> {
    rfind_pat_from(s, p, s.len() - p.len())
}

/// Does `p` occur in `s` at `i`?
pub fn matches_at_exec(s: &[char], p: &[char], i: usize) -> (r: bool)
    ensures
        r == matches_at(s@, p@, i as int),
{
    if i > s.len() || p.len() > s.len() - i {
        return false;
    }
    let end = i + p.len();
    let mut k: usize = 0;
    while k < p.len()
        invariant
            0 <= k <= p@.len(),
            end == i + p@.len(),
            end <= s@.len(),
            forall|m: int| 0 <= m < k ==> s@[i + m] == p@[m],
        decreases p@.len() - k,
    {
        if s[i + k] != p[k] {
            assert(s@.subrange(i as int, i + p@.len())[k as int] != p@[k as int]);
            return false;
        }
        k += 1;
    }
    assert(s@.subrange(i as int, i + p@.len()) =~= p@);
    true
}

pub fn find_pat(s: &[char], p: &[char]) -> (r: Option<usize>)
    ensures
        match r {
            Some(k) => find_pat_spec(s@, p@) == Some(k as int),
            None => find_pat_spec(s@, p@) is None,
        },
{
    if p.len() > s.len() {
        return None;
    }
    let last = s.len() - p.len();
    let mut i: usize = 0;
    loop
        invariant
            0 <= i <= last,
            last + p@.len() == s@.len(),
            find_pat_spec(s@, p@) == find_pat_from(s@, p@, i as int),
        decreases last - i,
    {
        if matches_at_exec(s, p, i) {
            return Some(i);
        }
        if i == last {
            assert(find_pat_from(s@, p@, i + 1) is None);
            return None;
        }
        i += 1;
    }
}

pub fn rfind_pat(s: &[char], p: &[char]) -> (r: Option<usize>)
    ensures
        match r {
            Some(k) => rfind_pat_spec(s@, p@) == Some(k as int),
            None => rfind_pat_spec(s@, p@) is None,
        },
{
    if p.len() > s.len() {
        return None;
    }
    let mut i: usize = s.len() - p.len();
    loop
        invariant
            0 <= i <= s@.len() - p@.len(),
            rfind_pat_spec(s@, p@) == rfind_pat_from(s@, p@, i as int),
        decreases i,
    {
        if matches_at_exec(s, p, i) {
            return Some(i);
        }
        if i == 0 {
            assert(rfind_pat_from(s@, p@, -1) is None);
            return None;
        }
        i -= 1;
    }
}

/// `str::starts_with` with a string pattern.
pub fn starts_with(s: &[char], p: &[char]) -> (r: bool)
    ensures
        r == matches_at(s@, p@, 0),
{
    matches_at_exec(s, p, 0)
}

/// Character-wise equality.
pub fn eq_chars(a: &[char], b: &[char]) -> (r: bool)
    ensures
        r == (a@ == b@),
{
    if a.len() != b.len() {
        return false;
    }
    let r = matches_at_exec(a, b, 0);
    proof {
        if r {
            assert(a@.subrange(0, b@.len() as int) =~= a@);
        } else {
            if a@ == b@ {
                assert(a@.subrange(0, b@.len() as int) =~= a@);
            }
        }
    }
    r
}

/// `str::split_once` with a `char`.
pub open spec fn split_once_spec(s: Seq<char>, c: char) -> Option<(Seq<char>, Seq<char>)> {
    match find_spec(s, c) {
        Some(i) => Some((s.take(i), s.skip(i + 1))),
        None => None,
    }
}

pub fn split_once(s: &[char], c: char) -> (r: Option<(&[char], &[char])>)
    ensures
        match split_once_spec(s@, c) {
            Some((a, b)) => r matches Some((x, y)) && x@ == a && y@ == b,
            None => r is None,
        },
{
    match find_char(s, c) {
        Some(i) => {
            proof {
                lemma_find_from(s@, c, 0);
            }
            assert(i < s@.len());
            let n = s.len();
            assert(i < n);
            Some((&s[0..i], &s[i + 1..n]))
        },
        None => None,
    }
}

/// The first piece of `str::split(c)`: everything before the first `c`.
pub open spec fn first_piece_spec(s: Seq<char>, c: char) -> Seq<char> {
    match find_spec(s, c) {
        Some(i) => s.take(i),
        None => s,
    }
}

pub fn first_piece(s: &[char], c: char) -> (r: &[char])
    ensures
        r@ == first_piece_spec(s@, c),
{
    match find_char(s, c) {
        Some(i) => {
            proof {
                lemma_find_from(s@, c, 0);
            }
            &s[0..i]
        },
        None => s,
    }
}

/// First place at or after `i` where `c` occurs.
pub fn find_char_from(s: &[char], c: char, i: usize) -> (r: Option<usize>)
    ensures
        match r {
            Some(k) => find_from(s@, c, i as int) == Some(k as int),
            None => find_from(s@, c, i as int) is None,
        },
{
    let mut k: usize = i;
    while k < s.len()
        invariant
            i <= k,
            find_from(s@, c, i as int) == find_from(s@, c, k as int),
        decreases s@.len() - k,
    {
        if s[k] == c {
            return Some(k);
        }
        k += 1;
    }
    None
}

pub fn all_ascii_digits(s: &[char]) -> (r: bool)
    ensures
        r == all_digits(s@),
{
    let mut i: usize = 0;
    while i < s.len()
        invariant
            0 <= i <= s@.len(),
            forall|j: int| 0 <= j < i ==> #[trigger] is_digit(s@[j]),
        decreases s@.len() - i,
    {
        if !('0' <= s[i] && s[i] <= '9') {
            assert(!is_digit(s@[i as int]));
            return false;
        }
        i += 1;
    }
    true
}

/// A line with the `\r` of a `\r\n` ending removed.
pub open spec fn strip_cr(x: Seq<char>) -> Seq<char> {
    if x.len() > 0 && x.last() == '\r' {
        x.drop_last()
    } else {
        x
    }
}

/// `str::lines` from place `i` on: split after each `\n`, which is dropped
/// along with a `\r` just before it; a final `\n` starts no empty line.
pub open spec fn lines_from(s: Seq<char>, i: int) -> Seq<Seq<char>>
    decreases s.len() - i,
{
    if i < 0 || i >= s.len() {
        seq![]
    } else {
        match find_from(s, '\n', i) {
            Some(e) => {
                proof {
                    lemma_find_from(s, '\n', i);
                }
                seq![strip_cr(s.subrange(i, e))] + lines_from(s, e + 1)
            },
            None => seq![s.subrange(i, s.len() as int)],
        }
    }
}

/// `str::lines`.
pub open spec fn lines_spec(s: Seq<char>) -> Seq<Seq<char>> {
    lines_from(s, 0)
}

/// The lines of `s`, as `str::lines` gives them.
pub fn split_lines(s: &[char]) -> (r: Vec<Vec<char>>)
    ensures
        r@.len() == lines_spec(s@).len(),
        forall|k: int| 0 <= k < r@.len() ==> #[trigger] r@[k]@ == lines_spec(s@)[k],
{
    let mut out: Vec<Vec<char>> = Vec::new();
    let mut i: usize = 0;
    while i < s.len()
        invariant
            0 <= i <= s@.len(),
            out@.len() + lines_from(s@, i as int).len() == lines_spec(s@).len(),
            forall|k: int| 0 <= k < out@.len() ==> #[trigger] out@[k]@ == lines_spec(s@)[k],
            forall|k: int|
                0 <= k < lines_from(s@, i as int).len() ==> #[trigger] lines_from(s@, i as int)[k]
                    == lines_spec(s@)[out@.len() + k],
        decreases s@.len() - i,
    {
        let ghost rest = lines_from(s@, i as int);
        proof {
            lemma_find_from(s@, '\n', i as int);
        }
        match find_char_from(s, '\n', i) {
            Some(e) => {
                let mut piece: Vec<char> = Vec::new();
                let mut end = e;
                if end > i && s[end - 1] == '\r' {
                    end = end - 1;
                }
                let mut j: usize = i;
                while j < end
                    invariant
                        i <= j <= end <= e < s@.len(),
                        piece@ =~= s@.subrange(i as int, j as int),
                    decreases end - j,
                {
                    piece.push(s[j]);
                    j += 1;
                }
                assert(piece@ =~= strip_cr(s@.subrange(i as int, e as int)));
                assert(rest[0] == strip_cr(s@.subrange(i as int, e as int)));
                assert(rest == seq![strip_cr(s@.subrange(i as int, e as int))] + lines_from(
                    s@,
                    e + 1,
                ));
                let ghost old_len = out@.len();
                out.push(piece);
                i = e + 1;
                assert forall|k: int| 0 <= k < lines_from(s@, i as int).len() implies #[trigger] lines_from(
                    s@,
                    i as int,
                )[k] == lines_spec(s@)[out@.len() + k] by {
                    assert(lines_from(s@, i as int)[k] == rest[k + 1]);
                }
            },
            None => {
                let mut piece: Vec<char> = Vec::new();
                let mut j: usize = i;
                while j < s.len()
                    invariant
                        i <= j <= s@.len(),
                        piece@ =~= s@.subrange(i as int, j as int),
                    decreases s@.len() - j,
                {
                    piece.push(s[j]);
                    j += 1;
                }
                assert(rest[0] == s@.subrange(i as int, s@.len() as int));
                out.push(piece);
                i = s.len();
            },
        }
    }
    out
}

/// Lines joined with `\n` between them.
pub open spec fn join_lines(ts: Seq<Seq<char>>) -> Seq<char>
    decreases ts.len(),
{
    if ts.len() == 0 {
        seq![]
    } else if ts.len() == 1 {
        ts[0]
    } else {
        join_lines(ts.drop_last()) + seq!['\n'] + ts.last()
    }
}

pub proof fn lemma_rfind_pat_bound(s: Seq<char>, p: Seq<char>, i: int)
    ensures
        rfind_pat_from(s, p, i) matches Some(k) ==> matches_at(s, p, k),
    decreases i + 1,
{
    if i >= 0 && !matches_at(s, p, i) {
        lemma_rfind_pat_bound(s, p, i - 1);
    }
}

pub proof fn lemma_find_pat_bound(s: Seq<char>, p: Seq<char>, i: int)
    ensures
        find_pat_from(s, p, i) matches Some(k) ==> matches_at(s, p, k),
    decreases s.len() + 1 - i,
{
    if i >= 0 && i + p.len() <= s.len() && !matches_at(s, p, i) {
        lemma_find_pat_bound(s, p, i + 1);
    }
}

/// The ASCII digit for `d < 10`.
pub open spec fn digit_char(d: nat) -> char {
    ((d + 48) as u32) as char
}

/// `n` written in decimal, as `format!("{n}")` writes it.
pub open spec fn decimal(n: nat) -> Seq<char>
    decreases n,
{
    if n < 10 {
        seq![digit_char(n)]
    } else {
        decimal(n / 10).push(digit_char(n % 10))
    }
}

/// The ASCII digit for `d < 10`.
pub fn digit_of(d: u8) -> (c: char)
    requires
        d < 10,
    ensures
        c == digit_char(d as nat),
{
    match d {
        0 => '0',
        1 => '1',
        2 => '2',
        3 => '3',
        4 => '4',
        5 => '5',
        6 => '6',
        7 => '7',
        8 => '8',
        _ => '9',
    }
}

/// Append `n` in decimal.
pub fn push_decimal(out: &mut Vec<char>, n: u64)
    ensures
        final(out)@ == old(out)@ + decimal(n as nat),
    decreases n,
{
    if n >= 10 {
        push_decimal(out, n / 10);
    }
    let c = digit_of((n % 10) as u8);
    out.push(c);
    assert(out@ =~= old(out)@ + decimal(n as nat));
}

/// Append the characters of `s`.
pub fn push_str(out: &mut Vec<char>, s: &str)
    ensures
        final(out)@ == old(out)@ + s@,
{
    let c = chars_of(s);
    push_chars(out, c.as_slice());
}

/// Append the characters `c`.
pub fn push_chars(out: &mut Vec<char>, c: &[char])
    ensures
        final(out)@ == old(out)@ + c@,
{
    let ghost before = out@;
    let mut i: usize = 0;
    while i < c.len()
        invariant
            0 <= i <= c@.len(),
            out@ =~= before + c@.take(i as int),
        decreases c@.len() - i,
    {
        out.push(c[i]);
        i += 1;
    }
    assert(c@.take(c@.len() as int) =~= c@);
}

/// The pieces `str::split_whitespace` yields from place `i` on.
pub open spec fn words_from(s: Seq<char>, i: int) -> Seq<Seq<char>>
    decreases s.len() - i,
{
    if i < 0 || i > s.len() {
        seq![]
    } else {
        let a = ws_end_from(s, i);
        if a >= s.len() || a < i {
            seq![]
        } else {
            let b = word_end_from(s, a);
            if b <= a || b > s.len() {
                seq![]
            } else {
                seq![s.subrange(a, b)] + words_from(s, b)
            }
        }
    }
}

/// `str::split_whitespace`.
pub open spec fn words_spec(s: Seq<char>) -> Seq<Seq<char>> {
    words_from(s, 0)
}

/// Piece `n` (from 0) of `str::split(c)`, if there are that many.
pub open spec fn nth_piece_spec(x: Seq<char>, c: char, n: nat) -> Option<Seq<char>>
    decreases n,
{
    if n == 0 {
        Some(first_piece_spec(x, c))
    } else {
        match find_spec(x, c) {
            None => None,
            Some(i) => nth_piece_spec(x.skip(i + 1), c, (n - 1) as nat),
        }
    }
}

pub fn nth_piece(x: &[char], c: char, n: usize) -> (r: Option<&[char]>)
    ensures
        match nth_piece_spec(x@, c, n as nat) {
            Some(p) => r matches Some(q) && q@ == p,
            None => r is None,
        },
    decreases n,
{
    if n == 0 {
        return Some(first_piece(x, c));
    }
    match find_char(x, c) {
        None => None,
        Some(i) => {
            proof {
                lemma_find_from(x@, c, 0);
            }
            let len = x.len();
            nth_piece(&x[i + 1..len], c, n - 1)
        },
    }
}

/// All the pieces of `str::split(c)`.
pub open spec fn split_spec(x: Seq<char>, c: char) -> Seq<Seq<char>>
    decreases x.len(),
{
    match find_spec(x, c) {
        None => seq![x],
        Some(i) => {
            proof {
                lemma_find_from(x, c, 0);
            }
            seq![x.take(i)] + split_spec(x.skip(i + 1), c)
        },
    }
}

/// The pieces of `str::split(c)`.
pub fn split_all(x: &[char], c: char) -> (r: Vec<Vec<char>>)
    ensures
        r@.len() == split_spec(x@, c).len(),
        forall|k: int| 0 <= k < r@.len() ==> #[trigger] r@[k]@ == split_spec(x@, c)[k],
    decreases x@.len(),
{
    match find_char(x, c) {
        None => {
            let mut v: Vec<Vec<char>> = Vec::new();
            let mut p: Vec<char> = Vec::new();
            push_chars(&mut p, x);
            v.push(p);
            v
        },
        Some(i) => {
            proof {
                lemma_find_from(x@, c, 0);
            }
            let len = x.len();
            let rest = split_all(&x[i + 1..len], c);
            let mut head: Vec<char> = Vec::new();
            push_chars(&mut head, &x[0..i]);
            let mut v: Vec<Vec<char>> = Vec::new();
            v.push(head);
            let mut k: usize = 0;
            let ghost tail = split_spec(x@.skip(i + 1), c);
            assert(x@.skip(i + 1) == x@.subrange(i + 1, len as int));
            while k < rest.len()
                invariant
                    0 <= k <= rest@.len(),
                    rest@.len() == tail.len(),
                    forall|j: int| 0 <= j < rest@.len() ==> #[trigger] rest@[j]@ == tail[j],
                    v@.len() == k + 1,
                    v@[0]@ == x@.take(i as int),
                    forall|j: int| 1 <= j < v@.len() ==> #[trigger] v@[j]@ == tail[j - 1],
                decreases rest@.len() - k,
            {
                let mut p: Vec<char> = Vec::new();
                push_chars(&mut p, rest[k].as_slice());
                v.push(p);
                k += 1;
            }
            assert(split_spec(x@, c) == seq![x@.take(i as int)] + tail);
            v
        },
    }
}

/// The pieces of `str::split_whitespace`.
pub fn split_words(x: &[char]) -> (r: Vec<Vec<char>>)
    ensures
        r@.len() == words_spec(x@).len(),
        forall|k: int| 0 <= k < r@.len() ==> #[trigger] r@[k]@ == words_spec(x@)[k],
{
    let n = x.len();
    let mut out: Vec<Vec<char>> = Vec::new();
    let mut i: usize = 0;
    while i < n
        invariant
            0 <= i <= n,
            n == x@.len(),
            out@.len() + words_from(x@, i as int).len() == words_spec(x@).len(),
            forall|k: int| 0 <= k < out@.len() ==> #[trigger] out@[k]@ == words_spec(x@)[k],
            forall|k: int|
                0 <= k < words_from(x@, i as int).len() ==> #[trigger] words_from(x@, i as int)[k]
                    == words_spec(x@)[out@.len() + k],
        ensures
            words_from(x@, i as int) == Seq::<Seq<char>>::empty(),
        decreases n - i,
    {
        let mut a = i;
        while a < n && is_whitespace(x[a])
            invariant
                i <= a <= n,
                n == x@.len(),
                ws_end_from(x@, i as int) == ws_end_from(x@, a as int),
            decreases n - a,
        {
            a += 1;
        }
        if a >= n {
            assert(words_from(x@, i as int) == Seq::<Seq<char>>::empty());
            break;
        }
        let mut b = a;
        while b < n && !is_whitespace(x[b])
            invariant
                a <= b <= n,
                n == x@.len(),
                word_end_from(x@, a as int) == word_end_from(x@, b as int),
            decreases n - b,
        {
            b += 1;
        }
        proof {
            lemma_ws_end_bounds(x@, i as int);
            lemma_word_end_bounds(x@, a as int);
            assert(ws_end_from(x@, a as int) == a);
            assert(word_end_from(x@, b as int) == b);
            let w = x@.subrange(a as int, b as int);
            assert(words_from(x@, i as int) == seq![w] + words_from(x@, b as int));
            assert forall|k: int| 0 <= k < words_from(x@, b as int).len() implies #[trigger] words_from(
                x@,
                b as int,
            )[k] == words_spec(x@)[out@.len() + 1 + k] by {
                assert(words_from(x@, i as int)[k + 1] == words_from(x@, b as int)[k]);
            }
            assert(words_from(x@, i as int)[0] == w);
        }
        let mut word: Vec<char> = Vec::new();
        push_chars(&mut word, &x[a..b]);
        out.push(word);
        i = b;
    }
    out
}

/// The pieces joined with `sep` between each two.
pub open spec fn joined_with(ws: Seq<Seq<char>>, sep: Seq<char>) -> Seq<char>
    decreases ws.len(),
{
    if ws.len() == 0 {
        Seq::empty()
    } else if ws.len() == 1 {
        ws[0]
    } else {
        joined_with(ws.drop_last(), sep) + sep + ws.last()
    }
}

/// `parts.join(sep)`.
pub fn join_with(parts: &[String], sep: &str) -> (r: String)
    ensures
        r@ == joined_with(parts@.map_values(|w: String| w@), sep@),
{
    let ghost ws = parts@.map_values(|w: String| w@);
    let sc = chars_of(sep);
    let mut out: Vec<char> = Vec::new();
    let mut i: usize = 0;
    while i < parts.len()
        invariant
            ws == parts@.map_values(|w: String| w@),
            sc@ == sep@,
            i <= parts@.len(),
            out@ == joined_with(ws.take(i as int), sep@),
        decreases parts@.len() - i,
    {
        if i > 0 {
            push_chars(&mut out, sc.as_slice());
        }
        let w = chars_of(parts[i].as_str());
        push_chars(&mut out, w.as_slice());
        proof {
            assert(ws.take(i + 1).drop_last() =~= ws.take(i as int));
            assert(ws[i as int] == parts@[i as int]@);
            if i == 0 {
                assert(out@ =~= joined_with(ws.take(1), sep@));
            } else {
                assert(out@ =~= joined_with(ws.take(i + 1), sep@));
            }
        }
        i += 1;
    }
    assert(ws.take(parts@.len() as int) =~= ws);
    string_from(out.as_slice())
}

} // verus!
