//! Lyrics: parsing, lookup, and the fallback chain.
//!
//! Pure data: the overlay reads [`Lyrics`] and renders; this module never
//! touches the screen or the network. Lookup order is LRCLIB synced, then
//! LRCLIB plain, then the YouTube Music lyrics, then "no lyrics found".
use vstd::prelude::*;
use crate::text::{
    all_ascii_digits, all_digits, digits_value, find_char_from, find_from, join_lines,
    lemma_find_from, lines_spec, parse_uint, parse_uint_spec, split_lines, split_once,
    split_once_spec, string_from, trim, trim_spec, trim_start, trim_start_spec,
};

verus! {

/// One line of lyrics. `ms` is milliseconds since track start; plain
/// (unsynced) lines all sit at 0.
#[derive(Clone, Debug, PartialEq, Eq)]
pub struct LyricLine {
    pub ms: u32,
    pub text: String,
}

impl View for LyricLine {
    type V = (u32, Seq<char>);

    open spec fn view(&self) -> (u32, Seq<char>) {
        (self.ms, self.text@)
    }
}

/// Owned lyrics for one track.
#[derive(Clone, Debug, PartialEq, Eq)]
pub struct Lyrics {
    pub lines: Vec<LyricLine>,
    pub is_synced: bool,
    /// "lrclib/synced" | "lrclib/plain" | "ytmapi" | "none".
    pub source: String,
    /// Line texts joined with `\n`, so plain consumers never need to care
    /// whether timestamps existed.
    pub raw: String,
}

/// A timed entry: milliseconds and text.
pub type Entry = (u32, Seq<char>);

pub open spec fn entries_view(ls: Seq<LyricLine>) -> Seq<Entry> {
    ls.map_values(|l: LyricLine| l@)
}

pub open spec fn texts_of(es: Seq<Entry>) -> Seq<Seq<char>> {
    es.map_values(|e: Entry| e.1)
}

/// `10^k` for the fraction digits of a timestamp.
pub open spec fn frac_scale(len: nat) -> nat {
    if len == 1 {
        100
    } else if len == 2 {
        10
    } else {
        1
    }
}

/// Milliseconds from minutes, seconds and a fraction, clamped to `u32`.
pub open spec fn total_ms(minutes: nat, seconds: nat, frac_ms: nat) -> u32 {
    let t = minutes * 60000 + seconds * 1000 + frac_ms;
    if t > u32::MAX {
        u32::MAX
    } else {
        t as u32
    }
}

/// The body of a `[mm:ss.fff]` tag in milliseconds. `mm` and `ss` are
/// decimal; the fraction, if present, has one to three digits and counts
/// tenths, hundredths or thousandths. Anything else is `None`.
pub open spec fn parse_timestamp_spec(tag: Seq<char>) -> Option<u32> {
    match split_once_spec(tag, ':') {
        None => None,
        Some((mm, rest)) => match parse_uint_spec(trim_spec(mm), u64::MAX as nat) {
            None => None,
            Some(minutes) => {
                let ss = match split_once_spec(rest, '.') {
                    Some((a, _)) => a,
                    None => rest,
                };
                let frac = match split_once_spec(rest, '.') {
                    Some((_, b)) => b,
                    None => Seq::<char>::empty(),
                };
                if ss.len() == 0 || !all_digits(ss) {
                    None
                } else {
                    match parse_uint_spec(trim_spec(ss), u64::MAX as nat) {
                        None => None,
                        Some(seconds) => if frac.len() > 0 && (frac.len() > 3 || !all_digits(
                            frac,
                        )) {
                            None
                        } else {
                            let f = if frac.len() == 0 {
                                0
                            } else {
                                digits_value(frac) * frac_scale(frac.len())
                            };
                            Some(total_ms(minutes, seconds, f))
                        },
                    }
                }
            },
        },
    }
}

/// A timestamp tag starting at place `i` of `l`: its milliseconds and the
/// place just after its closing bracket.
pub open spec fn stamp_at(l: Seq<char>, i: int) -> Option<(u32, int)> {
    if 0 <= i < l.len() && l[i] == '[' {
        match find_from(l, ']', i + 1) {
            Some(e) => match parse_timestamp_spec(l.subrange(i + 1, e)) {
                Some(ms) => Some((ms, e + 1)),
                None => None,
            },
            None => None,
        }
    } else {
        None
    }
}

/// The timestamps of the run of tags that starts at place `i`.
pub open spec fn stamps_from(l: Seq<char>, i: int) -> Seq<u32>
    decreases l.len() - i,
{
    match stamp_at(l, i) {
        Some((ms, j)) => {
            proof {
                lemma_find_from(l, ']', i + 1);
            }
            seq![ms] + stamps_from(l, j)
        },
        None => seq![],
    }
}

/// Where the text starts after the run of tags that starts at place `i`.
pub open spec fn text_start(l: Seq<char>, i: int) -> int
    decreases l.len() - i,
{
    match stamp_at(l, i) {
        Some((_, j)) => {
            proof {
                lemma_find_from(l, ']', i + 1);
            }
            text_start(l, j)
        },
        None => i,
    }
}

/// The timed entries one LRC line contributes: one per leading timestamp,
/// all carrying the trimmed text that follows the tags.
pub open spec fn line_entries(line: Seq<char>) -> Seq<Entry> {
    let t = trim_start_spec(line);
    let text = trim_spec(t.skip(text_start(t, 0)));
    stamps_from(t, 0).map_values(|ms: u32| (ms, text))
}

/// The entries of several lines, in file order.
pub open spec fn entries_of(lines: Seq<Seq<char>>) -> Seq<Entry>
    decreases lines.len(),
{
    if lines.len() == 0 {
        seq![]
    } else {
        entries_of(lines.drop_last()) + line_entries(lines.last())
    }
}

/// Every timed entry of an LRC text, in file order.
pub open spec fn lrc_entries(s: Seq<char>) -> Seq<Entry> {
    entries_of(lines_spec(s))
}

pub open spec fn sorted_by_ms(x: Seq<Entry>) -> bool {
    forall|i: int, j: int| 0 <= i <= j < x.len() ==> (#[trigger] x[i]).0 <= (#[trigger] x[j]).0
}

/// Is an entry at time `k`?
pub open spec fn ms_is(k: u32) -> spec_fn(Entry) -> bool {
    |e: Entry| e.0 == k
}

/// The entries at time `k`, in order.
pub open spec fn at_ms(x: Seq<Entry>, k: u32) -> Seq<Entry> {
    x.filter(ms_is(k))
}

/// `x` is `entries` sorted by time, with entries at the same time kept in
/// their original order (a stable sort).
pub open spec fn stable_sorted(x: Seq<Entry>, entries: Seq<Entry>) -> bool {
    &&& sorted_by_ms(x)
    &&& forall|k: u32| #[trigger] at_ms(x, k) == at_ms(entries, k)
}

/// `l` is what `parse_lrc` makes of `s`.
pub open spec fn is_lrc_parse(l: Lyrics, s: Seq<char>) -> bool {
    &&& stable_sorted(entries_view(l.lines@), lrc_entries(s))
    &&& l.is_synced == (lrc_entries(s).len() > 0)
    &&& l.source@ == "lrclib/synced"@
    &&& l.raw@ == join_lines(texts_of(entries_view(l.lines@)))
}

/// `l` is what `Lyrics::plain` makes of `text` and `source`.
pub open spec fn is_plain(l: Lyrics, text: Seq<char>, source: Seq<char>) -> bool {
    &&& entries_view(l.lines@) == lines_spec(text).map_values(|t: Seq<char>| (0u32, t))
    &&& !l.is_synced
    &&& l.source@ == source
    &&& l.raw@ == join_lines(lines_spec(text))
}

/// Index of the last line at or before `pos` in time-sorted lines.
pub open spec fn last_at_or_before(x: Seq<Entry>, pos: u32) -> Option<usize> {
    let n = x.filter(|e: Entry| e.0 <= pos).len();
    if n == 0 {
        None
    } else {
        Some((n - 1) as usize)
    }
}

fn sat_mul(a: u64, b: u64) -> (r: u64)
    ensures
        r == if a * b > u64::MAX {
            u64::MAX as int
        } else {
            a * b
        },
{
    if b != 0 && a > u64::MAX / b {
        proof {
            assert(a * b > u64::MAX) by (nonlinear_arith)
                requires
                    b != 0,
                    a > u64::MAX / b,
            ;
        }
        u64::MAX
    } else {
        proof {
            assert(a * b <= u64::MAX) by (nonlinear_arith)
                requires
                    b == 0 || a <= u64::MAX / b,
            ;
        }
        a * b
    }
}

fn sat_add(a: u64, b: u64) -> (r: u64)
    ensures
        r == if a + b > u64::MAX {
            u64::MAX as int
        } else {
            a + b
        },
{
    if a > u64::MAX - b {
        u64::MAX
    } else {
        a + b
    }
}

proof fn lemma_digits_value_small(s: Seq<char>)
    requires
        all_digits(s),
        s.len() <= 3,
    ensures
        digits_value(s) < 1000,
        s.len() <= 2 ==> digits_value(s) < 100,
        s.len() <= 1 ==> digits_value(s) < 10,
    decreases s.len(),
{
    if s.len() > 0 {
        assert(all_digits(s.drop_last()));
        assert(crate::text::is_digit(s[s.len() - 1]));
        lemma_digits_value_small(s.drop_last());
    }
}

/// Milliseconds of one `mm:ss`, `mm:ss.f`, `mm:ss.ff` or `mm:ss.fff` tag body.
pub fn parse_timestamp(tag: &[char]) -> (r: Option<u32>)
    ensures
        r == parse_timestamp_spec(tag@),
{
    let (mm, rest) = match split_once(tag, ':') {
        Some(p) => p,
        None => return None,
    };
    let minutes = match parse_uint(trim(mm), u64::MAX) {
        Some(v) => v,
        None => return None,
    };
    let (ss, frac): (&[char], &[char]) = match split_once(rest, '.') {
        Some(p) => p,
        None => (rest, &rest[0..0]),
    };
    assert(frac@ == match split_once_spec(rest@, '.') {
        Some((_, b)) => b,
        None => Seq::<char>::empty(),
    });
    if ss.len() == 0 || !all_ascii_digits(ss) {
        return None;
    }
    let seconds = match parse_uint(trim(ss), u64::MAX) {
        Some(v) => v,
        None => return None,
    };
    let frac_ms: u64 = if frac.len() == 0 {
        0
    } else {
        if frac.len() > 3 || !all_ascii_digits(frac) {
            return None;
        }
        proof {
            lemma_digits_value_small(frac@);
            assert(crate::text::is_digit(frac@[0]));
            assert(frac@[0] != '+');
        }
        let v = match parse_uint(frac, u64::MAX) {
            Some(v) => v,
            None => return None,
        };
        if frac.len() == 1 {
            v * 100
        } else if frac.len() == 2 {
            v * 10
        } else {
            v
        }
    };
    // Clamp absurd values instead of overflowing: a garbage timestamp that
    // parses should land at the end, not wrap to the start.
    let total = sat_add(sat_add(sat_mul(minutes, 60000), sat_mul(seconds, 1000)), frac_ms);
    Some(
        if total > 0xffff_ffffu64 {
            0xffff_ffffu32
        } else {
            total as u32
        },
    )
}

/// The timestamp tag starting at place `i` of `l`, if there is one.
fn stamp_at_exec(l: &[char], i: usize) -> (r: Option<(u32, usize)>)
    ensures
        r is Some <==> stamp_at(l@, i as int) is Some,
        r matches Some((ms, j)) ==> stamp_at(l@, i as int) == Some((ms, j as int)) && i < j
            <= l@.len(),
{
    if i >= l.len() || l[i] != '[' {
        return None;
    }
    let e = match find_char_from(l, ']', i + 1) {
        Some(e) => e,
        None => return None,
    };
    proof {
        lemma_find_from(l@, ']', i + 1);
    }
    let ms = match parse_timestamp(&l[i + 1..e]) {
        Some(ms) => ms,
        None => return None,
    };
    Some((ms, e + 1))
}

/// Parse one leading `[mm:ss.xx]`/`[mm:ss.xxx]`/`[mm:ss]` tag, returning the
/// timestamp in milliseconds and everything after the closing bracket,
/// trimmed. Anything else -- metadata like `[ti:title]`, garbage, a missing
/// bracket -- is `None`. Only the first tag is consumed.
pub open spec fn parse_lrc_line_spec(s: Seq<char>) -> Option<(u32, Seq<char>)> {
    let t = trim_start_spec(s);
    match stamp_at(t, 0) {
        Some((ms, j)) => Some((ms, trim_spec(t.skip(j)))),
        None => None,
    }
}

pub fn parse_lrc_line(s: &str) -> (r: Option<(u32, String)>)
    ensures
        match parse_lrc_line_spec(s@) {
            Some((ms, text)) => r matches Some((m, t)) && m == ms && t@ == text,
            None => r is None,
        },
{
    let chars = crate::text::chars_of(s);
    let t = trim_start(chars.as_slice());
    match stamp_at_exec(t, 0) {
        Some((ms, j)) => {
            let rest = trim(&t[j..t.len()]);
            Some((ms, string_from(rest)))
        },
        None => None,
    }
}

/// The leading timestamps of one line and the trimmed text after them.
fn line_parts(line: &[char]) -> (r: (Vec<u32>, Vec<char>))
    ensures
        r.0@ == stamps_from(trim_start_spec(line@), 0),
        r.1@ == trim_spec(trim_start_spec(line@).skip(text_start(trim_start_spec(line@), 0))),
{
    let t = trim_start(line);
    let mut stamps: Vec<u32> = Vec::new();
    let mut i: usize = 0;
    let mut done = false;
    while !done
        invariant
            0 <= i <= t@.len(),
            stamps@ + stamps_from(t@, i as int) == stamps_from(t@, 0),
            text_start(t@, i as int) == text_start(t@, 0),
            done ==> stamp_at(t@, i as int) is None,
        decreases t@.len() - i + (if done {
            0int
        } else {
            1int
        }),
    {
        match stamp_at_exec(t, i) {
            Some((ms, j)) => {
                proof {
                    assert(stamps_from(t@, i as int) == seq![ms] + stamps_from(t@, j as int));
                    assert(stamps@.push(ms) + stamps_from(t@, j as int) =~= stamps@ + (seq![ms]
                        + stamps_from(t@, j as int)));
                }
                stamps.push(ms);
                i = j;
            },
            None => {
                done = true;
            },
        }
    }
    assert(stamps_from(t@, i as int) == Seq::<u32>::empty());
    assert(stamps@ =~= stamps_from(t@, 0));
    let rest = trim(&t[i..t.len()]);
    let mut text: Vec<char> = Vec::new();
    let mut k: usize = 0;
    while k < rest.len()
        invariant
            0 <= k <= rest@.len(),
            text@ =~= rest@.take(k as int),
        decreases rest@.len() - k,
    {
        text.push(rest[k]);
        k += 1;
    }
    assert(rest@.take(rest@.len() as int) =~= rest@);
    (stamps, text)
}

/// Entries that are not at time `k` vanish from `at_ms(_, k)`.
proof fn lemma_at_ms_none(x: Seq<Entry>, k: u32)
    requires
        forall|i: int| 0 <= i < x.len() ==> (#[trigger] x[i]).0 != k,
    ensures
        at_ms(x, k) == Seq::<Entry>::empty(),
    decreases x.len(),
{
    reveal_with_fuel(Seq::filter, 1);
    if x.len() > 0 {
        lemma_at_ms_none(x.drop_last(), k);
        assert(at_ms(x, k) == at_ms(x.drop_last(), k));
    }
    assert(at_ms(x, k) =~= Seq::<Entry>::empty());
}

/// Inserting a new entry after every entry at or before its time, and
/// before every later one, keeps a stable sort stable.
proof fn lemma_insert_stable(x: Seq<Entry>, p: int, e: Entry, entries: Seq<Entry>)
    requires
        stable_sorted(x, entries),
        0 <= p <= x.len(),
        forall|i: int| 0 <= i < p ==> (#[trigger] x[i]).0 <= e.0,
        forall|i: int| p <= i < x.len() ==> (#[trigger] x[i]).0 > e.0,
    ensures
        stable_sorted(x.insert(p, e), entries.push(e)),
{
    let y = x.insert(p, e);
    assert(y =~= x.take(p) + seq![e] + x.skip(p));
    assert(x =~= x.take(p) + x.skip(p));
    assert forall|i: int, j: int| 0 <= i <= j < y.len() implies (#[trigger] y[i]).0 <= (
    #[trigger] y[j]).0 by {
        if i < p && j < p {
            assert(y[i] == x[i] && y[j] == x[j]);
        } else if i < p && j == p {
        } else if i < p {
            assert(y[i] == x[i] && y[j] == x[j - 1]);
        } else if i == p && j > p {
            assert(y[j] == x[j - 1]);
        } else if i > p {
            assert(y[i] == x[i - 1] && y[j] == x[j - 1]);
        }
    }
    assert forall|k: u32| #[trigger] at_ms(y, k) == at_ms(entries.push(e), k) by {
        let pred = ms_is(k);
        let a = x.take(p);
        let b = x.skip(p);
        Seq::filter_distributes_over_add(a + seq![e], b, pred);
        Seq::filter_distributes_over_add(a, seq![e], pred);
        Seq::filter_distributes_over_add(a, b, pred);
        entries.lemma_filter_push(e, pred);
        assert(at_ms(x, k) == at_ms(entries, k));
        assert(x.filter(pred) == a.filter(pred) + b.filter(pred));
        assert(y.filter(pred) == a.filter(pred) + seq![e].filter(pred) + b.filter(pred));
        reveal_with_fuel(Seq::filter, 2);
        if e.0 == k {
            assert forall|i: int| 0 <= i < b.len() implies (#[trigger] b[i]).0 != k by {
                assert(b[i] == x[p + i]);
            }
            lemma_at_ms_none(b, k);
            assert(b.filter(pred) == Seq::<Entry>::empty());
            assert(seq![e].filter(pred) =~= seq![e]);
            assert(y.filter(pred) =~= a.filter(pred).push(e));
            assert(x.filter(pred) =~= a.filter(pred));
        } else {
            assert(seq![e].filter(pred) =~= Seq::<Entry>::empty());
            assert(y.filter(pred) =~= x.filter(pred));
        }
    }
}

/// The texts of `ls` joined with `\n`.
fn join_texts(ls: &Vec<LyricLine>) -> (r: String)
    ensures
        r@ == join_lines(texts_of(entries_view(ls@))),
{
    let ghost ts = texts_of(entries_view(ls@));
    let mut out: Vec<char> = Vec::new();
    let mut i: usize = 0;
    while i < ls.len()
        invariant
            0 <= i <= ls@.len(),
            ts == texts_of(entries_view(ls@)),
            ts.len() == ls@.len(),
            out@ == join_lines(ts.take(i as int)),
        decreases ls@.len() - i,
    {
        let t = crate::text::chars_of(ls[i].text.as_str());
        assert(t@ == ts[i as int]);
        if i > 0 {
            out.push('\n');
        }
        let ghost before = out@;
        let mut k: usize = 0;
        while k < t.len()
            invariant
                0 <= k <= t@.len(),
                out@ == before + t@.take(k as int),
            decreases t@.len() - k,
        {
            out.push(t[k]);
            k += 1;
            assert(out@ =~= before + t@.take(k as int));
        }
        assert(t@.take(t@.len() as int) =~= t@);
        proof {
            let tk = ts.take(i + 1);
            assert(tk.drop_last() =~= ts.take(i as int));
            if i == 0 {
                assert(tk =~= seq![ts[0]]);
                assert(out@ =~= join_lines(tk));
            } else {
                assert(out@ =~= join_lines(tk));
            }
        }
        i += 1;
    }
    assert(ts.take(ls@.len() as int) =~= ts);
    string_from(out.as_slice())
}

impl Lyrics {
    /// Untimed text: one line per row, every `ms` set to 0.
    pub fn plain(text: String, source: &str) -> (r: Self)
        ensures
            is_plain(r, text@, source@),
    {
        let chars = crate::text::chars_of(text.as_str());
        let ls = split_lines(chars.as_slice());
        let ghost want = lines_spec(text@).map_values(|t: Seq<char>| (0u32, t));
        let mut lines: Vec<LyricLine> = Vec::new();
        let mut i: usize = 0;
        while i < ls.len()
            invariant
                0 <= i <= ls@.len(),
                ls@.len() == lines_spec(text@).len(),
                chars@ == text@,
                forall|k: int| 0 <= k < ls@.len() ==> #[trigger] ls@[k]@ == lines_spec(text@)[k],
                want == lines_spec(text@).map_values(|t: Seq<char>| (0u32, t)),
                entries_view(lines@) =~= want.take(i as int),
            decreases ls@.len() - i,
        {
            let t = string_from(ls[i].as_slice());
            assert(t@ == lines_spec(text@)[i as int]);
            let ghost before = lines@;
            lines.push(LyricLine { ms: 0, text: t });
            assert(entries_view(lines@) =~= entries_view(before).push((0u32, t@)));
            assert(want[i as int] == (0u32, t@));
            assert(want.take(i + 1) =~= want.take(i as int).push((0u32, t@)));
            i += 1;
        }
        assert(want.take(ls@.len() as int) =~= want);
        let raw = join_texts(&lines);
        assert(texts_of(entries_view(lines@)) =~= lines_spec(text@));
        Lyrics { lines, is_synced: false, source: String::from_str(source), raw }
    }

    /// Parse LRC text. Untimed lines (including `[ti:]`/`[length:]` metadata)
    /// are dropped; only timed lines survive. Empty text after a timestamp is
    /// kept -- an empty timed line still advances the highlight over an
    /// instrumental gap. Lines come out sorted by time, lines at the same time
    /// in file order, so [`Lyrics::line_for`] can binary search.
    pub fn parse_lrc(s: &str) -> (r: Self)
        ensures
            is_lrc_parse(r, s@),
    {
        let chars = crate::text::chars_of(s);
        let ls = split_lines(chars.as_slice());
        let ghost all = lines_spec(s@);
        let mut sorted: Vec<LyricLine> = Vec::new();
        let mut k: usize = 0;
        assert(all.take(0) =~= Seq::<Seq<char>>::empty());
        assert(entries_view(sorted@) =~= entries_of(all.take(0)));
        while k < ls.len()
            invariant
                0 <= k <= ls@.len(),
                ls@.len() == all.len(),
                all == lines_spec(s@),
                forall|j: int| 0 <= j < ls@.len() ==> #[trigger] ls@[j]@ == all[j],
                stable_sorted(entries_view(sorted@), entries_of(all.take(k as int))),
                sorted@.len() == entries_of(all.take(k as int)).len(),
            decreases ls@.len() - k,
        {
            let (stamps, text) = line_parts(ls[k].as_slice());
            let ghost base = entries_of(all.take(k as int));
            let ghost le = line_entries(all[k as int]);
            assert(le =~= stamps@.map_values(|ms: u32| (ms, text@)));
            let mut m: usize = 0;
            while m < stamps.len()
                invariant
                    0 <= m <= stamps@.len(),
                    le == stamps@.map_values(|ms: u32| (ms, text@)),
                    stable_sorted(entries_view(sorted@), base + le.take(m as int)),
                    sorted@.len() == base.len() + m,
                decreases stamps@.len() - m,
            {
                let ms = stamps[m];
                let ghost e: Entry = (ms, text@);
                // Find the first entry later than this one.
                let mut p: usize = 0;
                while p < sorted.len() && sorted[p].ms <= ms
                    invariant
                        0 <= p <= sorted@.len(),
                        forall|j: int| 0 <= j < p ==> (#[trigger] sorted@[j]).ms <= ms,
                    decreases sorted@.len() - p,
                {
                    p += 1;
                }
                proof {
                    let x = entries_view(sorted@);
                    assert forall|j: int| p <= j < x.len() implies (#[trigger] x[j]).0 > e.0 by {
                        assert(x[p as int].0 > ms);
                        assert(x[p as int].0 <= x[j].0);
                    }
                    assert forall|j: int| 0 <= j < p implies (#[trigger] x[j]).0 <= e.0 by {
                        assert(sorted@[j].ms <= ms);
                    }
                    lemma_insert_stable(x, p as int, e, base + le.take(m as int));
                    assert((base + le.take(m as int)).push(e) =~= base + le.take(m + 1));
                }
                let line = LyricLine { ms, text: string_from(text.as_slice()) };
                let ghost before = sorted@;
                sorted.insert(p, line);
                assert(entries_view(sorted@) =~= entries_view(before).insert(p as int, e));
                m += 1;
            }
            proof {
                assert(le.take(stamps@.len() as int) =~= le);
                assert(all.take(k + 1).drop_last() =~= all.take(k as int));
                assert(all.take(k + 1).last() == all[k as int]);
            }
            k += 1;
        }
        assert(all.take(ls@.len() as int) =~= all);
        let is_synced = sorted.len() > 0;
        let raw = join_texts(&sorted);
        Lyrics { lines: sorted, is_synced, source: String::from_str("lrclib/synced"), raw }
    }

    /// Index of the last line with `ms <= pos_ms`: the line to highlight.
    /// `None` when there are no lines or playback hasn't reached the first.
    /// Lines are expected in time order, as `parse_lrc` leaves them; on
    /// unsorted lines the answer is some valid index or `None`.
    pub fn line_for(&self, pos_ms: u32) -> (r: Option<usize>)
        ensures
            r matches Some(i) ==> i < self.lines@.len(),
            sorted_by_ms(entries_view(self.lines@)) ==> match r {
                None => self.lines@.len() == 0 || self.lines@[0].ms > pos_ms,
                Some(i) => self.lines@[i as int].ms <= pos_ms && (i + 1 == self.lines@.len()
                    || self.lines@[i + 1].ms > pos_ms),
            },
    {
        let ghost x = entries_view(self.lines@);
        let mut lo: usize = 0;
        let mut hi: usize = self.lines.len();
        while lo < hi
            invariant
                0 <= lo <= hi <= self.lines@.len(),
                x == entries_view(self.lines@),
                sorted_by_ms(x) ==> forall|j: int| 0 <= j < lo ==> (#[trigger] self.lines@[j]).ms
                    <= pos_ms,
                sorted_by_ms(x) ==> forall|j: int| hi <= j < self.lines@.len() ==> (
                #[trigger] self.lines@[j]).ms > pos_ms,
            decreases hi - lo,
        {
            let mid = lo + (hi - lo) / 2;
            if self.lines[mid].ms <= pos_ms {
                proof {
                    if sorted_by_ms(x) {
                        assert forall|j: int| 0 <= j < mid + 1 implies (
                        #[trigger] self.lines@[j]).ms <= pos_ms by {
                            assert(x[j].0 <= x[mid as int].0);
                        }
                    }
                }
                lo = mid + 1;
            } else {
                proof {
                    if sorted_by_ms(x) {
                        assert forall|j: int| mid <= j < self.lines@.len() implies (
                        #[trigger] self.lines@[j]).ms > pos_ms by {
                            assert(x[mid as int].0 <= x[j].0);
                        }
                    }
                }
                hi = mid;
            }
        }
        if lo == 0 {
            None
        } else {
            Some(lo - 1)
        }
    }
}

/// What LRCLIB answered for one track.
pub struct LrclibResponse {
    pub synced_lyrics: Option<String>,
    pub plain_lyrics: Option<String>,
    pub instrumental: bool,
}

/// Text with something other than whitespace in it.
pub open spec fn not_blank(s: Option<String>) -> bool {
    s matches Some(t) && trim_spec(t@).len() > 0
}

/// Whether a response carries synced lyrics worth using.
pub open spec fn has_synced(res: LrclibResponse) -> bool {
    not_blank(res.synced_lyrics) && lrc_entries(res.synced_lyrics.unwrap()@).len() > 0
}

fn nonblank(s: &Option<String>) -> (r: bool)
    ensures
        r == not_blank(*s),
{
    match s {
        Some(t) => {
            let c = crate::text::chars_of(t.as_str());
            trim(c.as_slice()).len() > 0
        },
        None => false,
    }
}

/// Lyrics from an LRCLIB response: synced if there are any, then plain, then
/// the instrumental marker. `None` means "try the next source".
pub fn from_lrclib(res: LrclibResponse) -> (r: Option<Lyrics>)
    ensures
        has_synced(res) ==> (r matches Some(l) && is_lrc_parse(l, res.synced_lyrics.unwrap()@)),
        !has_synced(res) && not_blank(res.plain_lyrics) ==> (r matches Some(l) && is_plain(
            l,
            res.plain_lyrics.unwrap()@,
            "lrclib/plain"@,
        )),
        !has_synced(res) && !not_blank(res.plain_lyrics) && res.instrumental ==> (r matches Some(
            l,
        ) && is_plain(l, "instrumental"@, "lrclib/plain"@)),
        !has_synced(res) && !not_blank(res.plain_lyrics) && !res.instrumental ==> r is None,
{
    if nonblank(&res.synced_lyrics) {
        match &res.synced_lyrics {
            Some(synced) => {
                let lyrics = Lyrics::parse_lrc(synced.as_str());
                if lyrics.is_synced {
                    return Some(lyrics);
                }
            },
            None => {},
        }
    }
    if nonblank(&res.plain_lyrics) {
        match res.plain_lyrics {
            Some(plain) => {
                return Some(Lyrics::plain(plain, "lrclib/plain"));
            },
            None => {},
        }
    }
    if res.instrumental {
        return Some(Lyrics::plain(String::from_str("instrumental"), "lrclib/plain"));
    }
    None
}

/// The end of the lookup chain: what LRCLIB found, else the YouTube Music
/// lyrics if they say anything, else "no lyrics found".
pub fn lyrics_or_fallback(found: Option<Lyrics>, ytm: Option<String>) -> (r: Lyrics)
    ensures
        found is Some ==> r == found.unwrap(),
        found is None && not_blank(ytm) ==> is_plain(r, ytm.unwrap()@, "ytmapi"@),
        found is None && !not_blank(ytm) ==> is_plain(r, "no lyrics found"@, "none"@),
{
    match found {
        Some(l) => l,
        None => {
            if nonblank(&ytm) {
                match ytm {
                    Some(text) => {
                        return Lyrics::plain(text, "ytmapi");
                    },
                    None => {},
                }
            }
            Lyrics::plain(String::from_str("no lyrics found"), "none")
        },
    }
}

/// A run of digits followed by `c`, which is no digit, splits there.
proof fn lemma_split_after_digits(d: Seq<char>, c: char, rest: Seq<char>)
    requires
        all_digits(d),
        !crate::text::is_digit(c),
    ensures
        split_once_spec(d + seq![c] + rest, c) == Some((d, rest)),
{
    let s = d + seq![c] + rest;
    lemma_find_from(s, c, 0);
    assert(s[d.len() as int] == c);
    assert forall|j: int| 0 <= j < d.len() implies s[j] != c by {
        assert(s[j] == d[j]);
        assert(crate::text::is_digit(d[j]));
    }
    assert(crate::text::find_spec(s, c) == Some(d.len() as int));
    assert(s.take(d.len() as int) =~= d);
    assert(s.skip(d.len() as int + 1) =~= rest);
}

/// Digits carry no whitespace to trim.
proof fn lemma_trim_digits(d: Seq<char>)
    requires
        d.len() > 0,
        all_digits(d),
    ensures
        trim_spec(d) == d,
        parse_uint_spec(trim_spec(d), u64::MAX as nat) == if digits_value(d) <= u64::MAX {
            Some(digits_value(d))
        } else {
            None
        },
{
    assert(crate::text::is_digit(d[0]));
    assert(!crate::text::is_ws(d[0]));
    assert(crate::text::ws_end_from(d, 0) == 0);
    assert(trim_start_spec(d) =~= d);
    assert(crate::text::is_digit(d[d.len() - 1]));
    assert(!crate::text::is_ws(d[d.len() - 1]));
    assert(crate::text::ws_start_back(d, d.len() as int) == d.len());
    assert(d.subrange(0, d.len() as int) =~= d);
    assert(d[0] != '+');
}

/// A tag without a `:` is no timestamp, and neither is one whose fraction
/// has more than three digits.
pub proof fn law_timestamp_rejects_malformed(tag: Seq<char>, mm: Seq<char>, ss: Seq<char>, ff: Seq<char>)
    requires
        all_digits(mm),
        all_digits(ss),
        all_digits(ff),
    ensures
        !tag.contains(':') ==> parse_timestamp_spec(tag) is None,
        ff.len() > 3 ==> parse_timestamp_spec(mm + seq![':'] + ss + seq!['.'] + ff) is None,
{
    lemma_find_from(tag, ':', 0);
    if let Some(k) = crate::text::find_spec(tag, ':') {
        assert(tag[k] == ':');
    }
    if ff.len() > 3 {
        let rest = ss + seq!['.'] + ff;
        assert(mm + seq![':'] + ss + seq!['.'] + ff =~= mm + seq![':'] + rest);
        lemma_split_after_digits(mm, ':', rest);
        lemma_split_after_digits(ss, '.', ff);
    }
}

/// A tag `mm:ss`, `mm:ss.f`, `mm:ss.ff` or `mm:ss.fff` of decimal fields
/// reads as `mm` minutes, `ss` seconds and the fraction in tenths,
/// hundredths or thousandths of a second, where the sum fits in `u32`:
/// `12:34.56` is 754560 ms.
pub proof fn law_timestamp_is_minutes_seconds_fraction(mm: Seq<char>, ss: Seq<char>, ff: Seq<char>)
    requires
        mm.len() > 0,
        ss.len() > 0,
        ff.len() <= 3,
        all_digits(mm),
        all_digits(ss),
        all_digits(ff),
        digits_value(mm) * 60000 + digits_value(ss) * 1000 + digits_value(ff) * 100 <= u32::MAX,
    ensures
        parse_timestamp_spec(mm + seq![':'] + ss) == Some(
            (digits_value(mm) * 60000 + digits_value(ss) * 1000) as u32,
        ),
        ff.len() == 1 ==> parse_timestamp_spec(mm + seq![':'] + ss + seq!['.'] + ff) == Some(
            (digits_value(mm) * 60000 + digits_value(ss) * 1000 + digits_value(ff) * 100) as u32,
        ),
        ff.len() == 2 ==> parse_timestamp_spec(mm + seq![':'] + ss + seq!['.'] + ff) == Some(
            (digits_value(mm) * 60000 + digits_value(ss) * 1000 + digits_value(ff) * 10) as u32,
        ),
        ff.len() == 3 ==> parse_timestamp_spec(mm + seq![':'] + ss + seq!['.'] + ff) == Some(
            (digits_value(mm) * 60000 + digits_value(ss) * 1000 + digits_value(ff)) as u32,
        ),
{
    let m = digits_value(mm);
    let sec = digits_value(ss);
    let f = digits_value(ff);
    assert(m * 60000 >= m && sec * 1000 >= sec && f * 100 >= f * 10 && f * 10 >= f) by (nonlinear_arith);
    lemma_trim_digits(mm);
    lemma_trim_digits(ss);
    // Without a fraction.
    lemma_split_after_digits(mm, ':', ss);
    lemma_find_from(ss, '.', 0);
    assert forall|j: int| 0 <= j < ss.len() implies ss[j] != '.' by {
        assert(crate::text::is_digit(ss[j]));
    }
    assert(split_once_spec(ss, '.') is None);
    // With one.
    if ff.len() > 0 {
        let rest = ss + seq!['.'] + ff;
        assert(mm + seq![':'] + ss + seq!['.'] + ff =~= mm + seq![':'] + rest);
        lemma_split_after_digits(mm, ':', rest);
        lemma_split_after_digits(ss, '.', ff);
    }
}

} // verus!
