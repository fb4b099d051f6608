//! The string work on tracks: watch URLs, display names, clock readouts,
//! thumbnail URLs, search queries and which radio tracks to append. The track record itself carries a floating-point duration
//! and lives with the program.
use vstd::prelude::*;
use crate::text::{
    chars_of, decimal, eq_chars, push_chars, push_decimal, push_str, rfind_char, rfind_spec, split_all,
    split_spec, string_from, trim, trim_spec,
};

verus! {

/// `https://music.youtube.com/watch?v=<id>`.
pub fn watch_url(video_id: &str) -> (r: String)
    ensures
        r@ == "https://music.youtube.com/watch?v="@ + video_id@,
{
    let mut out: Vec<char> = Vec::new();
    push_str(&mut out, "https://music.youtube.com/watch?v=");
    push_str(&mut out, video_id);
    string_from(out.as_slice())
}

/// "Artist - Title", the form kew uses for window titles and notifications;
/// just the title when there is no artist.
pub fn display_name(artist: &str, title: &str) -> (r: String)
    ensures
        artist@.len() == 0 ==> r@ == title@,
        artist@.len() > 0 ==> r@ == artist@ + " - "@ + title@,
{
    let mut out: Vec<char> = Vec::new();
    if artist.is_empty() {
        push_str(&mut out, title);
    } else {
        push_str(&mut out, artist);
        push_str(&mut out, " - ");
        push_str(&mut out, title);
    }
    string_from(out.as_slice())
}

/// `n` in decimal, padded with a leading zero to two digits.
pub open spec fn two_digits(n: nat) -> Seq<char> {
    if n < 10 {
        seq!['0'] + crate::text::decimal(n)
    } else {
        crate::text::decimal(n)
    }
}

/// A whole number of seconds as `m:ss`, or `h:mm:ss` from an hour up.
pub open spec fn clock_spec(total: nat) -> Seq<char> {
    let h = total / 3600;
    let m = (total / 60) % 60;
    let s = total % 60;
    if h > 0 {
        decimal(h) + seq![':'] + two_digits(m) + seq![':'] + two_digits(s)
    } else {
        decimal(m) + seq![':'] + two_digits(s)
    }
}

fn push_two_digits(out: &mut Vec<char>, n: u64)
    ensures
        final(out)@ == old(out)@ + two_digits(n as nat),
{
    if n < 10 {
        out.push('0');
    }
    push_decimal(out, n);
    assert(final(out)@ =~= old(out)@ + two_digits(n as nat));
}

/// The clock readout for a whole number of seconds.
pub fn format_clock(total: u64) -> (r: String)
    ensures
        r@ == clock_spec(total as nat),
{
    let h = total / 3600;
    let m = (total / 60) % 60;
    let s = total % 60;
    let mut out: Vec<char> = Vec::new();
    if h > 0 {
        push_decimal(&mut out, h);
        out.push(':');
        push_two_digits(&mut out, m);
        out.push(':');
        push_two_digits(&mut out, s);
    } else {
        push_decimal(&mut out, m);
        out.push(':');
        push_two_digits(&mut out, s);
    }
    assert(out@ =~= clock_spec(total as nat));
    string_from(out.as_slice())
}

/// A size segment of a thumbnail directive: `w<n>` or `h<n>`.
pub open spec fn is_size_segment(seg: Seq<char>) -> bool {
    seg.len() > 0 && (seg[0] == 'w' || seg[0] == 'h')
}

/// `-seg` for every segment, in order.
pub open spec fn dashed(segs: Seq<Seq<char>>) -> Seq<char>
    decreases segs.len(),
{
    if segs.len() == 0 {
        seq![]
    } else {
        dashed(segs.drop_last()) + seq!['-'] + segs.last()
    }
}

/// YouTube thumbnail URLs end in a size directive like `=w60-h60-l90-rj`.
/// Rewriting the size parts asks for a `size`-pixel image; a URL whose last
/// `=` is not followed by `w` is left alone.
pub open spec fn upscale_spec(url: Seq<char>, size: u32) -> Seq<char> {
    match rfind_spec(url, '=') {
        None => url,
        Some(eq) => {
            let rest = url.skip(eq + 1);
            if rest.len() == 0 || rest[0] != 'w' {
                url
            } else {
                let tail = split_spec(rest, '-').filter(|seg: Seq<char>| !is_size_segment(seg));
                url.take(eq) + "=w"@ + decimal(size as nat) + "-h"@ + decimal(size as nat) + dashed(
                    tail,
                )
            }
        },
    }
}

/// Search results only ever offer 60px and 120px thumbnails, which is
/// useless for a terminal cover, but rewriting the directive gets the
/// full-size image.
pub fn upscale_thumbnail(url: &str, size: u32) -> (r: String)
    ensures
        r@ == upscale_spec(url@, size),
{
    let u = chars_of(url);
    let eq = match rfind_char(u.as_slice(), '=') {
        Some(i) => i,
        None => return string_from(u.as_slice()),
    };
    proof {
        lemma_rfind_bound(u@, '=', u@.len() as int);
    }
    let len = u.len();
    let rest = &u[eq + 1..len];
    assert(rest@ == u@.skip(eq + 1));
    if rest.len() == 0 || rest[0] != 'w' {
        return string_from(u.as_slice());
    }
    let segs = split_all(rest, '-');
    let ghost pieces = split_spec(rest@, '-');
    let ghost keep = |seg: Seq<char>| !is_size_segment(seg);
    let mut out: Vec<char> = Vec::new();
    push_chars(&mut out, &u[0..eq]);
    push_str(&mut out, "=w");
    push_decimal(&mut out, size as u64);
    push_str(&mut out, "-h");
    push_decimal(&mut out, size as u64);
    let ghost head = out@;
    let mut k: usize = 0;
    assert(pieces.take(0).filter(keep) =~= Seq::<Seq<char>>::empty()) by {
        reveal_with_fuel(Seq::filter, 1);
    }
    while k < segs.len()
        invariant
            0 <= k <= segs@.len(),
            segs@.len() == pieces.len(),
            forall|j: int| 0 <= j < segs@.len() ==> #[trigger] segs@[j]@ == pieces[j],
            keep == (|seg: Seq<char>| !is_size_segment(seg)),
            out@ == head + dashed(pieces.take(k as int).filter(keep)),
        decreases segs@.len() - k,
    {
        let seg = &segs[k];
        let sized = seg.len() > 0 && (seg[0] == 'w' || seg[0] == 'h');
        proof {
            pieces.take(k as int).lemma_filter_push(pieces[k as int], keep);
            assert(pieces.take(k + 1) =~= pieces.take(k as int).push(pieces[k as int]));
        }
        if !sized {
            let ghost before = out@;
            out.push('-');
            push_chars(&mut out, seg.as_slice());
            proof {
                let f = pieces.take(k as int).filter(keep);
                assert(f.push(pieces[k as int]).drop_last() =~= f);
                assert(out@ =~= head + dashed(f.push(pieces[k as int])));
            }
        }
        k += 1;
    }
    assert(pieces.take(pieces.len() as int) =~= pieces);
    string_from(out.as_slice())
}

proof fn lemma_rfind_bound(s: Seq<char>, c: char, j: int)
    ensures
        crate::text::rfind_before(s, c, j) matches Some(k) ==> 0 <= k < j && k < s.len() && s[k]
            == c,
    decreases j,
{
    if 0 < j <= s.len() && s[j - 1] != c {
        lemma_rfind_bound(s, c, j - 1);
    }
}

/// A thumbnail the API offers: its pixel size and URL.
pub struct Thumb {
    pub width: u64,
    pub height: u64,
    pub url: String,
}

/// A thumbnail's pixel count.
pub open spec fn area(t: Thumb) -> int {
    t.width * t.height
}

/// `j` is the last of the largest thumbnails.
pub open spec fn is_last_largest(thumbs: Seq<Thumb>, j: int) -> bool {
    &&& 0 <= j < thumbs.len()
    &&& forall|k: int| 0 <= k < thumbs.len() ==> area(#[trigger] thumbs[k]) <= area(thumbs[j])
    &&& forall|k: int| j < k < thumbs.len() ==> area(#[trigger] thumbs[k]) < area(thumbs[j])
}

/// The largest thumbnail on offer (the last of equals), its URL rewritten to
/// ask for a `size`-pixel image; `None` when none is offered.
pub fn best_thumbnail(thumbs: &[Thumb], size: u32) -> (r: Option<String>)
    requires
        forall|k: int| 0 <= k < thumbs@.len() ==> area(#[trigger] thumbs@[k]) <= u64::MAX,
    ensures
        thumbs@.len() == 0 <==> r is None,
        r matches Some(u) ==> exists|j: int|
            is_last_largest(thumbs@, j) && u@ == upscale_spec(#[trigger] thumbs@[j].url@, size),
{
    if thumbs.len() == 0 {
        return None;
    }
    let mut best: usize = 0;
    let mut best_area: u64 = thumbs[0].width * thumbs[0].height;
    let mut i: usize = 1;
    while i < thumbs.len()
        invariant
            1 <= i <= thumbs@.len(),
            best < i,
            best_area == area(thumbs@[best as int]),
            forall|k: int| 0 <= k < thumbs@.len() ==> area(#[trigger] thumbs@[k]) <= u64::MAX,
            forall|k: int| 0 <= k < i ==> area(#[trigger] thumbs@[k]) <= best_area,
            forall|k: int| best < k < i ==> area(#[trigger] thumbs@[k]) < best_area,
        decreases thumbs@.len() - i,
    {
        assert(area(thumbs@[i as int]) <= u64::MAX);
        let a = thumbs[i].width * thumbs[i].height;
        if a >= best_area {
            best = i;
            best_area = a;
        }
        i += 1;
    }
    let u = upscale_thumbnail(thumbs[best].url.as_str(), size);
    assert(is_last_largest(thumbs@, best as int));
    Some(u)
}

/// Video ids as plain text.
pub open spec fn id_views(ids: Seq<String>) -> Seq<Seq<char>> {
    ids.map_values(|s: String| s@)
}

/// The positions, among the first `k` incoming ids, of those not among
/// `existing`, in order.
pub open spec fn fresh_upto(existing: Seq<Seq<char>>, incoming: Seq<Seq<char>>, k: int) -> Seq<usize>
    decreases k,
{
    if k <= 0 {
        Seq::empty()
    } else if existing.contains(incoming[k - 1]) {
        fresh_upto(existing, incoming, k - 1)
    } else {
        fresh_upto(existing, incoming, k - 1).push((k - 1) as usize)
    }
}

/// Which of the `incoming` tracks, by video id, are not already among
/// `existing`: their positions, in order. A radio mix appended behind the
/// playing track skips what the queue already holds.
pub fn fresh_positions(existing: &[String], incoming: &[String]) -> (r: Vec<usize>)
    ensures
        r@ == fresh_upto(id_views(existing@), id_views(incoming@), incoming@.len() as int),
{
    let ghost ev = id_views(existing@);
    let ghost iv = id_views(incoming@);
    let mut r: Vec<usize> = Vec::new();
    let mut j: usize = 0;
    while j < incoming.len()
        invariant
            ev == id_views(existing@),
            iv == id_views(incoming@),
            j <= incoming@.len(),
            r@ == fresh_upto(ev, iv, j as int),
        decreases incoming@.len() - j,
    {
        let id = chars_of(incoming[j].as_str());
        let mut seen = false;
        let mut e: usize = 0;
        while e < existing.len()
            invariant
                ev == id_views(existing@),
                e <= existing@.len(),
                id@ == iv[j as int],
                j < iv.len(),
                seen == ev.take(e as int).contains(id@),
            decreases existing@.len() - e,
        {
            let other = chars_of(existing[e].as_str());
            assert(ev[e as int] == existing@[e as int]@);
            if eq_chars(other.as_slice(), id.as_slice()) {
                seen = true;
                assert(ev.take(e + 1)[e as int] == id@);
            }
            proof {
                if !seen {
                    assert forall|x: int| 0 <= x < e + 1 implies #[trigger] ev.take(e + 1)[x] != id@ by {
                        if x < e {
                            assert(ev.take(e + 1)[x] == ev.take(e as int)[x]);
                        }
                    }
                } else if ev.take(e as int).contains(id@) {
                    let w = choose|w: int| 0 <= w < e && ev.take(e as int)[w] == id@;
                    assert(ev.take(e + 1)[w] == id@);
                }
            }
            e += 1;
        }
        assert(ev.take(ev.len() as int) =~= ev);
        if !seen {
            r.push(j);
        }
        j += 1;
    }
    r
}


/// Which tracks of a radio mix seeded by `seed` to append: none once the
/// seed is no longer the track playing, so a late reply cannot hijack a new
/// selection; otherwise those the queue does not hold yet.
pub open spec fn radio_tail_spec(
    current: Option<Seq<char>>,
    seed: Seq<char>,
    existing: Seq<Seq<char>>,
    incoming: Seq<Seq<char>>,
) -> Seq<usize> {
    if current == Some(seed) {
        fresh_upto(existing, incoming, incoming.len() as int)
    } else {
        Seq::empty()
    }
}

/// The positions among `incoming` of the radio tracks to append.
pub fn radio_tail(current: Option<&str>, seed: &str, existing: &[String], incoming: &[String]) -> (r: Vec<usize>)
    ensures
        r@ == radio_tail_spec(
            match current {
                Some(c) => Some(c@),
                None => None,
            },
            seed@,
            id_views(existing@),
            id_views(incoming@),
        ),
{
    let still = match current {
        Some(c) => {
            let a = chars_of(c);
            let b = chars_of(seed);
            eq_chars(a.as_slice(), b.as_slice())
        },
        None => false,
    };
    if still {
        fresh_positions(existing, incoming)
    } else {
        Vec::new()
    }
}

/// A search query as typed: trimmed, and none when nothing is left.
pub open spec fn search_query_spec(input: Seq<char>) -> Option<Seq<char>> {
    let q = trim_spec(input);
    if q.len() == 0 {
        None
    } else {
        Some(q)
    }
}

/// The query to run for what was typed.
pub fn search_query(input: &str) -> (r: Option<String>)
    ensures
        match r {
            Some(q) => search_query_spec(input@) == Some(q@),
            None => search_query_spec(input@) is None,
        },
{
    let c = chars_of(input);
    let t = trim(c.as_slice());
    if t.len() == 0 {
        None
    } else {
        Some(string_from(t))
    }
}

/// What to ask suggestions for: the trimmed input once it has two
/// characters; fewer say too little to be worth a request.
pub open spec fn suggestion_query_spec(input: Seq<char>) -> Option<Seq<char>> {
    let q = trim_spec(input);
    if q.len() < 2 {
        None
    } else {
        Some(q)
    }
}

/// The query to fetch suggestions for, if any.
pub fn suggestion_query(input: &str) -> (r: Option<String>)
    ensures
        match r {
            Some(q) => suggestion_query_spec(input@) == Some(q@),
            None => suggestion_query_spec(input@) is None,
        },
{
    let c = chars_of(input);
    let t = trim(c.as_slice());
    if t.len() < 2 {
        None
    } else {
        Some(string_from(t))
    }
}

/// Whether suggestions fetched for `query` still fit what is typed: a
/// reply for an older input is dropped.
pub fn suggestions_current(query: &str, input: &str) -> (r: bool)
    ensures
        r == (query@ == trim_spec(input@)),
{
    let c = chars_of(input);
    let t = trim(c.as_slice());
    let q = chars_of(query);
    eq_chars(q.as_slice(), t)
}

} // verus!
