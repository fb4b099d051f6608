//! Terminal capability decisions: cell size, multiplexer detection, and the
//! parsers for the replies terminals send to capability queries.
//!
//! The queries themselves (raw tty, ioctl, environment) are made by the
//! program; what they return is handed in here.
use vstd::prelude::*;
use vstd::utf8::{decode_utf8, valid_utf8};
use crate::text::{
    chars_of, find_char, find_pat, lemma_find_pat_bound, lemma_rfind_pat_bound, find_pat_spec, find_spec, first_piece, first_piece_spec,
    matches_at, parse_uint, parse_uint_spec, rfind_pat, rfind_pat_spec, trim, trim_spec,
};
use crate::theme::{lower_ascii_str, to_ascii_lower};

verus! {

/// Where a cell size came from. Sixel needs the real cell size to scale an
/// image correctly, and a wrong value overflows the reserved area -- which
/// inside a multiplexer means painting over other panes. So the source is
/// tracked, and `auto` mode only enables sixel when it is trustworthy.
#[derive(Clone, Copy, Debug, PartialEq, Eq, Structural)]
pub enum CellSource {
    /// Set explicitly in the config.
    Config,
    /// Measured by drawing a probe image and reading the cursor back.
    Calibrated,
    /// The terminal answered a CSI 16 t query. Good for the aspect ratio,
    /// not for absolute scale. Never trusted on its own.
    Query,
    /// Derived from the tty window size. Unreliable under multiplexers.
    Ioctl,
    /// Nothing usable; a conventional guess.
    Fallback,
}

impl CellSource {
    pub open spec fn trustworthy(self) -> bool {
        self == CellSource::Config || self == CellSource::Calibrated
    }

    /// Only a definitive answer justifies drawing pixel graphics unasked:
    /// a pinned value or a measurement.
    pub fn is_trustworthy(self) -> (r: bool)
        ensures
            r == self.trustworthy(),
    {
        match self {
            CellSource::Config | CellSource::Calibrated => true,
            _ => false,
        }
    }
}

/// The conventional guess when nothing better is known.
pub fn fallback_cell() -> (r: (u16, u16))
    ensures
        r == (8u16, 16u16),
{
    (8, 16)
}

/// A cell narrower than 4px or wider than 32px, shorter than 8px or taller
/// than 64px is not a real font metric, and neither is a height-to-width
/// ratio outside 1.2..=3.5.
pub open spec fn plausible_spec(cw: u16, ch: u16) -> bool {
    &&& 4 <= cw <= 32
    &&& 8 <= ch <= 64
    &&& 10 * ch >= 12 * cw
    &&& 10 * ch <= 35 * cw
}

/// The ratio bounds are compared exactly in integers: for these widths no
/// two distinct ratios are closer than 1/1024, far more than the rounding of
/// a single-precision quotient, so the outcome is the same as comparing
/// `ch as f32 / cw as f32` against `1.2..=3.5`.
pub fn plausible(cw: u16, ch: u16) -> (r: bool)
    ensures
        r == plausible_spec(cw, ch),
{
    if !(4 <= cw && cw <= 32) || !(8 <= ch && ch <= 64) {
        return false;
    }
    let c = ch as u32;
    let w = cw as u32;
    10 * c >= 12 * w && 10 * c <= 35 * w
}

/// Resolve the cell size, preferring the most reliable source available:
/// a positive configured size, then a plausible query reply, then a
/// plausible size from the tty window, then the fallback.
pub open spec fn detect_cell_size_spec(
    config: Option<(u16, u16)>,
    queried: Option<(u16, u16)>,
    ioctl: Option<(u16, u16)>,
) -> ((u16, u16), CellSource) {
    if config matches Some((w, h)) && w > 0 && h > 0 {
        (config.unwrap(), CellSource::Config)
    } else if queried matches Some((w, h)) && plausible_spec(w, h) {
        (queried.unwrap(), CellSource::Query)
    } else if ioctl matches Some((w, h)) && plausible_spec(w, h) {
        (ioctl.unwrap(), CellSource::Ioctl)
    } else {
        ((8, 16), CellSource::Fallback)
    }
}

/// `queried` is the terminal's answer to `CSI 16 t`, `ioctl` the size
/// derived from the tty window, each `None` when unavailable.
pub fn detect_cell_size(
    config: Option<(u16, u16)>,
    queried: Option<(u16, u16)>,
    ioctl: Option<(u16, u16)>,
) -> (r: ((u16, u16), CellSource))
    ensures
        r == detect_cell_size_spec(config, queried, ioctl),
{
    if let Some((w, h)) = config {
        if w > 0 && h > 0 {
            return ((w, h), CellSource::Config);
        }
    }
    if let Some((w, h)) = queried {
        if plausible(w, h) {
            return ((w, h), CellSource::Query);
        }
    }
    if let Some((w, h)) = ioctl {
        if plausible(w, h) {
            return ((w, h), CellSource::Ioctl);
        }
    }
    (fallback_cell(), CellSource::Fallback)
}

/// Whatever the sources say, the size that comes back is plausible, or a
/// positive size the user pinned.
pub proof fn law_detected_size_is_usable(
    config: Option<(u16, u16)>,
    queried: Option<(u16, u16)>,
    ioctl: Option<(u16, u16)>,
)
    ensures
        ({
            let (size, src) = detect_cell_size_spec(config, queried, ioctl);
            if src == CellSource::Config {
                size.0 > 0 && size.1 > 0
            } else {
                plausible_spec(size.0, size.1)
            }
        }),
{
}

/// Calls `std::str::from_utf8`: claimed to succeed exactly when the bytes
/// are valid UTF-8, and then to hold the characters they encode.
#[verifier::external_body]
fn str_from_utf8(bytes: &[u8]) -> (r: Option<&str>)
    ensures
        r is Some <==> valid_utf8(bytes@),
        r matches Some(s) ==> s@ == decode_utf8(bytes@),
{
    std::str::from_utf8(bytes).ok()
}

/// `ESC [`, the control sequence introducer.
pub open spec fn csi() -> Seq<char> {
    seq!['\u{1b}', '[']
}

/// `ESC [ 6 ;`, the start of a cell-size report.
pub open spec fn cell_report_head() -> Seq<char> {
    seq!['\u{1b}', '[', '6', ';']
}

/// The row of the last `CSI <row> ; <col> R` cursor report in `s`.
pub open spec fn cursor_row_of(s: Seq<char>) -> Option<u16> {
    match rfind_pat_spec(s, csi()) {
        None => None,
        Some(start) => {
            let body = s.skip(start + 2);
            match find_spec(body, 'R') {
                None => None,
                Some(end) => match parse_uint_spec(
                    trim_spec(first_piece_spec(body.take(end), ';')),
                    0xffff,
                ) {
                    Some(v) => Some(v as u16),
                    None => None,
                },
            }
        },
    }
}

pub open spec fn parse_cursor_row_spec(bytes: Seq<u8>) -> Option<u16> {
    if valid_utf8(bytes) {
        cursor_row_of(decode_utf8(bytes))
    } else {
        None
    }
}

/// The row a `CSI 6 n` query was answered with; the last report wins if
/// several arrived.
pub fn parse_cursor_row(bytes: &[u8]) -> (r: Option<u16>)
    ensures
        r == parse_cursor_row_spec(bytes@),
{
    let s = match str_from_utf8(bytes) {
        Some(s) => s,
        None => return None,
    };
    let c = chars_of(s);
    let pat: [char; 2] = ['\u{1b}', '['];
    assert(pat@ == csi());
    let start = match rfind_pat(c.as_slice(), pat.as_slice()) {
        Some(i) => i,
        None => return None,
    };
    proof {
        lemma_rfind_pat_bound(c@, csi(), c@.len() - 2);
        assert(csi().len() == 2);
        assert(rfind_pat_spec(c@, csi()) == Some(start as int));
        assert(matches_at(c@, csi(), start as int));
    }
    let body = &c[start + 2..c.len()];
    let end = match find_char(body, 'R') {
        Some(e) => e,
        None => return None,
    };
    proof {
        crate::text::lemma_find_from(body@, 'R', 0);
    }
    let head = first_piece(&body[0..end], ';');
    match parse_uint(trim(head), 0xffff) {
        Some(v) => Some(v as u16),
        None => None,
    }
}

/// The second piece of `str::split(';')`, if there is one.
pub open spec fn second_piece_spec(x: Seq<char>) -> Option<Seq<char>> {
    match find_spec(x, ';') {
        None => None,
        Some(i) => Some(first_piece_spec(x.skip(i + 1), ';')),
    }
}

/// `(width, height)` of the first `CSI 6 ; <height> ; <width> t` report.
pub open spec fn cell_report_of(s: Seq<char>) -> Option<(u16, u16)> {
    match find_pat_spec(s, cell_report_head()) {
        None => None,
        Some(start) => {
            let body = s.skip(start + 4);
            match find_spec(body, 't') {
                None => None,
                Some(end) => {
                    let fields = body.take(end);
                    match (
                        parse_uint_spec(trim_spec(first_piece_spec(fields, ';')), 0xffff),
                        second_piece_spec(fields),
                    ) {
                        (Some(h), Some(w_text)) => match parse_uint_spec(trim_spec(w_text), 0xffff) {
                            Some(w) => if w == 0 || h == 0 {
                                None
                            } else {
                                Some((w as u16, h as u16))
                            },
                            None => None,
                        },
                        _ => None,
                    }
                },
            }
        },
    }
}

pub open spec fn parse_cell_report_spec(bytes: Seq<u8>) -> Option<(u16, u16)> {
    if valid_utf8(bytes) {
        cell_report_of(decode_utf8(bytes))
    } else {
        None
    }
}

/// Parse `CSI 6 ; <height> ; <width> t`, even amid other input, into
/// `(width, height)`. A zero size is no answer.
pub fn parse_cell_report(bytes: &[u8]) -> (r: Option<(u16, u16)>)
    ensures
        r == parse_cell_report_spec(bytes@),
{
    let s = match str_from_utf8(bytes) {
        Some(s) => s,
        None => return None,
    };
    let c = chars_of(s);
    let pat: [char; 4] = ['\u{1b}', '[', '6', ';'];
    assert(pat@ == cell_report_head());
    let start = match find_pat(c.as_slice(), pat.as_slice()) {
        Some(i) => i,
        None => return None,
    };
    proof {
        lemma_find_pat_bound(c@, cell_report_head(), 0);
        assert(cell_report_head().len() == 4);
        assert(find_pat_spec(c@, cell_report_head()) == Some(start as int));
        assert(matches_at(c@, cell_report_head(), start as int));
        assert(start + 4 <= c@.len());
    }
    let body = &c[start + 4..c.len()];
    let end = match find_char(body, 't') {
        Some(e) => e,
        None => return None,
    };
    proof {
        crate::text::lemma_find_from(body@, 't', 0);
    }
    let fields = &body[0..end];
    let h_text = first_piece(fields, ';');
    let height = match parse_uint(trim(h_text), 0xffff) {
        Some(v) => v,
        None => return None,
    };
    let semi = match find_char(fields, ';') {
        Some(i) => i,
        None => return None,
    };
    proof {
        crate::text::lemma_find_from(fields@, ';', 0);
    }
    let w_text = first_piece(&fields[semi + 1..fields.len()], ';');
    let width = match parse_uint(trim(w_text), 0xffff) {
        Some(v) => v,
        None => return None,
    };
    if width == 0 || height == 0 {
        return None;
    }
    Some((width as u16, height as u16))
}

/// `haystack.contains(needle)` for text.
pub open spec fn contains_seq(haystack: Seq<char>, needle: Seq<char>) -> bool {
    find_pat_spec(haystack, needle) is Some
}

fn contains_str(haystack: &[char], needle: &str) -> (r: bool)
    ensures
        r == contains_seq(haystack@, needle@),
{
    let n = chars_of(needle);
    find_pat(haystack, n.as_slice()).is_some()
}

fn lowered(s: &str) -> (r: Vec<char>)
    ensures
        r@ == lower_ascii_str(s@),
{
    let c = chars_of(s);
    let mut out: Vec<char> = Vec::new();
    let mut i: usize = 0;
    while i < c.len()
        invariant
            0 <= i <= c@.len(),
            c@ == s@,
            out@ =~= lower_ascii_str(c@.take(i as int)),
        decreases c@.len() - i,
    {
        out.push(to_ascii_lower(c[i]));
        i += 1;
    }
    assert(c@.take(c@.len() as int) =~= c@);
    out
}

/// Name of the terminal multiplexer in use, from `$ZELLIJ` and `$TMUX`
/// being set and from `$TERM`.
pub open spec fn multiplexer_spec(zellij_set: bool, tmux_set: bool, term: Seq<char>) -> Option<
    Seq<char>,
> {
    if zellij_set {
        Some("zellij"@)
    } else if tmux_set {
        Some("tmux"@)
    } else if matches_at(term, "screen"@, 0) || matches_at(term, "tmux"@, 0) {
        Some("screen/tmux"@)
    } else {
        None
    }
}

pub fn multiplexer(zellij_set: bool, tmux_set: bool, term: &str) -> (r: Option<&'static str>)
    ensures
        match multiplexer_spec(zellij_set, tmux_set, term@) {
            Some(n) => r matches Some(m) && m@ == n,
            None => r is None,
        },
{
    if zellij_set {
        return Some("zellij");
    }
    if tmux_set {
        return Some("tmux");
    }
    let t = chars_of(term);
    let screen = chars_of("screen");
    let tmux = chars_of("tmux");
    if crate::text::starts_with(t.as_slice(), screen.as_slice()) || crate::text::starts_with(
        t.as_slice(),
        tmux.as_slice(),
    ) {
        return Some("screen/tmux");
    }
    None
}

/// Whether this terminal is known to render sixel, from `$TERM_PROGRAM`
/// and `$TERM` (both compared lowercased).
pub open spec fn supports_sixel_spec(term_program: Option<Seq<char>>, term: Seq<char>) -> bool {
    let by_program = match term_program {
        Some(p) => {
            let p = lower_ascii_str(p);
            contains_seq(p, "wezterm"@) || contains_seq(p, "mlterm"@) || contains_seq(p, "contour"@)
                || contains_seq(p, "iterm.app"@)
        },
        None => false,
    };
    let t = lower_ascii_str(term);
    by_program || contains_seq(t, "sixel"@) || contains_seq(t, "foot"@) || contains_seq(
        t,
        "mlterm"@,
    ) || contains_seq(t, "yaft"@) || contains_seq(t, "contour"@)
}

pub fn terminal_supports_sixel(term_program: Option<&str>, term: &str) -> (r: bool)
    ensures
        r == supports_sixel_spec(
            match term_program {
                Some(p) => Some(p@),
                None => None,
            },
            term@,
        ),
{
    if let Some(p) = term_program {
        let p = lowered(p);
        if contains_str(p.as_slice(), "wezterm") || contains_str(p.as_slice(), "mlterm")
            || contains_str(p.as_slice(), "contour") || contains_str(p.as_slice(), "iterm.app") {
            return true;
        }
    }
    let t = lowered(term);
    contains_str(t.as_slice(), "sixel") || contains_str(t.as_slice(), "foot") || contains_str(
        t.as_slice(),
        "mlterm",
    ) || contains_str(t.as_slice(), "yaft") || contains_str(t.as_slice(), "contour")
}

/// Should `auto` draw sixel here? Only on a terminal that renders it, with
/// a trustworthy cell size, and under a multiplexer only when the user
/// pinned the size themselves.
pub open spec fn sixel_recommended_spec(
    source: CellSource,
    terminal_ok: bool,
    in_multiplexer: bool,
) -> bool {
    if !terminal_ok || !source.trustworthy() {
        false
    } else if in_multiplexer {
        source == CellSource::Config
    } else {
        true
    }
}

pub fn sixel_recommended(source: CellSource, terminal_ok: bool, multiplexer: Option<&str>) -> (r:
    bool)
    ensures
        r == sixel_recommended_spec(source, terminal_ok, multiplexer is Some),
{
    if !terminal_ok || !source.is_trustworthy() {
        return false;
    }
    match multiplexer {
        Some(_) => source == CellSource::Config,
        None => true,
    }
}

/// A guessed or merely reported size never enables sixel, multiplexer or
/// not; under a multiplexer only a pinned size does.
pub proof fn law_sixel_needs_a_trusted_size(
    source: CellSource,
    terminal_ok: bool,
    in_multiplexer: bool,
)
    ensures
        (source == CellSource::Fallback || source == CellSource::Ioctl || source
            == CellSource::Query) ==> !sixel_recommended_spec(source, terminal_ok, in_multiplexer),
        in_multiplexer && sixel_recommended_spec(source, terminal_ok, in_multiplexer) ==> source
            == CellSource::Config,
{
}

} // verus!
