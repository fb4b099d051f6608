//! The track view's text and proportions: its panel title, the hint shown
//! while nothing plays, how many visualizer bars fit, and how wide the
//! progress bar is.
use vstd::prelude::*;
use crate::text::chars_of;

verus! {

broadcast use vstd::string::group_string_axioms;

/// The track panel's title: whether something plays, and whether it is
/// paused.
pub open spec fn track_title_spec(playing: bool, paused: bool) -> Seq<char> {
    if paused && playing {
        "paused"@
    } else if playing {
        "now playing"@
    } else {
        "track"@
    }
}

/// The track panel's title.
pub fn track_title(playing: bool, paused: bool) -> (r: &'static str)
    ensures
        r@ == track_title_spec(playing, paused),
{
    if paused && playing {
        "paused"
    } else if playing {
        "now playing"
    } else {
        "track"
    }
}

/// What the track view suggests while nothing plays: the library only
/// when signed in.
pub open spec fn splash_hint_spec(authed: bool) -> Seq<char> {
    if authed {
        "2 for your library  \u{b7}  / to search  \u{b7}  esc for the menu"@
    } else {
        "/ to search  \u{b7}  `ytkew --auth cookie` for your library"@
    }
}

/// The hint shown while nothing plays.
pub fn splash_hint(authed: bool) -> (r: &'static str)
    ensures
        r@ == splash_hint_spec(authed),
{
    if authed {
        "2 for your library  \u{b7}  / to search  \u{b7}  esc for the menu"
    } else {
        "/ to search  \u{b7}  `ytkew --auth cookie` for your library"
    }
}

/// What the library pane says when it has no rows.
pub open spec fn library_empty_spec(authed: bool) -> Seq<char> {
    if authed {
        "library is empty"@
    } else {
        "sign in to see your library: `ytkew --auth cookie`"@
    }
}

/// The empty library's message.
pub fn library_empty_message(authed: bool) -> (r: &'static str)
    ensures
        r@ == library_empty_spec(authed),
{
    if authed {
        "library is empty"
    } else {
        "sign in to see your library: `ytkew --auth cookie`"
    }
}

/// Visualizer bars for a pane `width` wide: the configured bar width, but
/// no wider than a fortieth of the pane, so wide panes get a finer
/// spectrum rather than chunkier bars; and how many such bars fit.
pub open spec fn visualizer_bars_spec(configured: u16, width: u16) -> (u16, usize) {
    let want: int = if configured > 1 {
        configured as int
    } else {
        1
    };
    let cap: int = if width / 40 > 1 {
        (width / 40) as int
    } else {
        1
    };
    let bar_w: int = if want < cap {
        want
    } else {
        cap
    };
    (bar_w as u16, ((width as int) / bar_w) as usize)
}

/// The visualizer's bar width and bar count.
pub fn visualizer_bars(configured: u16, width: u16) -> (r: (u16, usize))
    ensures
        r == visualizer_bars_spec(configured, width),
{
    let want: u16 = if configured > 1 {
        configured
    } else {
        1
    };
    let cap: u16 = if width / 40 > 1 {
        width / 40
    } else {
        1
    };
    let bar_w = if want < cap {
        want
    } else {
        cap
    };
    (bar_w, (width / bar_w) as usize)
}

/// The progress bar between the elapsed and total times, a space either
/// side: what the row leaves, or nothing when that is under four columns
/// and the times alone say more.
pub open spec fn progress_width_spec(width: u16, left: Seq<char>, right: Seq<char>) -> Option<usize> {
    let labels = left.len() + right.len() + 2;
    let bar: int = if width >= labels {
        width - labels
    } else {
        0
    };
    if bar < 4 {
        None
    } else {
        Some(bar as usize)
    }
}

/// The width of the progress bar for these clock labels.
pub fn progress_width(width: u16, left: &str, right: &str) -> (r: Option<usize>)
    ensures
        r == progress_width_spec(width, left@, right@),
{
    let l = chars_of(left).len();
    let rr = chars_of(right).len();
    let w = width as usize;
    let bar: usize = if l <= w && rr <= w - l && 2 <= w - l - rr {
        w - l - rr - 2
    } else {
        0
    };
    if bar < 4 {
        None
    } else {
        Some(bar)
    }
}

} // verus!
