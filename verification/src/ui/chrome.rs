//! The chrome around the panes: the tab strip and its rule, the status
//! corner, the now-playing bar and the footer's key hints.
use vstd::prelude::*;
use crate::queue::RepeatMode;
use crate::text::{chars_of, decimal, push_chars, push_decimal, push_str, string_from};
use crate::ui::widgets::{display_width, str_width};
use crate::ui::View;
use vstd::view::View as _;

verus! {

/// Column `x` of the rule: a gap over the active tab `[a, b)` with corners
/// turning up into it and back down out of it; an unbroken line when no tab
/// is active.
pub open spec fn rule_char(x: int, a: int, b: int) -> char {
    if a < b && x + 1 == a {
        '\u{2518}'
    } else if a < b && x == b {
        '\u{2514}'
    } else if a < b && x >= a && x < b {
        ' '
    } else {
        '\u{2500}'
    }
}

/// The rule under the tab strip, broken around the active tab so the tab
/// reads as joined to the content below it -- the same trick a browser's
/// tab bar uses. The tab's ends are clamped to the width.
pub fn tab_rule(width: usize, active_start: usize, active_end: usize) -> (r: String)
    ensures
        r@.len() == width,
        forall|x: int| 0 <= x < width ==> #[trigger] r@[x] == rule_char(
            x,
            if active_start < width { active_start as int } else { width as int },
            if active_end < width { active_end as int } else { width as int },
        ),
{
    let a = if active_start < width {
        active_start
    } else {
        width
    };
    let b = if active_end < width {
        active_end
    } else {
        width
    };
    let mut out: Vec<char> = Vec::new();
    let mut x: usize = 0;
    while x < width
        invariant
            0 <= x <= width,
            a <= width,
            b <= width,
            out@.len() == x,
            forall|i: int| 0 <= i < x ==> #[trigger] out@[i] == rule_char(i, a as int, b as int),
        decreases width - x,
    {
        let c = if a < b && x + 1 == a {
            '\u{2518}'
        } else if a < b && x == b {
            '\u{2514}'
        } else if a < b && x >= a && x < b {
            ' '
        } else {
            '\u{2500}'
        };
        out.push(c);
        x += 1;
    }
    string_from(out.as_slice())
}

/// The title each pane shows.
pub open spec fn title_spec(v: View) -> Seq<char> {
    match v {
        View::Queue => "queue"@,
        View::Library => "library"@,
        View::Track => "track"@,
        View::Search => "search"@,
        View::Help => "help"@,
        View::Lyrics => "lyrics"@,
    }
}

proof fn lemma_title_len(v: View)
    ensures
        title_spec(v).len() <= 7,
{
    reveal_strlit("queue");
    reveal_strlit("library");
    reveal_strlit("track");
    reveal_strlit("search");
    reveal_strlit("help");
    reveal_strlit("lyrics");
}

/// The panes on the tab strip: the four main ones, and Help or Lyrics
/// after them while one of those is open.
pub open spec fn strip_views(active: View) -> Seq<View> {
    seq![View::Queue, View::Library, View::Track, View::Search] + if active == View::Help
        || active == View::Lyrics {
        seq![active]
    } else {
        Seq::<View>::empty()
    }
}

/// The label of tab `i` (from 0): its number and title, padded by two
/// spaces each side.
pub open spec fn tab_label_spec(i: int, v: View) -> Seq<char> {
    "  "@ + decimal((i + 1) as nat) + " "@ + title_spec(v) + "  "@
}

/// Where tab `k` starts: after the seven-column wordmark and the tabs
/// before it.
pub open spec fn tab_start(vs: Seq<View>, k: int) -> int
    decreases k,
{
    if k <= 0 {
        7
    } else {
        tab_start(vs, k - 1) + tab_label_spec(k - 1, vs[k - 1]).len()
    }
}

/// A tab of the strip: its pane, its label and the columns it spans.
pub struct Tab {
    pub view: View,
    pub label: String,
    pub start: u16,
    pub width: u16,
}

/// The tabs of the strip while `active` is focused, left to right.
pub fn tab_strip(active: View) -> (r: Vec<Tab>)
    ensures
        r@.len() == strip_views(active).len(),
        forall|k: int|
            0 <= k < r@.len() ==> {
                &&& (#[trigger] r@[k]).view == strip_views(active)[k]
                &&& r@[k].label@ == tab_label_spec(k, strip_views(active)[k])
                &&& r@[k].start == tab_start(strip_views(active), k)
                &&& r@[k].width == tab_label_spec(k, strip_views(active)[k]).len()
            },
{
    let mut views: Vec<View> = Vec::new();
    views.push(View::Queue);
    views.push(View::Library);
    views.push(View::Track);
    views.push(View::Search);
    if active == View::Help || active == View::Lyrics {
        views.push(active);
    }
    let ghost vs = strip_views(active);
    assert(views@ =~= vs);
    let mut out: Vec<Tab> = Vec::new();
    let mut col: u16 = 7;
    let mut i: usize = 0;
    while i < views.len()
        invariant
            i <= views@.len(),
            views@ == vs,
            vs.len() <= 5,
            out@.len() == i,
            col == tab_start(vs, i as int),
            col <= 7 + 13 * i,
            forall|k: int|
                0 <= k < i ==> {
                    &&& (#[trigger] out@[k]).view == vs[k]
                    &&& out@[k].label@ == tab_label_spec(k, vs[k])
                    &&& out@[k].start == tab_start(vs, k)
                    &&& out@[k].width == tab_label_spec(k, vs[k]).len()
                },
        decreases views@.len() - i,
    {
        let v = views[i];
        let mut label: Vec<char> = Vec::new();
        push_str(&mut label, "  ");
        push_decimal(&mut label, (i + 1) as u64);
        push_str(&mut label, " ");
        push_str(&mut label, v.title());
        push_str(&mut label, "  ");
        proof {
            reveal_strlit("  ");
            reveal_strlit(" ");
            lemma_title_len(v);
            assert(decimal((i + 1) as nat).len() == 1);
            assert(label@ =~= tab_label_spec(i as int, v));
        }
        let w = label.len() as u16;
        let s = string_from(label.as_slice());
        out.push(Tab { view: v, label: s, start: col, width: w });
        col = col + w;
        i += 1;
    }
    out
}

/// The span `[start, end)` of the tab showing `v`; an empty span when no
/// tab does.
pub fn active_span(tabs: &[Tab], v: View) -> (r: (u16, u16))
    requires
        forall|k: int| 0 <= k < tabs@.len() ==> (#[trigger] tabs@[k]).start + tabs@[k].width <= u16::MAX,
    ensures
        (exists|k: int| 0 <= k < tabs@.len() && (#[trigger] tabs@[k]).view == v) ==> exists|k: int|
            0 <= k < tabs@.len() && (#[trigger] tabs@[k]).view == v && r == (
                tabs@[k].start,
                (tabs@[k].start + tabs@[k].width) as u16,
            ),
        !(exists|k: int| 0 <= k < tabs@.len() && (#[trigger] tabs@[k]).view == v) ==> r == (0u16, 0u16),
{
    let mut i: usize = 0;
    while i < tabs.len()
        invariant
            i <= tabs@.len(),
            forall|k: int| 0 <= k < tabs@.len() ==> (#[trigger] tabs@[k]).start + tabs@[k].width <= u16::MAX,
            forall|k: int| 0 <= k < i ==> (#[trigger] tabs@[k]).view != v,
        decreases tabs@.len() - i,
    {
        if tabs[i].view == v {
            return (tabs[i].start, tabs[i].start + tabs[i].width);
        }
        i += 1;
    }
    (0, 0)
}

/// How a piece of the status corner is coloured.
#[derive(Clone, Copy, Debug, PartialEq, Eq, Structural)]
pub enum Tone {
    Faint,
    Dim,
    Accent,
}

/// An integer in decimal, with a minus sign when negative.
pub open spec fn signed_decimal(v: int) -> Seq<char> {
    if v < 0 {
        "-"@ + decimal((-v) as nat)
    } else {
        decimal(v as nat)
    }
}

/// The transport indicators of the top-right corner, in order: the account
/// state when not signed in, the queue position while the queue has
/// tracks, shuffle, repeat, and the volume.
pub open spec fn status_spec(
    offline: bool,
    authed: bool,
    position: (usize, usize),
    shuffle: bool,
    repeat: RepeatMode,
    volume: i64,
) -> Seq<(Tone, Seq<char>)> {
    (if offline {
        seq![(Tone::Faint, "offline  "@)]
    } else if !authed {
        seq![(Tone::Faint, "not signed in  "@)]
    } else {
        Seq::empty()
    }) + (if position.1 > 0 {
        seq![(Tone::Dim, decimal(position.0 as nat) + "/"@ + decimal(position.1 as nat) + "  "@)]
    } else {
        Seq::empty()
    }) + (if shuffle {
        seq![(Tone::Accent, "\u{21c4} "@)]
    } else {
        Seq::empty()
    }) + (match repeat {
        RepeatMode::All => seq![(Tone::Accent, "\u{21bb} "@)],
        RepeatMode::One => seq![(Tone::Accent, "\u{21bb}1 "@)],
        RepeatMode::Off => Seq::empty(),
    }) + seq![(Tone::Dim, "vol "@ + signed_decimal(volume as int) + "% "@)]
}

/// The pieces of the status corner, each with its tone.
pub fn status_parts(
    offline: bool,
    authed: bool,
    position: (usize, usize),
    shuffle: bool,
    repeat: RepeatMode,
    volume: i64,
) -> (r: Vec<(Tone, String)>)
    ensures
        r@.len() == status_spec(offline, authed, position, shuffle, repeat, volume).len(),
        forall|k: int|
            0 <= k < r@.len() ==> (#[trigger] r@[k]).0 == status_spec(
                offline,
                authed,
                position,
                shuffle,
                repeat,
                volume,
            )[k].0 && r@[k].1@ == status_spec(offline, authed, position, shuffle, repeat, volume)[k].1,
{
    let mut out: Vec<(Tone, String)> = Vec::new();
    let ghost mut want: Seq<(Tone, Seq<char>)> = Seq::empty();
    if offline {
        out.push((Tone::Faint, "offline  ".to_string()));
        proof {
            want = want.push((Tone::Faint, "offline  "@));
        }
    } else if !authed {
        out.push((Tone::Faint, "not signed in  ".to_string()));
        proof {
            want = want.push((Tone::Faint, "not signed in  "@));
        }
    }
    if position.1 > 0 {
        let mut p: Vec<char> = Vec::new();
        push_decimal(&mut p, position.0 as u64);
        push_str(&mut p, "/");
        push_decimal(&mut p, position.1 as u64);
        push_str(&mut p, "  ");
        let ps = string_from(p.as_slice());
        out.push((Tone::Dim, ps));
        proof {
            want = want.push((Tone::Dim, decimal(position.0 as nat) + "/"@ + decimal(position.1 as nat) + "  "@));
        }
    }
    if shuffle {
        out.push((Tone::Accent, "\u{21c4} ".to_string()));
        proof {
            want = want.push((Tone::Accent, "\u{21c4} "@));
        }
    }
    match repeat {
        RepeatMode::All => {
            out.push((Tone::Accent, "\u{21bb} ".to_string()));
            proof {
                want = want.push((Tone::Accent, "\u{21bb} "@));
            }
        },
        RepeatMode::One => {
            out.push((Tone::Accent, "\u{21bb}1 ".to_string()));
            proof {
                want = want.push((Tone::Accent, "\u{21bb}1 "@));
            }
        },
        RepeatMode::Off => {},
    }
    let mut v: Vec<char> = Vec::new();
    push_str(&mut v, "vol ");
    if volume < 0 {
        push_str(&mut v, "-");
        let mag: u64 = (0i128 - volume as i128) as u64;
        push_decimal(&mut v, mag);
    } else {
        push_decimal(&mut v, volume as u64);
    }
    push_str(&mut v, "% ");
    let vs = string_from(v.as_slice());
    out.push((Tone::Dim, vs));
    proof {
        want = want.push((Tone::Dim, "vol "@ + signed_decimal(volume as int) + "% "@));
        assert(want =~= status_spec(offline, authed, position, shuffle, repeat, volume));
    }
    out
}

/// Padding that right-aligns `right` columns after `left` in `width`, when
/// both fit.
pub fn right_align_gap(left: usize, right: usize, width: usize) -> (r: Option<usize>)
    ensures
        r == if left + right < width {
            Some((width - left - right) as usize)
        } else {
            None::<usize>
        },
{
    if left < width && right < width - left {
        Some(width - left - right)
    } else {
        None
    }
}

/// The now-playing bar's label: the title, and the artist after a dash
/// when there is one.
pub open spec fn bar_label_spec(title: Seq<char>, artist: Seq<char>) -> Seq<char> {
    if artist.len() == 0 {
        title
    } else {
        title + " \u{2014} "@ + artist
    }
}

/// The now-playing bar's label.
pub fn bar_label(title: &str, artist: &str) -> (r: String)
    ensures
        r@ == bar_label_spec(title@, artist@),
{
    let a = chars_of(artist);
    let mut out = chars_of(title);
    if a.len() > 0 {
        push_str(&mut out, " \u{2014} ");
        push_chars(&mut out, a.as_slice());
    }
    string_from(out.as_slice())
}

/// How the now-playing bar divides its width: the label, the gap after
/// it, and the progress bar; `track` is where the bar starts.
#[derive(Clone, Copy, Debug, PartialEq, Eq, Structural)]
pub struct BarLayout {
    pub label_w: usize,
    pub gap: usize,
    pub bar_w: usize,
    pub track: usize,
}

/// The bar's layout in `width` columns, with `times` columns for the
/// clock and a label `label_width` wide. The label takes what it needs up
/// to three fifths of what is free; the bar takes the rest up to 48
/// columns, and what is still left goes between them.
pub open spec fn bar_layout_spec(width: u16, times: nat, label_width: nat) -> BarLayout {
    let fixed = 8 + times;
    let avail: int = if width >= fixed {
        width - fixed
    } else {
        0
    };
    let label_w: int = if label_width < avail * 3 / 5 {
        label_width as int
    } else {
        avail * 3 / 5
    };
    let rest: int = if avail >= label_w + 2 {
        avail - label_w - 2
    } else {
        0
    };
    let bar_w: int = if rest < 48 {
        rest
    } else {
        48
    };
    let gap: int = if avail >= label_w + bar_w {
        avail - label_w - bar_w
    } else {
        0
    };
    BarLayout {
        label_w: label_w as usize,
        gap: gap as usize,
        bar_w: bar_w as usize,
        track: (6 + label_w + gap) as usize,
    }
}

/// Lay out the now-playing bar for this label and clock text.
pub fn bar_layout(width: u16, times: &str, label: &str) -> (r: BarLayout)
    ensures
        r == bar_layout_spec(width, times@.len(), str_width(label@)),
{
    let t = chars_of(times);
    let lw = display_width(label);
    let w = width as usize;
    let avail: usize = if t.len() <= w && w - t.len() >= 8 {
        w - t.len() - 8
    } else {
        0
    };
    let share = avail * 3 / 5;
    let label_w = if lw < share {
        lw
    } else {
        share
    };
    let rest: usize = if avail >= label_w + 2 {
        avail - label_w - 2
    } else {
        0
    };
    let bar_w = if rest < 48 {
        rest
    } else {
        48
    };
    let gap: usize = if avail >= label_w + bar_w {
        avail - label_w - bar_w
    } else {
        0
    };
    BarLayout { label_w, gap, bar_w, track: 6 + label_w + gap }
}

/// The key hints the footer shows for a pane, as (key, what it does).
pub open spec fn hints_spec(v: View) -> Seq<(Seq<char>, Seq<char>)> {
    match v {
        View::Track => seq![
            ("space"@, "play"@),
            ("h/l"@, "skip"@),
            ("a/d"@, "seek"@),
            ("+/-"@, "vol"@),
            ("s"@, "shuffle"@),
            ("r"@, "repeat"@),
            ("m"@, "lyrics"@),
            ("esc"@, "menu"@),
        ],
        View::Queue => seq![
            ("enter"@, "play"@),
            ("j/k"@, "move"@),
            ("f/g"@, "reorder"@),
            ("del"@, "remove"@),
            ("bksp"@, "clear all"@),
            ("esc"@, "menu"@),
        ],
        View::Library => seq![
            ("enter"@, "open"@),
            ("alt+enter"@, "play all"@),
            ("j/k"@, "move"@),
            ("esc"@, "menu"@),
        ],
        View::Search => seq![
            ("enter"@, "search"@),
            ("i"@, "edit"@),
            ("j/k"@, "move"@),
            ("P"@, "play all"@),
        ],
        View::Lyrics => seq![("j/k"@, "scroll"@), ("tab"@, "back"@)],
        View::Help => seq![("tab"@, "back"@)],
    }
}

/// The footer's hints for the focused pane, rather than one line listing
/// everything, most of which does not apply where you are.
pub fn footer_hints(v: View) -> (r: Vec<(&'static str, &'static str)>)
    ensures
        r@.len() == hints_spec(v).len(),
        forall|k: int|
            0 <= k < r@.len() ==> (#[trigger] r@[k]).0@ == hints_spec(v)[k].0 && r@[k].1@
                == hints_spec(v)[k].1,
{
    match v {
        View::Track => vec![
            ("space", "play"),
            ("h/l", "skip"),
            ("a/d", "seek"),
            ("+/-", "vol"),
            ("s", "shuffle"),
            ("r", "repeat"),
            ("m", "lyrics"),
            ("esc", "menu"),
        ],
        View::Queue => vec![
            ("enter", "play"),
            ("j/k", "move"),
            ("f/g", "reorder"),
            ("del", "remove"),
            ("bksp", "clear all"),
            ("esc", "menu"),
        ],
        View::Library => vec![("enter", "open"), ("alt+enter", "play all"), ("j/k", "move"), ("esc", "menu")],
        View::Search => vec![("enter", "search"), ("i", "edit"), ("j/k", "move"), ("P", "play all")],
        View::Lyrics => vec![("j/k", "scroll"), ("tab", "back")],
        View::Help => vec![("tab", "back")],
    }
}

} // verus!
