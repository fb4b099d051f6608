//! What floats over a pane: the key help, the block-letter menu and the
//! options list -- their entries and how big their boxes are.
use vstd::prelude::*;
use crate::app::menu::{menu_items, menu_items_spec, menu_word, menu_word_spec};
use crate::config::keymap::{names_for, Action, Keymap};
use crate::text::{chars_of, join_with, joined_with, push_chars, push_str, string_from};
use crate::ui::banner;
use crate::ui::bigtext::{self, word_width};
use crate::ui::views::{fit, fit_spec, spaces};

verus! {

broadcast use vstd::string::group_string_axioms;

/// The entries of the key help, in order: what each does, and the action
/// whose keys it lists.
pub open spec fn help_spec() -> Seq<(Seq<char>, Action)> {
    seq![
        ("Play / pause"@, Action::PlayPause),
        ("Previous track"@, Action::Prev),
        ("Next track"@, Action::Next),
        ("Seek back"@, Action::SeekBack),
        ("Seek forward"@, Action::SeekForward),
        ("Volume up"@, Action::VolumeUp),
        ("Volume down"@, Action::VolumeDown),
        ("Shuffle"@, Action::Shuffle),
        ("Repeat (off/all/one)"@, Action::ToggleRepeat),
        ("Cycle visualizer"@, Action::CycleVisualizer),
        ("Show / hide cover art"@, Action::ToggleAscii),
        ("Menu / options"@, Action::ToggleMenu),
        ("Like current track"@, Action::ToggleLike),
        ("Start radio from track"@, Action::StartRadio),
        ("Add to queue"@, Action::Enqueue),
        ("Add and play now"@, Action::EnqueueAndPlay),
        ("Move track up"@, Action::MoveUp),
        ("Move track down"@, Action::MoveDown),
        ("Remove from queue"@, Action::Remove),
        ("Clear queue"@, Action::ClearQueue),
        ("Queue view"@, Action::ShowQueue),
        ("Library view"@, Action::ShowLibrary),
        ("Track view"@, Action::ShowTrack),
        ("Search view"@, Action::ShowSearch),
        ("Lyrics"@, Action::ShowLyrics),
        ("Help"@, Action::ShowHelp),
        ("Cycle views"@, Action::NextView),
        ("Quit"@, Action::Quit),
    ]
}

/// The help entries.
pub fn help_entries() -> (r: Vec<(&'static str, Action)>)
    ensures
        r@.len() == help_spec().len(),
        forall|k: int|
            0 <= k < r@.len() ==> (#[trigger] r@[k]).0@ == help_spec()[k].0 && r@[k].1 == help_spec()[k].1,
{
    vec![
        ("Play / pause", Action::PlayPause),
        ("Previous track", Action::Prev),
        ("Next track", Action::Next),
        ("Seek back", Action::SeekBack),
        ("Seek forward", Action::SeekForward),
        ("Volume up", Action::VolumeUp),
        ("Volume down", Action::VolumeDown),
        ("Shuffle", Action::Shuffle),
        ("Repeat (off/all/one)", Action::ToggleRepeat),
        ("Cycle visualizer", Action::CycleVisualizer),
        ("Show / hide cover art", Action::ToggleAscii),
        ("Menu / options", Action::ToggleMenu),
        ("Like current track", Action::ToggleLike),
        ("Start radio from track", Action::StartRadio),
        ("Add to queue", Action::Enqueue),
        ("Add and play now", Action::EnqueueAndPlay),
        ("Move track up", Action::MoveUp),
        ("Move track down", Action::MoveDown),
        ("Remove from queue", Action::Remove),
        ("Clear queue", Action::ClearQueue),
        ("Queue view", Action::ShowQueue),
        ("Library view", Action::ShowLibrary),
        ("Track view", Action::ShowTrack),
        ("Search view", Action::ShowSearch),
        ("Lyrics", Action::ShowLyrics),
        ("Help", Action::ShowHelp),
        ("Cycle views", Action::NextView),
        ("Quit", Action::Quit),
    ]
}

/// The keys bound to an action, as the help lists them: comma-separated.
pub fn help_keys(keymap: &Keymap, action: Action) -> (r: String)
    ensures
        r@ == joined_with(names_for(keymap.table(), action), ", "@),
{
    let keys = keymap.keys_for(action);
    let r = join_with(keys.as_slice(), ", ");
    assert(keys@.map_values(|w: String| w@) =~= names_for(keymap.table(), action));
    r
}

/// Width of one help column.
pub const HELP_COLUMN: usize = 44;

/// One help cell: the description left-aligned in 23 columns after a
/// space (padded, never cut, as `{:<23}` does), and the keys fitted to the
/// rest of the column.
pub open spec fn help_cell_spec(label: Seq<char>, keys: Seq<char>) -> (Seq<char>, Seq<char>) {
    (" "@ + label + spaces(23 - label.len()), fit_spec(keys, (HELP_COLUMN - 25) as usize))
}

/// The two parts of a help cell.
pub fn help_cell(label: &str, keys: &str) -> (r: (String, String))
    ensures
        (r.0@, r.1@) == help_cell_spec(label@, keys@),
{
    let l = chars_of(label);
    let mut out: Vec<char> = Vec::new();
    push_str(&mut out, " ");
    push_chars(&mut out, l.as_slice());
    let mut k = l.len();
    while k < 23
        invariant
            l@.len() <= k <= 23 || (k == l@.len() && k >= 23),
            out@ =~= " "@ + label@ + spaces(k - l@.len()),
            l@ == label@,
        decreases 23 - k,
    {
        out.push(' ');
        k += 1;
    }
    proof {
        reveal_strlit(" ");
        if l@.len() >= 23 {
            assert(spaces(23 - l@.len()) =~= spaces(0));
        }
    }
    (string_from(out.as_slice()), fit(keys, HELP_COLUMN - 25))
}

/// How the help box is laid out: in two columns when the pane is wide
/// enough, so the whole keymap fits without scrolling; `rows` is the
/// number of lines of cells, and the box is `w` by `h`.
#[derive(Clone, Copy, Debug, PartialEq, Eq, Structural)]
pub struct HelpLayout {
    pub two_col: bool,
    pub rows: usize,
    pub w: u16,
    pub h: u16,
}

/// The help box for `n` entries in a pane `width` by `height`.
pub open spec fn help_layout_spec(n: usize, width: u16, height: u16) -> HelpLayout {
    let two_col = width >= 2 * HELP_COLUMN + 2;
    let rows: int = if two_col {
        (n + 1) / 2
    } else {
        n as int
    };
    let want: int = if two_col {
        2 * HELP_COLUMN + 3
    } else {
        HELP_COLUMN + 2
    };
    HelpLayout {
        two_col,
        rows: rows as usize,
        w: (if want < width {
            want
        } else {
            width as int
        }) as u16,
        h: (if rows + 2 < height {
            rows + 2
        } else {
            height as int
        }) as u16,
    }
}

/// Lay out the help box.
pub fn help_layout(n: usize, width: u16, height: u16) -> (r: HelpLayout)
    requires
        n < usize::MAX,
    ensures
        r == help_layout_spec(n, width, height),
{
    let two_col = width as usize >= 2 * HELP_COLUMN + 2;
    let rows: usize = if two_col {
        n / 2 + n % 2
    } else {
        n
    };
    assert(two_col ==> rows == (n + 1) / 2);
    let want: u16 = if two_col {
        (2 * HELP_COLUMN + 3) as u16
    } else {
        (HELP_COLUMN + 2) as u16
    };
    let w = if want < width {
        want
    } else {
        width
    };
    let h: u16 = if rows < height as usize && rows + 2 < height as usize {
        (rows + 2) as u16
    } else {
        height
    };
    HelpLayout { two_col, rows, w, h }
}

/// How the menu box is laid out: the wordmark above the items when there
/// is room for it, the column of block letters `grid_w` wide, and the box
/// `w` by `h`.
#[derive(Clone, Copy, Debug, PartialEq, Eq, Structural)]
pub struct MenuLayout {
    pub show_banner: bool,
    pub grid_w: usize,
    pub w: u16,
    pub h: u16,
}

/// The widest block-letter item of the menu.
pub open spec fn item_width() -> nat {
    let a = word_width(menu_word_spec(menu_items_spec()[0]));
    let b = word_width(menu_word_spec(menu_items_spec()[1]));
    let c = word_width(menu_word_spec(menu_items_spec()[2]));
    let ab = if a < b {
        b
    } else {
        a
    };
    if ab < c {
        c
    } else {
        ab
    }
}

/// The menu box in a pane `width` by `height`: three rows a word and a
/// blank between words, the wordmark and a blank above them when the pane
/// holds it with room to spare, a border, a blank row inside it top and
/// bottom, and eight columns of side padding.
pub open spec fn menu_layout_spec(width: u16, height: u16, banner_w: nat) -> MenuLayout {
    let n = menu_items_spec().len();
    let show = width >= banner_w + 6 && height >= 6 + n * 3 + 6;
    let grid: nat = if show && item_width() < banner_w {
        banner_w
    } else {
        item_width()
    };
    let banner_h: nat = if show {
        7
    } else {
        0
    };
    let want_h: int = banner_h + n * 3 + n - 1 + 4;
    let want_w: int = grid + 10int;
    MenuLayout {
        show_banner: show,
        grid_w: grid as usize,
        w: (if want_w < width {
            want_w
        } else {
            width as int
        }) as u16,
        h: (if want_h < height {
            want_h
        } else {
            height as int
        }) as u16,
    }
}

/// Lay out the menu box.
pub fn menu_layout(width: u16, height: u16) -> (r: MenuLayout)
    ensures
        r == menu_layout_spec(width, height, banner::banner_width()),
{
    let items = menu_items();
    let mut item_w: usize = 0;
    let mut i: usize = 0;
    while i < 3
        invariant
            i <= 3,
            items@ == menu_items_spec(),
            item_w <= 21,
            item_w == if i == 0 {
                0
            } else if i == 1 {
                word_width(menu_word_spec(menu_items_spec()[0]))
            } else if i == 2 {
                let a = word_width(menu_word_spec(menu_items_spec()[0]));
                let b = word_width(menu_word_spec(menu_items_spec()[1]));
                if a < b {
                    b
                } else {
                    a
                }
            } else {
                item_width()
            },
        decreases 3 - i,
    {
        let word = menu_word(items[i]);
        proof {
            reveal_strlit("OPTIONS");
            reveal_strlit("HELP");
            reveal_strlit("QUIT");
        }
        let ww = bigtext::width(word);
        proof {
            bigtext::lemma_word_width_bound(word@);
        }
        if ww > item_w {
            item_w = ww;
        }
        i += 1;
    }
    let banner_w = banner::width();
    let show = banner_w < usize::MAX - 6 && width as usize >= banner_w + 6 && height as usize >= 6 + 9 + 6;
    proof {
        banner::lemma_banner_width_bound();
    }
    let grid = if show && item_w < banner_w {
        banner_w
    } else {
        item_w
    };
    let banner_h: usize = if show {
        7
    } else {
        0
    };
    let want_h = banner_h + 9 + 2 + 2 + 2;
    let want_w = grid + 10;
    let w: u16 = if want_w < width as usize {
        want_w as u16
    } else {
        width
    };
    let h: u16 = if want_h < height as usize {
        want_h as u16
    } else {
        height
    };
    MenuLayout { show_banner: show, grid_w: grid, w, h }
}

/// The options box for `n` settings: its inside is forty columns, two
/// rows a setting, a blank line and two of description inside a border.
pub open spec fn options_size_spec(n: usize, width: u16, height: u16) -> (u16, u16) {
    let want_h: int = 2 * n + 5;
    (
        (if 44 < width {
            44
        } else {
            width as int
        }) as u16,
        (if want_h < height {
            want_h
        } else {
            height as int
        }) as u16,
    )
}

/// The size of the options box.
pub fn options_size(n: usize, width: u16, height: u16) -> (r: (u16, u16))
    requires
        n <= 32765,
    ensures
        r == options_size_spec(n, width, height),
{
    let w = if 44 < width {
        44
    } else {
        width
    };
    let want_h = 2 * n + 5;
    let h = if want_h < height as usize {
        want_h as u16
    } else {
        height
    };
    (w, h)
}

} // verus!
