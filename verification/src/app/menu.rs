//! The escape overlay: the top-level menu and the options pane behind it.
use vstd::prelude::*;
use crate::config::{CoverMode, VisualizerMode};
use crate::queue::RepeatMode;
use crate::text::chars_of;
use crate::theme::{lower_ascii_str, to_ascii_lower};
use vstd::arithmetic::div_mod::{lemma_fundamental_div_mod, lemma_mod_multiples_vanish};

verus! {

/// Entries in the overlay menu, in order.
#[derive(Clone, Copy, Debug, PartialEq, Eq, Structural)]
pub enum MenuItem {
    Options,
    Help,
    Quit,
}

/// The overlay menu's entries, in order.
pub open spec fn menu_items_spec() -> Seq<MenuItem> {
    seq![MenuItem::Options, MenuItem::Help, MenuItem::Quit]
}

/// The overlay menu's entries, in order.
pub fn menu_items() -> (r: [MenuItem; 3])
    ensures
        r@ == menu_items_spec(),
{
    let r = [MenuItem::Options, MenuItem::Help, MenuItem::Quit];
    assert(r@ =~= menu_items_spec());
    r
}

/// Which pane of the overlay is showing.
#[derive(Clone, Copy, Debug, PartialEq, Eq, Structural)]
pub enum MenuScreen {
    Main,
    Options,
}

/// A row in the options pane. Each is a fixed list of choices stepped through
/// with the left and right arrows.
#[derive(Clone, Copy, Debug, PartialEq, Eq, Structural)]
pub enum Setting {
    Theme,
    Keys,
    SidePane,
    LibraryLayout,
    Renderer,
    ShowCover,
    Visualizer,
    Shuffle,
    Repeat,
    AutoplayRadio,
}

/// The options pane's rows, in order.
pub open spec fn settings_spec() -> Seq<Setting> {
    seq![
        Setting::Theme,
        Setting::Keys,
        Setting::SidePane,
        Setting::LibraryLayout,
        Setting::Renderer,
        Setting::ShowCover,
        Setting::Visualizer,
        Setting::Shuffle,
        Setting::Repeat,
        Setting::AutoplayRadio,
    ]
}

/// The options pane's rows, in order.
pub fn settings() -> (r: [Setting; 10])
    ensures
        r@ == settings_spec(),
{
    let r = [
        Setting::Theme,
        Setting::Keys,
        Setting::SidePane,
        Setting::LibraryLayout,
        Setting::Renderer,
        Setting::ShowCover,
        Setting::Visualizer,
        Setting::Shuffle,
        Setting::Repeat,
        Setting::AutoplayRadio,
    ];
    assert(r@ =~= settings_spec());
    r
}

/// The row label of each setting.
pub open spec fn label_spec(s: Setting) -> Seq<char> {
    match s {
        Setting::Theme => "Theme"@,
        Setting::Keys => "Key bindings"@,
        Setting::SidePane => "Side pane"@,
        Setting::LibraryLayout => "Library layout"@,
        Setting::Renderer => "Cover renderer"@,
        Setting::ShowCover => "Show cover art"@,
        Setting::Visualizer => "Visualizer"@,
        Setting::Shuffle => "Shuffle"@,
        Setting::Repeat => "Repeat"@,
        Setting::AutoplayRadio => "Autoplay radio"@,
    }
}

/// The explanation shown under each setting.
pub open spec fn description_spec(s: Setting) -> Seq<char> {
    match s {
        Setting::Theme => "Colours for borders, text and accents. \"cover\" samples them from the album art."@,
        Setting::Keys => "kew keeps kew's keys. vim swaps in vim motions: gg, G, ctrl+d/u, dd, x, J/K to reorder, H/L for previous and next track."@,
        Setting::SidePane => "What sits beside the now-playing column on a wide terminal. j/k and enter act on it."@,
        Setting::LibraryLayout => "Columns puts each level side by side, file-manager style; left and right walk in and out. Narrow panes fall back to the tree."@,
        Setting::Renderer => "How album art is drawn. Kitty sizes in cells and needs no tuning; sixel needs an accurate cell size; blocks work anywhere."@,
        Setting::ShowCover => "Show the artwork at all. Same as pressing b."@,
        Setting::Visualizer => "Spectrum style. Braille packs four levels per cell; off reclaims the rows."@,
        Setting::Shuffle => "Play the queue in a random order."@,
        Setting::Repeat => "Off stops at the end, all wraps, one loops the track."@,
        Setting::AutoplayRadio => "After playing a single search hit, append YouTube's radio mix so it keeps going."@,
    }
}

impl Setting {
    /// The row label.
    pub fn label(self) -> (r: &'static str)
        ensures
            r@ == label_spec(self),
    {
        match self {
            Setting::Theme => "Theme",
            Setting::Keys => "Key bindings",
            Setting::SidePane => "Side pane",
            Setting::LibraryLayout => "Library layout",
            Setting::Renderer => "Cover renderer",
            Setting::ShowCover => "Show cover art",
            Setting::Visualizer => "Visualizer",
            Setting::Shuffle => "Shuffle",
            Setting::Repeat => "Repeat",
            Setting::AutoplayRadio => "Autoplay radio",
        }
    }

    /// The explanation shown under the row.
    pub fn description(self) -> (r: &'static str)
        ensures
            r@ == description_spec(self),
    {
        match self {
            Setting::Theme => {
                "Colours for borders, text and accents. \"cover\" samples them from the album art."
            },
            Setting::Keys => {
                "kew keeps kew's keys. vim swaps in vim motions: gg, G, ctrl+d/u, dd, x, J/K to reorder, H/L for previous and next track."
            },
            Setting::SidePane => {
                "What sits beside the now-playing column on a wide terminal. j/k and enter act on it."
            },
            Setting::LibraryLayout => {
                "Columns puts each level side by side, file-manager style; left and right walk in and out. Narrow panes fall back to the tree."
            },
            Setting::Renderer => {
                "How album art is drawn. Kitty sizes in cells and needs no tuning; sixel needs an accurate cell size; blocks work anywhere."
            },
            Setting::ShowCover => "Show the artwork at all. Same as pressing b.",
            Setting::Visualizer => {
                "Spectrum style. Braille packs four levels per cell; off reclaims the rows."
            },
            Setting::Shuffle => "Play the queue in a random order.",
            Setting::Repeat => "Off stops at the end, all wraps, one loops the track.",
            Setting::AutoplayRadio => {
                "After playing a single search hit, append YouTube's radio mix so it keeps going."
            },
        }
    }
}

/// The word rendered in block letters for a top-level menu row.
pub open spec fn menu_word_spec(item: MenuItem) -> Seq<char> {
    match item {
        MenuItem::Options => "OPTIONS"@,
        MenuItem::Help => "HELP"@,
        MenuItem::Quit => "QUIT"@,
    }
}

/// The word rendered in block letters for a top-level menu row.
pub fn menu_word(item: MenuItem) -> (r: &'static str)
    ensures
        r@ == menu_word_spec(item),
{
    match item {
        MenuItem::Options => "OPTIONS",
        MenuItem::Help => "HELP",
        MenuItem::Quit => "QUIT",
    }
}

/// Whether two names are equal ignoring ASCII case.
pub open spec fn same_name(a: Seq<char>, b: Seq<char>) -> bool {
    lower_ascii_str(a) == lower_ascii_str(b)
}

/// `str::eq_ignore_ascii_case`.
pub fn eq_ignore_ascii_case(a: &str, b: &str) -> (r: bool)
    ensures
        r == same_name(a@, b@),
{
    let x = chars_of(a);
    let y = chars_of(b);
    if x.len() != y.len() {
        proof {
            assert(lower_ascii_str(a@).len() != lower_ascii_str(b@).len());
        }
        return false;
    }
    let mut i: usize = 0;
    while i < x.len()
        invariant
            x@ == a@,
            y@ == b@,
            x@.len() == y@.len(),
            i <= x@.len(),
            forall|j: int| 0 <= j < i ==> lower_ascii_str(a@)[j] == lower_ascii_str(b@)[j],
        decreases x@.len() - i,
    {
        if to_ascii_lower(x[i]) != to_ascii_lower(y[i]) {
            proof {
                assert(lower_ascii_str(a@)[i as int] != lower_ascii_str(b@)[i as int]);
            }
            return false;
        }
        i += 1;
    }
    assert(lower_ascii_str(a@) =~= lower_ascii_str(b@));
    true
}

/// Where `cur` sits among `names`, ignoring ASCII case: the first match, or
/// 0 when there is none.
pub open spec fn pick_spec(names: Seq<Seq<char>>, cur: Seq<char>) -> int {
    if exists|j: int| 0 <= j < names.len() && same_name(#[trigger] names[j], cur) {
        choose|j: int|
            0 <= j < names.len() && same_name(names[j], cur) && forall|k: int|
                0 <= k < j ==> !same_name(#[trigger] names[k], cur)
    } else {
        0
    }
}

/// The names of a list of strings.
pub open spec fn views_of(v: Seq<String>) -> Seq<Seq<char>> {
    v.map_values(|s: String| s@)
}

/// Where `cur` sits among `names`, ignoring ASCII case; 0 when absent.
pub fn pick(names: &[String], cur: &str) -> (r: usize)
    ensures
        r == pick_spec(views_of(names@), cur@),
        names@.len() == 0 ==> r == 0,
        names@.len() > 0 ==> r < names@.len(),
{
    let ghost vs = views_of(names@);
    let mut i: usize = 0;
    while i < names.len()
        invariant
            vs == views_of(names@),
            i <= names@.len(),
            forall|k: int| 0 <= k < i ==> !same_name(#[trigger] vs[k], cur@),
        decreases names@.len() - i,
    {
        if eq_ignore_ascii_case(names[i].as_str(), cur) {
            proof {
                assert(vs[i as int] == names@[i as int]@);
                assert(same_name(vs[i as int], cur@));
                let c = choose|j: int|
                    0 <= j < vs.len() && same_name(vs[j], cur@) && forall|k: int|
                        0 <= k < j ==> !same_name(#[trigger] vs[k], cur@);
                if c < i {
                    assert(!same_name(vs[c], cur@));
                }
                if c > i {
                    assert(!same_name(vs[i as int], cur@));
                }
            }
            return i;
        }
        i += 1;
    }
    0
}

/// The strings `names`, owned.
fn owned(names: &[&str]) -> (r: Vec<String>)
    ensures
        r@.len() == names@.len(),
        forall|i: int| 0 <= i < names@.len() ==> #[trigger] r@[i]@ == names@[i]@,
{
    let mut r: Vec<String> = Vec::new();
    let mut i: usize = 0;
    while i < names.len()
        invariant
            i <= names@.len(),
            r@.len() == i,
            forall|j: int| 0 <= j < i ==> #[trigger] r@[j]@ == names@[j]@,
        decreases names@.len() - i,
    {
        r.push(names[i].to_string());
        i += 1;
    }
    r
}

/// What the options pane reads of the current configuration.
pub struct SettingValues {
    /// Every theme's name, `cover` first.
    pub theme_names: Vec<String>,
    /// The active theme.
    pub theme: String,
    /// Name of the key preset.
    pub keys: String,
    /// Name of the side pane choice.
    pub side_pane: String,
    /// Name of the library layout.
    pub library_layout: String,
    pub cover_mode: CoverMode,
    pub cover_visible: bool,
    pub visualizer: VisualizerMode,
    pub shuffle: bool,
    pub repeat: RepeatMode,
    pub autoplay_radio: bool,
}

/// The fixed choices of every setting but the theme.
pub open spec fn fixed_choices(s: Setting) -> Seq<Seq<char>> {
    match s {
        Setting::Keys => seq!["kew"@, "vim"@],
        Setting::SidePane => seq!["off"@, "queue"@, "library"@],
        Setting::LibraryLayout => seq!["columns"@, "tree"@],
        Setting::Renderer => seq!["auto"@, "kitty"@, "sixel"@, "blocks"@],
        Setting::ShowCover => seq!["on"@, "off"@],
        Setting::Visualizer => seq!["bars"@, "braille"@, "off"@],
        Setting::Shuffle => seq!["off"@, "on"@],
        Setting::Repeat => seq!["off"@, "all"@, "one"@],
        _ => seq!["on"@, "off"@],
    }
}

/// The word for a switch.
pub open spec fn on_off(b: bool) -> Seq<char> {
    if b {
        "on"@
    } else {
        "off"@
    }
}

/// The name under which each setting's current value appears among its
/// choices.
pub open spec fn current_name(s: Setting, v: SettingValues) -> Seq<char> {
    match s {
        Setting::Theme => v.theme@,
        Setting::Keys => v.keys@,
        Setting::SidePane => v.side_pane@,
        Setting::LibraryLayout => v.library_layout@,
        Setting::Renderer => match v.cover_mode {
            CoverMode::Auto => "auto"@,
            CoverMode::Kitty => "kitty"@,
            CoverMode::Sixel => "sixel"@,
            CoverMode::Blocks => "blocks"@,
            CoverMode::Off => "off"@,
        },
        Setting::ShowCover => on_off(v.cover_visible),
        Setting::Visualizer => match v.visualizer {
            VisualizerMode::Bars => "bars"@,
            VisualizerMode::Braille => "braille"@,
            VisualizerMode::Off => "off"@,
        },
        Setting::Shuffle => on_off(v.shuffle),
        Setting::Repeat => match v.repeat {
            RepeatMode::Off => "off"@,
            RepeatMode::All => "all"@,
            RepeatMode::One => "one"@,
        },
        Setting::AutoplayRadio => on_off(v.autoplay_radio),
    }
}

/// The choices of a setting, in order: the theme names for the theme, the
/// fixed list otherwise.
pub open spec fn choices_spec(s: Setting, v: SettingValues) -> Seq<Seq<char>> {
    match s {
        Setting::Theme => views_of(v.theme_names@),
        _ => fixed_choices(s),
    }
}

/// The choices for a setting and which one is current (the first that
/// matches the current value ignoring ASCII case, else the first).
pub fn setting_choices(s: Setting, v: &SettingValues) -> (r: (Vec<String>, usize))
    ensures
        views_of(r.0@) == choices_spec(s, *v),
        r.1 == pick_spec(choices_spec(s, *v), current_name(s, *v)),
        r.0@.len() > 0 ==> r.1 < r.0@.len(),
{
    let names: Vec<String> = match s {
        Setting::Theme => {
            let mut t: Vec<String> = Vec::new();
            let mut i: usize = 0;
            while i < v.theme_names.len()
                invariant
                    i <= v.theme_names@.len(),
                    t@.len() == i,
                    forall|j: int| 0 <= j < i ==> #[trigger] t@[j]@ == v.theme_names@[j]@,
                decreases v.theme_names@.len() - i,
            {
                t.push(v.theme_names[i].clone());
                i += 1;
            }
            t
        },
        Setting::Keys => owned(&["kew", "vim"]),
        Setting::SidePane => owned(&["off", "queue", "library"]),
        Setting::LibraryLayout => owned(&["columns", "tree"]),
        Setting::Renderer => owned(&["auto", "kitty", "sixel", "blocks"]),
        Setting::ShowCover => owned(&["on", "off"]),
        Setting::Visualizer => owned(&["bars", "braille", "off"]),
        Setting::Shuffle => owned(&["off", "on"]),
        Setting::Repeat => owned(&["off", "all", "one"]),
        Setting::AutoplayRadio => owned(&["on", "off"]),
    };
    assert(views_of(names@) =~= choices_spec(s, *v));
    let cur: &str = match s {
        Setting::Theme => v.theme.as_str(),
        Setting::Keys => v.keys.as_str(),
        Setting::SidePane => v.side_pane.as_str(),
        Setting::LibraryLayout => v.library_layout.as_str(),
        Setting::Renderer => v.cover_mode.name(),
        Setting::ShowCover => if v.cover_visible {
            "on"
        } else {
            "off"
        },
        Setting::Visualizer => match v.visualizer {
            VisualizerMode::Bars => "bars",
            VisualizerMode::Braille => "braille",
            VisualizerMode::Off => "off",
        },
        Setting::Shuffle => if v.shuffle {
            "on"
        } else {
            "off"
        },
        Setting::Repeat => match v.repeat {
            RepeatMode::Off => "off",
            RepeatMode::All => "all",
            RepeatMode::One => "one",
        },
        Setting::AutoplayRadio => if v.autoplay_radio {
            "on"
        } else {
            "off"
        },
    };
    let i = pick(names.as_slice(), cur);
    (names, i)
}

/// Current value of a setting, for display: the current choice, or empty
/// when the setting has no choices at all.
pub fn setting_value(s: Setting, v: &SettingValues) -> (r: String)
    ensures
        choices_spec(s, *v).len() == 0 ==> r@ == Seq::<char>::empty(),
        choices_spec(s, *v).len() > 0 ==> r@ == choices_spec(s, *v)[pick_spec(
            choices_spec(s, *v),
            current_name(s, *v),
        )],
{
    let (choices, i) = setting_choices(s, v);
    if i < choices.len() {
        assert(views_of(choices@)[i as int] == choices@[i as int]@);
        choices[i].clone()
    } else {
        String::new()
    }
}

/// Step a choice index by `delta` around `n` choices, wrapping either way.
pub fn step_choice(i: usize, n: usize, delta: i32) -> (r: usize)
    requires
        0 < n <= 0x4000_0000,
        i < n,
        -0x4000_0000 <= delta <= 0x4000_0000,
    ensures
        r as int == (i + delta) % (n as int),
        r < n,
{
    if delta >= 0 {
        let r = (i + delta as usize) % n;
        r
    } else {
        let d = ((0 - delta) as usize) % n;
        let r = (i + n - d) % n;
        proof {
            let k = (0 - delta) as int;
            let m = n as int;
            lemma_fundamental_div_mod(k, m);
            let q = k / m;
            assert(m * (q + 1) + (i - k) == i + m - d) by (nonlinear_arith)
                requires
                    k == m * q + d,
            ;
            lemma_mod_multiples_vanish(q + 1, i - k, m);
        }
        r
    }
}

} // verus!
