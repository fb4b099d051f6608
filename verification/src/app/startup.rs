//! What the program starts with: the configuration, and what the last run
//! saved, decide the transport, the cover, the theme and the cell size.
use vstd::prelude::*;
use crate::queue::RepeatMode;
use crate::text::{chars_of, eq_chars, string_from};

verus! {

broadcast use vstd::string::group_string_axioms;

/// The repeat mode a saved name stands for: `all`, `one`, and anything
/// else off.
pub open spec fn repeat_named_spec(name: Seq<char>) -> RepeatMode {
    if name == "all"@ {
        RepeatMode::All
    } else if name == "one"@ {
        RepeatMode::One
    } else {
        RepeatMode::Off
    }
}

/// The repeat mode of a saved name.
pub fn repeat_named(name: &str) -> (r: RepeatMode)
    ensures
        r == repeat_named_spec(name@),
{
    let n = chars_of(name);
    let all = chars_of("all");
    let one = chars_of("one");
    if eq_chars(n.as_slice(), all.as_slice()) {
        RepeatMode::All
    } else if eq_chars(n.as_slice(), one.as_slice()) {
        RepeatMode::One
    } else {
        RepeatMode::Off
    }
}

/// The name a repeat mode is saved under.
pub open spec fn repeat_name_spec(m: RepeatMode) -> Seq<char> {
    match m {
        RepeatMode::All => "all"@,
        RepeatMode::One => "one"@,
        RepeatMode::Off => "off"@,
    }
}

/// The name to save a repeat mode under.
pub fn repeat_name(m: RepeatMode) -> (r: &'static str)
    ensures
        r@ == repeat_name_spec(m),
{
    match m {
        RepeatMode::All => "all",
        RepeatMode::One => "one",
        RepeatMode::Off => "off",
    }
}

/// A saved repeat mode reads back as itself.
pub proof fn law_repeat_names_round_trip(m: RepeatMode)
    ensures
        repeat_named_spec(repeat_name_spec(m)) == m,
{
    reveal_strlit("all");
    reveal_strlit("one");
    reveal_strlit("off");
    assert("off"@[1] != "all"@[1]);
    assert("off"@[1] != "one"@[1]);
    assert("one"@[0] != "all"@[0]);
}

/// What the last run saved, as far as startup reads it.
pub struct Saved {
    pub shuffle: bool,
    pub repeat: String,
    pub cover_visible: bool,
    pub theme: String,
}

/// What the program starts with.
pub struct StartupChoice {
    /// Shuffle and repeat, restored only when the configuration asks for it.
    pub shuffle: bool,
    pub repeat: RepeatMode,
    /// The cover shows when the last run left it showing and the
    /// configuration allows covers at all.
    pub cover_visible: bool,
    /// A theme picked at runtime outranks the configured one.
    pub theme: String,
    /// The configured cell size, when both sides are given.
    pub cell_px: Option<(u16, u16)>,
}

/// The start: transport restored only if asked, the saved cover toggle
/// within what the configuration allows, the saved theme over the
/// configured one, and the configured cell size when complete.
pub fn startup(
    save_repeat_shuffle: bool,
    cover_enabled: bool,
    configured_theme: &str,
    configured_cell: [u16; 2],
    saved: &Saved,
) -> (s: StartupChoice)
    ensures
        s.shuffle == (save_repeat_shuffle && saved.shuffle),
        s.repeat == if save_repeat_shuffle {
            repeat_named_spec(saved.repeat@)
        } else {
            RepeatMode::Off
        },
        s.cover_visible == (saved.cover_visible && cover_enabled),
        s.theme@ == if saved.theme@.len() == 0 {
            configured_theme@
        } else {
            saved.theme@
        },
        s.cell_px == if configured_cell[0] > 0 && configured_cell[1] > 0 {
            Some((configured_cell[0], configured_cell[1]))
        } else {
            None::<(u16, u16)>
        },
{
    let saved_theme = chars_of(saved.theme.as_str());
    let theme = if saved_theme.len() == 0 {
        string_from(chars_of(configured_theme).as_slice())
    } else {
        string_from(saved_theme.as_slice())
    };
    StartupChoice {
        shuffle: save_repeat_shuffle && saved.shuffle,
        repeat: if save_repeat_shuffle {
            repeat_named(saved.repeat.as_str())
        } else {
            RepeatMode::Off
        },
        cover_visible: saved.cover_visible && cover_enabled,
        theme,
        cell_px: if configured_cell[0] > 0 && configured_cell[1] > 0 {
            Some((configured_cell[0], configured_cell[1]))
        } else {
            None
        },
    }
}

/// The cell size to configure: a size tuned in an earlier run fills in
/// when the configuration gives none.
pub fn configured_cell(configured: [u16; 2], saved: [u16; 2]) -> (r: [u16; 2])
    ensures
        r == if configured[0] == 0 && configured[1] == 0 && !(saved[0] == 0 && saved[1] == 0) {
            saved
        } else {
            configured
        },
{
    if configured[0] == 0 && configured[1] == 0 && !(saved[0] == 0 && saved[1] == 0) {
        saved
    } else {
        configured
    }
}

} // verus!
