//! User configuration: the renderer and visualizer modes, and the key table.
//! Loading the file is the program's job; the numeric settings that are
//! floating point live there too.
use vstd::prelude::*;
use crate::text::{chars_of, eq_chars};

pub mod keymap;

verus! {

/// How album art is drawn.
#[derive(Clone, Copy, Debug, PartialEq, Eq, Structural)]
pub enum CoverMode {
    /// Best available: kitty graphics, then sixel, then half-blocks.
    Auto,
    /// Kitty graphics protocol.
    Kitty,
    /// Sixel. Needs an accurate cell pixel size to scale correctly.
    Sixel,
    /// Truecolor half-blocks: two pixels per cell, works anywhere.
    Blocks,
    Off,
}

impl Default for CoverMode {
    fn default() -> (r: Self)
        ensures
            r == CoverMode::Auto,
    {
        CoverMode::Auto
    }
}

/// The name a renderer is written as.
pub open spec fn cover_mode_name(m: CoverMode) -> Seq<char> {
    match m {
        CoverMode::Auto => "auto"@,
        CoverMode::Kitty => "kitty"@,
        CoverMode::Sixel => "sixel"@,
        CoverMode::Blocks => "blocks"@,
        CoverMode::Off => "off"@,
    }
}

/// The renderer a name stands for; an unknown name means `auto`.
pub open spec fn cover_mode_named(name: Seq<char>) -> CoverMode {
    if name == "kitty"@ {
        CoverMode::Kitty
    } else if name == "sixel"@ {
        CoverMode::Sixel
    } else if name == "blocks"@ {
        CoverMode::Blocks
    } else if name == "off"@ {
        CoverMode::Off
    } else {
        CoverMode::Auto
    }
}

/// Every renderer is found again by its name.
pub proof fn law_cover_mode_names_round_trip(m: CoverMode)
    ensures
        cover_mode_named(cover_mode_name(m)) == m,
{
    reveal_strlit("auto");
    reveal_strlit("kitty");
    reveal_strlit("sixel");
    reveal_strlit("blocks");
    reveal_strlit("off");
    // The names differ in length or in their first letter.
    assert("auto"@.len() == 4 && "kitty"@.len() == 5 && "sixel"@.len() == 5);
    assert("blocks"@.len() == 6 && "off"@.len() == 3);
    assert("kitty"@[0] != "sixel"@[0]);
}

fn is_named(name: &str, word: &str) -> (b: bool)
    ensures
        b == (name@ == word@),
{
    let a = chars_of(name);
    let w = chars_of(word);
    eq_chars(a.as_slice(), w.as_slice())
}

impl CoverMode {
    /// The renderer a name stands for, as the options pane lists them; an
    /// unknown name means `auto`.
    pub fn from_name(name: &str) -> (m: CoverMode)
        ensures
            m == cover_mode_named(name@),
    {
        if is_named(name, "kitty") {
            CoverMode::Kitty
        } else if is_named(name, "sixel") {
            CoverMode::Sixel
        } else if is_named(name, "blocks") {
            CoverMode::Blocks
        } else if is_named(name, "off") {
            CoverMode::Off
        } else {
            CoverMode::Auto
        }
    }
}

impl CoverMode {
    /// The mode's name as the config file spells it.
    pub fn name(self) -> (r: &'static str)
        ensures
            r@ == match self {
                CoverMode::Auto => "auto"@,
                CoverMode::Kitty => "kitty"@,
                CoverMode::Sixel => "sixel"@,
                CoverMode::Blocks => "blocks"@,
                CoverMode::Off => "off"@,
            },
    {
        match self {
            CoverMode::Auto => "auto",
            CoverMode::Kitty => "kitty",
            CoverMode::Sixel => "sixel",
            CoverMode::Blocks => "blocks",
            CoverMode::Off => "off",
        }
    }

    /// Does this mode draw sixel, given what the terminal can do?
    pub fn uses_sixel(self, terminal_ok: bool) -> (r: bool)
        ensures
            r == (self == CoverMode::Sixel || (self == CoverMode::Auto && terminal_ok)),
    {
        match self {
            CoverMode::Sixel => true,
            CoverMode::Auto => terminal_ok,
            _ => false,
        }
    }

    /// Does this mode draw kitty graphics?
    pub fn uses_kitty(self, terminal_ok: bool) -> (r: bool)
        ensures
            r == (self == CoverMode::Kitty || (self == CoverMode::Auto && terminal_ok)),
    {
        match self {
            CoverMode::Kitty => true,
            CoverMode::Auto => terminal_ok,
            _ => false,
        }
    }

    pub fn draws_anything(self) -> (r: bool)
        ensures
            r == (self != CoverMode::Off),
    {
        match self {
            CoverMode::Off => false,
            _ => true,
        }
    }
}

#[derive(Clone, Copy, Debug, PartialEq, Eq, Structural)]
pub enum VisualizerMode {
    /// Eighth-block bars.
    Bars,
    /// Braille dots, denser and half the vertical cost.
    Braille,
    Off,
}

impl Default for VisualizerMode {
    fn default() -> (r: Self)
        ensures
            r == VisualizerMode::Bars,
    {
        VisualizerMode::Bars
    }
}

impl VisualizerMode {
    pub open spec fn spec_cycle(self) -> VisualizerMode {
        match self {
            VisualizerMode::Bars => VisualizerMode::Braille,
            VisualizerMode::Braille => VisualizerMode::Off,
            VisualizerMode::Off => VisualizerMode::Bars,
        }
    }

    pub fn cycle(self) -> (r: Self)
        ensures
            r == self.spec_cycle(),
    {
        match self {
            VisualizerMode::Bars => VisualizerMode::Braille,
            VisualizerMode::Braille => VisualizerMode::Off,
            VisualizerMode::Off => VisualizerMode::Bars,
        }
    }
}

/// Three presses of the visualizer key come back to where they started.
pub proof fn law_visualizer_cycle_returns(m: VisualizerMode)
    ensures
        m.spec_cycle().spec_cycle().spec_cycle() == m,
        m.spec_cycle() != m,
{
}

} // verus!
