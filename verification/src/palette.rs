//! Colours: the three-slot palette every part of the interface draws from,
//! and the xterm-256 table a configured accent index refers to.
//!
//! The cover-derived palette (k-means over the artwork) and the brightness
//! floors of the text tiers are computed in floating point and live with the
//! program, not here.
use vstd::prelude::*;

verus! {

#[derive(Clone, Copy, Debug, PartialEq, Eq, Structural)]
pub struct Rgb(pub u8, pub u8, pub u8);

/// Three representative colours, darkest first.
#[derive(Clone, Copy, Debug, PartialEq, Eq, Structural)]
pub struct Palette {
    pub dark: Rgb,
    pub mid: Rgb,
    pub bright: Rgb,
}

/// The sixteen system colours of the xterm palette.
pub open spec fn ansi_base(i: u8) -> Rgb {
    if i == 0 {
        Rgb(0, 0, 0)
    } else if i == 1 {
        Rgb(170, 0, 0)
    } else if i == 2 {
        Rgb(0, 170, 0)
    } else if i == 3 {
        Rgb(170, 85, 0)
    } else if i == 4 {
        Rgb(0, 0, 170)
    } else if i == 5 {
        Rgb(170, 0, 170)
    } else if i == 6 {
        Rgb(0, 170, 170)
    } else if i == 7 {
        Rgb(170, 170, 170)
    } else if i == 8 {
        Rgb(85, 85, 85)
    } else if i == 9 {
        Rgb(255, 85, 85)
    } else if i == 10 {
        Rgb(85, 255, 85)
    } else if i == 11 {
        Rgb(255, 255, 85)
    } else if i == 12 {
        Rgb(85, 85, 255)
    } else if i == 13 {
        Rgb(255, 85, 255)
    } else if i == 14 {
        Rgb(85, 255, 255)
    } else {
        Rgb(255, 255, 255)
    }
}

/// The six levels of each axis of the 6x6x6 colour cube.
pub open spec fn cube_level(i: int) -> u8 {
    if i == 0 {
        0
    } else if i == 1 {
        95
    } else if i == 2 {
        135
    } else if i == 3 {
        175
    } else if i == 4 {
        215
    } else {
        255
    }
}

/// RGB for an xterm-256 palette index: sixteen system colours, a 6x6x6
/// cube, then a 24-step greyscale ramp.
pub open spec fn ansi_rgb_spec(index: u8) -> Rgb {
    if index <= 15 {
        ansi_base(index)
    } else if index <= 231 {
        let i = index - 16;
        Rgb(cube_level(i / 36), cube_level((i / 6) % 6), cube_level(i % 6))
    } else {
        let v = 8 + 10 * (index - 232);
        Rgb(v as u8, v as u8, v as u8)
    }
}

fn base(i: u8) -> (r: Rgb)
    requires
        i <= 15,
    ensures
        r == ansi_base(i),
{
    match i {
        0 => Rgb(0, 0, 0),
        1 => Rgb(170, 0, 0),
        2 => Rgb(0, 170, 0),
        3 => Rgb(170, 85, 0),
        4 => Rgb(0, 0, 170),
        5 => Rgb(170, 0, 170),
        6 => Rgb(0, 170, 170),
        7 => Rgb(170, 170, 170),
        8 => Rgb(85, 85, 85),
        9 => Rgb(255, 85, 85),
        10 => Rgb(85, 255, 85),
        11 => Rgb(255, 255, 85),
        12 => Rgb(85, 85, 255),
        13 => Rgb(255, 85, 255),
        14 => Rgb(85, 255, 255),
        _ => Rgb(255, 255, 255),
    }
}

fn level(i: usize) -> (r: u8)
    requires
        i < 6,
    ensures
        r == cube_level(i as int),
{
    match i {
        0 => 0,
        1 => 95,
        2 => 135,
        3 => 175,
        4 => 215,
        _ => 255,
    }
}

/// RGB for an xterm-256 palette index, so a configured `accent_color` means
/// the same thing here as it does in kew.
pub fn ansi_rgb(index: u8) -> (r: Rgb)
    ensures
        r == ansi_rgb_spec(index),
{
    if index <= 15 {
        base(index)
    } else if index <= 231 {
        // 6x6x6 colour cube.
        let i = index as usize - 16;
        Rgb(level(i / 36), level((i / 6) % 6), level(i % 6))
    } else {
        // 24-step greyscale ramp.
        let v: u16 = 8u16 + 10 * (index as u16 - 232);
        let v: u8 = if v > 255 {
            255
        } else {
            v as u8
        };
        Rgb(v, v, v)
    }
}

} // verus!
