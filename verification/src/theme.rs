//! Named colour themes.
//!
//! A theme is three colours, matching the slots the palette already exposes:
//! `dark` for borders and inactive chrome, `mid` for secondary text, `bright`
//! for accents, titles and the progress bar. That is deliberately the same
//! shape the cover-derived palette produces, so a fixed theme and album
//! colours are interchangeable everywhere.
use vstd::prelude::*;
use crate::palette::{Palette, Rgb};
use crate::text::{chars_of, eq_chars, is_hex, trim, trim_spec};

verus! {

#[derive(Clone, Copy, Debug)]
pub struct Theme {
    pub name: &'static str,
    pub dark: Rgb,
    pub mid: Rgb,
    pub bright: Rgb,
}

/// A theme as plain values: its name and its three colours.
pub type ThemeView = (Seq<char>, Rgb, Rgb, Rgb);

impl View for Theme {
    type V = ThemeView;

    open spec fn view(&self) -> ThemeView {
        (self.name@, self.dark, self.mid, self.bright)
    }
}

impl Theme {
    pub fn palette(&self) -> (p: Palette)
        ensures
            p == (Palette { dark: self.dark, mid: self.mid, bright: self.bright }),
    {
        Palette { dark: self.dark, mid: self.mid, bright: self.bright }
    }
}

/// The built-in themes, in the order the theme key cycles through them.
/// `cover` is handled separately -- it means "take the colours from the
/// album art" and so has no fixed values here.
pub open spec fn builtin_themes() -> Seq<ThemeView> {
    seq![
        ("gruvbox"@, Rgb(0x50, 0x49, 0x45), Rgb(0xd5, 0xc4, 0xa1), Rgb(0xfa, 0xbd, 0x2f)),
        ("nord"@, Rgb(0x4c, 0x56, 0x6a), Rgb(0x81, 0xa1, 0xc1), Rgb(0x88, 0xc0, 0xd0)),
        ("dracula"@, Rgb(0x44, 0x47, 0x5a), Rgb(0x62, 0x72, 0xa4), Rgb(0xbd, 0x93, 0xf9)),
        ("catppuccin"@, Rgb(0x45, 0x47, 0x5a), Rgb(0xa6, 0xad, 0xc8), Rgb(0xcb, 0xa6, 0xf7)),
        ("tokyonight"@, Rgb(0x41, 0x48, 0x68), Rgb(0x7a, 0xa2, 0xf7), Rgb(0xbb, 0x9a, 0xf7)),
        ("everforest"@, Rgb(0x4f, 0x58, 0x5e), Rgb(0xa7, 0xc0, 0x80), Rgb(0xdb, 0xbc, 0x7f)),
        ("rosepine"@, Rgb(0x52, 0x4f, 0x67), Rgb(0x9c, 0xcf, 0xd8), Rgb(0xeb, 0xbc, 0xba)),
        ("solarized"@, Rgb(0x07, 0x36, 0x42), Rgb(0x83, 0x94, 0x96), Rgb(0x26, 0x8b, 0xd2)),
        ("matrix"@, Rgb(0x0f, 0x3d, 0x0f), Rgb(0x2f, 0xa8, 0x2f), Rgb(0x5c, 0xff, 0x5c)),
        ("mono"@, Rgb(0x44, 0x44, 0x44), Rgb(0x99, 0x99, 0x99), Rgb(0xee, 0xee, 0xee)),
    ]
}

/// The built-in themes.
pub fn themes() -> (r: Vec<Theme>)
    ensures
        r@.map_values(|t: Theme| t@) == builtin_themes(),
{
    let r = vec![
        Theme {
            name: "gruvbox",
            dark: Rgb(0x50, 0x49, 0x45),
            mid: Rgb(0xd5, 0xc4, 0xa1),
            bright: Rgb(0xfa, 0xbd, 0x2f),
        },
        Theme {
            name: "nord",
            dark: Rgb(0x4c, 0x56, 0x6a),
            mid: Rgb(0x81, 0xa1, 0xc1),
            bright: Rgb(0x88, 0xc0, 0xd0),
        },
        Theme {
            name: "dracula",
            dark: Rgb(0x44, 0x47, 0x5a),
            mid: Rgb(0x62, 0x72, 0xa4),
            bright: Rgb(0xbd, 0x93, 0xf9),
        },
        Theme {
            name: "catppuccin",
            dark: Rgb(0x45, 0x47, 0x5a),
            mid: Rgb(0xa6, 0xad, 0xc8),
            bright: Rgb(0xcb, 0xa6, 0xf7),
        },
        Theme {
            name: "tokyonight",
            dark: Rgb(0x41, 0x48, 0x68),
            mid: Rgb(0x7a, 0xa2, 0xf7),
            bright: Rgb(0xbb, 0x9a, 0xf7),
        },
        Theme {
            name: "everforest",
            dark: Rgb(0x4f, 0x58, 0x5e),
            mid: Rgb(0xa7, 0xc0, 0x80),
            bright: Rgb(0xdb, 0xbc, 0x7f),
        },
        Theme {
            name: "rosepine",
            dark: Rgb(0x52, 0x4f, 0x67),
            mid: Rgb(0x9c, 0xcf, 0xd8),
            bright: Rgb(0xeb, 0xbc, 0xba),
        },
        Theme {
            name: "solarized",
            dark: Rgb(0x07, 0x36, 0x42),
            mid: Rgb(0x83, 0x94, 0x96),
            bright: Rgb(0x26, 0x8b, 0xd2),
        },
        Theme {
            name: "matrix",
            dark: Rgb(0x0f, 0x3d, 0x0f),
            mid: Rgb(0x2f, 0xa8, 0x2f),
            bright: Rgb(0x5c, 0xff, 0x5c),
        },
        Theme {
            name: "mono",
            dark: Rgb(0x44, 0x44, 0x44),
            mid: Rgb(0x99, 0x99, 0x99),
            bright: Rgb(0xee, 0xee, 0xee),
        },
    ];
    assert(r@.map_values(|t: Theme| t@) =~= builtin_themes());
    r
}

/// The theme name meaning "use the album artwork".
pub fn cover() -> (r: &'static str)
    ensures
        r@ == "cover"@,
{
    "cover"
}

/// Every selectable name, with `cover` first since it is the default.
pub fn names() -> (r: Vec<&'static str>)
    ensures
        r@.len() == builtin_themes().len() + 1,
        r@[0]@ == "cover"@,
        forall|i: int| 1 <= i < r@.len() ==> (#[trigger] r@[i])@ == builtin_themes()[i - 1].0,
{
    let mut v: Vec<&'static str> = Vec::new();
    v.push(cover());
    let ts = themes();
    let mut i: usize = 0;
    while i < ts.len()
        invariant
            0 <= i <= ts@.len(),
            ts@.map_values(|t: Theme| t@) == builtin_themes(),
            v@.len() == i + 1,
            v@[0]@ == "cover"@,
            forall|j: int| 1 <= j < v@.len() ==> (#[trigger] v@[j])@ == builtin_themes()[j - 1].0,
        decreases ts@.len() - i,
    {
        assert(ts@[i as int]@ == builtin_themes()[i as int]);
        v.push(ts[i].name);
        i += 1;
    }
    v
}

/// `char::to_ascii_lowercase`.
pub open spec fn lower_ascii(c: char) -> char {
    if 'A' <= c && c <= 'Z' {
        ((c as u32) + 32) as char
    } else {
        c
    }
}

pub open spec fn lower_ascii_str(s: Seq<char>) -> Seq<char> {
    s.map_values(|c: char| lower_ascii(c))
}

pub fn to_ascii_lower(c: char) -> (r: char)
    ensures
        r == lower_ascii(c),
{
    if 'A' <= c && c <= 'Z' {
        ((c as u8) + 32) as char
    } else {
        c
    }
}

/// The first built-in theme named `n`.
pub open spec fn theme_named(n: Seq<char>) -> Option<int> {
    if exists|i: int| 0 <= i < builtin_themes().len() && builtin_themes()[i].0 == n {
        Some(
            choose|i: int|
                0 <= i < builtin_themes().len() && builtin_themes()[i].0 == n && forall|j: int|
                    0 <= j < i ==> builtin_themes()[j].0 != n,
        )
    } else {
        None
    }
}

/// Look up a theme by name, case-insensitively (ASCII) and ignoring
/// surrounding whitespace. `None` for `cover` or an unknown name, both of
/// which mean "no fixed palette".
pub fn find(name: &str) -> (r: Option<Theme>)
    ensures
        match r {
            Some(t) => exists|i: int|
                0 <= i < builtin_themes().len() && builtin_themes()[i] == t@ && t@.0
                    == lower_ascii_str(trim_spec(name@)),
            None => forall|i: int|
                0 <= i < builtin_themes().len() ==> builtin_themes()[i].0 != lower_ascii_str(
                    trim_spec(name@),
                ),
        },
{
    let raw = chars_of(name);
    let t = trim(raw.as_slice());
    let mut n: Vec<char> = Vec::new();
    let mut k: usize = 0;
    while k < t.len()
        invariant
            0 <= k <= t@.len(),
            n@ =~= lower_ascii_str(t@.take(k as int)),
        decreases t@.len() - k,
    {
        n.push(to_ascii_lower(t[k]));
        k += 1;
    }
    assert(t@.take(t@.len() as int) =~= t@);
    let ts = themes();
    let mut i: usize = 0;
    while i < ts.len()
        invariant
            0 <= i <= ts@.len(),
            ts@.map_values(|t: Theme| t@) == builtin_themes(),
            n@ == lower_ascii_str(trim_spec(name@)),
            forall|j: int| 0 <= j < i ==> builtin_themes()[j].0 != n@,
        decreases ts@.len() - i,
    {
        let nm = chars_of(ts[i].name);
        assert(ts@[i as int]@ == builtin_themes()[i as int]);
        if eq_chars(nm.as_slice(), n.as_slice()) {
            return Some(ts[i]);
        }
        i += 1;
    }
    None
}

/// Two hex digits as a byte.
pub open spec fn hex_val(c: char) -> nat {
    if '0' <= c && c <= '9' {
        ((c as u32) - 48) as nat
    } else if 'a' <= c && c <= 'f' {
        ((c as u32) - 87) as nat
    } else {
        ((c as u32) - 55) as nat
    }
}

pub open spec fn hex_byte(hi: char, lo: char) -> u8 {
    (hex_val(hi) * 16 + hex_val(lo)) as u8
}

/// One leading `#` removed, if there is one.
pub open spec fn drop_hash(s: Seq<char>) -> Seq<char> {
    if s.len() > 0 && s[0] == '#' {
        s.drop_first()
    } else {
        s
    }
}

/// `#rrggbb` or `rrggbb`, surrounding whitespace allowed: six hex digits,
/// with at most one `#` before them.
pub open spec fn parse_hex_spec(s: Seq<char>) -> Option<Rgb> {
    let h = drop_hash(trim_spec(s));
    if h.len() == 6 && forall|i: int| 0 <= i < 6 ==> #[trigger] is_hex(h[i]) {
        Some(Rgb(hex_byte(h[0], h[1]), hex_byte(h[2], h[3]), hex_byte(h[4], h[5])))
    } else {
        None
    }
}

fn hex_digit(c: char) -> (r: u8)
    requires
        is_hex(c),
    ensures
        r == hex_val(c),
        r < 16,
{
    if '0' <= c && c <= '9' {
        (c as u8) - 48
    } else if 'a' <= c && c <= 'f' {
        (c as u8) - 87
    } else {
        (c as u8) - 55
    }
}

fn is_hex_digit(c: char) -> (r: bool)
    ensures
        r == is_hex(c),
{
    ('0' <= c && c <= '9') || ('a' <= c && c <= 'f') || ('A' <= c && c <= 'F')
}

/// Parse `#rrggbb` or `rrggbb`.
pub fn parse_hex(s: &str) -> (r: Option<Rgb>)
    ensures
        r == parse_hex_spec(s@),
{
    let raw = chars_of(s);
    let t = trim(raw.as_slice());
    let i: usize = if t.len() > 0 && t[0] == '#' {
        1
    } else {
        0
    };
    let h = &t[i..t.len()];
    assert(h@ =~= drop_hash(t@));
    if h.len() != 6 {
        return None;
    }
    let mut k: usize = 0;
    while k < 6
        invariant
            0 <= k <= 6,
            h@.len() == 6,
            h@ == drop_hash(trim_spec(s@)),
            forall|j: int| 0 <= j < k ==> #[trigger] is_hex(h@[j]),
        decreases 6 - k,
    {
        if !is_hex_digit(h[k]) {
            assert(!is_hex(h@[k as int]));
            return None;
        }
        k += 1;
    }
    let r = hex_digit(h[0]) * 16 + hex_digit(h[1]);
    let g = hex_digit(h[2]) * 16 + hex_digit(h[3]);
    let b = hex_digit(h[4]) * 16 + hex_digit(h[5]);
    Some(Rgb(r, g, b))
}

/// A palette from three hex strings, for a theme defined in the config.
pub fn from_hex(colors: &[String]) -> (r: Option<Palette>)
    ensures
        colors@.len() != 3 ==> r is None,
        colors@.len() == 3 ==> r == match (
            parse_hex_spec(colors@[0]@),
            parse_hex_spec(colors@[1]@),
            parse_hex_spec(colors@[2]@),
        ) {
            (Some(d), Some(m), Some(b)) => Some(Palette { dark: d, mid: m, bright: b }),
            _ => None,
        },
{
    if colors.len() != 3 {
        return None;
    }
    let dark = match parse_hex(colors[0].as_str()) {
        Some(c) => c,
        None => return None,
    };
    let mid = match parse_hex(colors[1].as_str()) {
        Some(c) => c,
        None => return None,
    };
    let bright = match parse_hex(colors[2].as_str()) {
        Some(c) => c,
        None => return None,
    };
    Some(Palette { dark, mid, bright })
}

} // verus!
