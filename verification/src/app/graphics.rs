//! Which graphics protocol the cover is drawn with, and how the region
//! it covered is blanked again.
use vstd::prelude::*;
use crate::config::CoverMode;
use crate::text::{decimal, push_decimal, push_str, string_from};
use crate::ui::views::spaces;

verus! {

/// How the cover is drawn.
#[derive(Clone, Copy, Debug, PartialEq, Eq, Structural)]
pub enum Graphics {
    /// Kitty graphics: sized in cells, so no cell pixel size is involved.
    /// Preferred wherever it is available.
    Kitty,
    /// Sixel: needs an accurate cell pixel size.
    Sixel,
    /// Unicode half-blocks inside the text buffer.
    Blocks,
}

impl Graphics {
    /// The protocol for `mode`, given whether the terminal speaks kitty
    /// graphics and whether sixel is recommended here. Kitty comes first: it
    /// is the only protocol that sidesteps cell-size detection entirely.
    pub fn resolve(mode: CoverMode, kitty_ok: bool, sixel_ok: bool) -> (g: Graphics)
        ensures
            g == if mode == CoverMode::Kitty || (mode == CoverMode::Auto && kitty_ok) {
                Graphics::Kitty
            } else if mode == CoverMode::Sixel || (mode == CoverMode::Auto && sixel_ok) {
                Graphics::Sixel
            } else {
                Graphics::Blocks
            },
    {
        if mode.uses_kitty(kitty_ok) {
            return Graphics::Kitty;
        }
        if mode.uses_sixel(sixel_ok) {
            return Graphics::Sixel;
        }
        Graphics::Blocks
    }
}


/// Row `row` of a blanked region: the cursor moved to its start (rows and
/// columns counted from one) and `width` spaces written.
pub open spec fn blank_row(x: u16, y: u16, width: u16, row: int) -> Seq<char> {
    "\x1b["@ + decimal((y + row + 1) as nat) + ";"@ + decimal((x + 1) as nat) + "H"@ + spaces(width as int)
}

/// The first `k` rows of a blanked region.
pub open spec fn blank_rows(x: u16, y: u16, width: u16, k: int) -> Seq<char>
    decreases k,
{
    if k <= 0 {
        Seq::empty()
    } else {
        blank_rows(x, y, width, k - 1) + blank_row(x, y, width, k - 1)
    }
}

/// Spaces over every cell of the `width` x `height` region at column `x`,
/// row `y`, to erase what a pixel image left there; nothing for an empty
/// region.
pub fn blank_region(x: u16, y: u16, width: u16, height: u16) -> (r: String)
    requires
        x < u16::MAX,
        y + height <= u16::MAX,
    ensures
        r@ == blank_rows(x, y, width, height as int),
{
    let mut out: Vec<char> = Vec::new();
    let mut row: u16 = 0;
    while row < height
        invariant
            row <= height,
            x < u16::MAX,
            y + height <= u16::MAX,
            out@ == blank_rows(x, y, width, row as int),
        decreases height - row,
    {
        let ghost before = out@;
        push_str(&mut out, "\x1b[");
        push_decimal(&mut out, (y + row + 1) as u64);
        push_str(&mut out, ";");
        push_decimal(&mut out, (x + 1) as u64);
        push_str(&mut out, "H");
        let mut k: u16 = 0;
        let ghost mid = out@;
        while k < width
            invariant
                k <= width,
                out@ == mid + spaces(k as int),
            decreases width - k,
        {
            out.push(' ');
            k += 1;
            assert(out@ =~= mid + spaces(k as int));
        }
        assert(out@ =~= before + blank_row(x, y, width, row as int));
        row += 1;
    }
    string_from(out.as_slice())
}

} // verus!
