//! A decoded RGB image, row by row: what the encoders read of a cover.
use vstd::prelude::*;

verus! {

/// An RGB image of `width` x `height` pixels, stored row by row.
pub struct RgbImage {
    width: u32,
    height: u32,
    pixels: Vec<[u8; 3]>,
}

impl RgbImage {
    /// Exactly one pixel per cell of the grid.
    pub closed spec fn wf(&self) -> bool {
        self.pixels@.len() == self.width * self.height
    }

    /// Width in pixels.
    pub closed spec fn spec_width(&self) -> nat {
        self.width as nat
    }

    /// Height in pixels.
    pub closed spec fn spec_height(&self) -> nat {
        self.height as nat
    }

    /// The pixels, row by row.
    pub closed spec fn spec_pixels(&self) -> Seq<[u8; 3]> {
        self.pixels@
    }

    /// An image of the given size, every pixel black.
    pub fn new(width: u32, height: u32) -> (img: RgbImage)
        requires
            width * height <= usize::MAX,
        ensures
            img.wf(),
            img.spec_width() == width,
            img.spec_height() == height,
            img.spec_pixels() == Seq::new((width * height) as nat, |_i: int| [0u8, 0u8, 0u8]),
    {
        let n = (width as usize) * (height as usize);
        let mut pixels: Vec<[u8; 3]> = Vec::new();
        let mut i: usize = 0;
        while i < n
            invariant
                i <= n,
                n == width * height,
                pixels@ =~= Seq::new(i as nat, |_i: int| [0u8, 0u8, 0u8]),
            decreases n - i,
        {
            pixels.push([0u8, 0u8, 0u8]);
            i += 1;
        }
        RgbImage { width, height, pixels }
    }

    /// An image from its pixels, row by row; `None` unless there is exactly
    /// one pixel per cell.
    pub fn from_pixels(width: u32, height: u32, pixels: Vec<[u8; 3]>) -> (img: Option<RgbImage>)
        ensures
            img.is_some() == (pixels@.len() == width * height),
            img matches Some(i) ==> i.wf() && i.spec_width() == width && i.spec_height() == height && i.spec_pixels()
                == pixels@,
    {
        let n = pixels.len() as u64;
        assert((width as u64) * (height as u64) <= u64::MAX) by (nonlinear_arith)
            requires
                width <= u32::MAX,
                height <= u32::MAX,
        ;
        if (width as u64) * (height as u64) == n {
            Some(RgbImage { width, height, pixels })
        } else {
            None
        }
    }

    /// Width in pixels.
    pub fn width(&self) -> (w: u32)
        ensures
            w == self.spec_width(),
    {
        self.width
    }

    /// Height in pixels.
    pub fn height(&self) -> (h: u32)
        ensures
            h == self.spec_height(),
    {
        self.height
    }

    /// The pixels, row by row.
    pub fn pixels(&self) -> (p: &[[u8; 3]])
        requires
            self.wf(),
        ensures
            p@ == self.spec_pixels(),
            p@.len() == self.spec_width() * self.spec_height(),
    {
        self.pixels.as_slice()
    }

    /// The pixel at column `x` of row `y`.
    pub fn get_pixel(&self, x: u32, y: u32) -> (p: [u8; 3])
        requires
            self.wf(),
            x < self.spec_width(),
            y < self.spec_height(),
        ensures
            p == self.spec_pixels()[y * self.spec_width() + x],
    {
        let n = self.pixels.len();
        proof {
            lemma_in_grid(x as int, y as int, self.width as int, self.height as int);
        }
        self.pixels[(y as usize) * (self.width as usize) + (x as usize)]
    }

    /// Set the pixel at column `x` of row `y`.
    pub fn put_pixel(&mut self, x: u32, y: u32, p: [u8; 3])
        requires
            old(self).wf(),
            x < old(self).spec_width(),
            y < old(self).spec_height(),
        ensures
            final(self).wf(),
            final(self).spec_width() == old(self).spec_width(),
            final(self).spec_height() == old(self).spec_height(),
            final(self).spec_pixels() == old(self).spec_pixels().update(y * old(self).spec_width() + x, p),
    {
        let n = self.pixels.len();
        proof {
            lemma_in_grid(x as int, y as int, self.width as int, self.height as int);
        }
        let k = (y as usize) * (self.width as usize) + (x as usize);
        self.pixels.set(k, p);
    }
}

proof fn lemma_in_grid(x: int, y: int, w: int, h: int)
    requires
        0 <= x < w,
        0 <= y < h,
    ensures
        0 <= y * w,
        0 <= y * w + x < w * h,
{
    assert(0 <= y * w) by (nonlinear_arith)
        requires
            0 <= y,
            0 <= w,
    ;
    assert(0 <= y * w + x < w * h) by (nonlinear_arith)
        requires
            0 <= x < w,
            0 <= y < h,
    ;
}

} // verus!
