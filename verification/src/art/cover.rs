//! From the bytes of a cover to what each graphics protocol sends: the
//! image is decoded once, then scaled for the protocol at hand. Decoding
//! and resampling are the `image` crate's.
use vstd::prelude::*;
use crate::art::raster::RgbImage;
use crate::art::sixel::{encode, encode_post};
use crate::kitty::{draw, draw_post};

verus! {

/// What `image::load_from_memory` makes of `bytes`, as RGB: width, height
/// and pixels row by row; none when the bytes are no image it can read.
pub uninterp spec fn decoded_image(bytes: Seq<u8>) -> Option<(u32, u32, Seq<[u8; 3]>)>;

/// Calls `image::load_from_memory`, then `to_rgb8`. Claimed: the result is
/// `decoded_image` of the bytes, with one pixel for each cell of the grid.
#[verifier::external_body]
fn decode_image(bytes: &[u8]) -> (r: Option<(u32, u32, Vec<[u8; 3]>)>)
    ensures
        match r {
            Some((w, h, px)) => decoded_image(bytes@) == Some((w, h, px@)) && px@.len() == w * h,
            None => decoded_image(bytes@) is None,
        },
{
    let img = image::load_from_memory(bytes).ok()?.to_rgb8();
    let (w, h) = img.dimensions();
    Some((w, h, img.pixels().map(|p| [p[0], p[1], p[2]]).collect()))
}

/// What `image::imageops::resize` with the Lanczos3 filter makes of a
/// `w` x `h` image with pixels `px` at `nw` x `nh`.
pub uninterp spec fn resized(w: u32, h: u32, px: Seq<[u8; 3]>, nw: u32, nh: u32) -> Seq<[u8; 3]>;

/// Calls `image::imageops::resize` with `FilterType::Lanczos3`. Claimed: the
/// result is `resized` of the image and the new size, one pixel for each
/// cell of the new grid.
#[verifier::external_body]
fn resize_pixels(w: u32, h: u32, px: &[[u8; 3]], nw: u32, nh: u32) -> (r: Vec<[u8; 3]>)
    requires
        px@.len() == w * h,
        w > 0,
        h > 0,
        nw > 0,
        nh > 0,
    ensures
        r@.len() == nw * nh,
        r@ == resized(w, h, px@, nw, nh),
{
    let raw: Vec<u8> = px.iter().flat_map(|p| p.iter().copied()).collect();
    let Some(src) = image::RgbImage::from_raw(w, h, raw) else {
        return Vec::new();
    };
    let out = image::imageops::resize(&src, nw, nh, image::imageops::FilterType::Lanczos3);
    out.pixels().map(|p| [p[0], p[1], p[2]]).collect()
}

/// The cover decoded from `bytes`; none when they are no image.
pub fn cover_from_bytes(bytes: &[u8]) -> (r: Option<RgbImage>)
    ensures
        match decoded_image(bytes@) {
            Some((w, h, px)) => r matches Some(i) && i.wf() && i.spec_width() == w && i.spec_height() == h
                && i.spec_pixels() == px,
            None => r is None,
        },
{
    match decode_image(bytes) {
        Some((w, h, px)) => RgbImage::from_pixels(w, h, px),
        None => None,
    }
}

/// `src` scaled to `nw` x `nh`; none when either the image or the new size
/// is empty.
pub fn scaled(src: &RgbImage, nw: u32, nh: u32) -> (r: Option<RgbImage>)
    requires
        src.wf(),
    ensures
        src.spec_width() == 0 || src.spec_height() == 0 || nw == 0 || nh == 0 ==> r is None,
        src.spec_width() > 0 && src.spec_height() > 0 && nw > 0 && nh > 0 ==> (r matches Some(i) && i.wf()
            && i.spec_width() == nw && i.spec_height() == nh && i.spec_pixels() == resized(
            src.spec_width() as u32,
            src.spec_height() as u32,
            src.spec_pixels(),
            nw,
            nh,
        )),
{
    let w = src.width();
    let h = src.height();
    if w == 0 || h == 0 || nw == 0 || nh == 0 {
        return None;
    }
    let px = resize_pixels(w, h, src.pixels(), nw, nh);
    RgbImage::from_pixels(nw, nh, px)
}

/// The side the kitty protocol gets a cover brought down to: the terminal
/// scales to the cell box, so a fixed decent resolution is enough.
pub const KITTY_MAX_PX: u32 = 512;

/// The kitty escape that draws the cover over `cols` x `rows` cells: a
/// cover larger than 512 pixels either way is first resized to 512 x 512,
/// a smaller one is sent as it is.
pub fn kitty_payload(src: &RgbImage, cols: u16, rows: u16) -> (r: Option<String>)
    requires
        src.wf(),
    ensures
        src.spec_width() > KITTY_MAX_PX || src.spec_height() > KITTY_MAX_PX ==> if src.spec_width() == 0
            || src.spec_height() == 0 {
            r is None
        } else {
            draw_post(
                KITTY_MAX_PX as nat,
                KITTY_MAX_PX as nat,
                resized(
                    src.spec_width() as u32,
                    src.spec_height() as u32,
                    src.spec_pixels(),
                    KITTY_MAX_PX,
                    KITTY_MAX_PX,
                ),
                cols,
                rows,
                r,
            )
        },
        src.spec_width() <= KITTY_MAX_PX && src.spec_height() <= KITTY_MAX_PX ==> draw_post(
            src.spec_width(),
            src.spec_height(),
            src.spec_pixels(),
            cols,
            rows,
            r,
        ),
{
    if src.width() > KITTY_MAX_PX || src.height() > KITTY_MAX_PX {
        match scaled(src, KITTY_MAX_PX, KITTY_MAX_PX) {
            Some(img) => draw(&img, cols, rows),
            None => None,
        }
    } else {
        let w = src.width();
        let h = src.height();
        assert(w * h <= 512 * 512) by (nonlinear_arith)
            requires
                w <= 512,
                h <= 512,
        ;
        draw(src, cols, rows)
    }
}

/// The pixel box of `cols` x `rows` cells of `cell` pixels each.
pub open spec fn sixel_box(cols: u16, rows: u16, cell: (u16, u16)) -> (int, int) {
    (cols * cell.0, rows * cell.1)
}

/// The sixel payload for the cover at exactly `cols` x `rows` cells of
/// `cell` pixels each: the cover resized to that pixel box. None for an
/// empty box or cover, or a box too large to encode.
pub fn sixel_payload(src: &RgbImage, cols: u16, rows: u16, cell: (u16, u16)) -> (r: Option<String>)
    requires
        src.wf(),
    ensures
        ({
            let (w, h) = sixel_box(cols, rows, cell);
            if w == 0 || h == 0 || src.spec_width() == 0 || src.spec_height() == 0 || w * h > 50529027 {
                r is None
            } else {
                r matches Some(s) && encode_post(
                    w as nat,
                    h as nat,
                    resized(src.spec_width() as u32, src.spec_height() as u32, src.spec_pixels(), w as u32, h as u32),
                    s@,
                )
            }
        }),
{
    assert((cols as u32) * (cell.0 as u32) <= u32::MAX && (rows as u32) * (cell.1 as u32) <= u32::MAX)
        by (nonlinear_arith)
        requires
            cols <= u16::MAX,
            rows <= u16::MAX,
            cell.0 <= u16::MAX,
            cell.1 <= u16::MAX,
    ;
    let w: u32 = cols as u32 * cell.0 as u32;
    let h: u32 = rows as u32 * cell.1 as u32;
    if w == 0 || h == 0 {
        return None;
    }
    assert((w as u64) * (h as u64) <= u64::MAX) by (nonlinear_arith)
        requires
            w <= u32::MAX,
            h <= u32::MAX,
    ;
    if (w as u64) * (h as u64) > 50529027 {
        return None;
    }
    match scaled(src, w, h) {
        Some(img) => Some(encode(&img)),
        None => None,
    }
}

} // verus!
