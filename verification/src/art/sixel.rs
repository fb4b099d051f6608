//! Sixel encoder for album art.
//!
//! Encoding here rather than shelling out gives exact pixel dimensions (an
//! external encoder piped into a TUI never sees a tty to size from) and reuses
//! the image already decoded.
//!
//! Colours come from the adaptive median-cut palette; pixels are mapped onto
//! it through the nearest-colour lookup cube.
use vstd::prelude::*;
use crate::art::quantize::{
    build_lut, is_cut, is_nearest, lut_cell, lut_entry_ok, lut_index, median_cut, LUT_CELLS, PALETTE_SIZE,
};
use crate::art::raster::RgbImage;
use crate::text::{decimal, push_decimal, string_from};

verus! {

/// The sixel character for a column of six pixel bits.
pub open spec fn sixel_char(bits: u8) -> char {
    ((bits as int + 63) as u32) as char
}

/// One run of `len` copies of `ch`: the `!` repeat form past three, the
/// characters themselves otherwise.
pub open spec fn emit(ch: char, len: nat) -> Seq<char> {
    if len > 3 {
        seq!['!'] + decimal(len) + seq![ch]
    } else {
        Seq::new(len, |_i: int| ch)
    }
}

/// Length of the run of equal values starting at place `i`.
pub open spec fn run_len(s: Seq<u8>, i: int) -> nat
    decreases s.len() - i,
{
    if 0 <= i && i + 1 < s.len() && s[i + 1] == s[i] {
        1 + run_len(s, i + 1)
    } else {
        1
    }
}

/// Run-length encoding of the sixel characters for `s` from place `i` on:
/// each maximal run of one value becomes one `emit`.
pub open spec fn rle_from(s: Seq<u8>, i: int) -> Seq<char>
    decreases s.len() - i,
{
    if i < 0 || i >= s.len() {
        Seq::empty()
    } else {
        proof {
            lemma_run_len_positive(s, i);
        }
        emit(sixel_char(s[i]), run_len(s, i)) + rle_from(s, i + run_len(s, i))
    }
}

/// A run holds at least the value it starts at, and stays inside the row.
pub proof fn lemma_run_len_positive(s: Seq<u8>, i: int)
    requires
        0 <= i < s.len(),
    ensures
        1 <= run_len(s, i) <= s.len() - i,
    decreases s.len() - i,
{
    if i + 1 < s.len() && s[i + 1] == s[i] {
        lemma_run_len_positive(s, i + 1);
    }
}

proof fn lemma_run_len(s: Seq<u8>, i: int, k: int)
    requires
        0 <= i,
        1 <= k,
        i + k <= s.len(),
        forall|q: int| i <= q < i + k ==> #[trigger] s[q] == s[i],
        i + k == s.len() || s[i + k] != s[i],
    ensures
        run_len(s, i) == k,
    decreases k,
{
    if k > 1 {
        lemma_run_len(s, i + 1, k - 1);
    }
}

/// The sixel character for `bits < 64`.
fn sixel_char_of(bits: u8) -> (c: char)
    requires
        bits < 64,
    ensures
        c == sixel_char(bits),
{
    (bits + 63) as char
}

/// Append one run.
fn emit_run(out: &mut Vec<char>, ch: char, len: usize)
    ensures
        final(out)@ == old(out)@ + emit(ch, len as nat),
{
    if len > 3 {
        out.push('!');
        push_decimal(out, len as u64);
        out.push(ch);
        assert(final(out)@ =~= old(out)@ + emit(ch, len as nat)) by {
            assert(out@ =~= old(out)@ + seq!['!'] + decimal(len as nat) + seq![ch]);
        }
    } else {
        let mut i: usize = 0;
        while i < len
            invariant
                i <= len,
                out@ =~= old(out)@ + Seq::new(i as nat, |_j: int| ch),
            decreases len - i,
        {
            out.push(ch);
            i += 1;
        }
    }
}

/// Append the run-length encoding of the sixel characters for `row`.
fn push_rle(out: &mut Vec<char>, row: &[u8])
    requires
        forall|q: int| 0 <= q < row@.len() ==> #[trigger] row@[q] < 64,
    ensures
        final(out)@ == old(out)@ + rle_from(row@, 0),
{
    let n = row.len();
    let mut i: usize = 0;
    while i < n
        invariant
            n == row@.len(),
            i <= n,
            forall|q: int| 0 <= q < row@.len() ==> #[trigger] row@[q] < 64,
            old(out)@ + rle_from(row@, 0) == out@ + rle_from(row@, i as int),
        decreases n - i,
    {
        let b = row[i];
        let mut k: usize = 1;
        while i + k < n && row[i + k] == b
            invariant
                n == row@.len(),
                i < n,
                1 <= k,
                i + k <= n,
                b == row@[i as int],
                forall|q: int| i <= q < i + k ==> #[trigger] row@[q] == b,
            decreases n - i - k,
        {
            k += 1;
        }
        proof {
            lemma_run_len(row@, i as int, k as int);
        }
        let ch = sixel_char_of(b);
        emit_run(out, ch, k);
        assert(rle_from(row@, i as int) == emit(ch, k as nat) + rle_from(row@, (i + k) as int));
        i += k;
    }
}

/// The weight of pixel row `dy` within a sixel.
pub open spec fn weight(dy: int) -> nat {
    if dy == 0 {
        1
    } else if dy == 1 {
        2
    } else if dy == 2 {
        4
    } else if dy == 3 {
        8
    } else if dy == 4 {
        16
    } else {
        32
    }
}

/// All bits set for the first `r` rows, `r <= 6`.
pub open spec fn full_bits(r: int) -> nat {
    if r <= 0 {
        0
    } else if r == 1 {
        1
    } else if r == 2 {
        3
    } else if r == 3 {
        7
    } else if r == 4 {
        15
    } else if r == 5 {
        31
    } else {
        63
    }
}

/// The palette entry of the pixel in column `x`, `dy` rows into the band that
/// starts at row `y0` of an image `w` pixels wide.
pub open spec fn cell(idx: Seq<u8>, w: int, y0: int, dy: int, x: int) -> int {
    idx[(y0 + dy) * w + x] as int
}

/// The sixel bits of column `x` for colour `c`, over the first `r` pixel rows
/// of the band that starts at row `y0` of an image `w` pixels wide.
pub open spec fn column_bits(idx: Seq<u8>, w: int, y0: int, r: int, x: int, c: int) -> nat
    decreases r,
{
    if r <= 0 {
        0
    } else {
        column_bits(idx, w, y0, r - 1, x, c) + (if cell(idx, w, y0, r - 1, x) == c {
            weight(r - 1)
        } else {
            0
        })
    }
}

/// The row of sixel bits colour `c` paints across a band.
pub open spec fn band_row(idx: Seq<u8>, w: int, y0: int, r: int, c: int) -> Seq<u8> {
    Seq::new(w as nat, |x: int| column_bits(idx, w, y0, r, x, c) as u8)
}

/// `s` without its trailing zeros.
pub open spec fn trim_zeros(s: Seq<u8>) -> Seq<u8>
    decreases s.len(),
{
    if s.len() == 0 {
        s
    } else if s.last() == 0 {
        trim_zeros(s.drop_last())
    } else {
        s
    }
}

/// One colour pass: select the register, then the run-length encoded row.
pub open spec fn pass(c: int, t: Seq<u8>) -> Seq<char> {
    seq!['#'] + decimal(c as nat) + rle_from(t, 0)
}

/// The passes of the first `m` colours over one band, in colour order,
/// separated by graphics carriage returns; colours absent from the band
/// write nothing.
pub open spec fn passes_upto(idx: Seq<u8>, w: int, y0: int, r: int, m: int) -> Seq<char>
    decreases m,
{
    if m <= 0 {
        Seq::empty()
    } else {
        let prev = passes_upto(idx, w, y0, r, m - 1);
        let t = trim_zeros(band_row(idx, w, y0, r, m - 1));
        if t.len() == 0 {
            prev
        } else if prev.len() == 0 {
            pass(m - 1, t)
        } else {
            prev + seq!['$'] + pass(m - 1, t)
        }
    }
}

/// Number of six-row bands in an image `h` rows high.
pub open spec fn band_count(h: int) -> int {
    (h + 5) / 6
}

/// Pixel rows in band `b`.
pub open spec fn band_rows(h: int, b: int) -> int {
    if h - 6 * b < 6 {
        h - 6 * b
    } else {
        6
    }
}

/// The first `b` bands, each but the last followed by a graphics newline.
pub open spec fn bands_upto(idx: Seq<u8>, w: int, h: int, m: int, b: int) -> Seq<char>
    decreases b,
{
    if b <= 0 {
        Seq::empty()
    } else {
        bands_upto(idx, w, h, m, b - 1) + passes_upto(idx, w, 6 * (b - 1), band_rows(h, b - 1), m) + (
        if b < band_count(h) {
            seq!['-']
        } else {
            Seq::empty()
        })
    }
}

/// Some pixel uses palette entry `i`.
pub open spec fn is_used(idx: Seq<u8>, i: int) -> bool {
    exists|k: int| 0 <= k < idx.len() && #[trigger] idx[k] as int == i
}

/// A channel value in percent, rounded to nearest, as the format requires.
pub open spec fn percent(v: u8) -> nat {
    ((v as nat) * 100 + 127) / 255
}

/// The colour register definition for entry `i`.
pub open spec fn register(i: int, c: [u8; 3]) -> Seq<char> {
    seq!['#'] + decimal(i as nat) + seq![';', '2', ';'] + decimal(percent(c[0])) + seq![';'] + decimal(
        percent(c[1]),
    ) + seq![';'] + decimal(percent(c[2]))
}

/// Register definitions for the used entries among the first `i`.
pub open spec fn registers_upto(pal: Seq<[u8; 3]>, idx: Seq<u8>, i: int) -> Seq<char>
    decreases i,
{
    if i <= 0 {
        Seq::empty()
    } else {
        registers_upto(pal, idx, i - 1) + (if is_used(idx, i - 1) {
            register(i - 1, pal[i - 1])
        } else {
            Seq::empty()
        })
    }
}

/// Device control introducer with aspect and background parameters, then the
/// start of the raster attributes.
pub open spec fn intro() -> Seq<char> {
    seq!['\x1b', 'P', '0', ';', '0', ';', '0', 'q', '"', '1', ';', '1', ';']
}

/// The sixel payload for a `w` x `h` image whose pixels, row by row, use the
/// palette entries `idx`: introducer, raster size, the registers in use, the
/// bands, and the string terminator. Empty for an empty image.
pub open spec fn sixel_spec(w: int, h: int, idx: Seq<u8>, pal: Seq<[u8; 3]>) -> Seq<char> {
    if w == 0 || h == 0 {
        Seq::empty()
    } else {
        intro() + decimal(w as nat) + seq![';'] + decimal(h as nat) + registers_upto(pal, idx, pal.len() as int)
            + bands_upto(idx, w, h, pal.len() as int, band_count(h)) + seq!['\x1b', '\\']
    }
}

proof fn lemma_cell_in_image(a: int, x: int, w: int, h: int)
    requires
        0 <= a < h,
        0 <= x < w,
    ensures
        0 <= a * w + x < h * w,
        a * w + x < w * h,
        a * w <= a * w + x,
{
    assert(w * h == h * w) by (nonlinear_arith);
    assert(a * w + x < h * w) by (nonlinear_arith)
        requires
            0 <= a < h,
            0 <= x < w,
    ;
    assert(0 <= a * w) by (nonlinear_arith)
        requires
            0 <= a,
            0 <= w,
    ;
}

proof fn lemma_column_bits_bound(idx: Seq<u8>, w: int, y0: int, r: int, x: int, c: int)
    requires
        r <= 6,
    ensures
        column_bits(idx, w, y0, r, x, c) <= full_bits(r),
    decreases r,
{
    if r > 0 {
        lemma_column_bits_bound(idx, w, y0, r - 1, x, c);
    }
}

proof fn lemma_column_bits_absent(idx: Seq<u8>, w: int, y0: int, r: int, x: int, c: int)
    requires
        forall|dy: int| 0 <= dy < r ==> #[trigger] cell(idx, w, y0, dy, x) != c,
    ensures
        column_bits(idx, w, y0, r, x, c) == 0,
    decreases r,
{
    if r > 0 {
        assert(cell(idx, w, y0, r - 1, x) != c);
        lemma_column_bits_absent(idx, w, y0, r - 1, x, c);
    }
}

proof fn lemma_trim_zeros(s: Seq<u8>, k: int)
    requires
        0 <= k <= s.len(),
        forall|q: int| k <= q < s.len() ==> #[trigger] s[q] == 0,
        k == 0 || s[k - 1] != 0,
    ensures
        trim_zeros(s) == s.subrange(0, k),
    decreases s.len(),
{
    if s.len() == 0 {
        assert(s.subrange(0, k) =~= s);
    } else if k == s.len() {
        assert(s.subrange(0, k) =~= s);
    } else {
        assert(s.last() == 0);
        lemma_trim_zeros(s.drop_last(), k);
        assert(s.drop_last().subrange(0, k) =~= s.subrange(0, k));
    }
}

/// Append the literal characters `lit`.
fn push_lit(out: &mut Vec<char>, lit: &[char])
    ensures
        final(out)@ == old(out)@ + lit@,
{
    let mut i: usize = 0;
    while i < lit.len()
        invariant
            i <= lit@.len(),
            out@ =~= old(out)@ + lit@.take(i as int),
        decreases lit@.len() - i,
    {
        out.push(lit[i]);
        i += 1;
    }
    assert(lit@.take(lit@.len() as int) =~= lit@);
}

fn percent_of(v: u8) -> (p: u64)
    ensures
        p as nat == percent(v),
{
    (v as u64 * 100 + 127) / 255
}

/// Append the register definitions for the palette entries in use.
fn push_registers(out: &mut Vec<char>, idx: &[u8], palette: &[[u8; 3]])
    requires
        palette@.len() <= 256,
        forall|k: int| 0 <= k < idx@.len() ==> (#[trigger] idx@[k] as int) < palette@.len(),
    ensures
        final(out)@ == old(out)@ + registers_upto(palette@, idx@, palette@.len() as int),
{
    let mut used: Vec<bool> = vec![false; palette.len()];
    let mut k: usize = 0;
    while k < idx.len()
        invariant
            palette@.len() <= 256,
            forall|q: int| 0 <= q < idx@.len() ==> (#[trigger] idx@[q] as int) < palette@.len(),
            k <= idx@.len(),
            used@.len() == palette@.len(),
            forall|i: int| 0 <= i < palette@.len() ==> (#[trigger] used@[i] == exists|q: int|
                0 <= q < k && #[trigger] idx@[q] as int == i),
        decreases idx@.len() - k,
    {
        let v = idx[k] as usize;
        used.set(v, true);
        proof {
            assert forall|i: int| 0 <= i < palette@.len() implies (#[trigger] used@[i] == exists|q: int|
                0 <= q < k + 1 && #[trigger] idx@[q] as int == i) by {
                if i == v as int {
                    assert(idx@[k as int] as int == i);
                }
            }
        }
        k += 1;
    }
    let mut i: usize = 0;
    while i < palette.len()
        invariant
            i <= palette@.len(),
            used@.len() == palette@.len(),
            forall|j: int| 0 <= j < palette@.len() ==> (#[trigger] used@[j] == is_used(idx@, j)),
            out@ == old(out)@ + registers_upto(palette@, idx@, i as int),
        decreases palette@.len() - i,
    {
        if used[i] {
            let c = palette[i];
            let ghost before = out@;
            out.push('#');
            push_decimal(out, i as u64);
            push_lit(out, &[';', '2', ';']);
            push_decimal(out, percent_of(c[0]));
            out.push(';');
            push_decimal(out, percent_of(c[1]));
            out.push(';');
            push_decimal(out, percent_of(c[2]));
            assert(out@ =~= before + register(i as int, palette@[i as int]));
        }
        i += 1;
    }
}

/// Append the passes of one band.
fn push_band(out: &mut Vec<char>, idx: &[u8], w: usize, h: usize, y0: usize, rows: usize, m: usize)
    requires
        idx@.len() == w * h,
        1 <= rows <= 6,
        y0 + rows <= h,
        m <= 256,
        forall|k: int| 0 <= k < idx@.len() ==> (#[trigger] idx@[k] as int) < m,
    ensures
        final(out)@ == old(out)@ + passes_upto(idx@, w as int, y0 as int, rows as int, m as int),
{
    // Which colours appear in this band at all.
    let mut seen: Vec<bool> = vec![false; m];
    let total = idx.len();
    proof {
        assert(y0 * w <= (y0 + rows) * w <= h * w) by (nonlinear_arith)
            requires
                y0 + rows <= h,
        ;
    }
    let lo = y0 * w;
    let hi = (y0 + rows) * w;
    let mut q: usize = lo;
    while q < hi
        invariant
            lo <= q <= hi,
            hi <= idx@.len(),
            total == idx@.len(),
            seen@.len() == m,
            forall|k: int| 0 <= k < idx@.len() ==> (#[trigger] idx@[k] as int) < m,
            forall|k: int| lo <= k < q ==> #[trigger] seen@[idx@[k] as int],
        decreases hi - q,
    {
        let v = idx[q] as usize;
        seen.set(v, true);
        q += 1;
    }
    let ghost start = out@;
    let mut wrote_pass = false;
    let mut bits_row: Vec<u8> = Vec::new();
    let mut c: usize = 0;
    while c < m
        invariant
            idx@.len() == w * h,
            total == idx@.len(),
            1 <= rows <= 6,
            y0 + rows <= h,
            m <= 256,
            c <= m,
            seen@.len() == m,
            lo == y0 * w,
            hi == (y0 + rows) * w,
            forall|k: int| lo <= k < hi ==> #[trigger] seen@[idx@[k] as int],
            out@ == start + passes_upto(idx@, w as int, y0 as int, rows as int, c as int),
            wrote_pass == (passes_upto(idx@, w as int, y0 as int, rows as int, c as int).len() > 0),
        decreases m - c,
    {
        let ghost row_spec = band_row(idx@, w as int, y0 as int, rows as int, c as int);
        if !seen[c] {
            proof {
                assert forall|x: int| 0 <= x < w implies #[trigger] row_spec[x] == 0 by {
                    assert forall|dy: int| 0 <= dy < rows implies #[trigger] cell(idx@, w as int, y0 as int, dy, x) != c by {
                        lemma_cell_in_image(y0 + dy, x, w as int, h as int);
                        let k = (y0 + dy) * w + x;
                        assert(lo <= k < hi) by (nonlinear_arith)
                            requires
                                0 <= dy < rows,
                                0 <= x < w,
                                lo == y0 * w,
                                hi == (y0 + rows) * w,
                                k == (y0 + dy) * w + x,
                        ;
                        assert(seen@[idx@[k] as int]);
                    }
                    lemma_column_bits_absent(idx@, w as int, y0 as int, rows as int, x, c as int);
                }
                lemma_trim_zeros(row_spec, 0);
            }
        } else {
            // Build this colour's row of bits, noting the last nonzero one so
            // trailing empty space can be dropped.
            bits_row.clear();
            let mut last_set: Option<usize> = None;
            let mut x: usize = 0;
            while x < w
                invariant
                    idx@.len() == w * h,
                    total == idx@.len(),
                    1 <= rows <= 6,
                    y0 + rows <= h,
                    x <= w,
                    c < m,
                    row_spec == band_row(idx@, w as int, y0 as int, rows as int, c as int),
                    bits_row@ == row_spec.take(x as int),
                    match last_set {
                        None => forall|q: int| 0 <= q < x ==> #[trigger] row_spec[q] == 0,
                        Some(l) => l < x && row_spec[l as int] != 0 && forall|q: int| l < q < x ==> #[trigger] row_spec[q] == 0,
                    },
                decreases w - x,
            {
                let mut bits: u8 = 0;
                let mut dy: usize = 0;
                while dy < rows
                    invariant
                        idx@.len() == w * h,
                        total == idx@.len(),
                        1 <= rows <= 6,
                        y0 + rows <= h,
                        x < w,
                        dy <= rows,
                        bits as nat == column_bits(idx@, w as int, y0 as int, dy as int, x as int, c as int),
                    decreases rows - dy,
                {
                    proof {
                        lemma_cell_in_image((y0 + dy) as int, x as int, w as int, h as int);
                        lemma_column_bits_bound(idx@, w as int, y0 as int, dy as int, x as int, c as int);
                        lemma_column_bits_bound(idx@, w as int, y0 as int, dy as int + 1, x as int, c as int);
                    }
                    if idx[(y0 + dy) * w + x] as usize == c {
                        let bit: u8 = if dy == 0 {
                            1
                        } else if dy == 1 {
                            2
                        } else if dy == 2 {
                            4
                        } else if dy == 3 {
                            8
                        } else if dy == 4 {
                            16
                        } else {
                            32
                        };
                        bits = bits + bit;
                    }
                    dy += 1;
                }
                proof {
                    lemma_column_bits_bound(idx@, w as int, y0 as int, rows as int, x as int, c as int);
                }
                if bits != 0 {
                    last_set = Some(x);
                }
                bits_row.push(bits);
                assert(bits_row@ =~= row_spec.take(x + 1));
                x += 1;
            }
            assert(bits_row@ =~= row_spec);
            match last_set {
                None => {
                    proof {
                        lemma_trim_zeros(row_spec, 0);
                    }
                },
                Some(last) => {
                    proof {
                        lemma_trim_zeros(row_spec, last + 1);
                        assert forall|q: int| 0 <= q < w implies #[trigger] row_spec[q] < 64 by {
                            lemma_column_bits_bound(idx@, w as int, y0 as int, rows as int, q, c as int);
                        }
                    }
                    if wrote_pass {
                        // Graphics carriage return: overlay the next colour pass.
                        out.push('$');
                    }
                    wrote_pass = true;
                    out.push('#');
                    push_decimal(out, c as u64);
                    bits_row.truncate(last + 1);
                    push_rle(out, bits_row.as_slice());
                },
            }
        }
        proof {
            let prev = passes_upto(idx@, w as int, y0 as int, rows as int, c as int);
            let t = trim_zeros(row_spec);
            if t.len() > 0 {
                assert(pass(c as int, t).len() > 0);
            }
        }
        c += 1;
    }
}

/// Encode an indexed image as a sixel payload, `ESC P` through `ESC \`:
/// `idx` holds, row by row, the palette entry of each of the
/// `width` x `height` pixels.
pub fn encode_indexed(width: u32, height: u32, idx: &[u8], palette: &[[u8; 3]]) -> (out: Vec<char>)
    requires
        idx@.len() == width * height,
        palette@.len() <= 256,
        forall|k: int| 0 <= k < idx@.len() ==> (#[trigger] idx@[k] as int) < palette@.len(),
    ensures
        out@ == sixel_spec(width as int, height as int, idx@, palette@),
{
    if width == 0 || height == 0 {
        return Vec::new();
    }
    let w = width as usize;
    let h = height as usize;
    let m = palette.len();
    let mut out: Vec<char> = Vec::new();
    // P1=0 aspect, P2=0 (unset pixels keep background), P3=0; then the
    // raster attributes: pan;pad;width;height.
    push_lit(&mut out, &['\x1b', 'P', '0', ';', '0', ';', '0', 'q', '"', '1', ';', '1', ';']);
    push_decimal(&mut out, width as u64);
    out.push(';');
    push_decimal(&mut out, height as u64);
    push_registers(&mut out, idx, palette);
    let ghost head = out@;
    // Sixel data, six pixel rows per band.
    let bands = h / 6 + if h % 6 == 0 {
        0
    } else {
        1
    };
    let mut band: usize = 0;
    while band < bands
        invariant
            idx@.len() == w * h,
            w > 0,
            h > 0,
            bands == band_count(h as int),
            band <= bands,
            m == palette@.len(),
            m <= 256,
            forall|k: int| 0 <= k < idx@.len() ==> (#[trigger] idx@[k] as int) < m,
            out@ == head + bands_upto(idx@, w as int, h as int, m as int, band as int),
        decreases bands - band,
    {
        let y0 = band * 6;
        let rows = if h - y0 < 6 {
            h - y0
        } else {
            6
        };
        push_band(&mut out, idx, w, h, y0, rows, m);
        // Graphics newline, except after the final band.
        if band + 1 < bands {
            out.push('-');
        }
        band += 1;
        assert(out@ =~= head + bands_upto(idx@, w as int, h as int, m as int, band as int));
    }
    out.push('\x1b');
    out.push('\\');
    assert(out@ =~= sixel_spec(width as int, height as int, idx@, palette@));
    out
}

/// Every third pixel: the sample the palette is built from.
pub open spec fn palette_samples(px: Seq<[u8; 3]>) -> Seq<[u8; 3]> {
    Seq::new(((px.len() + 2) / 3) as nat, |i: int| px[3 * i])
}

/// Each pixel mapped through the lookup table to its palette entry.
pub open spec fn indexed(px: Seq<[u8; 3]>, lut: Seq<u8>) -> Seq<u8> {
    px.map_values(|p: [u8; 3]| lut[lut_cell(p)])
}

/// `lut` is a nearest-colour lookup table for `pal`.
pub open spec fn is_lut(pal: Seq<[u8; 3]>, lut: Seq<u8>) -> bool {
    &&& lut.len() == LUT_CELLS
    &&& forall|k: int| 0 <= k < LUT_CELLS ==> lut_entry_ok(pal, k, #[trigger] lut[k])
}

proof fn lemma_lut_entry_in_palette(pal: Seq<[u8; 3]>, k: int, v: u8)
    requires
        0 < pal.len() <= 256,
        lut_entry_ok(pal, k, v),
    ensures
        (v as int) < pal.len(),
{
    let j = choose|j: int| #[trigger] is_nearest(pal, k, j) && v as int == j % 256;
    assert(0 <= j < pal.len());
}

/// What `encode` gives for a `w` x `h` image with pixels `px`: nothing for
/// an empty image; otherwise the sixel of its pixels indexed through a
/// lookup table over a median-cut palette of its samples.
pub open spec fn encode_post(w: nat, h: nat, px: Seq<[u8; 3]>, s: Seq<char>) -> bool {
    &&& (w == 0 || h == 0 ==> s.len() == 0)
    &&& (w > 0 && h > 0 ==> exists|pal: Seq<[u8; 3]>, lut: Seq<u8>|
        {
            &&& exists|bs: Seq<Seq<[u8; 3]>>| is_cut(palette_samples(px), bs, pal, PALETTE_SIZE as int)
            &&& #[trigger] is_lut(pal, lut)
            &&& s == sixel_spec(w as int, h as int, indexed(px, lut), pal)
        })
}

/// Encode an RGB image as a sixel payload, `ESC P` through `ESC \`, at the
/// image's own size: resize before calling so the result matches the cell
/// area it must fill.
///
/// The palette is a median cut of every third pixel, at most
/// [`PALETTE_SIZE`] entries; each pixel takes the entry its lookup cell is
/// nearest to. An empty image yields no payload.
pub fn encode(img: &RgbImage) -> (s: String)
    requires
        img.wf(),
        img.spec_width() * img.spec_height() <= 50529027,
    ensures
        encode_post(img.spec_width(), img.spec_height(), img.spec_pixels(), s@),
{
    let w = img.width();
    let h = img.height();
    if w == 0 || h == 0 {
        return String::new();
    }
    let px = img.pixels();
    let n = px.len();
    proof {
        assert(n >= 1) by (nonlinear_arith)
            requires
                n == w * h,
                w >= 1,
                h >= 1,
        ;
    }
    // Build the palette from a subsample: every third pixel is plenty to
    // characterise an album cover and keeps the sort cost down.
    let mut samples: Vec<[u8; 3]> = Vec::new();
    let mut k: usize = 0;
    while k < n
        invariant
            n == px@.len(),
            n <= 50529027,
            k == 3 * samples@.len(),
            k < n + 3,
            samples@ =~= Seq::new(samples@.len(), |i: int| px@[3 * i]),
        decreases n + 3 - k,
    {
        samples.push(px[k]);
        k += 3;
    }
    assert(samples@ =~= palette_samples(px@));
    let palette = median_cut(&mut samples, PALETTE_SIZE);
    let ghost bs = choose|bs: Seq<Seq<[u8; 3]>>| is_cut(palette_samples(px@), bs, palette@, PALETTE_SIZE as int);
    assert(is_cut(palette_samples(px@), bs, palette@, PALETTE_SIZE as int));
    let lut = build_lut(palette.as_slice());
    // Map every pixel to a palette index.
    let mut idx: Vec<u8> = Vec::new();
    let mut q: usize = 0;
    while q < n
        invariant
            n == px@.len(),
            q <= n,
            0 < palette@.len() <= 128,
            lut@.len() == LUT_CELLS,
            forall|c: int| 0 <= c < LUT_CELLS ==> lut_entry_ok(palette@, c, #[trigger] lut@[c]),
            idx@ =~= indexed(px@.take(q as int), lut@),
            forall|j: int| 0 <= j < idx@.len() ==> (#[trigger] idx@[j] as int) < palette@.len(),
        decreases n - q,
    {
        let cell = lut_index(&px[q]);
        let v = lut[cell];
        proof {
            lemma_lut_entry_in_palette(palette@, cell as int, v);
        }
        idx.push(v);
        q += 1;
        assert(px@.take(q as int).drop_last() =~= px@.take(q - 1));
    }
    assert(px@.take(n as int) =~= px@);
    let out = encode_indexed(w, h, idx.as_slice(), palette.as_slice());
    assert(is_lut(palette@, lut@));
    string_from(out.as_slice())
}

/// A single-colour image defines exactly one colour register: every pixel
/// uses entry 0 of a one-entry palette, so the register table is that entry
/// alone.
pub proof fn law_one_colour_one_register(idx: Seq<u8>, pal: Seq<[u8; 3]>)
    requires
        pal.len() == 1,
        idx.len() > 0,
        forall|k: int| 0 <= k < idx.len() ==> #[trigger] idx[k] == 0,
    ensures
        registers_upto(pal, idx, pal.len() as int) == register(0, pal[0]),
{
    assert(idx[0] as int == 0);
    assert(is_used(idx, 0));
    assert(registers_upto(pal, idx, 0) == Seq::<char>::empty());
    assert(registers_upto(pal, idx, 1) =~= register(0, pal[0]));
}

} // verus!
