//! Kitty graphics protocol.
//!
//! Placements are specified in *cells* (`c=`/`r=`) and the terminal does the
//! scaling, so the cell pixel size -- which no terminal reports reliably --
//! never enters the calculation. Supported by WezTerm, kitty, ghostty,
//! Konsole, and by zellij from v0.45.0.
use vstd::prelude::*;
use base64::Engine;
use crate::art::quantize::{build_lut, is_cut, lut_index, median_cut, LUT_CELLS};
use crate::art::raster::RgbImage;
use crate::art::sixel::{indexed, is_lut, palette_samples};
use crate::text::{
    all_ascii_digits, chars_of, decimal, digits_value, find_char, is_digit, is_whitespace, is_ws,
    lemma_word_end_bounds, lemma_ws_end_bounds, nth_piece, nth_piece_spec, parse_uint,
    parse_uint_spec, push_decimal, push_str, string_from, trim, trim_spec, word_end_from,
    words_from, words_spec, ws_end_from,
};

verus! {

broadcast use vstd::string::group_string_axioms;

/// Image id we own. Reusing one id means a new cover replaces the old rather
/// than accumulating placements.
pub const IMAGE_ID: u32 = 0x7974_6b77;

/// The escape that removes our image and every placement of it:
/// `ESC _ G a=d,d=I,i=<id>,q=2; ESC \`.
pub open spec fn delete_spec() -> Seq<char> {
    "\u{1b}_Ga=d,d=I,i="@ + decimal(IMAGE_ID as nat) + ",q=2;\u{1b}\\"@
}

/// Remove our image and every placement of it.
pub fn delete() -> (r: String)
    ensures
        r@ == delete_spec(),
{
    let mut out: Vec<char> = Vec::new();
    push_str(&mut out, "\u{1b}_Ga=d,d=I,i=");
    push_decimal(&mut out, IMAGE_ID as u64);
    push_str(&mut out, ",q=2;\u{1b}\\");
    string_from(out.as_slice())
}

/// A token that looks like a version: it starts with a digit and has a dot.
pub open spec fn looks_like_version(t: Seq<char>) -> bool {
    t.len() > 0 && is_digit(t[0]) && t.contains('.')
}

/// The first version-looking token.
pub open spec fn first_version_token(ws: Seq<Seq<char>>) -> Option<Seq<char>>
    decreases ws.len(),
{
    if ws.len() == 0 {
        None
    } else if looks_like_version(ws[0]) {
        Some(ws[0])
    } else {
        first_version_token(ws.drop_first())
    }
}

/// `s` with trailing non-digits removed.
pub open spec fn drop_trailing_nondigits(s: Seq<char>) -> Seq<char>
    decreases s.len(),
{
    if s.len() > 0 && !is_digit(s.last()) {
        drop_trailing_nondigits(s.drop_last())
    } else {
        s
    }
}

/// `(major, minor, patch)` from a version token; a missing or unreadable
/// patch counts as 0.
pub open spec fn version_of(token: Seq<char>) -> Option<(u32, u32, u32)> {
    let t = trim_spec(token);
    match (nth_piece_spec(t, '.', 0), nth_piece_spec(t, '.', 1)) {
        (Some(a), Some(b)) => match (
            parse_uint_spec(a, u32::MAX as nat),
            parse_uint_spec(b, u32::MAX as nat),
        ) {
            (Some(major), Some(minor)) => {
                let patch = match nth_piece_spec(t, '.', 2) {
                    Some(p) => match parse_uint_spec(drop_trailing_nondigits(p), u32::MAX as nat) {
                        Some(v) => v,
                        None => 0,
                    },
                    None => 0,
                };
                Some((major as u32, minor as u32, patch as u32))
            },
            _ => None,
        },
        _ => None,
    }
}

/// The version in a `--version` banner such as `zellij 0.43.1`.
pub open spec fn parse_semver_spec(text: Seq<char>) -> Option<(u32, u32, u32)> {
    match first_version_token(words_spec(text)) {
        Some(t) => version_of(t),
        None => None,
    }
}

fn has_dot(t: &[char]) -> (r: bool)
    ensures
        r == t@.contains('.'),
{
    match find_char(t, '.') {
        Some(_) => {
            proof {
                crate::text::lemma_find_from(t@, '.', 0);
            }
            true
        },
        None => {
            proof {
                crate::text::lemma_find_from(t@, '.', 0);
            }
            false
        },
    }
}

fn version_from_token(token: &[char]) -> (r: Option<(u32, u32, u32)>)
    ensures
        r == version_of(token@),
{
    let t = trim(token);
    let a = match nth_piece(t, '.', 0) {
        Some(p) => p,
        None => return None,
    };
    let b = match nth_piece(t, '.', 1) {
        Some(p) => p,
        None => return None,
    };
    let major = match parse_uint(a, u32::MAX as u64) {
        Some(v) => v,
        None => return None,
    };
    let minor = match parse_uint(b, u32::MAX as u64) {
        Some(v) => v,
        None => return None,
    };
    let patch = match nth_piece(t, '.', 2) {
        Some(p) => {
            let mut end = p.len();
            assert(p@.take(end as int) =~= p@);
            while end > 0 && !('0' <= p[end - 1] && p[end - 1] <= '9')
                invariant
                    0 <= end <= p@.len(),
                    drop_trailing_nondigits(p@) == drop_trailing_nondigits(p@.take(end as int)),
                decreases end,
            {
                assert(p@.take(end as int).drop_last() =~= p@.take(end - 1));
                end -= 1;
            }
            assert(drop_trailing_nondigits(p@.take(end as int)) == p@.take(end as int));
            match parse_uint(&p[0..end], u32::MAX as u64) {
                Some(v) => v,
                None => 0,
            }
        },
        None => 0,
    };
    Some((major as u32, minor as u32, patch as u32))
}

/// The version in a `--version` banner, e.g. `zellij 0.43.1`.
pub fn parse_semver(text: &str) -> (r: Option<(u32, u32, u32)>)
    ensures
        r == parse_semver_spec(text@),
{
    let c = chars_of(text);
    let n = c.len();
    let mut i: usize = 0;
    assert(c@.take(0) =~= Seq::<char>::empty());
    while i < n
        invariant
            0 <= i <= n,
            n == c@.len(),
            c@ == text@,
            first_version_token(words_spec(c@)) == first_version_token(words_from(c@, i as int)),
        decreases n - i,
    {
        // Skip whitespace, then take the next token.
        let mut a = i;
        while a < n && is_whitespace(c[a])
            invariant
                i <= a <= n,
                n == c@.len(),
                ws_end_from(c@, i as int) == ws_end_from(c@, a as int),
            decreases n - a,
        {
            a += 1;
        }
        if a >= n {
            assert(words_from(c@, i as int) == Seq::<Seq<char>>::empty());
            return None;
        }
        let mut b = a;
        while b < n && !is_whitespace(c[b])
            invariant
                a <= b <= n,
                n == c@.len(),
                word_end_from(c@, a as int) == word_end_from(c@, b as int),
            decreases n - b,
        {
            b += 1;
        }
        proof {
            lemma_ws_end_bounds(c@, i as int);
            lemma_word_end_bounds(c@, a as int);
            assert(ws_end_from(c@, a as int) == a);
            assert(word_end_from(c@, b as int) == b);
            let w = c@.subrange(a as int, b as int);
            assert(words_from(c@, i as int) == seq![w] + words_from(c@, b as int));
            assert((seq![w] + words_from(c@, b as int)).drop_first() =~= words_from(c@, b as int));
        }
        let token = &c[a..b];
        if token.len() > 0 && '0' <= token[0] && token[0] <= '9' && has_dot(token) {
            return version_from_token(token);
        }
        i = b;
    }
    assert(words_from(c@, n as int) == Seq::<Seq<char>>::empty());
    None
}

/// `a >= b` for version triples, compared field by field.
pub open spec fn version_at_least(a: (u32, u32, u32), b: (u32, u32, u32)) -> bool {
    a.0 > b.0 || (a.0 == b.0 && (a.1 > b.1 || (a.1 == b.1 && a.2 >= b.2)))
}

/// Whether the multiplexer, if any, lets kitty graphics through: none does,
/// and zellij does from 0.45.0. `zellij_version` is asked only for zellij.
pub open spec fn kitty_gate_spec(
    multiplexer: Option<Seq<char>>,
    zellij_version: Option<(u32, u32, u32)>,
) -> bool {
    match multiplexer {
        None => true,
        Some(m) => m == "zellij"@ && (zellij_version matches Some(v) && version_at_least(
            v,
            (0, 45, 0),
        )),
    }
}

pub fn kitty_gate(multiplexer: Option<&str>, zellij_version: Option<(u32, u32, u32)>) -> (r: bool)
    ensures
        r == kitty_gate_spec(
            match multiplexer {
                Some(m) => Some(m@),
                None => None,
            },
            zellij_version,
        ),
{
    match multiplexer {
        None => true,
        Some(m) => {
            let mc = chars_of(m);
            let z = chars_of("zellij");
            if !crate::text::eq_chars(mc.as_slice(), z.as_slice()) {
                return false;
            }
            match zellij_version {
                Some(v) => v.0 > 0 || (v.0 == 0 && (v.1 > 45 || (v.1 == 45 && v.2 >= 0))),
                None => false,
            }
        },
    }
}

/// Whether this terminal is expected to render kitty graphics: the
/// multiplexer gate must pass (inside a multiplexer the query can be answered
/// by the host terminal while the multiplexer drops the image), and then the
/// terminal must have acknowledged the probe image.
pub fn terminal_supports_kitty(
    multiplexer: Option<&str>,
    zellij_version: Option<(u32, u32, u32)>,
    query_acknowledged: bool,
) -> (r: bool)
    ensures
        r == (kitty_gate_spec(
            match multiplexer {
                Some(m) => Some(m@),
                None => None,
            },
            zellij_version,
        ) && query_acknowledged),
{
    kitty_gate(multiplexer, zellij_version) && query_acknowledged
}

/// Base64 payload chunk size. The protocol caps each escape's data at 4096.
pub const CHUNK: usize = 4096;

/// Number of escapes `n` characters of payload take.
pub open spec fn chunk_count(n: int) -> int {
    (n + 4095) / 4096
}

/// The control data of escape `i`: the first transmits and displays across
/// `cols` x `rows` cells with replies suppressed and no placement id; every
/// escape says whether more follow.
pub open spec fn chunk_control(i: int, more: nat, cols: u16, rows: u16) -> Seq<char> {
    if i == 0 {
        "a=T,f=100,i="@ + decimal(IMAGE_ID as nat) + ",c="@ + decimal(cols as nat) + ",r="@ + decimal(
            rows as nat,
        ) + ",q=2,m="@ + decimal(more)
    } else {
        "m="@ + decimal(more)
    }
}

/// Escape `i` of the payload `data`.
pub open spec fn chunk_escape(data: Seq<char>, i: int, cols: u16, rows: u16) -> Seq<char> {
    let n = data.len() as int;
    let more: nat = if i + 1 < chunk_count(n) {
        1
    } else {
        0
    };
    let end = if 4096 * (i + 1) < n {
        4096 * (i + 1)
    } else {
        n
    };
    "\u{1b}_G"@ + chunk_control(i, more, cols, rows) + seq![';'] + data.subrange(4096 * i, end)
        + "\u{1b}\\"@
}

/// The first `k` escapes of the payload.
pub open spec fn escapes_upto(data: Seq<char>, k: int, cols: u16, rows: u16) -> Seq<char>
    decreases k,
{
    if k <= 0 {
        Seq::empty()
    } else {
        escapes_upto(data, k - 1, cols, rows) + chunk_escape(data, k - 1, cols, rows)
    }
}

/// What is sent to show the base64 PNG `data` across `cols` x `rows` cells:
/// the deletion of any previous cover, then the payload in escapes of at most
/// [`CHUNK`] characters.
pub open spec fn placement_spec(data: Seq<char>, cols: u16, rows: u16) -> Seq<char> {
    delete_spec() + escapes_upto(data, chunk_count(data.len() as int), cols, rows)
}

/// Append escape `i` of the payload `d`, which takes `chunks` escapes.
fn push_escape(out: &mut Vec<char>, d: &Vec<char>, i: usize, chunks: usize, cols: u16, rows: u16)
    requires
        chunks == chunk_count(d@.len() as int),
        i < chunks,
    ensures
        final(out)@ == old(out)@ + chunk_escape(d@, i as int, cols, rows),
{
    let ghost before = out@;
    let n = d.len();
    let more: u64 = if i + 1 < chunks {
        1
    } else {
        0
    };
    push_str(out, "\u{1b}_G");
    if i == 0 {
        push_str(out, "a=T,f=100,i=");
        push_decimal(out, IMAGE_ID as u64);
        push_str(out, ",c=");
        push_decimal(out, cols as u64);
        push_str(out, ",r=");
        push_decimal(out, rows as u64);
        push_str(out, ",q=2,m=");
        push_decimal(out, more);
    } else {
        push_str(out, "m=");
        push_decimal(out, more);
    }
    let ghost control = out@;
    assert(control == before + "\u{1b}_G"@ + chunk_control(i as int, more as nat, cols, rows));
    out.push(';');
    let start = i * CHUNK;
    let end = if n - start > CHUNK {
        start + CHUNK
    } else {
        n
    };
    let mut k: usize = start;
    let ghost mid = out@;
    while k < end
        invariant
            start <= k <= end <= n,
            n == d@.len(),
            out@ == mid + d@.subrange(start as int, k as int),
        decreases end - k,
    {
        out.push(d[k]);
        k += 1;
        assert(out@ =~= mid + d@.subrange(start as int, k as int));
    }
    push_str(out, "\u{1b}\\");
    assert(out@ =~= before + chunk_escape(d@, i as int, cols, rows));
}

/// The escapes that replace any previous cover with the base64 PNG `data`,
/// displayed across `cols` x `rows` cells at the cursor.
pub fn placement(data: &str, cols: u16, rows: u16) -> (r: String)
    ensures
        r@ == placement_spec(data@, cols, rows),
{
    let d = chars_of(data);
    let n = d.len();
    let chunks = n / CHUNK + if n % CHUNK == 0 {
        0
    } else {
        1
    };
    let mut out: Vec<char> = Vec::new();
    let del = delete();
    push_str(&mut out, del.as_str());
    let mut i: usize = 0;
    while i < chunks
        invariant
            d@ == data@,
            n == d@.len(),
            chunks == chunk_count(n as int),
            i <= chunks,
            out@ == delete_spec() + escapes_upto(data@, i as int, cols, rows),
        decreases chunks - i,
    {
        push_escape(&mut out, &d, i, chunks, cols, rows);
        assert(out@ =~= delete_spec() + escapes_upto(data@, i + 1, cols, rows));
        i += 1;
    }
    string_from(out.as_slice())
}

/// What the PNG encoder makes of an 8-bit indexed image: its bytes, or
/// nothing when the encoder refuses the input.
pub uninterp spec fn png_indexed(width: u32, height: u32, palette: Seq<u8>, indices: Seq<u8>) -> Option<
    Seq<u8>,
>;

/// Calls `png::Encoder` to write an 8-bit indexed PNG (`palette` as flat RGB
/// triples, `indices` row by row, high compression) into memory. Claimed:
/// the result is `png_indexed` of the arguments, and, being a `Vec`, holds
/// at most `isize::MAX` bytes.
#[verifier::external_body]
fn encode_png(width: u32, height: u32, palette: Vec<u8>, indices: &[u8]) -> (r: Option<Vec<u8>>)
    ensures
        match r {
            Some(b) => png_indexed(width, height, palette@, indices@) == Some(b@) && b@.len()
                <= isize::MAX,
            None => png_indexed(width, height, palette@, indices@) is None,
        },
{
    let mut out = Vec::new();
    {
        let mut encoder = png::Encoder::new(&mut out, width, height);
        encoder.set_color(png::ColorType::Indexed);
        encoder.set_depth(png::BitDepth::Eight);
        encoder.set_palette(palette);
        encoder.set_compression(png::Compression::High);
        let mut writer = encoder.write_header().ok()?;
        writer.write_image_data(indices).ok()?;
    }
    Some(out)
}

/// The character of the standard base64 alphabet (RFC 4648) for a six-bit
/// value: `A`-`Z`, `a`-`z`, `0`-`9`, `+`, `/`.
pub open spec fn b64_char(v: int) -> char {
    if v < 26 {
        (65 + v) as char
    } else if v < 52 {
        (97 + v - 26) as char
    } else if v < 62 {
        (48 + v - 52) as char
    } else if v == 62 {
        '+'
    } else {
        '/'
    }
}

/// Standard base64 (RFC 4648 alphabet, `=` padding) of `bytes`: each three
/// bytes become four characters of six bits each, most significant first;
/// a final one or two bytes are padded out with `=`.
pub open spec fn base64_standard(bytes: Seq<u8>) -> Seq<char>
    decreases bytes.len(),
{
    if bytes.len() == 0 {
        seq![]
    } else if bytes.len() == 1 {
        let x = bytes[0] as int;
        seq![b64_char(x / 4), b64_char((x % 4) * 16), '=', '=']
    } else if bytes.len() == 2 {
        let x = bytes[0] as int;
        let y = bytes[1] as int;
        seq![b64_char(x / 4), b64_char((x % 4) * 16 + y / 16), b64_char((y % 16) * 4), '=']
    } else {
        let x = bytes[0] as int;
        let y = bytes[1] as int;
        let z = bytes[2] as int;
        seq![b64_char(x / 4), b64_char((x % 4) * 16 + y / 16), b64_char((y % 16) * 4 + z / 64), b64_char(z % 64)]
            + base64_standard(bytes.skip(3))
    }
}

/// A character of the standard base64 alphabet, or the padding `=`.
pub open spec fn is_base64_char(c: char) -> bool {
    ('A' <= c <= 'Z') || ('a' <= c <= 'z') || ('0' <= c <= '9') || c == '+' || c == '/' || c == '='
}

/// Calls `base64::engine::general_purpose::STANDARD.encode`. Claimed: the
/// result is the standard base64 of the bytes, as `base64_standard` states
/// it.
#[verifier::external_body]
fn base64_encode(bytes: &[u8]) -> (r: String)
    requires
        bytes@.len() <= isize::MAX,
    ensures
        r@ == base64_standard(bytes@),
{
    base64::engine::general_purpose::STANDARD.encode(bytes)
}

/// Base64 takes four characters for every three bytes begun, all from the
/// alphabet or the padding.
pub proof fn law_base64_shape(bytes: Seq<u8>)
    ensures
        base64_standard(bytes).len() == (bytes.len() + 2) / 3 * 4,
        forall|i: int|
            0 <= i < base64_standard(bytes).len() ==> is_base64_char(#[trigger] base64_standard(bytes)[i]),
    decreases bytes.len(),
{
    if bytes.len() >= 3 {
        law_base64_shape(bytes.skip(3));
        let head = base64_standard(bytes).take(4);
        let rest = base64_standard(bytes.skip(3));
        assert forall|i: int| 0 <= i < base64_standard(bytes).len() implies is_base64_char(
            #[trigger] base64_standard(bytes)[i],
        ) by {
            if i >= 4 {
                assert(base64_standard(bytes)[i] == rest[i - 4]);
            }
        }
    }
}

/// Palette entries as flat RGB triples.
pub open spec fn flat_palette(pal: Seq<[u8; 3]>) -> Seq<u8>
    decreases pal.len(),
{
    if pal.len() == 0 {
        Seq::empty()
    } else {
        flat_palette(pal.drop_last()) + seq![pal.last()[0], pal.last()[1], pal.last()[2]]
    }
}

/// Encode `img` as an indexed PNG over its adaptive palette: a median cut of
/// every third pixel to at most 256 entries, each pixel taking the entry its
/// lookup cell is nearest to. An indexed image comes out several times
/// smaller than truecolour with no visible loss on album art.
fn to_png(img: &RgbImage) -> (r: Option<Vec<u8>>)
    requires
        img.wf(),
        img.spec_width() > 0,
        img.spec_height() > 0,
        img.spec_width() * img.spec_height() <= 50529027,
    ensures
        exists|pal: Seq<[u8; 3]>, lut: Seq<u8>|
            {
                &&& exists|bs: Seq<Seq<[u8; 3]>>| is_cut(palette_samples(img.spec_pixels()), bs, pal, 256)
                &&& #[trigger] is_lut(pal, lut)
                &&& match r {
                    Some(b) => png_indexed(img.spec_width() as u32, img.spec_height() as u32, flat_palette(pal), indexed(img.spec_pixels(), lut)) == Some(b@) && b@.len() <= isize::MAX,
                    None => png_indexed(img.spec_width() as u32, img.spec_height() as u32, flat_palette(pal), indexed(img.spec_pixels(), lut)) is None,
                }
            },
{
    let w = img.width();
    let h = img.height();
    let px = img.pixels();
    let n = px.len();
    proof {
        assert(n >= 1) by (nonlinear_arith)
            requires
                n == w * h,
                w >= 1,
                h >= 1,
        ;
    }
    let mut samples: Vec<[u8; 3]> = Vec::new();
    let mut k: usize = 0;
    while k < n
        invariant
            n == px@.len(),
            n <= 50529027,
            k == 3 * samples@.len(),
            k < n + 3,
            samples@ =~= Seq::new(samples@.len(), |i: int| px@[3 * i]),
        decreases n + 3 - k,
    {
        samples.push(px[k]);
        k += 3;
    }
    assert(samples@ =~= palette_samples(px@));
    let palette = median_cut(&mut samples, 256);
    let ghost bs = choose|bs: Seq<Seq<[u8; 3]>>| is_cut(palette_samples(px@), bs, palette@, 256);
    assert(is_cut(palette_samples(px@), bs, palette@, 256));
    let lut = build_lut(palette.as_slice());
    let mut indices: Vec<u8> = Vec::new();
    let mut q: usize = 0;
    while q < n
        invariant
            n == px@.len(),
            q <= n,
            lut@.len() == LUT_CELLS,
            indices@ =~= indexed(px@.take(q as int), lut@),
        decreases n - q,
    {
        indices.push(lut[lut_index(&px[q])]);
        q += 1;
        assert(px@.take(q as int).drop_last() =~= px@.take(q - 1));
    }
    assert(px@.take(n as int) =~= px@);
    let mut flat: Vec<u8> = Vec::new();
    let mut c: usize = 0;
    while c < palette.len()
        invariant
            c <= palette@.len(),
            flat@ =~= flat_palette(palette@.take(c as int)),
        decreases palette@.len() - c,
    {
        let e = palette[c];
        flat.push(e[0]);
        flat.push(e[1]);
        flat.push(e[2]);
        c += 1;
        assert(palette@.take(c as int).drop_last() =~= palette@.take(c - 1));
    }
    assert(palette@.take(palette@.len() as int) =~= palette@);
    let r = encode_png(w, h, flat, indices.as_slice());
    assert(is_lut(palette@, lut@));
    r
}

/// What `draw` gives for a `w` x `h` image with pixels `px` over `cols` x
/// `rows` cells: nothing for an empty image or placement; otherwise the
/// placement of the base64 of the PNG of its pixels indexed through a
/// lookup table over a median-cut palette, or nothing if PNG encoding fails.
pub open spec fn draw_post(w: nat, h: nat, px: Seq<[u8; 3]>, cols: u16, rows: u16, r: Option<String>) -> bool {
    &&& (cols == 0 || rows == 0 || w == 0 || h == 0 ==> r is None)
    &&& (cols > 0 && rows > 0 && w > 0 && h > 0 ==> exists|pal: Seq<[u8; 3]>, lut: Seq<u8>|
        {
            &&& exists|bs: Seq<Seq<[u8; 3]>>| is_cut(palette_samples(px), bs, pal, 256)
            &&& #[trigger] is_lut(pal, lut)
            &&& match png_indexed(w as u32, h as u32, flat_palette(pal), indexed(px, lut)) {
                Some(b) => r matches Some(s) && s@ == placement_spec(base64_standard(b), cols, rows),
                None => r is None,
            }
        })
}

/// Escape sequence that transmits and displays `img` across `cols` x `rows`
/// cells, anchored at the cursor, after deleting any previous cover. `None`
/// for an empty image or placement, or when PNG encoding fails.
pub fn draw(img: &RgbImage, cols: u16, rows: u16) -> (r: Option<String>)
    requires
        img.wf(),
        img.spec_width() * img.spec_height() <= 50529027,
    ensures
        draw_post(img.spec_width(), img.spec_height(), img.spec_pixels(), cols, rows, r),
{
    if cols == 0 || rows == 0 || img.width() == 0 || img.height() == 0 {
        return None;
    }
    let png = to_png(img);
    match png {
        None => None,
        Some(bytes) => {
            let data = base64_encode(bytes.as_slice());
            Some(placement(data.as_str(), cols, rows))
        },
    }
}

/// Every escape carries at most [`CHUNK`] characters of payload, the
/// protocol's cap, and together the escapes carry all of it.
pub proof fn law_chunks_within_limit(data: Seq<char>, i: int)
    requires
        0 <= i < chunk_count(data.len() as int),
    ensures
        4096 * i < data.len(),
        (if 4096 * (i + 1) < data.len() { 4096 * (i + 1) } else { data.len() as int }) - 4096 * i <= CHUNK,
        chunk_count(data.len() as int) * 4096 >= data.len(),
{
}

} // verus!
