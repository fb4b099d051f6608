use ytkew::art::raster::RgbImage;
use ytkew::kitty::{
    delete, draw, kitty_gate, parse_semver, placement, terminal_supports_kitty, CHUNK, IMAGE_ID,
};

fn img(w: u32, h: u32) -> RgbImage {
    let mut i = RgbImage::new(w, h);
    for y in 0..h {
        for x in 0..w {
            i.put_pixel(x, y, [(x % 256) as u8, (y % 256) as u8, 128]);
        }
    }
    i
}

fn noise(w: u32, h: u32) -> RgbImage {
    let mut i = RgbImage::new(w, h);
    let mut state: u32 = 0x1234_5678;
    for y in 0..h {
        for x in 0..w {
            state ^= state << 13;
            state ^= state >> 17;
            state ^= state << 5;
            let b = state.to_le_bytes();
            i.put_pixel(x, y, [b[0], b[1], b[2]]);
        }
    }
    i
}

#[test]
fn placement_is_specified_in_cells_not_pixels() {
    let s = draw(&img(64, 64), 36, 18).unwrap();
    assert!(s.contains("c=36,r=18"), "missing cell placement");
    assert!(s.contains("a=T"), "should transmit and display");
    assert!(s.contains("f=100"), "should send PNG");
}

#[test]
fn replies_are_suppressed_so_nothing_pollutes_stdin() {
    let s = draw(&img(8, 8), 4, 2).unwrap();
    assert!(s.contains("q=2"), "must suppress protocol responses");
}

#[test]
fn a_new_cover_deletes_the_previous_one() {
    let s = draw(&img(8, 8), 4, 2).unwrap();
    assert!(s.starts_with("\x1b_Ga=d"), "should delete before drawing");
    assert!(s.contains(&format!("i={IMAGE_ID}")));
}

#[test]
fn no_explicit_placement_id_is_sent() {
    let s = draw(&img(8, 8), 4, 2).unwrap();
    assert!(!s.contains("p="), "must not use explicit placement ids");
}

#[test]
fn large_images_are_chunked_within_protocol_limits() {
    let s = draw(&noise(256, 256), 40, 20).unwrap();
    for part in s.split("\x1b_G").skip(1) {
        let payload = part.split(';').nth(1).unwrap_or("");
        let data = payload.trim_end_matches("\x1b\\");
        assert!(data.len() <= CHUNK, "chunk of {} bytes", data.len());
    }
    assert!(s.contains("m=1"), "expected continuation chunks");
    assert!(s.contains("m=0"), "expected a final chunk");
}

#[test]
fn every_escape_is_terminated() {
    let s = draw(&img(128, 128), 20, 10).unwrap();
    let opens = s.matches("\x1b_G").count();
    let closes = s.matches("\x1b\\").count();
    assert_eq!(opens, closes, "unterminated escape");
}

#[test]
fn zero_sized_placements_are_rejected() {
    assert!(draw(&img(8, 8), 0, 4).is_none());
    assert!(draw(&img(8, 8), 4, 0).is_none());
    assert!(draw(&RgbImage::new(0, 0), 4, 4).is_none());
}

#[test]
fn version_parsing_handles_zellij_output() {
    assert_eq!(parse_semver("zellij 0.43.1"), Some((0, 43, 1)));
    assert_eq!(parse_semver("zellij 0.45.0"), Some((0, 45, 0)));
    assert_eq!(parse_semver("zellij 1.0"), Some((1, 0, 0)));
    assert_eq!(parse_semver("no version here"), None);
}

#[test]
fn kitty_support_needs_zellij_045_or_newer() {
    assert!(kitty_gate(Some("zellij"), Some((0, 45, 0))));
    assert!(!kitty_gate(Some("zellij"), Some((0, 43, 1))));
    assert!(kitty_gate(Some("zellij"), Some((1, 0, 0))));
    assert!(!kitty_gate(Some("zellij"), None));
}

#[test]
fn outside_a_multiplexer_the_probe_decides() {
    assert!(kitty_gate(None, None));
    assert!(!kitty_gate(Some("tmux"), Some((9, 9, 9))));
    assert!(terminal_supports_kitty(None, None, true));
    assert!(!terminal_supports_kitty(None, None, false));
    assert!(!terminal_supports_kitty(Some("zellij"), Some((0, 44, 9)), true));
}

#[test]
fn the_delete_escape_names_the_cover_image() {
    assert_eq!(delete(), format!("\x1b_Ga=d,d=I,i={IMAGE_ID},q=2;\x1b\\"));
}

#[test]
fn a_short_payload_travels_in_one_escape() {
    let s = placement("QUJD", 4, 2);
    assert_eq!(s.matches("\x1b_G").count(), 2);
    assert!(s.contains("m=0;QUJD\x1b\\"));
    assert!(!s.contains("m=1"));
}

#[test]
fn the_payload_is_base64_of_a_png() {
    let s = draw(&img(2, 2), 1, 1).unwrap();
    // The first data chunk starts with the base64 of the PNG signature.
    assert!(s.contains(";iVBORw0KGgo"), "payload should be a base64 PNG: {s}");
}
