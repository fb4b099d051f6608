use ytkew::art::quantize::{build_lut, lut_index, median_cut, PALETTE_SIZE};
use ytkew::art::raster::RgbImage;
use ytkew::art::sixel::{encode, encode_indexed};

fn solid(w: u32, h: u32, c: [u8; 3]) -> RgbImage {
    let mut img = RgbImage::new(w, h);
    for y in 0..h {
        for x in 0..w {
            img.put_pixel(x, y, c);
        }
    }
    img
}

fn raster_dims(s: &str) -> (u32, u32) {
    let start = s.find('"').unwrap() + 1;
    let rest = &s[start..];
    let end = rest.find('#').unwrap();
    let parts: Vec<&str> = rest[..end].split(';').collect();
    (parts[2].parse().unwrap(), parts[3].parse().unwrap())
}

#[test]
fn sixel_payload_is_wrapped_in_the_sixel_introducer_and_terminator() {
    let s = encode(&solid(12, 12, [255, 0, 0]));
    assert!(s.starts_with("\x1bP0;0;0q"), "bad introducer");
    assert!(s.ends_with("\x1b\\"), "bad terminator");
    assert!(!s.contains("\x1b[2J"), "must not clear the screen");
    assert!(!s.contains("\x1b[H"), "must not home the cursor");
}

#[test]
fn sixel_raster_attributes_state_the_real_pixel_size() {
    let s = encode(&solid(37, 19, [10, 200, 40]));
    assert_eq!(raster_dims(&s), (37, 19));
}

#[test]
fn sixel_a_solid_image_uses_exactly_one_colour_register() {
    let s = encode(&solid(24, 12, [255, 255, 255]));
    let regs: Vec<&str> = s.matches(";2;").collect();
    assert_eq!(regs.len(), 1, "solid white should define one register");
    assert!(s.contains("#0;2;100;100;100"), "got {}", &s[..80.min(s.len())]);
}

#[test]
fn sixel_an_arbitrary_solid_colour_is_reproduced_exactly() {
    let s = encode(&solid(12, 6, [137, 42, 200]));
    let pct = |v: u32| (v * 100 + 127) / 255;
    let expected = format!("#0;2;{};{};{}", pct(137), pct(42), pct(200));
    assert!(s.contains(&expected), "expected {expected}");
}

#[test]
fn sixel_full_height_bands_use_the_all_bits_sixel_char() {
    let s = encode(&solid(8, 6, [0, 0, 0]));
    assert!(s.contains('~'), "expected a full-band char");
}

#[test]
fn sixel_runs_are_length_encoded() {
    let s = encode(&solid(100, 6, [0, 0, 0]));
    assert!(s.contains("!100~"), "expected RLE, got {} bytes", s.len());
    assert!(s.len() < 200, "payload should be tiny, got {}", s.len());
}

#[test]
fn sixel_short_runs_are_written_literally() {
    let mut img = RgbImage::new(4, 6);
    for y in 0..6 {
        for x in 0..4 {
            let c = if x % 2 == 0 { [0, 0, 0] } else { [255, 255, 255] };
            img.put_pixel(x, y, c);
        }
    }
    let s = encode(&img);
    assert!(!s.contains("!1~"), "single pixels should not use RLE");
}

#[test]
fn sixel_band_count_matches_image_height() {
    let s = encode(&solid(4, 13, [80, 80, 80]));
    assert_eq!(s.matches('-').count(), 2, "expected 2 band separators");
}

#[test]
fn sixel_empty_image_yields_no_payload() {
    assert!(encode(&RgbImage::new(0, 0)).is_empty());
}

#[test]
fn sixel_a_gradient_spends_palette_entries_on_the_range_it_covers() {
    let mut img = RgbImage::new(64, 12);
    for y in 0..12 {
        for x in 0..64 {
            let v = (x * 4) as u8;
            img.put_pixel(x, y, [v, v, v]);
        }
    }
    let s = encode(&img);
    let regs = s.matches(";2;").count();
    assert!(regs > 8, "a gradient should use many registers, got {regs}");
    assert!(regs <= PALETTE_SIZE, "must not exceed the palette");
}

#[test]
fn sixel_median_cut_splits_distinct_clusters() {
    let mut samples = vec![[10, 10, 10]; 100];
    samples.extend(vec![[240, 30, 30]; 100]);
    let pal = median_cut(&mut samples, 8);
    assert!(pal.iter().any(|c| c[0] < 60 && c[1] < 60), "missing dark cluster");
    assert!(pal.iter().any(|c| c[0] > 180 && c[1] < 90), "missing red cluster, got {pal:?}");
}

#[test]
fn sixel_median_cut_never_exceeds_the_requested_size() {
    let mut samples: Vec<[u8; 3]> = (0..500u32)
        .map(|i| [(i % 256) as u8, ((i * 7) % 256) as u8, ((i * 13) % 256) as u8])
        .collect();
    let pal = median_cut(&mut samples, 16);
    assert!(pal.len() <= 16, "got {}", pal.len());
    assert!(!pal.is_empty());
}

#[test]
fn sixel_median_cut_handles_a_single_colour_and_empty_input() {
    let mut one = vec![[7, 8, 9]; 50];
    let pal = median_cut(&mut one, 32);
    assert_eq!(pal.len(), 1, "one colour needs one entry");
    assert_eq!(pal[0], [7, 8, 9]);

    let mut none: Vec<[u8; 3]> = Vec::new();
    assert_eq!(median_cut(&mut none, 8).len(), 1, "must not return empty");
}

#[test]
fn sixel_lut_maps_a_colour_to_its_nearest_palette_entry() {
    let pal = vec![[0, 0, 0], [255, 255, 255], [255, 0, 0]];
    let lut = build_lut(&pal);
    assert_eq!(lut[lut_index(&[8, 8, 8])], 0, "near-black -> black");
    assert_eq!(lut[lut_index(&[250, 250, 250])], 1, "near-white -> white");
    assert_eq!(lut[lut_index(&[230, 20, 20])], 2, "near-red -> red");
}

#[test]
fn an_indexed_strip_encodes_to_known_bytes() {
    // Two columns, one row: colour 0 then colour 1.
    let out: String = encode_indexed(2, 1, &[0, 1], &[[255, 0, 0], [0, 0, 255]]).into_iter().collect();
    assert_eq!(
        out,
        "\x1bP0;0;0q\"1;1;2;1#0;2;100;0;0#1;2;0;0;100#0@$#1?@\x1b\\"
    );
}

#[test]
fn a_cube_cell_centre_maps_to_itself() {
    assert_eq!(lut_index(&[0, 0, 0]), 0);
    assert_eq!(lut_index(&[255, 255, 255]), 32767);
    assert_eq!(lut_index(&[8, 0, 0]), 1024);
}

#[test]
fn median_cut_splits_the_widest_channel_at_its_median() {
    let mut samples = vec![[200u8, 0, 0], [0, 0, 0], [100, 0, 0], [50, 0, 0]];
    let pal = ytkew::art::quantize::median_cut(&mut samples, 2);
    assert_eq!(pal, vec![[25, 0, 0], [150, 0, 0]]);
    assert!(samples.is_empty());
}
