use ytkew::art::cover::{cover_from_bytes, kitty_payload, scaled, sixel_payload};
use ytkew::art::raster::RgbImage;

fn png(w: u32, h: u32) -> Vec<u8> {
    let img = image::RgbImage::from_pixel(w, h, image::Rgb([255, 0, 0]));
    let mut out = std::io::Cursor::new(Vec::new());
    img.write_to(&mut out, image::ImageFormat::Png).expect("png");
    out.into_inner()
}

#[test]
fn cover_bytes_decode_to_pixels() {
    let img = cover_from_bytes(&png(3, 2)).expect("decodes");
    assert_eq!((img.width(), img.height()), (3, 2));
    assert_eq!(img.pixels()[0], [255, 0, 0]);
    assert!(cover_from_bytes(b"not an image").is_none());
}

#[test]
fn scaling_gives_the_asked_size_and_refuses_nothing() {
    let img = cover_from_bytes(&png(3, 2)).unwrap();
    let big = scaled(&img, 6, 4).expect("scaled");
    assert_eq!((big.width(), big.height()), (6, 4));
    assert_eq!(big.pixels().len(), 24);
    assert!(scaled(&img, 0, 4).is_none());
}

#[test]
fn kitty_gets_a_capped_cover() {
    let img = cover_from_bytes(&png(600, 10)).unwrap();
    let p = kitty_payload(&img, 10, 5).expect("payload");
    assert!(p.starts_with("\x1b_G"), "{}", &p[..20]);
    let small = cover_from_bytes(&png(4, 4)).unwrap();
    assert!(kitty_payload(&small, 10, 5).is_some());
    assert!(kitty_payload(&small, 0, 5).is_none());
}

#[test]
fn sixel_gets_the_cover_at_the_cell_box() {
    let img = cover_from_bytes(&png(4, 4)).unwrap();
    let s = sixel_payload(&img, 2, 1, (8, 16)).expect("payload");
    assert!(s.starts_with("\x1bP"), "{:?}", &s[..10]);
    let start = s.find('"').unwrap() + 1;
    let rest = &s[start..];
    let parts: Vec<&str> = rest[..rest.find('#').unwrap()].split(';').collect();
    assert_eq!((parts[2], parts[3]), ("16", "16"), "raster attributes give the cell box");
    assert!(sixel_payload(&img, 0, 1, (8, 16)).is_none());
    let empty = RgbImage::new(0, 0);
    assert!(sixel_payload(&empty, 2, 1, (8, 16)).is_none());
}
