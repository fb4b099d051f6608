use ytkew::app::graphics::blank_region;

#[test]
fn blanking_covers_every_reserved_cell() {
    let out = blank_region(4, 2, 3, 2);
    // One cursor move per row, 1-based, each followed by a full row of
    // spaces.
    assert_eq!(out, "\x1b[3;5H   \x1b[4;5H   ");
}

#[test]
fn an_empty_region_emits_nothing() {
    assert!(blank_region(0, 0, 0, 0).is_empty());
    assert!(blank_region(1, 1, 8, 0).is_empty());
}
