use ytkew::palette::{ansi_rgb, Rgb};

#[test]
fn ansi_indices_map_to_expected_rgb() {
    assert_eq!(ansi_rgb(6), Rgb(0, 170, 170), "ANSI 6 is cyan");
    assert_eq!(ansi_rgb(1), Rgb(170, 0, 0), "ANSI 1 is red");
    // Cube corner: index 231 is the brightest cube entry.
    assert_eq!(ansi_rgb(231), Rgb(255, 255, 255));
    // Greyscale ramp start and end.
    assert_eq!(ansi_rgb(232), Rgb(8, 8, 8));
    assert_eq!(ansi_rgb(255), Rgb(238, 238, 238));
}

#[test]
fn the_cube_steps_are_xterms() {
    assert_eq!(ansi_rgb(16), Rgb(0, 0, 0));
    assert_eq!(ansi_rgb(17), Rgb(0, 0, 95));
    assert_eq!(ansi_rgb(21), Rgb(0, 0, 255));
    assert_eq!(ansi_rgb(15), Rgb(255, 255, 255));
}
