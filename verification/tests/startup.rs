use ytkew::app::startup::{configured_cell, repeat_name, repeat_named, startup, Saved};
use ytkew::queue::RepeatMode;

fn saved(theme: &str) -> Saved {
    Saved { shuffle: true, repeat: "one".to_string(), cover_visible: true, theme: theme.to_string() }
}

#[test]
fn transport_is_restored_only_when_asked() {
    let s = startup(true, true, "nord", [0, 0], &saved(""));
    assert!(s.shuffle);
    assert_eq!(s.repeat, RepeatMode::One);
    let s = startup(false, true, "nord", [0, 0], &saved(""));
    assert!(!s.shuffle);
    assert_eq!(s.repeat, RepeatMode::Off);
}

#[test]
fn a_theme_picked_at_runtime_outranks_the_config() {
    assert_eq!(startup(true, true, "nord", [0, 0], &saved("")).theme, "nord");
    assert_eq!(startup(true, true, "nord", [0, 0], &saved("cover")).theme, "cover");
}

#[test]
fn the_cover_and_cell_size_follow_the_config() {
    let s = startup(true, false, "nord", [8, 0], &saved(""));
    assert!(!s.cover_visible);
    assert_eq!(s.cell_px, None);
    assert_eq!(startup(true, true, "nord", [8, 16], &saved("")).cell_px, Some((8, 16)));
    assert_eq!(configured_cell([0, 0], [12, 24]), [12, 24]);
    assert_eq!(configured_cell([9, 18], [12, 24]), [9, 18]);
}

#[test]
fn repeat_names_read_back() {
    for m in [RepeatMode::Off, RepeatMode::All, RepeatMode::One] {
        assert_eq!(repeat_named(repeat_name(m)), m);
    }
    assert_eq!(repeat_named("bogus"), RepeatMode::Off);
}
