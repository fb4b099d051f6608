use ytkew::config::keymap::{Action, KeyCode, Keymap, ALT, CONTROL};
use ytkew::config::{CoverMode, VisualizerMode};

fn kew_bindings_resolve() {
    let km = Keymap::default();
    assert_eq!(km.resolve(KeyCode::Char(' '), 0), Some(Action::PlayPause));
    assert_eq!(km.resolve(KeyCode::Char('l'), 0), Some(Action::Next));
    assert_eq!(km.resolve(KeyCode::F(4), 0), Some(Action::ShowTrack));
    assert_eq!(km.resolve(KeyCode::Char('~'), 0), None);
}

fn help_view_can_find_keys() {
    let km = Keymap::default();
    let keys = km.keys_for(Action::PlayPause);
    assert!(keys.contains(&"space".to_string()));
    assert!(keys.contains(&"p".to_string()));
}

fn help_view_spells_out_modifiers() {
    let km = Keymap::default();
    let keys = km.keys_for(Action::EnqueueAndPlay);
    assert!(keys.contains(&"ctrl+g".to_string()), "got {keys:?}");
    assert!(keys.contains(&"alt+enter".to_string()), "got {keys:?}");
    assert!(!keys.contains(&"g".to_string()));
}

fn numbered_tabs_match_the_strip() {
    let km = Keymap::default();
    for (ch, action) in [
        ('1', Action::ShowQueue),
        ('2', Action::ShowLibrary),
        ('3', Action::ShowTrack),
        ('4', Action::ShowSearch),
    ] {
        assert_eq!(km.resolve(KeyCode::Char(ch), 0), Some(action), "digit {ch} should select its tab");
    }
}

fn escape_opens_the_menu_and_q_quits() {
    let km = Keymap::default();
    assert_eq!(km.resolve(KeyCode::Esc, 0), Some(Action::ToggleMenu));
    assert_eq!(km.resolve(KeyCode::Char('q'), 0), Some(Action::Quit));
}

#[test]
fn keymap_kew_bindings_resolve() {
    kew_bindings_resolve();
}

#[test]
fn keymap_help_view_can_find_keys() {
    help_view_can_find_keys();
}

#[test]
fn keymap_help_view_spells_out_modifiers() {
    help_view_spells_out_modifiers();
}

#[test]
fn keymap_numbered_tabs_match_the_strip() {
    numbered_tabs_match_the_strip();
}

#[test]
fn keymap_escape_opens_the_menu_and_q_quits() {
    escape_opens_the_menu_and_q_quits();
}

#[test]
fn config_kew_bindings_resolve() {
    kew_bindings_resolve();
}

#[test]
fn config_help_view_can_find_keys() {
    help_view_can_find_keys();
}

#[test]
fn config_help_view_spells_out_modifiers() {
    help_view_spells_out_modifiers();
}

#[test]
fn config_numbered_tabs_match_the_strip() {
    numbered_tabs_match_the_strip();
}

#[test]
fn config_escape_opens_the_menu_and_q_quits() {
    escape_opens_the_menu_and_q_quits();
}

#[test]
fn modifiers_pick_the_binding() {
    let km = Keymap::default();
    assert_eq!(km.resolve(KeyCode::Char('g'), CONTROL), Some(Action::EnqueueAndPlay));
    assert_eq!(km.resolve(KeyCode::Enter, ALT), Some(Action::EnqueueAndPlay));
    assert_ne!(km.resolve(KeyCode::Char('g'), 0), Some(Action::EnqueueAndPlay));
    assert_eq!(km.resolve(KeyCode::Other, 0), None);
}

#[test]
fn cover_modes_choose_their_protocol() {
    assert!(CoverMode::Sixel.uses_sixel(false));
    assert!(CoverMode::Auto.uses_sixel(true));
    assert!(!CoverMode::Auto.uses_sixel(false));
    assert!(!CoverMode::Blocks.uses_kitty(true));
    assert!(CoverMode::Kitty.uses_kitty(false));
    assert!(!CoverMode::Off.draws_anything());
    assert_eq!(CoverMode::default(), CoverMode::Auto);
    assert_eq!(CoverMode::Blocks.name(), "blocks");
}

#[test]
fn visualizer_modes_cycle_back_round() {
    let m = VisualizerMode::default();
    assert_eq!(m, VisualizerMode::Bars);
    assert_eq!(m.cycle(), VisualizerMode::Braille);
    assert_eq!(m.cycle().cycle().cycle(), m);
}

#[test]
fn renderers_are_found_by_name() {
    for m in [CoverMode::Auto, CoverMode::Kitty, CoverMode::Sixel, CoverMode::Blocks, CoverMode::Off] {
        assert_eq!(CoverMode::from_name(m.name()), m);
    }
    assert_eq!(CoverMode::from_name("vga"), CoverMode::Auto);
}
