use ytkew::app::input::{point_in_list, progress_at, row_at, tab_at, HitRegions, MouseKind, Rect};
use ytkew::app::library::{library_columns, Library};
use ytkew::app::menu::SettingValues;
use ytkew::app::session::{Context, Effect, Session};
use ytkew::config::{CoverMode, VisualizerMode};
use ytkew::queue::RepeatMode;
use ytkew::ui::View;

fn rect(x: u16, y: u16, width: u16, height: u16) -> Rect {
    Rect { x, y, width, height }
}

fn ctx() -> Context {
    Context {
        in_library_columns: false,
        side_pane_open: false,
        side_pane_is_library: false,
        library_len: 0,
        search_len: 0,
        visualizer_available: true,
        past_three_seconds: false,
        cover_mode: CoverMode::Auto,
    }
}

fn values() -> SettingValues {
    SettingValues {
        theme_names: vec!["cover".to_string()],
        theme: "cover".to_string(),
        keys: "kew".to_string(),
        side_pane: "off".to_string(),
        library_layout: "columns".to_string(),
        cover_mode: CoverMode::Auto,
        cover_visible: true,
        visualizer: VisualizerMode::Bars,
        shuffle: false,
        repeat: RepeatMode::Off,
        autoplay_radio: false,
    }
}

fn hits() -> HitRegions {
    let mut h = HitRegions::new();
    h.tabs = vec![(rect(0, 0, 7, 1), View::Queue), (rect(8, 0, 9, 1), View::Library)];
    h.list = Some((rect(0, 2, 40, 10), 5));
    h.progress = Some(rect(0, 20, 40, 1));
    h.progress_track = Some((6, 28));
    h
}

#[test]
fn rectangles_hold_their_cells_and_not_their_edges() {
    let r = rect(2, 3, 4, 2);
    assert!(r.contains(2, 3));
    assert!(r.contains(5, 4));
    assert!(!r.contains(6, 4));
    assert!(!r.contains(5, 5));
    assert!(!r.contains(1, 3));
    assert!(rect(65530, 0, 10, 1).contains(65535, 0), "no overflow at the screen edge");
}

#[test]
fn clicks_resolve_against_what_was_drawn() {
    let h = hits();
    assert_eq!(tab_at(&h, 3, 0), Some(View::Queue));
    assert_eq!(tab_at(&h, 8, 0), Some(View::Library));
    assert_eq!(tab_at(&h, 7, 0), None, "the gap between tabs is nothing");
    assert!(point_in_list(&h, 0, 2));
    assert!(!point_in_list(&h, 0, 12));
    assert_eq!(progress_at(&h, 6, 20), Some((0, 28)));
    assert_eq!(progress_at(&h, 20, 20), Some((14, 28)));
    assert_eq!(progress_at(&h, 5, 20), None, "the time label is not seekable");
    assert_eq!(progress_at(&h, 34, 20), None);
}

#[test]
fn list_rows_count_from_the_first_shown_item() {
    let h = hits();
    let lib = Library::new();
    assert_eq!(row_at(&h, 100, &Vec::new(), &lib.rows, 1, 2), Some(5));
    assert_eq!(row_at(&h, 100, &Vec::new(), &lib.rows, 1, 4), Some(7));
    assert_eq!(row_at(&h, 6, &Vec::new(), &lib.rows, 1, 4), None, "past the last item");
}

#[test]
fn column_clicks_find_the_row_of_the_entry() {
    let mut lib = Library::new();
    lib.ensure_root();
    let cols = library_columns(&lib.nodes, &[2]);
    let mut h = HitRegions::new();
    h.lib_columns = vec![(rect(0, 2, 20, 10), 0, 0)];
    assert_eq!(row_at(&h, 0, &cols, &lib.rows, 3, 5), Some(3));
    assert_eq!(row_at(&h, 0, &cols, &lib.rows, 3, 9), None);
    assert_eq!(row_at(&h, 0, &cols, &lib.rows, 30, 5), None);
}

#[test]
fn the_wheel_scrolls_lists_and_turns_the_volume_elsewhere() {
    let mut s: Session<u32> = Session::new();
    for i in 0..30 {
        s.queue.push(i);
    }
    s.view = View::Queue;
    let lib = Library::new();
    let h = hits();
    s.handle_mouse(MouseKind::ScrollDown, 1, 3, &h, &Vec::new(), &lib.rows, ctx(), &values());
    assert_eq!(s.queue_sel, 3);
    let e = s.handle_mouse(MouseKind::ScrollUp, 1, 15, &h, &Vec::new(), &lib.rows, ctx(), &values());
    assert_eq!(e, vec![Effect::VolumeUp]);
    assert_eq!(s.queue_sel, 3);
}

#[test]
fn a_second_click_on_a_row_plays_it() {
    let mut s: Session<u32> = Session::new();
    for i in 0..30 {
        s.queue.push(i);
    }
    s.view = View::Queue;
    let lib = Library::new();
    let h = hits();
    let e = s.handle_mouse(MouseKind::LeftDown, 1, 3, &h, &Vec::new(), &lib.rows, ctx(), &values());
    assert!(e.is_empty());
    assert_eq!(s.queue_sel, 6);
    let e = s.handle_mouse(MouseKind::LeftDown, 1, 3, &h, &Vec::new(), &lib.rows, ctx(), &values());
    assert_eq!(e, vec![Effect::StartCurrent]);
    assert_eq!(s.queue.current_index(), Some(6));
}

#[test]
fn tabs_and_the_progress_bar_take_clicks() {
    let mut s: Session<u32> = Session::new();
    let lib = Library::new();
    let h = hits();
    let e = s.handle_mouse(MouseKind::LeftDown, 10, 0, &h, &Vec::new(), &lib.rows, ctx(), &values());
    assert_eq!(s.view, View::Library);
    assert_eq!(e, vec![Effect::ClearCoverArt, Effect::EnsureLibrary]);
    let e = s.handle_mouse(MouseKind::LeftDown, 13, 20, &h, &Vec::new(), &lib.rows, ctx(), &values());
    assert_eq!(e, vec![Effect::SeekFraction(7, 28)]);
    let e = s.handle_mouse(MouseKind::RightDown, 0, 0, &h, &Vec::new(), &lib.rows, ctx(), &values());
    assert_eq!(e.len(), 1, "right click plays or pauses");
    let e = s.handle_mouse(MouseKind::Other, 13, 20, &h, &Vec::new(), &lib.rows, ctx(), &values());
    assert!(e.is_empty());
}
