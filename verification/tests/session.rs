use ytkew::app::graphics::Graphics;
use ytkew::app::menu::{
    eq_ignore_ascii_case, menu_items, menu_word, pick, setting_choices, setting_value, settings,
    step_choice, MenuItem, MenuScreen, Setting, SettingValues,
};
use ytkew::app::session::{Context, Effect, Notice, Reply, SearchKey, Session};
use ytkew::cli::{join_words, mode, Cli, Mode};
use ytkew::config::keymap::{Action, KeyCode};
use ytkew::config::{CoverMode, VisualizerMode};
use ytkew::player::PlayerEvent;
use ytkew::queue::RepeatMode;
use ytkew::ui::View;

fn ctx() -> Context {
    Context {
        in_library_columns: false,
        side_pane_open: false,
        side_pane_is_library: false,
        library_len: 0,
        search_len: 0,
        visualizer_available: true,
        past_three_seconds: false,
        cover_mode: CoverMode::Auto,
    }
}

fn values() -> SettingValues {
    SettingValues {
        theme_names: vec!["cover".to_string(), "nord".to_string(), "gruvbox".to_string()],
        theme: "Nord".to_string(),
        keys: "kew".to_string(),
        side_pane: "off".to_string(),
        library_layout: "columns".to_string(),
        cover_mode: CoverMode::Sixel,
        cover_visible: true,
        visualizer: VisualizerMode::Braille,
        shuffle: false,
        repeat: RepeatMode::All,
        autoplay_radio: false,
    }
}

fn session_with(n: u32) -> Session<u32> {
    let mut s: Session<u32> = Session::new();
    for i in 0..n {
        s.queue.push(i);
    }
    s
}

#[test]
fn a_fresh_session_starts_on_the_track_view() {
    let s: Session<u32> = Session::new();
    assert_eq!(s.view, View::Track);
    assert!(!s.menu_open && !s.should_quit && s.cover_visible);
    assert!(s.queue.is_empty());
}

#[test]
fn play_pause_on_an_empty_queue_says_nothing_is_queued() {
    let mut s = session_with(0);
    let e = s.handle_action(Action::PlayPause, ctx(), &values());
    assert_eq!(e, vec![Effect::Notify(Notice::NothingQueued)]);
    let mut s = session_with(2);
    s.queue.jump_to(0);
    assert_eq!(s.handle_action(Action::PlayPause, ctx(), &values()), vec![Effect::TogglePause]);
}

#[test]
fn escape_returns_from_help_to_where_it_was_opened() {
    let mut s = session_with(0);
    s.handle_action(Action::ShowQueue, ctx(), &values());
    s.handle_action(Action::ShowHelp, ctx(), &values());
    assert_eq!(s.view, View::Help);
    s.handle_action(Action::ToggleMenu, ctx(), &values());
    assert_eq!(s.view, View::Queue);
    assert!(!s.menu_open, "escape from help does not open the menu");
    s.handle_action(Action::ToggleMenu, ctx(), &values());
    assert!(s.menu_open);
}

#[test]
fn the_menu_walks_into_options_and_back() {
    let mut s = session_with(0);
    s.handle_action(Action::ToggleMenu, ctx(), &values());
    assert!(s.menu_open);
    assert_eq!(s.menu_screen, MenuScreen::Main);
    s.handle_action(Action::Enqueue, ctx(), &values());
    assert_eq!(s.menu_screen, MenuScreen::Options);
    for _ in 0..20 {
        s.handle_action(Action::ScrollDown, ctx(), &values());
    }
    assert_eq!(s.option_sel, 9, "the cursor stops on the last setting");
    s.handle_action(Action::ToggleMenu, ctx(), &values());
    assert_eq!(s.menu_screen, MenuScreen::Main);
    assert!(s.menu_open);
    s.handle_action(Action::ScrollDown, ctx(), &values());
    s.handle_action(Action::ScrollDown, ctx(), &values());
    s.handle_action(Action::Enqueue, ctx(), &values());
    assert!(s.should_quit, "the last menu item quits");
}

#[test]
fn stepping_the_theme_asks_for_the_next_one() {
    let mut s = session_with(0);
    s.handle_action(Action::ToggleMenu, ctx(), &values());
    s.handle_action(Action::Enqueue, ctx(), &values());
    let e = s.handle_action(Action::Next, ctx(), &values());
    assert_eq!(e, vec![Effect::ApplySetting(Setting::Theme, 2)]);
    let e = s.handle_action(Action::Prev, ctx(), &values());
    assert_eq!(e, vec![Effect::ApplySetting(Setting::Theme, 0)]);
}

#[test]
fn any_other_key_closes_the_menu_and_still_acts() {
    let mut s = session_with(0);
    s.handle_action(Action::ToggleMenu, ctx(), &values());
    let e = s.handle_action(Action::Stop, ctx(), &values());
    assert!(!s.menu_open);
    assert_eq!(e, vec![Effect::StopPlayback]);
}

#[test]
fn repeat_cycles_and_tells_the_player() {
    let mut s = session_with(1);
    let e = s.handle_action(Action::ToggleRepeat, ctx(), &values());
    assert_eq!(
        e,
        vec![Effect::SetLoopFile(false), Effect::ResyncPrefetch, Effect::Notify(Notice::RepeatAll)]
    );
    let e = s.handle_action(Action::ToggleRepeat, ctx(), &values());
    assert_eq!(
        e,
        vec![Effect::SetLoopFile(true), Effect::ResyncPrefetch, Effect::Notify(Notice::RepeatOne)]
    );
}

#[test]
fn clearing_the_queue_stops_everything() {
    let mut s = session_with(3);
    s.queue.jump_to(1);
    let e = s.handle_action(Action::ClearQueue, ctx(), &values());
    assert!(s.queue.is_empty());
    assert_eq!(
        e,
        vec![
            Effect::ClearQueueFeed,
            Effect::StopPlayback,
            Effect::ClearPlaylist,
            Effect::DropCover,
            Effect::Notify(Notice::QueueCleared),
        ]
    );
}

#[test]
fn removing_the_last_row_keeps_the_selection_on_a_row() {
    let mut s = session_with(3);
    s.handle_action(Action::ShowQueue, ctx(), &values());
    s.handle_action(Action::Bottom, ctx(), &values());
    assert_eq!(s.queue_sel, 2);
    let e = s.handle_action(Action::Remove, ctx(), &values());
    assert_eq!(e, vec![Effect::ResyncPrefetch]);
    assert_eq!(s.queue.len(), 2);
    assert_eq!(s.queue_sel, 1);
}

#[test]
fn the_cover_toggle_reports_its_renderer() {
    let mut s = session_with(0);
    let e = s.handle_action(Action::ToggleAscii, ctx(), &values());
    assert!(!s.cover_visible);
    assert!(e.contains(&Effect::Notify(Notice::CoverOff)));
    let e = s.handle_action(Action::ToggleAscii, ctx(), &values());
    assert!(s.cover_visible);
    assert!(e.contains(&Effect::Notify(Notice::CoverOn(CoverMode::Auto))));
}

#[test]
fn player_advances_are_mirrored_in_the_queue() {
    let mut s = session_with(3);
    s.queue.jump_to(0);
    let e = s.handle_player_event(&PlayerEvent::PlaylistPos(1));
    assert_eq!(s.queue.current_index(), Some(1));
    assert_eq!(e, vec![Effect::TrackChanged, Effect::PrefetchNext]);
    let e = s.handle_player_event(&PlayerEvent::PlaylistPos(1));
    assert!(e.is_empty(), "an unchanged position is not an advance");
    let e = s.handle_player_event(&PlayerEvent::EndFile { reason: "error".to_string() });
    assert_eq!(e, vec![Effect::Notify(Notice::TrackFailed)]);
    let e = s.handle_player_event(&PlayerEvent::Exited);
    assert_eq!(e, vec![Effect::Notify(Notice::PlayerExited)]);
    assert!(s.should_quit);
}

#[test]
fn going_idle_at_the_end_reports_the_queue_finished() {
    let mut s = session_with(1);
    s.queue.jump_to(0);
    let e = s.handle_player_event(&PlayerEvent::Idle);
    assert_eq!(e, vec![Effect::Notify(Notice::QueueFinished)]);
}

#[test]
fn notices_read_as_shown() {
    assert_eq!(Notice::CoverOn(CoverMode::Kitty).text(), "cover on (kitty)");
    assert_eq!(Notice::TrackFailed.text(), "track failed to load, skipping");
    assert_eq!(Notice::QueueEmpty.text(), "queue is empty");
}

#[test]
fn settings_pick_their_current_choice() {
    let v = values();
    let (names, i) = setting_choices(Setting::Theme, &v);
    assert_eq!(names, vec!["cover", "nord", "gruvbox"]);
    assert_eq!(i, 1, "theme names match ignoring case");
    assert_eq!(setting_value(Setting::Renderer, &v), "sixel");
    assert_eq!(setting_value(Setting::Visualizer, &v), "braille");
    assert_eq!(setting_value(Setting::Repeat, &v), "all");
    assert_eq!(settings().len(), 10);
    assert_eq!(Setting::Renderer.label(), "Cover renderer");
    assert!(Setting::Shuffle.description().contains("random"));
}

#[test]
fn choices_wrap_both_ways() {
    assert_eq!(step_choice(2, 3, 1), 0);
    assert_eq!(step_choice(0, 3, -1), 2);
    assert_eq!(step_choice(1, 4, 6), 3);
}

#[test]
fn names_compare_without_regard_to_ascii_case() {
    assert!(eq_ignore_ascii_case("Nord", "nORD"));
    assert!(!eq_ignore_ascii_case("nord", "nor"));
    let names = vec!["a".to_string(), "B".to_string()];
    assert_eq!(pick(&names, "b"), 1);
    assert_eq!(pick(&names, "zz"), 0);
}

#[test]
fn the_menu_lists_its_words() {
    assert_eq!(menu_items(), [MenuItem::Options, MenuItem::Help, MenuItem::Quit]);
    assert_eq!(menu_word(MenuItem::Quit), "QUIT");
}

#[test]
fn kitty_wins_whenever_the_terminal_speaks_it() {
    assert_eq!(Graphics::resolve(CoverMode::Auto, true, true), Graphics::Kitty);
    assert_eq!(Graphics::resolve(CoverMode::Auto, false, true), Graphics::Sixel);
    assert_eq!(Graphics::resolve(CoverMode::Auto, false, false), Graphics::Blocks);
    assert_eq!(Graphics::resolve(CoverMode::Sixel, true, false), Graphics::Sixel);
    assert_eq!(Graphics::resolve(CoverMode::Blocks, true, true), Graphics::Blocks);
}

#[test]
fn the_command_line_picks_a_mode() {
    let cli = Cli { query: vec!["nirvana".into(), "lithium".into()], auth: None, diagnose: false };
    assert!(matches!(mode(&cli), Mode::Play(Some(q)) if q == "nirvana lithium"));
    let cli = Cli { query: vec![], auth: None, diagnose: false };
    assert!(matches!(mode(&cli), Mode::Play(None)));
    let cli = Cli { query: vec!["x".into()], auth: None, diagnose: true };
    assert!(matches!(mode(&cli), Mode::Diagnose));
    let cli = Cli { query: vec![], auth: Some("browser".into()), diagnose: true };
    assert!(matches!(mode(&cli), Mode::Auth(a) if a == "browser"));
    assert_eq!(join_words(&[]), "");
}

#[test]
fn a_search_hit_into_silence_plays_and_brings_its_radio() {
    let mut s: Session<u32> = Session::new();
    s.autoplay_radio = true;
    let e = s.enqueue(7, false);
    assert_eq!(e, vec![Effect::StartCurrent, Effect::AppendRadio]);
    assert_eq!(s.queue.current_index(), Some(0));
    let e = s.enqueue(8, false);
    assert_eq!(e, vec![Effect::ResyncPrefetch, Effect::AnnounceQueued]);
    assert_eq!(s.queue.current_index(), Some(0), "a queued track waits its turn");
    let e = s.enqueue(9, true);
    assert_eq!(e, vec![Effect::StartCurrent], "jumping plays it, without a new radio");
    assert_eq!(s.queue.current_index(), Some(2));
}

#[test]
fn media_keys_skip_whatever_pane_is_focused() {
    let mut s = session_with(2);
    s.queue.jump_to(0);
    s.view = View::Search;
    assert_eq!(s.next_track(), vec![Effect::PlaylistNext]);
    s.queue.jump_to(1);
    assert_eq!(s.next_track(), vec![Effect::Notify(Notice::EndOfQueue)]);
    assert_eq!(s.prev_track(true), vec![Effect::SeekToStart]);
    assert_eq!(s.prev_track(false), vec![Effect::StartCurrent]);
    assert_eq!(s.queue.current_index(), Some(0));
}

#[test]
fn desktop_controls_set_shuffle_and_repeat() {
    let mut s = session_with(3);
    assert!(s.set_shuffle(false).is_empty(), "already off");
    assert_eq!(s.set_shuffle(true), vec![Effect::ResyncPrefetch]);
    assert!(s.queue.is_shuffled());
    assert_eq!(s.set_repeat(RepeatMode::One), vec![Effect::SetLoopFile(true), Effect::ResyncPrefetch]);
    assert_eq!(s.queue.repeat_mode(), RepeatMode::One);
}

#[test]
fn playing_an_empty_list_only_says_so() {
    let mut s = session_with(2);
    let e = s.play_all(Vec::new(), 0);
    assert_eq!(e, vec![Effect::Notify(Notice::NothingToPlay)]);
    assert_eq!(s.queue.len(), 2);
    assert_eq!(Notice::NothingToPlay.text(), "nothing to play");
}

#[test]
fn playing_a_list_replaces_the_queue_at_its_start() {
    let mut s = session_with(2);
    let e = s.play_all(vec![7, 8, 9], 1);
    assert_eq!(e, vec![Effect::ClearQueueFeed, Effect::StartCurrent]);
    assert_eq!(s.queue.len(), 3);
    assert_eq!(s.queue.current(), Some(&8));
    let e = s.play_all(vec![4, 5], 9);
    assert_eq!(e, vec![Effect::ClearQueueFeed, Effect::StartCurrent]);
    assert_eq!(s.queue.current(), Some(&5));
}

#[test]
fn the_search_box_takes_typing_while_it_has_focus() {
    let mut s = session_with(0);
    assert_eq!(s.search_key(KeyCode::Char('x'), false), SearchKey::PassOn);
    s.view = View::Search;
    assert_eq!(s.search_key(KeyCode::Char('i'), false), SearchKey::Consumed);
    assert!(s.search_editing);
    assert_eq!(s.search_key(KeyCode::Char('q'), false), SearchKey::Type('q'));
    assert_eq!(s.search_key(KeyCode::Char('q'), true), SearchKey::Consumed);
    assert_eq!(s.search_key(KeyCode::Backspace, false), SearchKey::Erase);
    assert_eq!(s.search_key(KeyCode::Enter, false), SearchKey::Submit);
    assert_eq!(s.search_key(KeyCode::Esc, false), SearchKey::Consumed);
    assert!(!s.search_editing);
}

#[test]
fn a_one_off_mid_playlist_slots_in_next_and_plays() {
    let mut s = session_with(3);
    s.queue.jump_to(0);
    let e = s.play_one_off(42, true);
    assert_eq!(e, vec![Effect::StartCurrent]);
    assert_eq!(s.queue.current(), Some(&42));
    // The playlist resumes after it.
    assert_eq!(s.queue.peek_next(), Some(&1));
    // Outside a playlist it is added at the end and played.
    let mut s = session_with(3);
    s.queue.jump_to(0);
    s.play_one_off(42, false);
    assert_eq!(s.queue.current(), Some(&42));
    assert_eq!(s.queue.tracks().last(), Some(&42));
}

#[test]
fn replies_for_what_is_no_longer_wanted_are_dropped() {
    let mut s = session_with(0);
    s.searching = true;
    s.search_sel = 4;
    let (keep, e) = s.on_reply(&Reply::SearchResults(0));
    assert!(keep);
    assert_eq!(e, vec![Effect::Notify(Notice::NoResults)]);
    assert!(!s.searching);
    assert_eq!(s.search_sel, 0);
    assert_eq!(Notice::NoResults.text(), "no results");
    let (_, e) = s.on_reply(&Reply::SearchResults(3));
    assert!(e.is_empty());
    let q = |query: &str, input: &str| Reply::Suggestions { query: query.into(), input: input.into() };
    assert!(s.on_reply(&q("ki", " ki ")).0);
    assert!(!s.on_reply(&q("k", "ki")).0);
    let cover = |wanted: Option<&str>| Reply::Cover { video_id: "a".into(), wanted: wanted.map(|w| w.into()) };
    assert!(s.on_reply(&cover(Some("a"))).0);
    assert!(!s.on_reply(&cover(Some("b"))).0);
    assert!(!s.on_reply(&cover(None)).0);
    let lyrics = Reply::Lyrics { video_id: "a".into(), playing: Some("b".into()) };
    assert!(!s.on_reply(&lyrics).0);
    s.searching = true;
    assert!(s.on_reply(&Reply::Error).0);
    assert!(!s.searching);
}
