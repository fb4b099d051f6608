use unicode_width::UnicodeWidthStr;
use ytkew::config::keymap::{Action, Keymap};
use ytkew::queue::RepeatMode;
use ytkew::text::{join_with, split_words};
use ytkew::ui::chrome::{
    active_span, bar_label, bar_layout, footer_hints, right_align_gap, status_parts, tab_strip, Tone,
};
use ytkew::ui::lists::{decimal_len, library_row, list_columns, list_row, up_next, up_next_row};
use ytkew::ui::overlay::{help_cell, help_entries, help_keys, help_layout, menu_layout, options_size};
use ytkew::ui::track::{library_empty_message, progress_width, splash_hint, track_title, visualizer_bars};
use ytkew::ui::views::{centre, position_label, wrap};
use ytkew::ui::View;

#[test]
fn centring_puts_the_odd_column_on_the_right() {
    assert_eq!(centre("ab", 5), " ab  ");
    assert_eq!(centre("abcd", 4), "abcd");
    assert_eq!(centre("abcdefgh", 4), "abc…");
}

#[test]
fn wrapping_breaks_between_words() {
    assert_eq!(wrap("the quick brown fox", 10, 3), vec!["the quick", "brown fox"]);
    assert_eq!(wrap("  spaced   out  ", 20, 2), vec!["spaced out"]);
    assert!(wrap("", 10, 2).is_empty());
}

#[test]
fn wrapping_marks_text_it_had_to_cut() {
    assert_eq!(wrap("one two three four five", 9, 2), vec!["one two", "three…"]);
    // A full last line has no room for the mark.
    assert_eq!(wrap("abcdefghi jk", 9, 1), vec!["abcdefghi"]);
}

#[test]
fn the_panel_position_counts_from_one_and_stays_in_range() {
    assert_eq!(position_label(0, 12), "1/12");
    assert_eq!(position_label(40, 12), "12/12");
    assert_eq!(position_label(0, 0), "1/0");
}

#[test]
fn words_split_on_any_whitespace() {
    let chars: Vec<char> = " a\tbc  d\n".chars().collect();
    let words: Vec<String> = split_words(&chars).into_iter().map(|w| w.into_iter().collect()).collect();
    assert_eq!(words, vec!["a", "bc", "d"]);
}

#[test]
fn joining_puts_the_separator_between_pieces_only() {
    let parts = vec!["space".to_string(), "p".to_string()];
    assert_eq!(join_with(&parts, ", "), "space, p");
    assert_eq!(join_with(&[], ", "), "");
}

#[test]
fn numbered_lists_share_the_width_two_fifths_to_the_artist() {
    assert_eq!(decimal_len(0), 1);
    assert_eq!(decimal_len(120), 3);
    let c = list_columns(12, 40, 20);
    assert_eq!((c.bar_w, c.idx_w), (0, 2));
    // 40 - (2 + 2 + 2 + 6) = 28, of which 11 to the artist.
    assert_eq!((c.artist_w, c.title_w), (11, 17));
    let c = list_columns(30, 40, 20);
    assert_eq!(c.bar_w, 1);
    assert_eq!(c.artist_w + c.title_w, 27);
}

#[test]
fn a_queue_row_marks_the_playing_track() {
    let c = list_columns(3, 30, 10);
    let row = list_row(true, 1, &c, "Radiohead", "Airbag", "4:44", 30);
    assert!(row.starts_with("▶ 2 "), "{row}");
    assert!(row.ends_with("  4:44"), "{row}");
    assert_eq!(row.chars().count(), 30);
    let row = list_row(false, 0, &c, "A", "B", "1:00", 30);
    assert!(row.starts_with("  1 A"), "{row}");
}

#[test]
fn up_next_starts_after_the_current_track() {
    let u = up_next(Some(1), 5, 0, 40, 10).expect("upcoming tracks");
    assert_eq!((u.start, u.sel, u.first, u.end), (2, 2, 2, 5));
    assert_eq!(u.artist_w, 0);
    assert_eq!(u.title_w, 32);
    let row = up_next_row(&u, "A", "Song", "3:00", 40);
    assert!(row.starts_with("  Song"), "{row}");
    assert!(row.ends_with("  3:00"), "{row}");
    assert_eq!(up_next(Some(4), 5, 0, 40, 10).unwrap_err(), "end of the queue");
    assert_eq!(up_next(None, 0, 0, 40, 10).unwrap_err(), "nothing queued");
    // Wide panes get an artist column.
    let u = up_next(None, 3, 0, 80, 10).unwrap();
    assert_eq!(u.artist_w, 28);
}

#[test]
fn library_rows_indent_by_depth() {
    assert_eq!(library_row(1, "▸", "Kid A", "2000", 20, 0), "  ▸ Kid A  2000     ");
    assert_eq!(library_row(0, "·", "Idioteque", "", 12, 1), "· Idioteque");
}

#[test]
fn tabs_follow_the_wordmark_and_grow_with_help() {
    let tabs = tab_strip(View::Track);
    assert_eq!(tabs.len(), 4);
    assert_eq!(tabs[0].label, "  1 queue  ");
    assert_eq!((tabs[0].start, tabs[0].width), (7, 11));
    assert_eq!((tabs[1].start, tabs[1].width), (18, 13));
    assert_eq!(active_span(&tabs, View::Track), (31, 42));
    let tabs = tab_strip(View::Help);
    assert_eq!(tabs.len(), 5);
    assert_eq!(tabs[4].label, "  5 help  ");
    assert_eq!(active_span(&tab_strip(View::Queue), View::Lyrics), (0, 0));
}

#[test]
fn the_status_corner_lists_what_applies() {
    let parts = status_parts(false, true, (2, 9), true, RepeatMode::One, 80);
    let texts: Vec<&str> = parts.iter().map(|(_, s)| s.as_str()).collect();
    assert_eq!(texts, vec!["2/9  ", "⇄ ", "↻1 ", "vol 80% "]);
    assert_eq!(parts[1].0, Tone::Accent);
    let parts = status_parts(true, false, (0, 0), false, RepeatMode::Off, -3);
    let texts: Vec<&str> = parts.iter().map(|(_, s)| s.as_str()).collect();
    assert_eq!(texts, vec!["offline  ", "vol -3% "]);
    let parts = status_parts(false, false, (0, 0), false, RepeatMode::All, 0);
    assert_eq!(parts[0].1, "not signed in  ");
    assert_eq!(parts[1].1, "↻ ");
    assert_eq!(right_align_gap(10, 5, 20), Some(5));
    assert_eq!(right_align_gap(10, 10, 20), None);
}

#[test]
fn the_player_bar_splits_its_width() {
    assert_eq!(bar_label("Airbag", "Radiohead"), "Airbag — Radiohead");
    assert_eq!(bar_label("Airbag", ""), "Airbag");
    // 100 - (8 + 11) = 81 free; the label needs 6, the bar caps at 48.
    let l = bar_layout(100, "1:23 / 4:56", "Airbag");
    assert_eq!((l.label_w, l.bar_w, l.gap, l.track), (6, 48, 27, 39));
    let l = bar_layout(10, "1:23 / 4:56", "Airbag");
    assert_eq!((l.label_w, l.bar_w, l.gap), (0, 0, 0));
}

#[test]
fn footer_hints_fit_the_pane() {
    let h = footer_hints(View::Track);
    assert_eq!(h.len(), 8);
    assert_eq!(h[0], ("space", "play"));
    assert_eq!(footer_hints(View::Help), vec![("tab", "back")]);
    assert_eq!(footer_hints(View::Library)[1], ("alt+enter", "play all"));
}

#[test]
fn the_help_lists_every_entry_with_its_keys() {
    let e = help_entries();
    assert_eq!(e.len(), 28);
    assert_eq!(e[0], ("Play / pause", Action::PlayPause));
    assert_eq!(e[27], ("Quit", Action::Quit));
    let keys = help_keys(&Keymap::default(), Action::Quit);
    assert!(!keys.is_empty());
    let (left, right) = help_cell("Quit", "q");
    assert_eq!(left.chars().count(), 24);
    assert!(left.starts_with(" Quit "));
    assert_eq!(right.chars().count(), 19);
}

#[test]
fn the_help_box_uses_two_columns_when_wide() {
    let l = help_layout(28, 120, 40);
    assert!(l.two_col);
    assert_eq!((l.rows, l.w, l.h), (14, 91, 16));
    let l = help_layout(28, 60, 20);
    assert!(!l.two_col);
    assert_eq!((l.rows, l.w, l.h), (28, 46, 20));
}

#[test]
fn the_menu_box_drops_the_wordmark_when_cramped() {
    let big = menu_layout(200, 60);
    assert!(big.show_banner);
    assert_eq!(big.h, 22);
    let small = menu_layout(30, 12);
    assert!(!small.show_banner);
    assert_eq!(small.h, 12);
    assert!(small.w <= 30);
    assert_eq!(options_size(7, 100, 40), (44, 19));
    assert_eq!(options_size(7, 30, 10), (30, 10));
}

#[test]
fn the_track_view_words() {
    assert_eq!(track_title(true, true), "paused");
    assert_eq!(track_title(true, false), "now playing");
    assert_eq!(track_title(false, true), "track");
    assert!(splash_hint(true).starts_with("2 for your library"));
    assert!(splash_hint(false).starts_with("/ to search"));
    assert_eq!(library_empty_message(true), "library is empty");
}

#[test]
fn visualizer_bars_get_finer_on_wide_panes() {
    assert_eq!(visualizer_bars(2, 40), (1, 40));
    assert_eq!(visualizer_bars(2, 120), (2, 60));
    assert_eq!(visualizer_bars(0, 20), (1, 20));
}

#[test]
fn the_progress_bar_takes_what_the_times_leave() {
    assert_eq!(progress_width(40, "1:23", "4:56"), Some(30));
    assert_eq!(progress_width(12, "1:23", "4:56"), None);
}

#[test]
fn nothing_fits_in_no_columns() {
    assert_eq!(ytkew::ui::views::fit("ab", 0), "");
    assert_eq!(ytkew::ui::views::rfit("ab", 0), "");
    assert_eq!(centre("ab", 0), "");
    assert_eq!(ytkew::ui::views::fit("ab", 5), "ab   ");
}

#[test]
fn wrapping_to_no_lines_gives_none() {
    assert!(wrap("a b c", 1, 0).is_empty());
    assert_eq!(wrap("aa bb cc d ee", 5, 2), vec!["aa bb", "cc d…"]);
}

#[test]
fn fitted_text_takes_exactly_its_columns() {
    assert_eq!(ytkew::ui::views::fit("日本", 5).width(), 5);
    assert_eq!(ytkew::ui::views::rfit("日本", 5).width(), 5);
    assert_eq!(centre("日本", 7).width(), 7);
    assert_eq!(ytkew::ui::views::fit("日本語テキスト", 4).width(), 4);
    for line in wrap("the quick brown fox jumps", 9, 3) {
        assert!(line.width() <= 9, "{line}");
    }
}
