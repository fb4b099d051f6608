use ytkew::palette::Rgb;
use ytkew::ui::banner::{letters, rows, shades, width as banner_width, ROWS};
use ytkew::ui::bigtext::{glyph, render, width as word_width};
use ytkew::ui::chrome::tab_rule;
use ytkew::ui::views::{fit, rfit, window};
use unicode_width::UnicodeWidthStr;
use ytkew::ui::widgets::elide;
use ytkew::ui::View;

fn lum(c: Rgb) -> f32 {
    0.2126 * c.0 as f32 + 0.7152 * c.1 as f32 + 0.0722 * c.2 as f32
}

#[test]
fn tab_cycles_the_four_main_views() {
    let mut v = View::Queue;
    let mut seen = vec![v];
    for _ in 0..3 {
        v = v.next();
        seen.push(v);
    }
    assert_eq!(seen, vec![View::Queue, View::Library, View::Track, View::Search]);
    assert_eq!(v.next(), View::Queue, "should wrap");
}

#[test]
fn prev_is_the_inverse_of_next() {
    for v in [View::Queue, View::Library, View::Track, View::Search] {
        assert_eq!(v.next().prev(), v);
    }
}

#[test]
fn help_and_lyrics_return_to_track() {
    assert_eq!(View::Help.next(), View::Track);
    assert_eq!(View::Lyrics.prev(), View::Track);
}

#[test]
fn chrome_the_tab_rule_breaks_around_the_active_tab() {
    let r: Vec<char> = tab_rule(20, 5, 10).chars().collect();
    assert_eq!(r.len(), 20);
    assert_eq!(r[0], '─');
    assert_eq!(r[4], '┘', "corner just before the tab");
    assert_eq!(&r[5..10], &[' ', ' ', ' ', ' ', ' '], "gap under the tab");
    assert_eq!(r[10], '└', "corner just after the tab");
    assert_eq!(r[19], '─');
}

#[test]
fn chrome_the_tab_rule_is_unbroken_when_no_tab_is_active() {
    assert_eq!(tab_rule(8, 0, 0), "─".repeat(8));
}

#[test]
fn chrome_the_tab_rule_clamps_to_the_available_width() {
    let r = tab_rule(10, 6, 40);
    assert_eq!(r.chars().count(), 10);
    assert!(r.starts_with("─────"));
}

#[test]
fn views_the_tab_rule_breaks_around_the_active_tab() {
    let r: Vec<char> = tab_rule(20, 5, 10).chars().collect();
    assert_eq!(r.len(), 20);
    assert_eq!(r[0], '─');
    assert_eq!(r[4], '┘', "corner just before the tab");
    assert_eq!(&r[5..10], &[' ', ' ', ' ', ' ', ' '], "gap under the tab");
    assert_eq!(r[10], '└', "corner just after the tab");
    assert_eq!(r[19], '─');
}

#[test]
fn views_the_tab_rule_is_unbroken_when_no_tab_is_active() {
    assert_eq!(tab_rule(8, 0, 0), "─".repeat(8));
}

#[test]
fn views_the_tab_rule_clamps_to_the_available_width() {
    let r = tab_rule(10, 6, 40);
    assert_eq!(r.chars().count(), 10);
    assert!(r.starts_with("─────"));
}

#[test]
fn columns_are_padded_to_exact_widths() {
    assert_eq!(fit("ab", 5), "ab   ");
    assert_eq!(fit("abcdef", 4), "abc…");
    assert_eq!(rfit("3:58", 6), "  3:58");
    assert_eq!(rfit("12", 2), "12");
    assert_eq!(fit("日本", 4).width(), 4);
}

#[test]
fn window_shows_everything_when_it_fits() {
    assert_eq!(window(0, 5, 10), (0, 5));
    assert_eq!(window(4, 5, 5), (0, 5));
}

#[test]
fn window_centres_the_selection_and_clamps_at_the_ends() {
    assert_eq!(window(0, 100, 10), (0, 10));
    assert_eq!(window(50, 100, 10), (45, 55));
    assert_eq!(window(99, 100, 10), (90, 100));
}

#[test]
fn window_handles_empty_and_zero_height() {
    assert_eq!(window(0, 0, 10), (0, 0));
    assert_eq!(window(0, 10, 0), (0, 0));
}

#[test]
fn truncate_adds_an_ellipsis_only_when_needed() {
    assert_eq!(elide("abc", 10), "abc");
    assert_eq!(elide("abcdefghij", 5), "abcd…");
}

#[test]
fn truncate_counts_wide_characters() {
    let s = "日本語テキスト";
    let out = elide(s, 6);
    assert!(out.width() <= 6, "got width {}", out.width());
}

#[test]
fn elide_respects_wide_characters() {
    let out = elide("日本語テキスト", 6);
    assert!(out.width() <= 6);
    assert!(out.ends_with('…'));
}

#[test]
fn every_letter_is_rectangular() {
    for (i, letter) in letters().iter().enumerate() {
        let w = letter[0].chars().count();
        for (r, row) in letter.iter().enumerate() {
            assert_eq!(row.chars().count(), w, "letter {i} row {r} is the wrong width");
        }
    }
}

#[test]
fn the_wordmark_rows_all_match_the_stated_width() {
    let r = rows();
    let w = banner_width();
    assert!(w > 30, "should be a big banner, got {w}");
    for (i, row) in r.iter().enumerate() {
        assert_eq!(row.chars().count(), w, "row {i} is the wrong width");
    }
}

#[test]
fn the_ramp_darkens_from_top_to_bottom() {
    let s = shades();
    assert_eq!(s.len(), ROWS);
    for i in 1..ROWS {
        assert!(lum(s[i]) <= lum(s[i - 1]) + 0.5, "row {i} is brighter than the one above it");
    }
    assert!(lum(s[0]) > lum(s[ROWS - 1]), "top should outshine the shadow");
}

#[test]
fn the_shadow_row_stays_visible_on_a_black_terminal() {
    let last = shades()[ROWS - 1];
    assert!(lum(last) > 8.0, "shadow row would be invisible ({last:?})");
}

#[test]
fn the_banner_is_solid_blocks_not_line_drawing() {
    let joined = rows().join("");
    assert!(joined.contains('█'), "expected solid blocks");
    assert!(joined.contains('╗') && joined.contains('╝'), "expected shadowing");
}

#[test]
fn a_word_renders_three_rows_of_equal_width() {
    let rows = render("OPTIONS", false);
    let w = rows[0].chars().count();
    assert!(w > 0);
    for r in &rows {
        assert_eq!(r.chars().count(), w, "rows must line up: {rows:?}");
    }
    assert_eq!(w, word_width("OPTIONS"));
}

#[test]
fn emphasis_switches_to_double_line_glyphs() {
    let normal = render("HELP", false);
    let bold = render("HELP", true);
    assert!(normal[0].contains('┬') || normal[0].contains('┌'));
    assert!(bold[0].contains('╦') || bold[0].contains('╔'));
    for i in 0..3 {
        assert_eq!(normal[i].chars().count(), bold[i].chars().count());
    }
}

#[test]
fn every_letter_the_menu_uses_has_a_glyph() {
    for word in ["OPTIONS", "HELP", "QUIT"] {
        for c in word.chars() {
            assert!(!glyph(c).0.is_empty(), "no glyph for {c:?} in {word}");
        }
        let rows = render(word, false);
        let w = rows[0].chars().count();
        assert!(rows.iter().all(|r| r.chars().count() == w), "{word}");
    }
}

#[test]
fn unknown_characters_do_not_break_alignment() {
    let rows = render("A!B", false);
    let w = rows[0].chars().count();
    assert!(rows.iter().all(|r| r.chars().count() == w));
}

#[test]
fn view_titles_name_each_pane() {
    assert_eq!(View::Queue.title(), "queue");
    assert_eq!(View::Lyrics.title(), "lyrics");
    assert_eq!(View::Search.next(), View::Queue);
    assert_eq!(View::Queue.prev(), View::Search);
}
