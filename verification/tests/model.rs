use ytkew::model::{
    display_name, format_clock, fresh_positions, radio_tail, search_query, suggestion_query, suggestions_current,
    upscale_thumbnail, watch_url,
};

#[test]
fn thumbnail_upscaling_rewrites_size_directive() {
    let u = "https://yt3.googleusercontent.com/abc=w60-h60-l90-rj";
    assert_eq!(upscale_thumbnail(u, 544), "https://yt3.googleusercontent.com/abc=w544-h544-l90-rj");
}

#[test]
fn thumbnail_upscaling_leaves_odd_urls_alone() {
    let u = "https://example.com/cover.jpg";
    assert_eq!(upscale_thumbnail(u, 544), u);
}

#[test]
fn durations_round_trip() {
    assert_eq!(format_clock(239), "3:59");
    assert_eq!(format_clock(3723), "1:02:03");
    assert_eq!(format_clock(0), "0:00");
}

#[test]
fn urls_and_display_names() {
    assert_eq!(watch_url("abc"), "https://music.youtube.com/watch?v=abc");
    assert_eq!(display_name("A", "T"), "A - T");
    assert_eq!(display_name("", "T"), "T");
}

#[test]
fn a_radio_mix_skips_what_the_queue_already_holds() {
    let existing = vec!["a".to_string(), "b".to_string()];
    let incoming = vec!["b".to_string(), "c".to_string(), "a".to_string(), "d".to_string()];
    assert_eq!(fresh_positions(&existing, &incoming), vec![1, 3]);
    assert_eq!(fresh_positions(&[], &incoming), vec![0, 1, 2, 3]);
}

#[test]
fn a_radio_reply_for_an_old_seed_is_dropped() {
    let existing = vec!["a".to_string(), "b".to_string()];
    let incoming = vec!["b".to_string(), "c".to_string(), "d".to_string()];
    assert_eq!(radio_tail(Some("a"), "a", &existing, &incoming), vec![1, 2]);
    assert!(radio_tail(Some("b"), "a", &existing, &incoming).is_empty());
    assert!(radio_tail(None, "a", &existing, &incoming).is_empty());
}

#[test]
fn queries_are_trimmed_and_need_something_to_ask() {
    assert_eq!(search_query("  kid a "), Some("kid a".to_string()));
    assert_eq!(search_query("   "), None);
    assert_eq!(suggestion_query(" k "), None);
    assert_eq!(suggestion_query(" ki "), Some("ki".to_string()));
    assert!(suggestions_current("ki", " ki "));
    assert!(!suggestions_current("k", " ki "));
}
