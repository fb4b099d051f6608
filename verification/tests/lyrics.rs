use ytkew::lyrics::{parse_lrc_line, Lyrics};

#[test]
fn parses_centisecond_timestamps() {
    let l = Lyrics::parse_lrc("[00:17.12] hello\n[03:20.45] world\n");
    assert!(l.is_synced);
    assert_eq!(l.lines.len(), 2);
    assert_eq!(l.lines[0].ms, 17_120);
    assert_eq!(l.lines[0].text, "hello");
    assert_eq!(l.lines[1].ms, 200_450);
    assert_eq!(l.source, "lrclib/synced");
}

#[test]
fn parses_millisecond_and_bare_timestamps() {
    let l = Lyrics::parse_lrc("[03:20.312] ms\n[01:02] bare\n");
    assert!(l.is_synced);
    assert_eq!(l.lines[0].ms, 62_000);
    assert_eq!(l.lines[1].ms, 200_312);
}

#[test]
fn skips_malformed_lines_and_metadata() {
    let l = Lyrics::parse_lrc("[ti:Title]\n[length: 03:45]\n[xx:yy] bad\n[00:10.00] ok\n\nplain line\n");
    assert!(l.is_synced);
    assert_eq!(l.lines.len(), 1);
    assert_eq!(l.lines[0].text, "ok");
}

#[test]
fn expands_multiple_timestamps_on_one_line() {
    let l = Lyrics::parse_lrc("[00:10.00][00:20.00] chorus\n");
    assert_eq!(l.lines.len(), 2);
    assert_eq!(l.lines[0].ms, 10_000);
    assert_eq!(l.lines[1].ms, 20_000);
    assert_eq!(l.lines[0].text, "chorus");
}

#[test]
fn line_for_returns_last_elapsed() {
    let l = Lyrics::parse_lrc("[00:00.00] a\n[00:10.00] b\n[00:20.00] c\n");
    assert_eq!(l.line_for(0), Some(0));
    assert_eq!(l.line_for(15_000), Some(1));
    assert_eq!(l.line_for(99_000), Some(2));
}

#[test]
fn line_for_returns_none_before_first_line_or_when_empty() {
    let l = Lyrics::parse_lrc("[00:10.00] late\n");
    assert_eq!(l.line_for(9_999), None);
    let empty = Lyrics::parse_lrc("");
    assert_eq!(empty.line_for(0), None);
    assert!(!empty.is_synced);
}

#[test]
fn plain_marks_unsynced() {
    let l = Lyrics::plain("one\ntwo".to_string(), "ytmapi");
    assert!(!l.is_synced);
    assert_eq!(l.lines.len(), 2);
    assert!(l.lines.iter().all(|x| x.ms == 0));
    assert_eq!(l.source, "ytmapi");
    assert_eq!(l.raw, "one\ntwo");
}

#[test]
fn parse_lrc_line_reads_one_tag() {
    assert_eq!(parse_lrc_line("[00:17.12] hello"), Some((17_120, "hello".to_string())));
    assert_eq!(parse_lrc_line("[ti:Title]"), None);
    assert_eq!(parse_lrc_line("no tag"), None);
}

#[test]
fn out_of_order_lines_are_sorted_stably() {
    let l = Lyrics::parse_lrc("[00:20.00] late\n[00:05.00] early\n[00:20.00] late too\n");
    let ms: Vec<u32> = l.lines.iter().map(|x| x.ms).collect();
    assert_eq!(ms, [5_000, 20_000, 20_000]);
    assert_eq!(l.lines[1].text, "late");
    assert_eq!(l.lines[2].text, "late too");
}
