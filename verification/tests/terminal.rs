use ytkew::art::terminal::{
    detect_cell_size, multiplexer, parse_cell_report, parse_cursor_row, plausible,
    sixel_recommended, terminal_supports_sixel, CellSource,
};

#[test]
fn terminal_detected_cell_size_is_always_plausible() {
    let ((w, h), _src) = detect_cell_size(None, None, None);
    assert!(plausible(w, h), "got {w}x{h}");
    // A nonsense report is passed over, not used.
    let ((w, h), src) = detect_cell_size(None, Some((40, 25)), None);
    assert!(plausible(w, h), "got {w}x{h}");
    assert_ne!(src, CellSource::Query);
}

#[test]
fn terminal_config_cell_size_wins_over_detection() {
    let ((w, h), src) = detect_cell_size(Some((11, 23)), Some((8, 16)), Some((9, 18)));
    assert_eq!((w, h), (11, 23));
    assert_eq!(src, CellSource::Config);
    assert!(src.is_trustworthy());
}

#[test]
fn terminal_zero_config_cell_size_falls_through_to_detection() {
    let (_, src) = detect_cell_size(Some((0, 0)), None, None);
    assert_ne!(src, CellSource::Config);
    let (size, src) = detect_cell_size(Some((0, 0)), Some((10, 21)), None);
    assert_eq!(size, (10, 21));
    assert_eq!(src, CellSource::Query);
}

#[test]
fn terminal_implausible_cell_sizes_are_rejected() {
    assert!(!plausible(40, 25), "absurdly wide cell must be rejected");
    assert!(!plausible(8, 4), "cell shorter than it is wide");
    assert!(!plausible(2, 8), "cell too narrow");
    assert!(!plausible(16, 100), "cell too tall");
    assert!(plausible(8, 16));
    assert!(plausible(16, 32));
    assert!(plausible(12, 24));
    assert!(plausible(10, 21));
}

#[test]
fn terminal_only_pinned_or_measured_cell_sizes_are_trusted() {
    assert!(!CellSource::Query.is_trustworthy());
    assert!(!CellSource::Ioctl.is_trustworthy());
    assert!(!CellSource::Fallback.is_trustworthy());
    assert!(CellSource::Config.is_trustworthy());
    assert!(CellSource::Calibrated.is_trustworthy());
}

#[test]
fn terminal_a_multiplexer_only_gets_sixel_when_the_size_is_pinned() {
    // Under a multiplexer a detected size renders at the wrong scale.
    assert!(!sixel_recommended(CellSource::Calibrated, true, Some("zellij")));
    assert!(!sixel_recommended(CellSource::Query, true, Some("tmux")));
    assert!(sixel_recommended(CellSource::Config, true, Some("zellij")));
    // A guessed size never qualifies, multiplexer or not.
    assert!(!sixel_recommended(CellSource::Fallback, true, None));
    assert!(!sixel_recommended(CellSource::Ioctl, true, None));
    assert!(sixel_recommended(CellSource::Calibrated, true, None));
    assert!(!sixel_recommended(CellSource::Calibrated, false, None));
}

#[test]
fn terminal_parses_a_cursor_position_report() {
    assert_eq!(parse_cursor_row(b"\x1b[13;1R"), Some(13));
    assert_eq!(parse_cursor_row(b"\x1b[1;1R"), Some(1));
    // Takes the last report if several arrived.
    assert_eq!(parse_cursor_row(b"\x1b[3;1R\x1b[15;1R"), Some(15));
}

#[test]
fn terminal_rejects_malformed_cursor_reports() {
    assert_eq!(parse_cursor_row(b""), None);
    assert_eq!(parse_cursor_row(b"\x1b[13;1"), None, "unterminated");
    assert_eq!(parse_cursor_row(b"garbage"), None);
}

#[test]
fn terminal_parses_a_cell_size_report() {
    assert_eq!(parse_cell_report(b"\x1b[6;32;16t"), Some((16, 32)));
    assert_eq!(parse_cell_report(b"junk\x1b[6;21;10tmore"), Some((10, 21)));
}

#[test]
fn terminal_rejects_malformed_or_missing_cell_reports() {
    assert_eq!(parse_cell_report(b""), None);
    assert_eq!(parse_cell_report(b"\x1b[6;32"), None, "unterminated");
    assert_eq!(parse_cell_report(b"\x1b[4;953;1383t"), None, "wrong report type");
    assert_eq!(parse_cell_report(b"\x1b[6;0;0t"), None, "zero size");
}

#[test]
fn sixel_config_cell_size_wins_over_detection() {
    let ((w, h), src) = detect_cell_size(Some((11, 23)), None, None);
    assert_eq!((w, h), (11, 23));
    assert_eq!(src, CellSource::Config);
    assert!(src.is_trustworthy());
}

#[test]
fn sixel_detected_cell_size_is_always_plausible() {
    let ((w, h), _src) = detect_cell_size(None, None, Some((3, 3)));
    assert!(plausible(w, h), "got {w}x{h}");
}

#[test]
fn sixel_zero_config_cell_size_falls_through_to_detection() {
    let (_, src) = detect_cell_size(Some((0, 0)), None, None);
    assert_ne!(src, CellSource::Config);
}

#[test]
fn sixel_implausible_cell_sizes_are_rejected() {
    assert!(!plausible(40, 25));
    assert!(!plausible(8, 4));
    assert!(!plausible(2, 8));
    assert!(!plausible(16, 100));
    assert!(plausible(8, 16));
    assert!(plausible(16, 32));
    assert!(plausible(12, 24));
    assert!(plausible(10, 21));
}

#[test]
fn sixel_only_pinned_or_measured_cell_sizes_are_trusted() {
    assert!(!CellSource::Query.is_trustworthy());
    assert!(!CellSource::Ioctl.is_trustworthy());
    assert!(!CellSource::Fallback.is_trustworthy());
    assert!(CellSource::Config.is_trustworthy());
    assert!(CellSource::Calibrated.is_trustworthy());
}

#[test]
fn sixel_a_multiplexer_only_gets_sixel_when_the_size_is_pinned() {
    assert!(!sixel_recommended(CellSource::Calibrated, true, Some("zellij")));
    assert!(!sixel_recommended(CellSource::Query, true, Some("zellij")));
    assert!(!sixel_recommended(CellSource::Fallback, true, None));
    assert!(!sixel_recommended(CellSource::Ioctl, true, None));
}

#[test]
fn sixel_parses_a_cursor_position_report() {
    assert_eq!(parse_cursor_row(b"\x1b[13;1R"), Some(13));
    assert_eq!(parse_cursor_row(b"\x1b[1;1R"), Some(1));
    assert_eq!(parse_cursor_row(b"\x1b[3;1R\x1b[15;1R"), Some(15));
}

#[test]
fn sixel_rejects_malformed_cursor_reports() {
    assert_eq!(parse_cursor_row(b""), None);
    assert_eq!(parse_cursor_row(b"\x1b[13;1"), None);
    assert_eq!(parse_cursor_row(b"garbage"), None);
}

#[test]
fn sixel_parses_a_cell_size_report() {
    assert_eq!(parse_cell_report(b"\x1b[6;32;16t"), Some((16, 32)));
    assert_eq!(parse_cell_report(b"junk\x1b[6;21;10tmore"), Some((10, 21)));
}

#[test]
fn sixel_rejects_malformed_or_missing_cell_reports() {
    assert_eq!(parse_cell_report(b""), None);
    assert_eq!(parse_cell_report(b"\x1b[6;32"), None);
    assert_eq!(parse_cell_report(b"\x1b[4;953;1383t"), None);
    assert_eq!(parse_cell_report(b"\x1b[6;0;0t"), None);
}

#[test]
fn multiplexers_are_recognised_from_their_markers() {
    assert_eq!(multiplexer(true, false, "xterm"), Some("zellij"));
    assert_eq!(multiplexer(false, true, "xterm"), Some("tmux"));
    assert_eq!(multiplexer(false, false, "screen-256color"), Some("screen/tmux"));
    assert_eq!(multiplexer(false, false, "xterm-256color"), None);
}

#[test]
fn sixel_terminals_are_recognised() {
    assert!(terminal_supports_sixel(Some("WezTerm"), "xterm-256color"));
    assert!(!terminal_supports_sixel(None, "dumb"));
}
