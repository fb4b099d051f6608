use ytkew::player::{choose_extractor, extractor_candidates, extractors, find_extractor_in, join_path};

#[test]
fn the_error_tells_you_how_to_fix_it() {
    let e = find_extractor_in("", false, &[]).unwrap_err();
    assert!(e.contains("yt-dlp not found"), "got {e}");
    assert!(e.contains("install yt-dlp"), "got {e}");
    assert!(e.contains("ytdlp_path"), "got {e}");
}

#[test]
fn a_configured_path_is_used_as_given() {
    let found = find_extractor_in("  /opt/bin/my-ytdlp \n", true, &[]).unwrap();
    assert_eq!(found, "/opt/bin/my-ytdlp");
}

#[test]
fn a_configured_path_that_is_wrong_says_so_rather_than_falling_back() {
    let searched = vec![("/usr/bin/yt-dlp".to_string(), true)];
    let e = find_extractor_in("/nowhere/not-here", false, &searched).unwrap_err();
    assert!(e.contains("ytdlp_path"), "got {e}");
    assert!(e.contains("not an executable file"), "got {e}");
    assert!(e.contains("\"/nowhere/not-here\""), "the path is quoted: {e}");
}

#[test]
fn a_non_executable_file_is_rejected() {
    let searched = vec![("/d/yt-dlp".to_string(), false), ("/d/youtube-dl".to_string(), false)];
    assert!(find_extractor_in("", false, &searched).is_err());
}

#[test]
fn yt_dlp_is_preferred_over_youtube_dl() {
    let dirs = vec!["/d".to_string()];
    // Both present in the one directory.
    assert_eq!(choose_extractor("", false, &dirs, &[true, true]).unwrap(), "/d/yt-dlp");
    // yt-dlp in a later directory still beats youtube-dl in an earlier one.
    let dirs = vec!["/a".to_string(), "/b/".to_string()];
    assert_eq!(choose_extractor("", false, &dirs, &[false, true, true, false]).unwrap(), "/b/yt-dlp");
}

#[test]
fn youtube_dl_is_accepted_when_yt_dlp_is_absent() {
    let dirs = vec!["/d".to_string()];
    assert_eq!(choose_extractor("", false, &dirs, &[false, true]).unwrap(), "/d/youtube-dl");
    let searched = vec![("/d/yt-dlp".to_string(), false), ("/d/youtube-dl".to_string(), true)];
    assert_eq!(find_extractor_in("", false, &searched).unwrap(), "/d/youtube-dl");
}

#[test]
fn the_search_tries_every_directory_for_yt_dlp_first() {
    let dirs = vec!["/a".to_string(), "".to_string()];
    assert_eq!(extractor_candidates(&dirs), vec!["/a/yt-dlp", "yt-dlp", "/a/youtube-dl", "youtube-dl"]);
    assert_eq!(join_path("/usr/bin/", "yt-dlp"), "/usr/bin/yt-dlp");
    let err = choose_extractor("", false, &dirs, &[false; 4]).unwrap_err();
    assert!(err.contains("yt-dlp not found"));
}

#[test]
fn extractors_are_listed_best_first() {
    assert_eq!(extractors(), ["yt-dlp", "youtube-dl"]);
}
