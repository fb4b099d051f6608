use ytkew::model::{best_thumbnail, Thumb};
use ytkew::mpris::{changes, metadata_for, track_key, track_path, transport, Change, Playback, TrackMeta};
use ytkew::queue::{Queue, RepeatMode};

fn creep(art: Option<&str>) -> TrackMeta {
    metadata_for(
        "abc-123_x",
        "Creep",
        "Radiohead",
        Some("Pablo Honey"),
        Some("https://example.com/art.jpg"),
        art,
    )
}

#[test]
fn metadata_carries_the_fields_desktops_display() {
    let m = creep(None);
    assert_eq!(m.title, "Creep");
    assert_eq!(m.artist.as_deref(), Some("Radiohead"));
    assert_eq!(m.album.as_deref(), Some("Pablo Honey"));
    assert_eq!(m.art_url.as_deref(), Some("https://example.com/art.jpg"));
    assert_eq!(m.url, "https://music.youtube.com/watch?v=abc-123_x");
}

#[test]
fn track_id_is_a_valid_object_path_even_for_awkward_video_ids() {
    let m = creep(None);
    let tail = m.track_id.rsplit('/').next().unwrap();
    assert!(
        tail.chars().all(|c| c.is_ascii_alphanumeric() || c == '_'),
        "illegal object path segment: {tail}"
    );
}

#[test]
fn track_ids_follow_the_track_not_its_queue_position() {
    let a = creep(None).track_id;
    let b = creep(None).track_id;
    assert_eq!(a, b);
    let other = metadata_for("different", "Creep", "Radiohead", None, None, None);
    assert_ne!(other.track_id, a);
}

#[test]
fn a_cached_cover_is_offered_as_a_file_url() {
    let m = creep(Some("/home/u/.cache/ytkew/abc123"));
    assert_eq!(m.art_url.as_deref(), Some("file:///home/u/.cache/ytkew/abc123"));
}

#[test]
fn a_track_without_optional_fields_still_produces_metadata() {
    let m = metadata_for("x", "Untitled", "", None, None, None);
    assert_eq!(m.title, "Untitled");
    assert_eq!(m.album, None);
    assert_eq!(m.artist, None);
    assert_eq!(m.art_url, None);
}

#[test]
fn track_paths_hex_encode_the_video_id() {
    assert_eq!(track_path("a-"), "/org/mpris/MediaPlayer2/ytkew/track/x612d");
    assert_eq!(track_path(""), "/org/mpris/MediaPlayer2/ytkew/track/x");
    assert_eq!(track_path("é"), "/org/mpris/MediaPlayer2/ytkew/track/xc3a9");
}

#[test]
fn the_largest_thumbnail_is_upscaled() {
    let thumbs = vec![
        Thumb { width: 60, height: 60, url: "https://i/a=w60-h60-l90-rj".to_string() },
        Thumb { width: 120, height: 120, url: "https://i/b=w120-h120-l90-rj".to_string() },
        Thumb { width: 90, height: 90, url: "https://i/c=w90-h90".to_string() },
    ];
    assert_eq!(best_thumbnail(&thumbs, 544), Some("https://i/b=w544-h544-l90-rj".to_string()));
    assert_eq!(best_thumbnail(&[], 544), None);
}

#[test]
fn among_equal_thumbnails_the_last_wins() {
    let thumbs = vec![
        Thumb { width: 10, height: 10, url: "first".to_string() },
        Thumb { width: 10, height: 10, url: "second".to_string() },
    ];
    assert_eq!(best_thumbnail(&thumbs, 544), Some("second".to_string()));
}

#[test]
fn the_transport_follows_the_queue() {
    let mut q: Queue<u32> = Queue::new();
    let idle = transport(&q, false);
    assert_eq!(idle.status, Playback::Stopped);
    assert!(!idle.can_play && !idle.can_next);
    q.push(1);
    q.push(2);
    q.jump_to(0);
    let t = transport(&q, true);
    assert_eq!(t.status, Playback::Paused);
    assert!(t.can_next && t.can_prev && t.can_seek);
    assert_eq!(t.repeat, RepeatMode::Off);
    assert_eq!(
        changes(&idle, &t, true, false),
        vec![
            Change::PlaybackStatus,
            Change::Metadata,
            Change::CanGoNext,
            Change::CanGoPrevious,
            Change::CanPlay,
            Change::CanPause,
            Change::CanSeek,
        ]
    );
    assert!(changes(&t, &t, false, false).is_empty());
    assert_eq!(changes(&t, &t, false, true), vec![Change::Volume]);
}

#[test]
fn the_track_key_carries_the_cover_path() {
    assert_eq!(track_key("abc", Some("/tmp/c.jpg")), "abc|/tmp/c.jpg");
    assert_eq!(track_key("abc", None), "abc|");
}
