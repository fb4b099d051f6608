use ytkew::queue::{Queue, RepeatMode};

#[derive(Clone, Debug, PartialEq)]
struct Track {
    video_id: String,
    title: String,
}

fn q(n: usize) -> Queue<Track> {
    let mut q = Queue::new();
    q.extend((0..n).map(|i| Track { video_id: format!("v{i}"), title: format!("t{i}") }).collect());
    q.jump_to(0);
    q
}

#[test]
fn advances_and_stops_at_end() {
    let mut q = q(3);
    assert_eq!(q.current().unwrap().title, "t0");
    assert_eq!(q.advance().unwrap().title, "t1");
    assert_eq!(q.advance().unwrap().title, "t2");
    assert!(q.advance().is_none(), "should stop at end with repeat off");
}

#[test]
fn repeat_all_wraps() {
    let mut q = q(2);
    q.repeat = RepeatMode::All;
    q.advance();
    assert_eq!(q.advance().unwrap().title, "t0");
}

#[test]
fn shuffle_keeps_current_track_playing() {
    let mut q = q(20);
    q.jump_to(7);
    let before = q.current().unwrap().video_id.clone();
    q.toggle_shuffle();
    assert_eq!(q.current().unwrap().video_id, before);
    // And the visible list is untouched.
    assert_eq!(q.tracks()[7].video_id, "v7");
}

#[test]
fn unshuffle_restores_original_order() {
    let mut q = q(10);
    q.toggle_shuffle();
    q.toggle_shuffle();
    assert_eq!(q.order(), &(0..10).collect::<Vec<_>>()[..]);
}

#[test]
fn removing_shifts_indices() {
    let mut q = q(4);
    q.jump_to(3);
    q.remove(1);
    assert_eq!(q.len(), 3);
    assert_eq!(q.current().unwrap().video_id, "v3");
}

#[test]
fn moving_a_row_preserves_current_track() {
    let mut q = q(4);
    q.jump_to(2);
    q.move_up(2);
    assert_eq!(q.tracks()[1].video_id, "v2");
    assert_eq!(q.current().unwrap().video_id, "v2");
}

#[test]
fn previous_undoes_an_advance() {
    let mut q = q(5);
    q.jump_to(2);
    q.advance();
    q.previous();
    assert_eq!(q.current().unwrap().video_id, "v2");
}

#[test]
fn move_down_undoes_move_up() {
    let mut q = q(5);
    q.move_up(3);
    q.move_down(2);
    let ids: Vec<&str> = q.tracks().iter().map(|t| t.video_id.as_str()).collect();
    assert_eq!(ids, ["v0", "v1", "v2", "v3", "v4"]);
}

#[test]
fn shuffle_keeps_every_track_exactly_once() {
    let mut q = q(12);
    q.toggle_shuffle();
    let mut order = q.order().to_vec();
    order.sort();
    assert_eq!(order, (0..12).collect::<Vec<_>>());
    assert!(q.is_shuffled());
}

#[test]
fn repeat_cycles_off_all_one() {
    assert_eq!(RepeatMode::Off.cycle(), RepeatMode::All);
    assert_eq!(RepeatMode::All.cycle(), RepeatMode::One);
    assert_eq!(RepeatMode::One.cycle(), RepeatMode::Off);
}

#[test]
fn the_position_is_human_numbered() {
    let mut q = q(3);
    q.jump_to(1);
    assert_eq!(q.human_position(), (2, 3));
    q.clear();
    assert_eq!(q.len(), 0);
    assert!(q.current().is_none());
}

#[test]
fn a_track_inserted_next_plays_after_the_current_one() {
    let mut q: ytkew::queue::Queue<u32> = ytkew::queue::Queue::new();
    q.extend(vec![10, 11, 12]);
    q.jump_to(1);
    let at = q.insert_next(99);
    assert_eq!(at, 3);
    assert_eq!(q.current(), Some(&11));
    assert_eq!(q.peek_next(), Some(&99));
    assert_eq!(q.current_index(), Some(1));
}

#[test]
fn replacing_a_shuffled_queue_at_a_missing_track_leaves_none_current() {
    let mut q: ytkew::queue::Queue<u32> = ytkew::queue::Queue::new();
    q.toggle_shuffle();
    q.replace(vec![1, 2, 3], 7);
    assert_eq!(q.current(), None);
    assert_eq!(q.len(), 3);
    q.replace(vec![1, 2, 3], 2);
    assert_eq!(q.current(), Some(&3));
    q.replace(Vec::new(), 0);
    assert!(q.is_empty());
}
