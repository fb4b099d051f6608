use ytkew::api::AlbumRef;
use ytkew::app::library::{LibKind, LibNode, TrackInfo};
use ytkew::app::loading::{LoadPlan, PageStep};

fn song(title: &str) -> LibKind {
    LibKind::Song(TrackInfo {
        video_id: title.to_lowercase(),
        title: title.into(),
        artist: "A".into(),
        duration_text: "3:00".into(),
    })
}

fn album(children: Vec<LibKind>) -> Vec<LibNode> {
    let mut node = LibNode::new(LibKind::Album(AlbumRef {
        id: "al".into(),
        title: "Kid A".into(),
        year: "2000".into(),
    }));
    node.children = children.into_iter().map(LibNode::new).collect();
    node.loaded = true;
    vec![node]
}

#[test]
fn a_node_opened_to_play_starts_on_its_first_song() {
    let page = vec![song("Idioteque")];
    let nodes = album(vec![song("Idioteque")]);
    let mut plan = LoadPlan::new();
    plan.play_when_loaded(vec![0]);
    assert_eq!(plan.page_arrived(&nodes, &[0], &page, true), PageStep::PlayAll);
    assert_eq!(plan.pending_play, None);
    assert_eq!(plan.queue_feed, None);
}

#[test]
fn an_unfinished_node_keeps_feeding_the_queue() {
    let first = vec![song("Idioteque")];
    let nodes = album(vec![song("Idioteque")]);
    let mut plan = LoadPlan::new();
    plan.play_when_loaded(vec![0]);
    assert_eq!(plan.page_arrived(&nodes, &[0], &first, false), PageStep::PlayAll);
    assert_eq!(plan.queue_feed, Some(vec![0]));
    let second = vec![song("Motion Picture Soundtrack")];
    assert_eq!(plan.page_arrived(&nodes, &[0], &second, false), PageStep::ExtendQueue);
    assert_eq!(plan.queue_feed, Some(vec![0]));
    assert_eq!(plan.page_arrived(&nodes, &[0], &Vec::new(), true), PageStep::Nothing);
    assert_eq!(plan.queue_feed, None);
}

#[test]
fn a_node_without_songs_says_so_once_fully_loaded() {
    let nodes = album(Vec::new());
    let mut plan = LoadPlan::new();
    plan.play_when_loaded(vec![0]);
    assert_eq!(plan.page_arrived(&nodes, &[0], &Vec::new(), false), PageStep::Nothing);
    assert_eq!(plan.pending_play, Some(vec![0]));
    assert_eq!(plan.page_arrived(&nodes, &[0], &Vec::new(), true), PageStep::NothingPlayable);
    assert_eq!(plan.pending_play, None);
}

#[test]
fn a_page_nobody_waits_on_changes_nothing() {
    let page = vec![song("Idioteque")];
    let nodes = album(vec![song("Idioteque")]);
    let mut plan = LoadPlan::new();
    plan.play_when_loaded(vec![1]);
    assert_eq!(plan.page_arrived(&nodes, &[0], &page, true), PageStep::Nothing);
    assert_eq!(plan.pending_play, Some(vec![1]));
}

#[test]
fn a_failed_load_stops_the_wait() {
    let page = vec![song("Idioteque")];
    let nodes = album(vec![song("Idioteque")]);
    let mut plan = LoadPlan::new();
    plan.play_when_loaded(vec![0]);
    plan.load_failed(&[0]);
    assert_eq!(plan.pending_play, None);
    assert_eq!(plan.page_arrived(&nodes, &[0], &page, true), PageStep::Nothing);
}

#[test]
fn replacing_the_queue_ends_the_feed() {
    let first = vec![song("Idioteque")];
    let nodes = album(vec![song("Idioteque")]);
    let mut plan = LoadPlan::new();
    plan.play_when_loaded(vec![0]);
    plan.page_arrived(&nodes, &[0], &first, false);
    plan.queue_replaced();
    assert_eq!(plan.queue_feed, None);
    assert_eq!(plan.page_arrived(&nodes, &[0], &first, true), PageStep::Nothing);
}
