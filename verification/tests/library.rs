use ytkew::api::{AlbumRef, ArtistRef, Playlist};
use ytkew::app::library::{flatten, node_at, LibKind, LibNode, Library, RowAction, TrackInfo};

fn song(title: &str) -> LibKind {
    LibKind::Song(TrackInfo {
        video_id: title.to_lowercase(),
        title: title.into(),
        artist: "A".into(),
        duration_text: "3:00".into(),
    })
}

fn collapsed_nodes_hide_their_children() {
    let mut artists = LibNode::new(LibKind::ArtistsFolder);
    artists.children = vec![LibNode::new(LibKind::Artist(ArtistRef {
        channel_id: "c1".into(),
        name: "Radiohead".into(),
        subtitle: String::new(),
    }))];
    artists.loaded = true;
    let rows = flatten(&vec![artists]);
    assert_eq!(rows.len(), 1, "collapsed folder shows only itself");
    assert_eq!(rows[0].marker, "\u{25b8}");
}

fn expanding_reveals_children_with_increasing_depth() {
    let mut album = LibNode::new(LibKind::Album(AlbumRef {
        id: "al".into(),
        title: "OK Computer".into(),
        year: "1997".into(),
    }));
    album.children = vec![LibNode::new(song("Airbag")), LibNode::new(song("Lucky"))];
    album.loaded = true;
    album.expanded = true;

    let mut artist = LibNode::new(LibKind::Artist(ArtistRef {
        channel_id: "c1".into(),
        name: "Radiohead".into(),
        subtitle: String::new(),
    }));
    artist.children = vec![album];
    artist.loaded = true;
    artist.expanded = true;

    let mut folder = LibNode::new(LibKind::ArtistsFolder);
    folder.children = vec![artist];
    folder.loaded = true;
    folder.expanded = true;

    let rows = flatten(&vec![folder]);
    assert_eq!(rows.len(), 5, "{:?}", rows.iter().map(|r| &r.label).collect::<Vec<_>>());
    assert_eq!(rows[0].depth, 0);
    assert_eq!(rows[1].depth, 1);
    assert_eq!(rows[2].depth, 2);
    assert_eq!(rows[3].depth, 3);
    assert!(rows[3].is_song);
    assert_eq!(rows[3].path, vec![0, 0, 0, 0]);
    assert_eq!(rows[4].path, vec![0, 0, 0, 1]);
}

fn paths_address_the_right_node_at_every_depth() {
    let mut album = LibNode::new(LibKind::Album(AlbumRef {
        id: "al".into(),
        title: "Album".into(),
        year: String::new(),
    }));
    album.children = vec![LibNode::new(song("One")), LibNode::new(song("Two"))];
    album.expanded = true;
    album.loaded = true;
    let mut folder = LibNode::new(LibKind::AlbumsFolder);
    folder.children = vec![album];
    folder.expanded = true;
    folder.loaded = true;
    let tree = vec![folder];

    let node = &tree[0].children[0].children[1];
    assert_eq!(node.kind.label(), "A — Two");

    let rows = flatten(&tree);
    let last = rows.last().unwrap();
    assert_eq!(last.path, vec![0, 0, 1]);
    assert_eq!(node_at(&tree, &last.path).unwrap().kind.label(), "A — Two");
}

fn songs_are_leaves_and_never_show_a_disclosure_marker() {
    let rows = flatten(&vec![LibNode::new(song("Solo"))]);
    assert_eq!(rows[0].marker, " ");
    assert!(rows[0].is_song);
    assert!(LibNode::new(song("Solo")).loaded);
}

fn loading_nodes_show_a_progress_marker() {
    let mut n = LibNode::new(LibKind::ArtistsFolder);
    n.loading = true;
    let rows = flatten(&vec![n]);
    assert_eq!(rows[0].marker, "\u{22ef}");
}

fn labels_and_sublabels_describe_each_kind() {
    assert_eq!(LibKind::LikedMusic.label(), "Liked Music");
    assert_eq!(LibKind::ArtistsFolder.label(), "Artists");
    let al = LibKind::Album(AlbumRef { id: "x".into(), title: "Kid A".into(), year: "2000".into() });
    assert_eq!(al.label(), "Kid A");
    assert_eq!(al.sublabel(), "2000");
    assert_eq!(song("Idioteque").label(), "A — Idioteque");
    assert_eq!(song("Idioteque").sublabel(), "3:00");
}

#[test]
fn app_collapsed_nodes_hide_their_children() {
    collapsed_nodes_hide_their_children();
}

#[test]
fn app_expanding_reveals_children_with_increasing_depth() {
    expanding_reveals_children_with_increasing_depth();
}

#[test]
fn app_paths_address_the_right_node_at_every_depth() {
    paths_address_the_right_node_at_every_depth();
}

#[test]
fn app_songs_are_leaves_and_never_show_a_disclosure_marker() {
    songs_are_leaves_and_never_show_a_disclosure_marker();
}

#[test]
fn app_loading_nodes_show_a_progress_marker() {
    loading_nodes_show_a_progress_marker();
}

#[test]
fn app_labels_and_sublabels_describe_each_kind() {
    labels_and_sublabels_describe_each_kind();
}

#[test]
fn mod_collapsed_nodes_hide_their_children() {
    collapsed_nodes_hide_their_children();
}

#[test]
fn mod_expanding_reveals_children_with_increasing_depth() {
    expanding_reveals_children_with_increasing_depth();
}

#[test]
fn mod_paths_address_the_right_node_at_every_depth() {
    paths_address_the_right_node_at_every_depth();
}

#[test]
fn mod_songs_are_leaves_and_never_show_a_disclosure_marker() {
    songs_are_leaves_and_never_show_a_disclosure_marker();
}

#[test]
fn mod_loading_nodes_show_a_progress_marker() {
    loading_nodes_show_a_progress_marker();
}

#[test]
fn mod_labels_and_sublabels_describe_each_kind() {
    labels_and_sublabels_describe_each_kind();
}

#[test]
fn playlist_sublabels_join_size_and_author() {
    let p = LibKind::Playlist(Playlist {
        id: "PL1".into(),
        title: "Mix".into(),
        author: "Me".into(),
        track_count: "12 songs".into(),
    });
    assert_eq!(p.label(), "Mix");
    assert_eq!(p.sublabel(), "12 songs · Me");
    assert_eq!(LibKind::LikedMusic.sublabel(), "");
}

#[test]
fn the_root_holds_the_five_sections() {
    let mut lib = Library::new();
    lib.ensure_root();
    let labels: Vec<String> = lib.rows.iter().map(|r| r.label.clone()).collect();
    assert_eq!(labels, vec!["Liked Music", "Library Songs", "Artists", "Albums", "Playlists"]);
    assert_eq!(lib.sel, 0);
}

#[test]
fn activating_an_unloaded_folder_asks_for_it_then_shows_the_page() {
    let mut lib = Library::new();
    lib.ensure_root();
    lib.sel = 2;
    match lib.activate(false, false, true) {
        RowAction::Load(p) => assert_eq!(p, vec![2]),
        _ => panic!("expected a load"),
    }
    assert_eq!(lib.rows[2].marker, "\u{22ef}");
    // Asking again while it loads does nothing.
    assert!(matches!(lib.activate(false, false, true), RowAction::Nothing));

    let page = vec![LibKind::Artist(ArtistRef {
        channel_id: "c".into(),
        name: "Björk".into(),
        subtitle: "Artist".into(),
    })];
    assert!(lib.take_page(&[2], page, true, true));
    assert_eq!(lib.rows.len(), 6);
    assert_eq!(lib.rows[3].label, "Björk");
    assert_eq!(lib.rows[3].depth, 1);
    assert_eq!(lib.rows[2].marker, "\u{25be}");
    assert!(!lib.take_page(&[9], Vec::new(), true, true), "a stale path is ignored");
}

#[test]
fn activating_an_open_folder_closes_it() {
    let mut lib = Library::new();
    lib.ensure_root();
    lib.sel = 2;
    let _ = lib.activate(false, false, true);
    lib.take_page(&[2], vec![LibKind::AlbumsFolder], true, true);
    assert_eq!(lib.rows.len(), 6);
    assert!(matches!(lib.activate(false, false, true), RowAction::Nothing));
    assert_eq!(lib.rows.len(), 5);
    assert_eq!(lib.rows[2].marker, "\u{25b8}");
}

#[test]
fn a_failed_load_stops_the_spinner() {
    let mut lib = Library::new();
    lib.ensure_root();
    lib.sel = 0;
    let _ = lib.activate(false, false, true);
    assert_eq!(lib.rows[0].marker, "\u{22ef}");
    lib.load_failed(&[0]);
    assert_eq!(lib.rows[0].marker, "\u{25b8}");
}

#[test]
fn a_song_row_plays_its_siblings_or_is_queued() {
    let mut lib = Library::new();
    lib.ensure_root();
    lib.sel = 0;
    let _ = lib.activate(false, false, true);
    lib.take_page(&[0], vec![song("One"), song("Two"), song("Three")], true, true);
    lib.sel = 2;
    match lib.activate(false, false, true) {
        RowAction::PlaySongs { parent, start } => {
            assert_eq!(parent, vec![0]);
            assert_eq!(start, 1);
        }
        _ => panic!("expected to play"),
    }
    match lib.activate(false, false, false) {
        RowAction::EnqueueSong { parent, position } => {
            assert_eq!(parent, vec![0]);
            assert_eq!(position, 1);
        }
        _ => panic!("expected to enqueue"),
    }
}

#[test]
fn playing_a_folder_without_songs_says_so() {
    let mut lib = Library::new();
    lib.ensure_root();
    lib.sel = 3;
    let _ = lib.activate(false, false, true);
    lib.take_page(&[3], Vec::new(), true, true);
    assert!(matches!(lib.play_selected(), RowAction::NothingPlayable));
    lib.sel = 4;
    match lib.play_selected() {
        RowAction::LoadThenPlay(p) => assert_eq!(p, vec![4]),
        _ => panic!("expected to fetch then play"),
    }
}

#[test]
fn sibling_moves_stay_among_siblings() {
    let mut lib = Library::new();
    lib.ensure_root();
    lib.sel = 0;
    lib.move_sibling(2);
    assert_eq!(lib.sel, 2);
    lib.move_sibling(10);
    assert_eq!(lib.sel, 4);
    lib.edge_sibling(false);
    assert_eq!(lib.sel, 0);
    lib.edge_sibling(true);
    assert_eq!(lib.sel, 4);
}

#[test]
fn ascend_moves_to_the_parent_row() {
    let mut lib = Library::new();
    lib.ensure_root();
    lib.sel = 2;
    let _ = lib.activate(false, false, true);
    lib.take_page(&[2], vec![song("x"), song("y")], true, true);
    lib.sel = 4;
    assert_eq!(lib.cursor(), vec![2, 1]);
    lib.ascend();
    assert_eq!(lib.sel, 2);
    assert_eq!(lib.cursor(), vec![2]);
}
