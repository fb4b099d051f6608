//! The lazily-loaded library tree: playlists, artists, albums and their
//! tracks, fetched a level at a time as nodes are opened, and the two ways it
//! is shown -- a stacked tree of rows, and miller columns.
use vstd::prelude::*;
use crate::api::{AlbumRef, ArtistRef, Playlist};
use crate::text::{push_str, string_from};

verus! {

broadcast use vstd::string::group_string_axioms;

/// What the tree shows of a song.
pub struct TrackInfo {
    pub video_id: String,
    pub title: String,
    pub artist: String,
    pub duration_text: String,
}

/// What a library tree node represents.
pub enum LibKind {
    /// The `LM` auto-playlist: songs liked *in YouTube Music*.
    LikedMusic,
    /// Songs explicitly added to your library -- a different set entirely,
    /// and commonly empty even when Liked Music is not.
    LibrarySongs,
    ArtistsFolder,
    AlbumsFolder,
    PlaylistsFolder,
    Playlist(Playlist),
    Artist(ArtistRef),
    Album(AlbumRef),
    Song(TrackInfo),
}

/// The label each kind of node shows.
pub open spec fn label_spec(k: LibKind) -> Seq<char> {
    match k {
        LibKind::LikedMusic => "Liked Music"@,
        LibKind::LibrarySongs => "Library Songs"@,
        LibKind::ArtistsFolder => "Artists"@,
        LibKind::AlbumsFolder => "Albums"@,
        LibKind::PlaylistsFolder => "Playlists"@,
        LibKind::Playlist(p) => p.title@,
        LibKind::Artist(a) => a.name@,
        LibKind::Album(a) => a.title@,
        LibKind::Song(t) => if t.artist@.len() == 0 {
            t.title@
        } else {
            t.artist@ + " \u{2014} "@ + t.title@
        },
    }
}

/// The detail shown beside each kind of node.
pub open spec fn sublabel_spec(k: LibKind) -> Seq<char> {
    match k {
        LibKind::Playlist(p) => if p.author@.len() == 0 {
            p.track_count@
        } else {
            p.track_count@ + " \u{b7} "@ + p.author@
        },
        LibKind::Artist(a) => a.subtitle@,
        LibKind::Album(a) => a.year@,
        LibKind::Song(t) => t.duration_text@,
        _ => Seq::empty(),
    }
}

impl LibKind {
    pub fn is_song(&self) -> (r: bool)
        ensures
            r == (*self is Song),
    {
        match self {
            LibKind::Song(_) => true,
            _ => false,
        }
    }

    /// The row label.
    pub fn label(&self) -> (r: String)
        ensures
            r@ == label_spec(*self),
    {
        match self {
            LibKind::LikedMusic => "Liked Music".to_string(),
            LibKind::LibrarySongs => "Library Songs".to_string(),
            LibKind::ArtistsFolder => "Artists".to_string(),
            LibKind::AlbumsFolder => "Albums".to_string(),
            LibKind::PlaylistsFolder => "Playlists".to_string(),
            LibKind::Playlist(p) => p.title.clone(),
            LibKind::Artist(a) => a.name.clone(),
            LibKind::Album(a) => a.title.clone(),
            LibKind::Song(t) => {
                if t.artist.as_str().is_empty() {
                    t.title.clone()
                } else {
                    let mut v: Vec<char> = Vec::new();
                    push_str(&mut v, t.artist.as_str());
                    push_str(&mut v, " \u{2014} ");
                    push_str(&mut v, t.title.as_str());
                    string_from(v.as_slice())
                }
            },
        }
    }

    /// The detail beside the label: a playlist's size and author, an
    /// artist's subtitle, an album's year, a song's length.
    pub fn sublabel(&self) -> (r: String)
        ensures
            r@ == sublabel_spec(*self),
    {
        match self {
            LibKind::Playlist(p) => {
                if p.author.as_str().is_empty() {
                    p.track_count.clone()
                } else {
                    let mut v: Vec<char> = Vec::new();
                    push_str(&mut v, p.track_count.as_str());
                    push_str(&mut v, " \u{b7} ");
                    push_str(&mut v, p.author.as_str());
                    string_from(v.as_slice())
                }
            },
            LibKind::Artist(a) => a.subtitle.clone(),
            LibKind::Album(a) => a.year.clone(),
            LibKind::Song(t) => t.duration_text.clone(),
            _ => String::new(),
        }
    }
}

/// A node in the lazily-loaded library tree.
pub struct LibNode {
    pub kind: LibKind,
    pub expanded: bool,
    pub loading: bool,
    /// Whether children have been fetched. Distinguishes "not yet loaded"
    /// from "loaded and genuinely empty".
    pub loaded: bool,
    pub children: Vec<LibNode>,
}

impl LibNode {
    /// A closed node with nothing fetched; a song counts as loaded, so it is
    /// never fetched.
    pub fn new(kind: LibKind) -> (n: LibNode)
        ensures
            n.kind == kind,
            !n.expanded,
            !n.loading,
            n.loaded == (kind is Song),
            n.children@.len() == 0,
    {
        let loaded = kind.is_song();
        LibNode { kind, expanded: false, loading: false, loaded, children: Vec::new() }
    }
}

/// One rendered line of the tree, precomputed so the view does no traversal
/// and no allocation per frame.
pub struct LibRow {
    pub path: Vec<usize>,
    pub depth: usize,
    pub label: String,
    pub sublabel: String,
    /// Disclosure indicator: expanded, collapsed, loading, or a leaf.
    pub marker: &'static str,
    pub is_song: bool,
}

/// What a row shows, as plain values.
pub struct RowView {
    pub path: Seq<usize>,
    pub depth: nat,
    pub label: Seq<char>,
    pub sublabel: Seq<char>,
    pub marker: Seq<char>,
    pub is_song: bool,
}

/// A row as plain values.
pub open spec fn row_view(r: LibRow) -> RowView {
    RowView {
        path: r.path@,
        depth: r.depth as nat,
        label: r.label@,
        sublabel: r.sublabel@,
        marker: r.marker@,
        is_song: r.is_song,
    }
}

/// The disclosure marker: blank for a song, an ellipsis while loading, a
/// down triangle when expanded, a right triangle when closed.
pub open spec fn marker_spec(n: LibNode) -> Seq<char> {
    if n.kind is Song {
        " "@
    } else if n.loading {
        "\u{22ef}"@
    } else if n.expanded {
        "\u{25be}"@
    } else {
        "\u{25b8}"@
    }
}

/// The row a node shows at `path`, `depth` levels down.
pub open spec fn node_row(n: LibNode, path: Seq<usize>, depth: nat) -> RowView {
    RowView {
        path,
        depth,
        label: label_spec(n.kind),
        sublabel: sublabel_spec(n.kind),
        marker: marker_spec(n),
        is_song: n.kind is Song,
    }
}

/// The rows of a node and, when it is expanded, of everything shown under
/// it, in order.
pub open spec fn node_rows(n: LibNode, path: Seq<usize>, depth: nat) -> Seq<RowView>
    decreases n, 0int,
{
    seq![node_row(n, path, depth)] + if n.expanded {
        forest_rows(n.children@, path, depth + 1, 0)
    } else {
        Seq::empty()
    }
}

/// The rows of the siblings `nodes` from the `i`-th on, under `prefix`.
pub open spec fn forest_rows(nodes: Seq<LibNode>, prefix: Seq<usize>, depth: nat, i: int) -> Seq<RowView>
    decreases nodes, nodes.len() - i,
{
    if i < 0 || i >= nodes.len() {
        Seq::empty()
    } else {
        node_rows(nodes[i], prefix.push(i as usize), depth) + forest_rows(nodes, prefix, depth, i + 1)
    }
}

/// Rows as plain values.
pub open spec fn rows_view(rows: Seq<LibRow>) -> Seq<RowView> {
    rows.map_values(|r: LibRow| row_view(r))
}

impl LibNode {
    /// The disclosure marker for this node's row.
    pub fn marker(&self) -> (m: &'static str)
        ensures
            m@ == marker_spec(*self),
    {
        if self.kind.is_song() {
            " "
        } else if self.loading {
            "\u{22ef}"
        } else if self.expanded {
            "\u{25be}"
        } else {
            "\u{25b8}"
        }
    }
}

fn walk(nodes: &Vec<LibNode>, path: &mut Vec<usize>, out: &mut Vec<LibRow>)
    ensures
        final(path)@ == old(path)@,
        rows_view(final(out)@) == rows_view(old(out)@) + forest_rows(
            nodes@,
            old(path)@,
            old(path)@.len(),
            0,
        ),
    decreases nodes@,
{
    let ghost prefix = path@;
    let ghost start = rows_view(out@);
    let mut i: usize = 0;
    while i < nodes.len()
        invariant
            i <= nodes@.len(),
            path@ == prefix,
            start + forest_rows(nodes@, prefix, prefix.len(), 0) == rows_view(out@) + forest_rows(
                nodes@,
                prefix,
                prefix.len(),
                i as int,
            ),
        decreases nodes@.len() - i,
    {
        let depth = path.len();
        let node = &nodes[i];
        path.push(i);
        let ghost here = path@;
        let row = LibRow {
            path: path.clone(),
            depth,
            label: node.kind.label(),
            sublabel: node.kind.sublabel(),
            marker: node.marker(),
            is_song: node.kind.is_song(),
        };
        assert(row.path@ =~= here);
        let ghost before = rows_view(out@);
        out.push(row);
        assert(rows_view(out@) =~= before.push(node_row(*node, here, prefix.len())));
        if node.expanded {
            walk(&node.children, path, out);
        }
        path.pop();
        assert(path@ =~= prefix);
        proof {
            let nr = node_rows(*node, prefix.push(i as usize), prefix.len());
            assert(here == prefix.push(i as usize));
            assert(rows_view(out@) =~= before + nr);
        }
        i += 1;
    }
}

/// Flatten the visible tree into display rows: each node, then -- when it is
/// expanded -- everything under it, one level deeper.
pub fn flatten(nodes: &Vec<LibNode>) -> (rows: Vec<LibRow>)
    ensures
        rows_view(rows@) == forest_rows(nodes@, Seq::empty(), 0, 0),
{
    let mut out: Vec<LibRow> = Vec::new();
    let mut path: Vec<usize> = Vec::new();
    walk(nodes, &mut path, &mut out);
    assert(rows_view(Seq::<LibRow>::empty()) =~= Seq::<RowView>::empty());
    out
}

/// The node `rest` leads to from `n`, one child index at a time.
pub open spec fn descend(n: LibNode, rest: Seq<usize>) -> Option<LibNode>
    decreases rest.len(),
{
    if rest.len() == 0 {
        Some(n)
    } else if rest[0] >= n.children@.len() {
        None
    } else {
        descend(n.children@[rest[0] as int], rest.drop_first())
    }
}

/// The node `path` addresses among the siblings `nodes`, if it does.
pub open spec fn node_at_spec_from(nodes: Seq<LibNode>, path: Seq<usize>) -> Option<LibNode> {
    node_at_spec(nodes, path)
}

/// The node a path from the root addresses, if it does.
pub open spec fn node_at_spec(nodes: Seq<LibNode>, path: Seq<usize>) -> Option<LibNode> {
    if path.len() == 0 || path[0] >= nodes.len() {
        None
    } else {
        descend(nodes[path[0] as int], path.drop_first())
    }
}

/// The node a path from the root addresses, if it does.
pub fn node_at<'a>(nodes: &'a Vec<LibNode>, path: &[usize]) -> (r: Option<&'a LibNode>)
    ensures
        match r {
            Some(n) => node_at_spec(nodes@, path@) == Some(*n),
            None => node_at_spec(nodes@, path@) is None,
        },
{
    if path.len() == 0 || path[0] >= nodes.len() {
        return None;
    }
    let mut node = &nodes[path[0]];
    let mut k: usize = 1;
    assert(path@.skip(1) =~= path@.drop_first());
    while k < path.len()
        invariant
            1 <= k <= path@.len(),
            node_at_spec(nodes@, path@) == descend(*node, path@.skip(k as int)),
        decreases path@.len() - k,
    {
        let i = path[k];
        assert(path@.skip(k as int)[0] == i);
        assert(path@.skip(k as int).drop_first() =~= path@.skip(k + 1));
        if i >= node.children.len() {
            return None;
        }
        node = &node.children[i];
        k += 1;
    }
    assert(path@.skip(k as int).len() == 0);
    Some(node)
}

pub(crate) fn same_path(a: &[usize], b: &[usize]) -> (r: bool)
    ensures
        r == (a@ == b@),
{
    if a.len() != b.len() {
        return false;
    }
    let mut i: usize = 0;
    while i < a.len()
        invariant
            a@.len() == b@.len(),
            i <= a@.len(),
            forall|j: int| 0 <= j < i ==> a@[j] == b@[j],
        decreases a@.len() - i,
    {
        if a[i] != b[i] {
            return false;
        }
        i += 1;
    }
    assert(a@ =~= b@);
    true
}

/// Where a path sits among the rows: the first row showing it, if any.
pub open spec fn row_index_spec(rows: Seq<RowView>, path: Seq<usize>) -> Option<int> {
    if exists|j: int| 0 <= j < rows.len() && #[trigger] rows[j].path == path {
        Some(choose|j: int| 0 <= j < rows.len() && rows[j].path == path && forall|k: int|
            0 <= k < j ==> #[trigger] rows[k].path != path)
    } else {
        None
    }
}

/// Where a path sits among the rows, which is what the selection indexes.
/// `None` once an ancestor is collapsed.
pub fn row_index(rows: &Vec<LibRow>, path: &[usize]) -> (r: Option<usize>)
    ensures
        match r {
            Some(i) => row_index_spec(rows_view(rows@), path@) == Some(i as int),
            None => row_index_spec(rows_view(rows@), path@) is None,
        },
{
    let ghost rv = rows_view(rows@);
    let mut i: usize = 0;
    while i < rows.len()
        invariant
            rv == rows_view(rows@),
            i <= rows@.len(),
            forall|k: int| 0 <= k < i ==> #[trigger] rv[k].path != path@,
        decreases rows@.len() - i,
    {
        if same_path(rows[i].path.as_slice(), path) {
            proof {
                assert(rv[i as int].path == path@);
                let c = choose|j: int| 0 <= j < rv.len() && rv[j].path == path@ && forall|k: int|
                    0 <= k < j ==> #[trigger] rv[k].path != path@;
                if c < i {
                    assert(rv[c].path != path@);
                }
                if c > i {
                    assert(rv[i as int].path != path@);
                }
            }
            return Some(i);
        }
        i += 1;
    }
    None
}

/// Path from the root to the selected row; empty when nothing is selected.
pub open spec fn cursor_spec(rows: Seq<RowView>, sel: int) -> Seq<usize> {
    if 0 <= sel < rows.len() {
        rows[sel].path
    } else {
        Seq::empty()
    }
}

/// Path from the root to the selected row; empty when nothing is selected.
pub fn cursor(rows: &Vec<LibRow>, sel: usize) -> (c: Vec<usize>)
    ensures
        c@ == cursor_spec(rows_view(rows@), sel as int),
{
    if sel < rows.len() {
        let c = rows[sel].path.clone();
        assert(c@ =~= rows@[sel as int].path@);
        c
    } else {
        Vec::new()
    }
}

/// One column of the miller view: the siblings at a single depth.
///
/// Derived from the same tree the stacked view walks, so the two always
/// show the same library -- only the arrangement differs.
pub struct LibColumn {
    /// Path to each entry, so a click resolves straight back to a node.
    pub rows: Vec<Vec<usize>>,
    /// Which entry the cursor passes through, if it passes through this
    /// column at all. The preview column on the right has none.
    pub selected: Option<usize>,
}

/// A column as plain values.
pub struct ColumnView {
    pub rows: Seq<Seq<usize>>,
    pub selected: Option<usize>,
}

pub open spec fn column_view(c: LibColumn) -> ColumnView {
    ColumnView { rows: c.rows@.map_values(|p: Vec<usize>| p@), selected: c.selected }
}

/// The columns from depth `d` down: the siblings at each level on the way
/// to the cursor, then a preview of what is inside the node it rests on.
pub open spec fn columns_from(level: Seq<LibNode>, cursor: Seq<usize>, d: int, prefix: Seq<usize>) -> Seq<
    ColumnView,
>
    decreases cursor.len() - d,
{
    if level.len() == 0 {
        Seq::empty()
    } else {
        let col = ColumnView {
            rows: Seq::new(level.len(), |i: int| prefix.push(i as usize)),
            selected: if 0 <= d < cursor.len() {
                Some(cursor[d])
            } else {
                None
            },
        };
        if d < 0 || d >= cursor.len() || cursor[d] >= level.len() {
            seq![col]
        } else {
            seq![col] + columns_from(level[cursor[d] as int].children@, cursor, d + 1, prefix.push(cursor[d]))
        }
    }
}

/// The chain of sibling lists from the root down to `cursor`, plus a
/// preview of what is inside the focused node.
pub fn library_columns(nodes: &Vec<LibNode>, cursor: &[usize]) -> (cols: Vec<LibColumn>)
    ensures
        cols@.map_values(|c: LibColumn| column_view(c)) == columns_from(nodes@, cursor@, 0, Seq::empty()),
{
    let mut cols: Vec<LibColumn> = Vec::new();
    let mut level: &Vec<LibNode> = nodes;
    let mut prefix: Vec<usize> = Vec::new();
    let mut depth: usize = 0;
    let ghost want = columns_from(nodes@, cursor@, 0, Seq::empty());
    let mut done = false;
    while !done && depth <= cursor.len()
        invariant
            depth <= cursor@.len() + 1,
            prefix@.len() == depth,
            !done ==> want == cols@.map_values(|c: LibColumn| column_view(c)) + columns_from(
                level@,
                cursor@,
                depth as int,
                prefix@,
            ),
            done ==> want == cols@.map_values(|c: LibColumn| column_view(c)),
            depth == cursor@.len() + 1 ==> done,
        decreases cursor@.len() + 2 - depth - (if done { 1int } else { 0 }),
    {
        let ghost before = cols@.map_values(|c: LibColumn| column_view(c));
        if level.len() == 0 {
            done = true;
        } else {
            let selected: Option<usize> = if depth < cursor.len() {
                Some(cursor[depth])
            } else {
                None
            };
            let mut rows: Vec<Vec<usize>> = Vec::new();
            let mut i: usize = 0;
            while i < level.len()
                invariant
                    i <= level@.len(),
                    rows@.map_values(|p: Vec<usize>| p@) =~= Seq::new(i as nat, |j: int| prefix@.push(j as usize)),
                decreases level@.len() - i,
            {
                let mut p = prefix.clone();
                assert(p@ =~= prefix@);
                p.push(i);
                let ghost rb = rows@.map_values(|q: Vec<usize>| q@);
                let ghost pv = p@;
                rows.push(p);
                assert(rows@.map_values(|q: Vec<usize>| q@) =~= rb.push(pv));
                i += 1;
            }
            let col = LibColumn { rows, selected };
            let ghost cv = column_view(col);
            cols.push(col);
            assert(cols@.map_values(|c: LibColumn| column_view(c)) =~= before.push(cv));
            match selected {
                None => {
                    done = true;
                },
                Some(i) => {
                    if i >= level.len() {
                        done = true;
                    } else {
                        level = &level[i].children;
                        prefix.push(i);
                        depth += 1;
                    }
                },
            }
        }
    }
    cols
}

/// Move the cursor among its siblings, staying at the same depth: the new
/// selection, or the old one when there is nowhere to go.
#[verifier::opaque]
pub open spec fn move_sibling_spec(nodes: Seq<LibNode>, rows: Seq<RowView>, sel: int, delta: int) -> int {
    let c = cursor_spec(rows, sel);
    if c.len() == 0 {
        sel
    } else {
        let parent = c.drop_last();
        let count = match node_at_spec(nodes, parent) {
            Some(n) => n.children@.len() as int,
            None => if parent.len() == 0 {
                nodes.len() as int
            } else {
                0
            },
        };
        if count == 0 {
            sel
        } else {
            let x = c.last() + delta;
            let next = if x < 0 {
                0
            } else if x > count - 1 {
                count - 1
            } else {
                x
            };
            match row_index_spec(rows, parent.push(next as usize)) {
                Some(i) => i,
                None => sel,
            }
        }
    }
}

/// Move the selection among its siblings by `delta`, clamped to the first
/// and last. In the stacked view the same keys walk into children; in
/// columns that would jump the cursor sideways out of the list being read.
pub fn move_sibling(nodes: &Vec<LibNode>, rows: &Vec<LibRow>, sel: usize, delta: isize) -> (r: usize)
    ensures
        r as int == move_sibling_spec(nodes@, rows_view(rows@), sel as int, delta as int),
{
    reveal(move_sibling_spec);
    let c = cursor(rows, sel);
    if c.len() == 0 {
        return sel;
    }
    let last = c[c.len() - 1];
    let mut parent = c.clone();
    assert(parent@ =~= c@);
    parent.pop();
    assert(parent@ =~= c@.drop_last());
    let count = match node_at(nodes, parent.as_slice()) {
        Some(n) => n.children.len(),
        None => if parent.len() == 0 {
            nodes.len()
        } else {
            0
        },
    };
    if count == 0 {
        return sel;
    }
    let x: i128 = last as i128 + delta as i128;
    let next: usize = if x < 0 {
        0
    } else if x > (count - 1) as i128 {
        count - 1
    } else {
        x as usize
    };
    parent.push(next);
    match row_index(rows, parent.as_slice()) {
        Some(i) => i,
        None => sel,
    }
}

/// A step far enough to reach the first or last sibling.
pub open spec fn edge_delta(last: bool) -> int {
    if last {
        isize::MAX / 2
    } else {
        isize::MIN / 2
    }
}

/// Jump the selection to the first or last sibling.
pub fn edge_sibling(nodes: &Vec<LibNode>, rows: &Vec<LibRow>, sel: usize, last: bool) -> (r: usize)
    ensures
        r as int == move_sibling_spec(nodes@, rows_view(rows@), sel as int, edge_delta(last)),
{
    let delta: isize = if last {
        isize::MAX / 2
    } else {
        isize::MIN / 2
    };
    move_sibling(nodes, rows, sel, delta)
}

/// Step out to the parent: its row, when the cursor is below the top level
/// and the parent is showing.
pub open spec fn ascend_spec(rows: Seq<RowView>, sel: int) -> int {
    let c = cursor_spec(rows, sel);
    if c.len() < 2 {
        sel
    } else {
        match row_index_spec(rows, c.drop_last()) {
            Some(i) => i,
            None => sel,
        }
    }
}

/// Step out to the parent column.
pub fn ascend(rows: &Vec<LibRow>, sel: usize) -> (r: usize)
    ensures
        r as int == ascend_spec(rows_view(rows@), sel as int),
{
    let c = cursor(rows, sel);
    if c.len() < 2 {
        return sel;
    }
    let mut parent = c.clone();
    assert(parent@ =~= c@);
    parent.pop();
    assert(parent@ =~= c@.drop_last());
    match row_index(rows, parent.as_slice()) {
        Some(i) => i,
        None => sel,
    }
}

/// `b` is the forest `a` with the node at `path` changed as `leaf` allows,
/// and every other node as it was.
pub open spec fn only_at(
    a: Seq<LibNode>,
    b: Seq<LibNode>,
    path: Seq<usize>,
    leaf: spec_fn(LibNode, LibNode) -> bool,
) -> bool
    decreases path.len(),
{
    &&& path.len() > 0
    &&& path[0] < a.len()
    &&& b.len() == a.len()
    &&& forall|j: int| 0 <= j < a.len() && j != path[0] ==> #[trigger] b[j] == a[j]
    &&& if path.len() == 1 {
        leaf(a[path[0] as int], b[path[0] as int])
    } else {
        let x = a[path[0] as int];
        let y = b[path[0] as int];
        &&& y.kind == x.kind
        &&& y.expanded == x.expanded
        &&& y.loading == x.loading
        &&& y.loaded == x.loaded
        &&& only_at(x.children@, y.children@, path.drop_first(), leaf)
    }
}

/// A fresh node for `k`, as `LibNode::new` makes it.
pub open spec fn is_new_node(n: LibNode, k: LibKind) -> bool {
    &&& n.kind == k
    &&& !n.expanded
    &&& !n.loading
    &&& n.loaded == (k is Song)
    &&& n.children@.len() == 0
}

/// What a page of children does to the node it was fetched for: the first
/// page replaces the children and opens the node, later pages append; the
/// node keeps loading until the last page.
pub open spec fn page_applied(x: LibNode, y: LibNode, page: Seq<LibKind>, first: bool, last: bool) -> bool {
    let kept = if first {
        0
    } else {
        x.children@.len() as int
    };
    &&& y.kind == x.kind
    &&& y.loading == !last
    &&& y.loaded == (first || x.loaded)
    &&& y.expanded == (first || x.expanded)
    &&& y.children@.len() == kept + page.len()
    &&& forall|j: int| 0 <= j < kept ==> #[trigger] y.children@[j] == x.children@[j]
    &&& forall|j: int| 0 <= j < page.len() ==> is_new_node(#[trigger] y.children@[kept + j], page[j])
}

/// A node's flags set: `expanded` and `loading` where given, all else kept.
pub open spec fn flags_set(x: LibNode, y: LibNode, expanded: Option<bool>, loading: Option<bool>) -> bool {
    &&& y.kind == x.kind
    &&& y.loaded == x.loaded
    &&& y.children == x.children
    &&& y.expanded == match expanded {
        Some(e) => e,
        None => x.expanded,
    }
    &&& y.loading == match loading {
        Some(l) => l,
        None => x.loading,
    }
}

fn apply_page_here(node: &mut LibNode, page: Vec<LibKind>, first: bool, last: bool)
    ensures
        page_applied(*old(node), *final(node), page@, first, last),
{
    if first {
        node.children.clear();
        node.loaded = true;
        node.expanded = true;
    }
    let ghost x = *old(node);
    let ghost kept = node.children@.len() as int;
    assert(kept == if first { 0 } else { x.children@.len() as int });
    for k in it: page.into_iter()
        invariant
            node.kind == x.kind,
            node.loaded == (first || x.loaded),
            node.expanded == (first || x.expanded),
            kept == if first { 0 } else { x.children@.len() as int },
            it.seq() == page@,
            node.children@.len() == kept + it.index(),
            forall|j: int| 0 <= j < kept ==> #[trigger] node.children@[j] == x.children@[j],
            forall|j: int| 0 <= j < it.index() ==> is_new_node(#[trigger] node.children@[kept + j], page@[j]),
    {
        node.children.push(LibNode::new(k));
    }
    node.loading = !last;
}

fn change_at(
    nodes: &mut Vec<LibNode>,
    path: &[usize],
    k: usize,
    page: Vec<LibKind>,
    first: bool,
    last: bool,
)
    requires
        k < path@.len(),
        node_at_spec_from(old(nodes)@, path@.skip(k as int)) is Some,
    ensures
        only_at(
            old(nodes)@,
            final(nodes)@,
            path@.skip(k as int),
            |x: LibNode, y: LibNode| page_applied(x, y, page@, first, last),
        ),
    decreases path@.len() - k,
{
    let i = path[k];
    assert(path@.skip(k as int)[0] == i);
    assert(path@.skip(k as int).drop_first() =~= path@.skip(k + 1));
    let ghost before = nodes@;
    let mut node = nodes.remove(i);
    if k + 1 == path.len() {
        apply_page_here(&mut node, page, first, last);
    } else {
        change_at(&mut node.children, path, k + 1, page, first, last);
    }
    nodes.insert(i, node);
    assert forall|j: int| 0 <= j < before.len() && j != i implies #[trigger] nodes@[j] == before[j] by {}
}

/// Take in a page of children fetched for the node at `path`. The first page
/// replaces the node's children and opens it; later pages append; the node
/// keeps loading until the last. `false`, with nothing changed, when the
/// path no longer leads anywhere -- the node was replaced mid-fetch.
pub fn apply_page(nodes: &mut Vec<LibNode>, path: &[usize], page: Vec<LibKind>, first: bool, last: bool) -> (found: bool)
    ensures
        found == node_at_spec(old(nodes)@, path@) is Some,
        found ==> only_at(
            old(nodes)@,
            final(nodes)@,
            path@,
            |x: LibNode, y: LibNode| page_applied(x, y, page@, first, last),
        ),
        !found ==> *final(nodes) == *old(nodes),
{
    if node_at(nodes, path).is_none() {
        return false;
    }
    assert(path@.skip(0) =~= path@);
    change_at(nodes, path, 0, page, first, last);
    true
}

fn flag_at(
    nodes: &mut Vec<LibNode>,
    path: &[usize],
    k: usize,
    expanded: Option<bool>,
    loading: Option<bool>,
)
    requires
        k < path@.len(),
        node_at_spec_from(old(nodes)@, path@.skip(k as int)) is Some,
    ensures
        only_at(
            old(nodes)@,
            final(nodes)@,
            path@.skip(k as int),
            |x: LibNode, y: LibNode| flags_set(x, y, expanded, loading),
        ),
    decreases path@.len() - k,
{
    let i = path[k];
    assert(path@.skip(k as int)[0] == i);
    assert(path@.skip(k as int).drop_first() =~= path@.skip(k + 1));
    let ghost before = nodes@;
    let mut node = nodes.remove(i);
    if k + 1 == path.len() {
        if let Some(e) = expanded {
            node.expanded = e;
        }
        if let Some(l) = loading {
            node.loading = l;
        }
    } else {
        flag_at(&mut node.children, path, k + 1, expanded, loading);
    }
    nodes.insert(i, node);
    assert forall|j: int| 0 <= j < before.len() && j != i implies #[trigger] nodes@[j] == before[j] by {}
}

/// Set the `expanded` and `loading` flags, where given, of the node at
/// `path`. `false`, with nothing changed, when the path leads nowhere.
pub fn set_flags(nodes: &mut Vec<LibNode>, path: &[usize], expanded: Option<bool>, loading: Option<bool>) -> (found: bool)
    ensures
        found == node_at_spec(old(nodes)@, path@) is Some,
        found ==> only_at(
            old(nodes)@,
            final(nodes)@,
            path@,
            |x: LibNode, y: LibNode| flags_set(x, y, expanded, loading),
        ),
        !found ==> *final(nodes) == *old(nodes),
{
    if node_at(nodes, path).is_none() {
        return false;
    }
    assert(path@.skip(0) =~= path@);
    flag_at(nodes, path, 0, expanded, loading);
    true
}

/// The positions of the songs among `children`, in order.
pub open spec fn song_positions_spec(children: Seq<LibNode>) -> Seq<usize>
    decreases children.len(),
{
    if children.len() == 0 {
        Seq::empty()
    } else {
        let rest = song_positions_spec(children.drop_last());
        if children.last().kind is Song {
            rest.push((children.len() - 1) as usize)
        } else {
            rest
        }
    }
}

/// The positions of the songs directly under the node at `path`, in display
/// order; none when the path leads nowhere.
pub fn song_positions(nodes: &Vec<LibNode>, path: &[usize]) -> (r: Vec<usize>)
    ensures
        r@ == match node_at_spec(nodes@, path@) {
            Some(n) => song_positions_spec(n.children@),
            None => Seq::empty(),
        },
{
    match node_at(nodes, path) {
        None => Vec::new(),
        Some(node) => {
            let mut r: Vec<usize> = Vec::new();
            let mut j: usize = 0;
            while j < node.children.len()
                invariant
                    j <= node.children@.len(),
                    r@ == song_positions_spec(node.children@.take(j as int)),
                decreases node.children@.len() - j,
            {
                assert(node.children@.take(j + 1).drop_last() =~= node.children@.take(j as int));
                if node.children[j].kind.is_song() {
                    r.push(j);
                }
                j += 1;
            }
            assert(node.children@.take(node.children@.len() as int) =~= node.children@);
            r
        },
    }
}

proof fn lemma_forest_rows_paths(nodes: Seq<LibNode>, prefix: Seq<usize>, depth: nat, i: int)
    ensures
        forall|k: int| 0 <= k < forest_rows(nodes, prefix, depth, i).len() ==> (#[trigger] forest_rows(nodes, prefix, depth, i)[k]).path.len() > prefix.len(),
    decreases nodes, nodes.len() - i,
{
    if 0 <= i < nodes.len() {
        lemma_node_rows_paths(nodes[i], prefix.push(i as usize), depth);
        lemma_forest_rows_paths(nodes, prefix, depth, i + 1);
        let a = node_rows(nodes[i], prefix.push(i as usize), depth);
        let b = forest_rows(nodes, prefix, depth, i + 1);
        assert forall|k: int| 0 <= k < (a + b).len() implies (#[trigger] (a + b)[k]).path.len() > prefix.len() by {
            if k < a.len() {
                assert((a + b)[k] == a[k]);
            } else {
                assert((a + b)[k] == b[k - a.len()]);
            }
        }
    }
}

proof fn lemma_node_rows_paths(n: LibNode, path: Seq<usize>, depth: nat)
    ensures
        forall|k: int| 0 <= k < node_rows(n, path, depth).len() ==> (#[trigger] node_rows(n, path, depth)[k]).path.len() >= path.len(),
    decreases n, 0int,
{
    if n.expanded {
        lemma_forest_rows_paths(n.children@, path, depth + 1, 0);
        let a = seq![node_row(n, path, depth)];
        let b = forest_rows(n.children@, path, depth + 1, 0);
        assert forall|k: int| 0 <= k < (a + b).len() implies (#[trigger] (a + b)[k]).path.len() >= path.len() by {
            if k < a.len() {
                assert((a + b)[k] == a[k]);
            } else {
                assert((a + b)[k] == b[k - a.len()]);
            }
        }
    }
}

/// Every row of the tree addresses a node by a nonempty path.
proof fn lemma_rows_have_paths(nodes: Seq<LibNode>, k: int)
    requires
        0 <= k < tree_rows(nodes).len(),
    ensures
        tree_rows(nodes)[k].path.len() > 0,
{
    lemma_forest_rows_paths(nodes, Seq::empty(), 0, 0);
}

/// Every sibling list from the `i`-th node on, all the way down, is short
/// enough to be indexed -- as every list held in a `Vec` is.
pub open spec fn fits(nodes: Seq<LibNode>, i: int) -> bool
    decreases nodes, nodes.len() - i,
{
    if i < 0 || i >= nodes.len() {
        nodes.len() <= usize::MAX
    } else {
        node_fits(nodes[i]) && fits(nodes, i + 1)
    }
}

/// Every sibling list under `n` is short enough to be indexed.
pub open spec fn node_fits(n: LibNode) -> bool
    decreases n, 0int,
{
    fits(n.children@, 0)
}

proof fn lemma_fits(nodes: Seq<LibNode>, i: int, j: int)
    requires
        0 <= i,
        fits(nodes, i),
    ensures
        nodes.len() <= usize::MAX,
        i <= j < nodes.len() ==> node_fits(nodes[j]),
    decreases nodes.len() - i,
{
    if i < nodes.len() {
        lemma_fits(nodes, i + 1, j);
    }
}

proof fn lemma_descend_push(n: LibNode, rest: Seq<usize>, j: usize)
    ensures
        descend(n, rest.push(j)) == match descend(n, rest) {
            Some(m) => if j < m.children@.len() {
                Some(m.children@[j as int])
            } else {
                None
            },
            None => None,
        },
    decreases rest.len(),
{
    if rest.len() == 0 {
        assert(rest.push(j)[0] == j);
        assert(rest.push(j).drop_first() =~= Seq::<usize>::empty());
        if j < n.children@.len() {
            assert(descend(n.children@[j as int], Seq::<usize>::empty()) == Some(n.children@[j as int]));
        }
    } else {
        assert(rest.push(j)[0] == rest[0]);
        assert(rest.push(j).drop_first() =~= rest.drop_first().push(j));
        if rest[0] < n.children@.len() {
            lemma_descend_push(n.children@[rest[0] as int], rest.drop_first(), j);
            assert(descend(n, rest.push(j)) == descend(n.children@[rest[0] as int], rest.drop_first().push(j)));
            assert(descend(n, rest) == descend(n.children@[rest[0] as int], rest.drop_first()));
        }
    }
}

/// The forest `nodes` is what the root `root` holds at `prefix`.
pub open spec fn sits_at(root: Seq<LibNode>, prefix: Seq<usize>, nodes: Seq<LibNode>) -> bool {
    if prefix.len() == 0 {
        nodes == root
    } else {
        node_at_spec(root, prefix) matches Some(p) && p.children@ == nodes
    }
}

proof fn lemma_child_at(root: Seq<LibNode>, prefix: Seq<usize>, nodes: Seq<LibNode>, j: int)
    requires
        sits_at(root, prefix, nodes),
        0 <= j < nodes.len(),
        nodes.len() <= usize::MAX,
    ensures
        node_at_spec(root, prefix.push(j as usize)) == Some(nodes[j]),
        sits_at(root, prefix.push(j as usize), nodes[j].children@),
{
    let q = prefix.push(j as usize);
    if prefix.len() == 0 {
        assert(q[0] == j);
        assert(q.drop_first() =~= Seq::<usize>::empty());
    } else {
        assert(q[0] == prefix[0]);
        assert(q.drop_first() =~= prefix.drop_first().push(j as usize));
        lemma_descend_push(root[prefix[0] as int], prefix.drop_first(), j as usize);
    }
}

proof fn lemma_forest_rows_address(root: Seq<LibNode>, nodes: Seq<LibNode>, prefix: Seq<usize>, i: int)
    requires
        sits_at(root, prefix, nodes),
        fits(nodes, 0),
    ensures
        forall|k: int| 0 <= k < forest_rows(nodes, prefix, prefix.len(), i).len() ==> {
            let r = #[trigger] forest_rows(nodes, prefix, prefix.len(), i)[k];
            &&& node_at_spec(root, r.path) matches Some(n)
            &&& r == node_row(n, r.path, (r.path.len() - 1) as nat)
        },
    decreases nodes, nodes.len() - i,
{
    if 0 <= i < nodes.len() {
        lemma_fits(nodes, 0, i);
        lemma_child_at(root, prefix, nodes, i);
        lemma_node_rows_address(root, nodes[i], prefix.push(i as usize));
        lemma_forest_rows_address(root, nodes, prefix, i + 1);
        let a = node_rows(nodes[i], prefix.push(i as usize), prefix.len());
        let b = forest_rows(nodes, prefix, prefix.len(), i + 1);
        assert forall|k: int| 0 <= k < (a + b).len() implies {
            let r = #[trigger] (a + b)[k];
            &&& node_at_spec(root, r.path) matches Some(n)
            &&& r == node_row(n, r.path, (r.path.len() - 1) as nat)
        } by {
            if k < a.len() {
                assert((a + b)[k] == a[k]);
            } else {
                assert((a + b)[k] == b[k - a.len()]);
            }
        }
    }
}

proof fn lemma_node_rows_address(root: Seq<LibNode>, n: LibNode, path: Seq<usize>)
    requires
        path.len() > 0,
        node_fits(n),
        node_at_spec(root, path) == Some(n),
        sits_at(root, path, n.children@),
    ensures
        forall|k: int| 0 <= k < node_rows(n, path, (path.len() - 1) as nat).len() ==> {
            let r = #[trigger] node_rows(n, path, (path.len() - 1) as nat)[k];
            &&& node_at_spec(root, r.path) matches Some(m)
            &&& r == node_row(m, r.path, (r.path.len() - 1) as nat)
        },
    decreases n, 0int,
{
    let d = (path.len() - 1) as nat;
    let a = seq![node_row(n, path, d)];
    if n.expanded {
        lemma_forest_rows_address(root, n.children@, path, 0);
        let b = forest_rows(n.children@, path, d + 1, 0);
        assert(d + 1 == path.len());
        assert forall|k: int| 0 <= k < (a + b).len() implies {
            let r = #[trigger] (a + b)[k];
            &&& node_at_spec(root, r.path) matches Some(m)
            &&& r == node_row(m, r.path, (r.path.len() - 1) as nat)
        } by {
            if k < a.len() {
                assert((a + b)[k] == a[k]);
            } else {
                assert((a + b)[k] == b[k - a.len()]);
            }
        }
    } else {
        assert(node_rows(n, path, d) =~= a);
    }
}

/// Every row of the tree view addresses, by its path, the node it shows:
/// the path leads to a node, and the row is that node's label, detail,
/// marker and kind, one level deeper per step of the path.
pub proof fn law_rows_address_their_nodes(nodes: Seq<LibNode>, k: int)
    requires
        fits(nodes, 0),
        0 <= k < tree_rows(nodes).len(),
    ensures
        node_at_spec(nodes, tree_rows(nodes)[k].path) matches Some(n) && tree_rows(nodes)[k]
            == node_row(n, tree_rows(nodes)[k].path, (tree_rows(nodes)[k].path.len() - 1) as nat),
{
    lemma_forest_rows_address(nodes, nodes, Seq::empty(), 0);
    let r = tree_rows(nodes)[k];
}

proof fn lemma_collapsed_rows(nodes: Seq<LibNode>, prefix: Seq<usize>, depth: nat, i: int)
    requires
        0 <= i <= nodes.len(),
        forall|j: int| 0 <= j < nodes.len() ==> !(#[trigger] nodes[j]).expanded,
    ensures
        forest_rows(nodes, prefix, depth, i).len() == nodes.len() - i,
        forall|k: int| 0 <= k < nodes.len() - i ==> #[trigger] forest_rows(nodes, prefix, depth, i)[k] == node_row(
            nodes[i + k],
            prefix.push((i + k) as usize),
            depth,
        ),
    decreases nodes.len() - i,
{
    if i < nodes.len() {
        lemma_collapsed_rows(nodes, prefix, depth, i + 1);
        let a = node_rows(nodes[i], prefix.push(i as usize), depth);
        assert(a =~= seq![node_row(nodes[i], prefix.push(i as usize), depth)]);
        let b = forest_rows(nodes, prefix, depth, i + 1);
        assert forall|k: int| 0 <= k < nodes.len() - i implies #[trigger] (a + b)[k] == node_row(
            nodes[i + k],
            prefix.push((i + k) as usize),
            depth,
        ) by {
            if k > 0 {
                assert((a + b)[k] == b[k - 1]);
            }
        }
    }
}

/// A collapsed node hides its children: when no node is expanded, the tree
/// shows exactly one row per top-level node, in order, each at depth 0
/// under its own index.
pub proof fn law_collapsed_nodes_hide_children(nodes: Seq<LibNode>)
    requires
        forall|j: int| 0 <= j < nodes.len() ==> !(#[trigger] nodes[j]).expanded,
    ensures
        tree_rows(nodes).len() == nodes.len(),
        forall|k: int| 0 <= k < nodes.len() ==> #[trigger] tree_rows(nodes)[k] == node_row(
            nodes[k],
            seq![k as usize],
            0,
        ),
{
    lemma_collapsed_rows(nodes, Seq::empty(), 0, 0);
    assert forall|k: int| 0 <= k < nodes.len() implies #[trigger] tree_rows(nodes)[k] == node_row(
        nodes[k],
        seq![k as usize],
        0,
    ) by {
        assert(Seq::<usize>::empty().push(k as usize) =~= seq![k as usize]);
    }
}

/// What activating a library row leaves for the program.
pub enum RowAction {
    /// Nothing to do.
    Nothing,
    /// Fetch the children of the node at this path, now marked loading.
    Load(Vec<usize>),
    /// Fetch the children of the node at this path, now marked loading, and
    /// play them once they arrive.
    LoadThenPlay(Vec<usize>),
    /// Replace the queue with the songs under the node at `parent` and play
    /// from the `start`-th of them.
    PlaySongs { parent: Vec<usize>, start: usize },
    /// Append the `position`-th song under the node at `parent` to the queue.
    EnqueueSong { parent: Vec<usize>, position: usize },
    /// The node holds no songs.
    NothingPlayable,
}

/// The library tree, its flattened rows and the selected row.
pub struct Library {
    pub nodes: Vec<LibNode>,
    pub rows: Vec<LibRow>,
    pub sel: usize,
}

/// The rows of a forest.
pub open spec fn tree_rows(nodes: Seq<LibNode>) -> Seq<RowView> {
    forest_rows(nodes, Seq::empty(), 0, 0)
}

/// The selection after the rows were rebuilt: kept, unless it fell off the
/// end, where it moves to the last row.
pub open spec fn kept_sel(sel: int, len: int) -> int {
    if sel >= len {
        if len > 0 {
            len - 1
        } else {
            0
        }
    } else {
        sel
    }
}

impl Library {
    /// The rows show the tree.
    pub open spec fn wf(&self) -> bool {
        rows_view(self.rows@) == tree_rows(self.nodes@)
    }

    /// An empty library.
    pub fn new() -> (l: Library)
        ensures
            l.wf(),
            l.nodes@.len() == 0,
            l.sel == 0,
    {
        let nodes: Vec<LibNode> = Vec::new();
        let rows = flatten(&nodes);
        Library { nodes, rows, sel: 0 }
    }

    /// Build the root of the tree, if it is not there yet. Children load on
    /// demand.
    pub fn ensure_root(&mut self)
        ensures
            final(self).wf() || !old(self).wf() && old(self).nodes@.len() > 0,
            old(self).nodes@.len() > 0 ==> *final(self) == *old(self),
            old(self).nodes@.len() == 0 ==> {
                let n = final(self).nodes@;
                &&& n.len() == 5
                &&& is_new_node(n[0], LibKind::LikedMusic)
                &&& is_new_node(n[1], LibKind::LibrarySongs)
                &&& is_new_node(n[2], LibKind::ArtistsFolder)
                &&& is_new_node(n[3], LibKind::AlbumsFolder)
                &&& is_new_node(n[4], LibKind::PlaylistsFolder)
                &&& final(self).sel == kept_sel(old(self).sel as int, final(self).rows@.len() as int)
            },
    {
        if self.nodes.len() > 0 {
            return;
        }
        let mut nodes: Vec<LibNode> = Vec::new();
        nodes.push(LibNode::new(LibKind::LikedMusic));
        nodes.push(LibNode::new(LibKind::LibrarySongs));
        nodes.push(LibNode::new(LibKind::ArtistsFolder));
        nodes.push(LibNode::new(LibKind::AlbumsFolder));
        nodes.push(LibNode::new(LibKind::PlaylistsFolder));
        self.nodes = nodes;
        self.rebuild();
    }

    /// Flatten the tree into rows again, keeping the selection on a row.
    pub fn rebuild(&mut self)
        ensures
            final(self).wf(),
            final(self).nodes == old(self).nodes,
            final(self).sel == kept_sel(old(self).sel as int, final(self).rows@.len() as int),
    {
        self.rows = flatten(&self.nodes);
        if self.sel >= self.rows.len() {
            self.sel = if self.rows.len() > 0 {
                self.rows.len() - 1
            } else {
                0
            };
        }
    }

    /// Path from the root to the selected row.
    pub fn cursor(&self) -> (c: Vec<usize>)
        ensures
            c@ == cursor_spec(rows_view(self.rows@), self.sel as int),
    {
        cursor(&self.rows, self.sel)
    }

    /// What `descend` does.
    pub open spec fn descend_post(a: Library, b: Library, load: Option<Vec<usize>>) -> bool {
        let c = cursor_spec(rows_view(a.rows@), a.sel as int);
        match node_at_spec(a.nodes@, c) {
            None => b == a && load is None,
            Some(n) => if n.kind is Song {
                b == a && load is None
            } else if !n.loaded {
                if n.loading {
                    b == a && load is None
                } else {
                    &&& only_at(a.nodes@, b.nodes@, c, |x: LibNode, y: LibNode| flags_set(x, y, None, Some(true)))
                    &&& b.sel == kept_sel(a.sel as int, b.rows@.len() as int)
                    &&& load matches Some(p) && p@ == c
                }
            } else if n.children@.len() == 0 {
                b == a && load is None
            } else {
                &&& only_at(a.nodes@, b.nodes@, c, |x: LibNode, y: LibNode| flags_set(x, y, Some(true), None))
                &&& load is None
                &&& b.sel == match row_index_spec(rows_view(b.rows@), c.push(0)) {
                    Some(i) => i as usize,
                    None => kept_sel(a.sel as int, b.rows@.len() as int) as usize,
                }
            }
        }
    }

    /// Step into the focused node, loading it first if need be: the path to
    /// fetch, when the node was not loaded and is now marked loading.
    pub fn descend(&mut self) -> (load: Option<Vec<usize>>)
        requires
            old(self).wf(),
        ensures
            final(self).wf(),
            Self::descend_post(*old(self), *final(self), load),
    {
        let path = self.cursor();
        let (is_song, loaded, loading, empty) = match node_at(&self.nodes, path.as_slice()) {
            None => return None,
            Some(node) => (node.kind.is_song(), node.loaded, node.loading, node.children.len() == 0),
        };
        if is_song {
            return None;
        }
        if !loaded {
            if !loading {
                set_flags(&mut self.nodes, path.as_slice(), None, Some(true));
                self.rebuild();
                return Some(path);
            }
            return None;
        }
        if empty {
            return None;
        }
        set_flags(&mut self.nodes, path.as_slice(), Some(true), None);
        self.rebuild();
        let mut child = path;
        child.push(0);
        if let Some(i) = row_index(&self.rows, child.as_slice()) {
            self.sel = i;
        }
        None
    }

    /// What choosing the song at `path` does: play its siblings from it when
    /// `play` (a jump, or an idle queue), else queue it. Songs play in the
    /// context of their siblings, so picking track 4 of an album queues the
    /// whole album from there.
    pub open spec fn song_action_ok(nodes: Seq<LibNode>, path: Seq<usize>, play: bool, r: RowAction) -> bool {
        let parent = path.drop_last();
        let index = path.last();
        match node_at_spec(nodes, parent) {
            None => r is Nothing,
            Some(p) => {
                let songs = song_positions_spec(p.children@);
                if songs.len() == 0 {
                    r is Nothing
                } else if play {
                    r matches RowAction::PlaySongs { parent: q, start } && q@ == parent && start == if index
                        < songs.len() - 1 {
                        index
                    } else {
                        (songs.len() - 1) as usize
                    }
                } else if index < songs.len() {
                    r matches RowAction::EnqueueSong { parent: q, position } && q@ == parent && position
                        == index
                } else {
                    r is Nothing
                }
            },
        }
    }

    fn song_action(&self, path: &Vec<usize>, play: bool) -> (r: RowAction)
        requires
            path@.len() > 0,
        ensures
            Self::song_action_ok(self.nodes@, path@, play, r),
    {
        let mut parent = path.clone();
        assert(parent@ =~= path@);
        let index = parent.pop().unwrap();
        assert(parent@ =~= path@.drop_last());
        if node_at(&self.nodes, parent.as_slice()).is_none() {
            return RowAction::Nothing;
        }
        let songs = song_positions(&self.nodes, parent.as_slice());
        if songs.len() == 0 {
            return RowAction::Nothing;
        }
        if play {
            let start = if index < songs.len() - 1 {
                index
            } else {
                songs.len() - 1
            };
            RowAction::PlaySongs { parent, start }
        } else if index < songs.len() {
            RowAction::EnqueueSong { parent, position: index }
        } else {
            RowAction::Nothing
        }
    }

    /// Choosing a song plays from that very song: the song at child place
    /// `i` of a parent with more than `i` songs starts the parent's songs at
    /// `i` (or, when not playing at once, the `i`-th song is queued). A place
    /// past the songs starts from the last of them; with no songs nothing
    /// happens.
    pub proof fn law_chosen_song_starts(nodes: Seq<LibNode>, path: Seq<usize>, parent: LibNode, play: bool, r: RowAction)
        requires
            path.len() > 0,
            node_at_spec(nodes, path.drop_last()) == Some(parent),
            Self::song_action_ok(nodes, path, play, r),
        ensures
            song_positions_spec(parent.children@).len() == 0 ==> r is Nothing,
            play && path.last() < song_positions_spec(parent.children@).len() ==> (r matches RowAction::PlaySongs { parent: q, start } && q@ == path.drop_last() && start == path.last()),
            play && 0 < song_positions_spec(parent.children@).len() <= path.last() ==> (r matches RowAction::PlaySongs { parent: q, start } && q@ == path.drop_last() && start == song_positions_spec(parent.children@).len() - 1),
            !play && path.last() < song_positions_spec(parent.children@).len() ==> (r matches RowAction::EnqueueSong { parent: q, position } && q@ == path.drop_last() && position == path.last()),
            !play && path.last() >= song_positions_spec(parent.children@).len() ==> r is Nothing,
    {
    }

    /// What `play_selected` does.
    pub open spec fn play_selected_post(a: Library, b: Library, r: RowAction) -> bool {
        let rv = rows_view(a.rows@);
        let sel = a.sel as int;
        if sel >= rv.len() {
            b == a && r is Nothing
        } else if rv[sel].is_song {
            b == a && rv[sel].path.len() > 0 && Self::song_action_ok(a.nodes@, rv[sel].path, true, r)
        } else {
            let path = rv[sel].path;
            match node_at_spec(a.nodes@, path) {
                None => b == a && r is Nothing,
                Some(n) => if n.loaded {
                    &&& b == a
                    &&& if song_positions_spec(n.children@).len() == 0 {
                        r is NothingPlayable
                    } else {
                        r matches RowAction::PlaySongs { parent, start } && parent@ == path && start == 0
                    }
                } else if n.loading {
                    b == a && r is Nothing
                } else {
                    &&& only_at(a.nodes@, b.nodes@, path, |x: LibNode, y: LibNode| flags_set(x, y, None, Some(true)))
                    &&& b.sel == kept_sel(sel, b.rows@.len() as int)
                    &&& r matches RowAction::LoadThenPlay(p) && p@ == path
                },
            }
        }
    }

    /// Play the selected node's whole contents, fetching them first if
    /// need be; a song plays its siblings from that point.
    pub fn play_selected(&mut self) -> (r: RowAction)
        requires
            old(self).wf(),
        ensures
            final(self).wf(),
            Self::play_selected_post(*old(self), *final(self), r),
    {
        if self.sel >= self.rows.len() {
            return RowAction::Nothing;
        }
        let path = self.rows[self.sel].path.clone();
        assert(path@ =~= self.rows@[self.sel as int].path@);
        if self.rows[self.sel].is_song {
            proof {
                let rv = rows_view(self.rows@);
                lemma_rows_have_paths(self.nodes@, self.sel as int);
            }
            return self.song_action(&path, true);
        }
        let (loaded, loading) = match node_at(&self.nodes, path.as_slice()) {
            None => return RowAction::Nothing,
            Some(node) => (node.loaded, node.loading),
        };
        if loaded {
            let songs = song_positions(&self.nodes, path.as_slice());
            if songs.len() == 0 {
                return RowAction::NothingPlayable;
            }
            return RowAction::PlaySongs { parent: path, start: 0 };
        }
        if loading {
            return RowAction::Nothing;
        }
        set_flags(&mut self.nodes, path.as_slice(), None, Some(true));
        self.rebuild();
        RowAction::LoadThenPlay(path)
    }

    /// Enter on the selected row. A song plays its siblings from it (at once
    /// when `jump` or nothing is playing, `queue_idle`), or is queued.
    /// Alt+enter on a container plays its whole contents. In columns, enter
    /// steps in, as the right arrow does. Otherwise a container collapses if
    /// open, expands if fetched, and is fetched if not.
    pub fn activate(&mut self, jump: bool, in_columns: bool, queue_idle: bool) -> (r: RowAction)
        requires
            old(self).wf(),
        ensures
            final(self).wf(),
            ({
                let rv = rows_view(old(self).rows@);
                let sel = old(self).sel as int;
                if sel >= rv.len() {
                    *final(self) == *old(self) && r is Nothing
                } else if rv[sel].is_song {
                    *final(self) == *old(self) && rv[sel].path.len() > 0 && Self::song_action_ok(
                        old(self).nodes@,
                        rv[sel].path,
                        jump || queue_idle,
                        r,
                    )
                } else if jump {
                    Self::play_selected_post(*old(self), *final(self), r)
                } else if in_columns {
                    exists|load: Option<Vec<usize>>| #[trigger] Self::descend_post(*old(self), *final(self), load) && match load {
                        Some(p) => r matches RowAction::Load(q) && q@ == p@,
                        None => r is Nothing,
                    }
                } else {
                    let path = rv[sel].path;
                    match node_at_spec(old(self).nodes@, path) {
                        None => *final(self) == *old(self) && r is Nothing,
                        Some(n) => if n.expanded {
                            &&& only_at(old(self).nodes@, final(self).nodes@, path, |x: LibNode, y: LibNode| flags_set(x, y, Some(false), None))
                            &&& final(self).sel == kept_sel(sel, final(self).rows@.len() as int)
                            &&& r is Nothing
                        } else if n.loaded {
                            &&& only_at(old(self).nodes@, final(self).nodes@, path, |x: LibNode, y: LibNode| flags_set(x, y, Some(true), None))
                            &&& final(self).sel == kept_sel(sel, final(self).rows@.len() as int)
                            &&& r is Nothing
                        } else if n.loading {
                            *final(self) == *old(self) && r is Nothing
                        } else {
                            &&& only_at(old(self).nodes@, final(self).nodes@, path, |x: LibNode, y: LibNode| flags_set(x, y, None, Some(true)))
                            &&& final(self).sel == kept_sel(sel, final(self).rows@.len() as int)
                            &&& r matches RowAction::Load(p) && p@ == path
                        },
                    }
                }
            }),
    {
        if self.sel >= self.rows.len() {
            return RowAction::Nothing;
        }
        let path = self.rows[self.sel].path.clone();
        assert(path@ =~= self.rows@[self.sel as int].path@);
        if self.rows[self.sel].is_song {
            proof {
                lemma_rows_have_paths(self.nodes@, self.sel as int);
            }
            return self.song_action(&path, jump || queue_idle);
        }
        if jump {
            return self.play_selected();
        }
        if in_columns {
            let load = self.descend();
            assert(Self::descend_post(*old(self), *self, load));
            return match load {
                Some(p) => RowAction::Load(p),
                None => RowAction::Nothing,
            };
        }
        let (expanded, loaded, loading) = match node_at(&self.nodes, path.as_slice()) {
            None => return RowAction::Nothing,
            Some(node) => (node.expanded, node.loaded, node.loading),
        };
        if expanded {
            set_flags(&mut self.nodes, path.as_slice(), Some(false), None);
            self.rebuild();
            return RowAction::Nothing;
        }
        if loaded {
            set_flags(&mut self.nodes, path.as_slice(), Some(true), None);
            self.rebuild();
            return RowAction::Nothing;
        }
        if loading {
            return RowAction::Nothing;
        }
        set_flags(&mut self.nodes, path.as_slice(), None, Some(true));
        self.rebuild();
        RowAction::Load(path)
    }

    /// Take in a page of children for the node at `path` and show them.
    /// `false`, with nothing changed, when the path leads nowhere any more.
    pub fn take_page(&mut self, path: &[usize], page: Vec<LibKind>, first: bool, last: bool) -> (found: bool)
        requires
            old(self).wf(),
        ensures
            final(self).wf(),
            found == node_at_spec(old(self).nodes@, path@) is Some,
            found ==> only_at(
                old(self).nodes@,
                final(self).nodes@,
                path@,
                |x: LibNode, y: LibNode| page_applied(x, y, page@, first, last),
            ) && final(self).sel == kept_sel(old(self).sel as int, final(self).rows@.len() as int),
            !found ==> *final(self) == *old(self),
    {
        let found = apply_page(&mut self.nodes, path, page, first, last);
        if found {
            self.rebuild();
        }
        found
    }

    /// A fetch for the node at `path` failed: stop its spinner.
    pub fn load_failed(&mut self, path: &[usize])
        requires
            old(self).wf(),
        ensures
            final(self).wf(),
            node_at_spec(old(self).nodes@, path@) is Some ==> only_at(
                old(self).nodes@,
                final(self).nodes@,
                path@,
                |x: LibNode, y: LibNode| flags_set(x, y, None, Some(false)),
            ),
            node_at_spec(old(self).nodes@, path@) is None ==> final(self).nodes == old(self).nodes,
            final(self).sel == kept_sel(old(self).sel as int, final(self).rows@.len() as int),
    {
        set_flags(&mut self.nodes, path, None, Some(false));
        self.rebuild();
    }

    /// Move the selection among its siblings by `delta`.
    pub fn move_sibling(&mut self, delta: isize)
        ensures
            final(self).nodes == old(self).nodes,
            final(self).rows == old(self).rows,
            final(self).sel as int == move_sibling_spec(
                old(self).nodes@,
                rows_view(old(self).rows@),
                old(self).sel as int,
                delta as int,
            ),
    {
        self.sel = move_sibling(&self.nodes, &self.rows, self.sel, delta);
    }

    /// Jump the selection to its first or last sibling.
    pub fn edge_sibling(&mut self, last: bool)
        ensures
            final(self).nodes == old(self).nodes,
            final(self).rows == old(self).rows,
            final(self).sel as int == move_sibling_spec(
                old(self).nodes@,
                rows_view(old(self).rows@),
                old(self).sel as int,
                edge_delta(last),
            ),
    {
        self.sel = edge_sibling(&self.nodes, &self.rows, self.sel, last);
    }

    /// Step out to the parent row.
    pub fn ascend(&mut self)
        ensures
            final(self).nodes == old(self).nodes,
            final(self).rows == old(self).rows,
            final(self).sel as int == ascend_spec(rows_view(old(self).rows@), old(self).sel as int),
    {
        self.sel = ascend(&self.rows, self.sel);
    }

    /// The miller columns down to the selection.
    pub fn columns(&self) -> (cols: Vec<LibColumn>)
        ensures
            cols@.map_values(|c: LibColumn| column_view(c)) == columns_from(
                self.nodes@,
                cursor_spec(rows_view(self.rows@), self.sel as int),
                0,
                Seq::empty(),
            ),
    {
        let c = self.cursor();
        library_columns(&self.nodes, c.as_slice())
    }
}

} // verus!
