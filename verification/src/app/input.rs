//! The mouse: what was drawn where, and what a click or a wheel turn over
//! it does. Drawing records the regions; this resolves a pointer position
//! against them.
use vstd::prelude::*;
use vstd::view::View as _;
use crate::app::library::{column_view, row_index, row_index_spec, rows_view, ColumnView, LibColumn, LibRow, RowView};
use crate::ui::View;

verus! {

/// A screen area in cells.
#[derive(Clone, Copy, Debug, PartialEq, Eq, Structural)]
pub struct Rect {
    pub x: u16,
    pub y: u16,
    pub width: u16,
    pub height: u16,
}

/// The cell at `col`, `row` lies inside `r`.
pub open spec fn inside(r: Rect, col: u16, row: u16) -> bool {
    r.x <= col < r.x + r.width && r.y <= row < r.y + r.height
}

impl Rect {
    /// Whether the cell at `col`, `row` lies inside.
    pub fn contains(&self, col: u16, row: u16) -> (b: bool)
        ensures
            b == inside(*self, col, row),
    {
        let right: u32 = self.x as u32 + self.width as u32;
        let bottom: u32 = self.y as u32 + self.height as u32;
        self.x <= col && (col as u32) < right && self.y <= row && (row as u32) < bottom
    }
}

/// What the mouse did, as far as the session tells events apart.
#[derive(Clone, Copy, Debug, PartialEq, Eq, Structural)]
pub enum MouseKind {
    ScrollUp,
    ScrollDown,
    /// The left button went down.
    LeftDown,
    /// The right button went down.
    RightDown,
    /// Anything else: moves, drags, releases, the middle button.
    Other,
}

/// Where the last frame drew the things a click can land on.
pub struct HitRegions {
    /// Tab label areas and the view each selects.
    pub tabs: Vec<(Rect, View)>,
    /// The scrollable list area, and the item index its first row shows.
    pub list: Option<(Rect, usize)>,
    /// A seekable progress bar: the whole bar including its time labels.
    pub progress: Option<Rect>,
    /// Where the bar's track starts and how wide it is, since the labels
    /// either side are not seekable.
    pub progress_track: Option<(u16, u16)>,
    /// Library columns: the area, the entry its first row shows, and which
    /// depth it draws. Replaces `list` while the column view is up, since
    /// one flat index cannot address several columns.
    pub lib_columns: Vec<(Rect, usize, usize)>,
}

impl HitRegions {
    /// Nothing drawn yet.
    pub fn new() -> (h: HitRegions)
        ensures
            h.tabs@.len() == 0,
            h.list is None,
            h.progress is None,
            h.progress_track is None,
            h.lib_columns@.len() == 0,
    {
        HitRegions {
            tabs: Vec::new(),
            list: None,
            progress: None,
            progress_track: None,
            lib_columns: Vec::new(),
        }
    }
}

/// The view of the first tab under the pointer.
pub open spec fn tab_at_spec(tabs: Seq<(Rect, View)>, col: u16, row: u16) -> Option<View>
    decreases tabs.len(),
{
    if tabs.len() == 0 {
        None
    } else if inside(tabs[0].0, col, row) {
        Some(tabs[0].1)
    } else {
        tab_at_spec(tabs.drop_first(), col, row)
    }
}

/// The view whose tab is under the pointer.
pub fn tab_at(hits: &HitRegions, col: u16, row: u16) -> (r: Option<View>)
    ensures
        r == tab_at_spec(hits.tabs@, col, row),
{
    let mut i: usize = 0;
    assert(hits.tabs@.skip(0) =~= hits.tabs@);
    while i < hits.tabs.len()
        invariant
            i <= hits.tabs@.len(),
            tab_at_spec(hits.tabs@, col, row) == tab_at_spec(hits.tabs@.skip(i as int), col, row),
        decreases hits.tabs@.len() - i,
    {
        assert(hits.tabs@.skip(i as int).drop_first() =~= hits.tabs@.skip(i + 1));
        if hits.tabs[i].0.contains(col, row) {
            return Some(hits.tabs[i].1);
        }
        i += 1;
    }
    None
}

/// The pointer is over the scrollable list.
pub open spec fn in_list_spec(hits: HitRegions, col: u16, row: u16) -> bool {
    hits.list matches Some(l) && inside(l.0, col, row)
}

/// Whether the pointer is over the scrollable list.
pub fn point_in_list(hits: &HitRegions, col: u16, row: u16) -> (b: bool)
    ensures
        b == in_list_spec(*hits, col, row),
{
    match hits.list {
        Some(l) => l.0.contains(col, row),
        None => false,
    }
}

/// Where along the progress bar's track a click landed: the offset into the
/// track and the track's width. The fraction seeked to is their ratio.
pub open spec fn progress_at_spec(hits: HitRegions, col: u16, row: u16) -> Option<(u16, u16)> {
    match hits.progress {
        None => None,
        Some(r) => if row < r.y || row >= r.y + r.height {
            None
        } else {
            match hits.progress_track {
                None => None,
                Some(t) => if t.1 == 0 || col < t.0 || col >= t.0 + t.1 {
                    None
                } else {
                    Some(((col - t.0) as u16, t.1))
                },
            }
        },
    }
}

/// Where along the progress bar's track a click landed, if it did.
pub fn progress_at(hits: &HitRegions, col: u16, row: u16) -> (r: Option<(u16, u16)>)
    ensures
        r == progress_at_spec(*hits, col, row),
{
    let r = match hits.progress {
        Some(r) => r,
        None => return None,
    };
    if row < r.y || row as u32 >= r.y as u32 + r.height as u32 {
        return None;
    }
    let (track_x, track_w) = match hits.progress_track {
        Some(t) => t,
        None => return None,
    };
    if track_w == 0 || col < track_x || col as u32 >= track_x as u32 + track_w as u32 {
        return None;
    }
    Some((col - track_x, track_w))
}

/// The first library column under the pointer.
pub open spec fn column_at_spec(cols: Seq<(Rect, usize, usize)>, col: u16, row: u16) -> Option<(Rect, usize, usize)>
    decreases cols.len(),
{
    if cols.len() == 0 {
        None
    } else if inside(cols[0].0, col, row) {
        Some(cols[0])
    } else {
        column_at_spec(cols.drop_first(), col, row)
    }
}

proof fn lemma_column_at_inside(cols: Seq<(Rect, usize, usize)>, col: u16, row: u16)
    ensures
        column_at_spec(cols, col, row) matches Some(c) ==> inside(c.0, col, row),
    decreases cols.len(),
{
    if cols.len() > 0 && !inside(cols[0].0, col, row) {
        lemma_column_at_inside(cols.drop_first(), col, row);
    }
}

fn column_at(cols: &Vec<(Rect, usize, usize)>, col: u16, row: u16) -> (r: Option<(Rect, usize, usize)>)
    ensures
        r == column_at_spec(cols@, col, row),
{
    let mut i: usize = 0;
    assert(cols@.skip(0) =~= cols@);
    while i < cols.len()
        invariant
            i <= cols@.len(),
            column_at_spec(cols@, col, row) == column_at_spec(cols@.skip(i as int), col, row),
        decreases cols@.len() - i,
    {
        assert(cols@.skip(i as int).drop_first() =~= cols@.skip(i + 1));
        if cols[i].0.contains(col, row) {
            return Some(cols[i]);
        }
        i += 1;
    }
    None
}

/// The entry of the library column under the pointer, as its row in the
/// stacked list.
pub open spec fn column_row_at_spec(
    hits: HitRegions,
    columns: Seq<ColumnView>,
    rows: Seq<RowView>,
    col: u16,
    row: u16,
) -> Option<int> {
    match column_at_spec(hits.lib_columns@, col, row) {
        None => None,
        Some(c) => {
            let entry = c.1 + (row - c.0.y);
            if c.2 < columns.len() && entry < columns[c.2 as int].rows.len() {
                row_index_spec(rows, columns[c.2 as int].rows[entry])
            } else {
                None
            }
        },
    }
}

/// The row of the plain list under the pointer, when it shows one of the
/// `list_len` items.
pub open spec fn list_row_at_spec(hits: HitRegions, list_len: int, col: u16, row: u16) -> Option<int> {
    match hits.list {
        None => None,
        Some(l) => if inside(l.0, col, row) && l.1 + (row - l.0.y) < list_len {
            Some(l.1 + (row - l.0.y))
        } else {
            None
        },
    }
}

/// The list item under the pointer. In library columns the entry clicked
/// resolves back to its row in the stacked list, which is what the library
/// selection indexes (`columns` and `rows` are the library's); otherwise it
/// is the list row, when that row shows one of the `list_len` items.
pub open spec fn row_at_spec(
    hits: HitRegions,
    list_len: int,
    columns: Seq<ColumnView>,
    rows: Seq<RowView>,
    col: u16,
    row: u16,
) -> Option<int> {
    if hits.lib_columns@.len() > 0 {
        column_row_at_spec(hits, columns, rows, col, row)
    } else {
        list_row_at_spec(hits, list_len, col, row)
    }
}

/// The library columns as plain values.
pub open spec fn column_views(columns: Seq<LibColumn>) -> Seq<ColumnView> {
    columns.map_values(|c: LibColumn| column_view(c))
}

fn column_row_at(hits: &HitRegions, columns: &Vec<LibColumn>, rows: &Vec<LibRow>, col: u16, row: u16) -> (r: Option<usize>)
    ensures
        match r {
            Some(i) => column_row_at_spec(*hits, column_views(columns@), rows_view(rows@), col, row) == Some(i as int),
            None => column_row_at_spec(*hits, column_views(columns@), rows_view(rows@), col, row) is None,
        },
{
    let ghost cv = column_views(columns@);
    let (rect, start, depth) = match column_at(&hits.lib_columns, col, row) {
        Some(c) => c,
        None => return None,
    };
    if depth >= columns.len() {
        return None;
    }
    proof {
        lemma_column_at_inside(hits.lib_columns@, col, row);
    }
    let column = &columns[depth];
    assert(cv[depth as int] == column_view(*column));
    let n = column.rows.len();
    let entry = match start.checked_add((row - rect.y) as usize) {
        Some(e) => e,
        None => return None,
    };
    if entry >= n {
        return None;
    }
    assert(cv[depth as int].rows[entry as int] == column.rows@[entry as int]@);
    row_index(rows, column.rows[entry].as_slice())
}

fn list_row_at(hits: &HitRegions, list_len: usize, col: u16, row: u16) -> (r: Option<usize>)
    ensures
        match r {
            Some(i) => list_row_at_spec(*hits, list_len as int, col, row) == Some(i as int),
            None => list_row_at_spec(*hits, list_len as int, col, row) is None,
        },
{
    let (r, start) = match hits.list {
        Some(l) => l,
        None => return None,
    };
    if !r.contains(col, row) {
        return None;
    }
    let index = match start.checked_add((row - r.y) as usize) {
        Some(i) => i,
        None => return None,
    };
    if index < list_len {
        Some(index)
    } else {
        None
    }
}

/// The list item under the pointer, if it is over a list row.
pub fn row_at(
    hits: &HitRegions,
    list_len: usize,
    columns: &Vec<LibColumn>,
    rows: &Vec<LibRow>,
    col: u16,
    row: u16,
) -> (r: Option<usize>)
    ensures
        match r {
            Some(i) => row_at_spec(*hits, list_len as int, column_views(columns@), rows_view(rows@), col, row)
                == Some(i as int),
            None => row_at_spec(*hits, list_len as int, column_views(columns@), rows_view(rows@), col, row) is None,
        },
{
    if hits.lib_columns.len() > 0 {
        column_row_at(hits, columns, rows, col, row)
    } else {
        list_row_at(hits, list_len, col, row)
    }
}

} // verus!
