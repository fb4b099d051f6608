//! The rows of the scrollable panes: the numbered queue and search lists,
//! the up-next column beside the track view, and the library tree.
use vstd::prelude::*;
use crate::text::{decimal, push_chars, push_decimal, push_str, string_from, chars_of};
use crate::ui::views::{fit, fit_spec, rfit, rfit_spec, spaces, window, window_spec};
use crate::ui::widgets::{elide, elide_spec};

verus! {

broadcast use vstd::string::group_string_axioms;

/// Widths of the columns of a numbered track list: the scrollbar, the
/// index, the artist and the title. The marker (two columns), two separating
/// spaces and the duration (six) are fixed.
#[derive(Clone, Copy, Debug, PartialEq, Eq, Structural)]
pub struct ListColumns {
    pub bar_w: usize,
    pub idx_w: usize,
    pub artist_w: usize,
    pub title_w: usize,
}

/// The scrollbar takes a column once the list is longer than the pane.
pub open spec fn bar_spec(total: usize, height: u16) -> usize {
    if total > height {
        1
    } else {
        0
    }
}

/// The columns of a list of `total` rows in a pane `width` by `height`:
/// artist and title share what the fixed columns leave, two fifths to the
/// artist, so the columns line up down the list.
pub open spec fn columns_spec(total: usize, width: u16, height: u16) -> ListColumns {
    let bar_w = bar_spec(total, height);
    let idx_w = decimal(total as nat).len();
    let fixed = 2 + idx_w + 2 + 6 + bar_w;
    let flex: int = if width >= fixed {
        width - fixed
    } else {
        0
    };
    ListColumns {
        bar_w,
        idx_w: idx_w as usize,
        artist_w: (flex * 2 / 5) as usize,
        title_w: (flex - flex * 2 / 5) as usize,
    }
}

/// How many digits `n` has in decimal.
pub fn decimal_len(n: usize) -> (r: usize)
    ensures
        r as nat == decimal(n as nat).len(),
        r as nat <= n as nat + 1,
    decreases n,
{
    if n < 10 {
        1
    } else {
        decimal_len(n / 10) + 1
    }
}

/// The column widths of a numbered list.
pub fn list_columns(total: usize, width: u16, height: u16) -> (c: ListColumns)
    ensures
        c == columns_spec(total, width, height),
{
    let bar_w: usize = if total > height as usize {
        1
    } else {
        0
    };
    let idx_w = decimal_len(total);
    let w = width as usize;
    let flex: usize = if idx_w <= w && w - idx_w >= 10 + bar_w {
        w - idx_w - 10 - bar_w
    } else {
        0
    };
    ListColumns { bar_w, idx_w, artist_w: flex * 2 / 5, title_w: flex - flex * 2 / 5 }
}

/// One row of a numbered list before it is fitted to the pane: the marker,
/// the number right-aligned, artist, title and duration.
pub open spec fn row_spec(
    playing: bool,
    number: nat,
    c: ListColumns,
    artist: Seq<char>,
    title: Seq<char>,
    duration: Seq<char>,
) -> Seq<char> {
    (if playing {
        "\u{25b6} "@
    } else {
        "  "@
    }) + rfit_spec(decimal(number), c.idx_w) + " "@ + fit_spec(artist, c.artist_w) + " "@
        + fit_spec(title, c.title_w) + rfit_spec(duration, 6)
}

/// Row `index` of a numbered list (the queue, or search results with
/// `playing` false), elided to the pane's width less the scrollbar.
pub fn list_row(
    playing: bool,
    index: usize,
    c: &ListColumns,
    artist: &str,
    title: &str,
    duration: &str,
    width: u16,
) -> (r: String)
    requires
        index < usize::MAX,
        c.bar_w <= width,
    ensures
        r@ == elide_spec(
            row_spec(playing, (index + 1) as nat, *c, artist@, title@, duration@),
            (width - c.bar_w) as u16,
        ),
{
    let mut out: Vec<char> = Vec::new();
    if playing {
        push_str(&mut out, "\u{25b6} ");
    } else {
        push_str(&mut out, "  ");
    }
    let mut num: Vec<char> = Vec::new();
    push_decimal(&mut num, (index + 1) as u64);
    let num_s = string_from(num.as_slice());
    push_string(&mut out, rfit(num_s.as_str(), c.idx_w));
    push_str(&mut out, " ");
    push_string(&mut out, fit(artist, c.artist_w));
    push_str(&mut out, " ");
    push_string(&mut out, fit(title, c.title_w));
    push_string(&mut out, rfit(duration, 6));
    proof {
        reveal_strlit("\u{25b6} ");
        reveal_strlit("  ");
        reveal_strlit(" ");
    }
    let row = string_from(out.as_slice());
    assert(row@ =~= row_spec(playing, (index + 1) as nat, *c, artist@, title@, duration@));
    elide(row.as_str(), width - c.bar_w as u16)
}

fn push_string(out: &mut Vec<char>, s: String)
    ensures
        final(out)@ == old(out)@ + s@,
{
    let c = chars_of(s.as_str());
    push_chars(out, c.as_slice());
}

/// The up-next column: the queue from after the current track on. `start`
/// is the first upcoming track, `sel` the queue's selection kept within the
/// upcoming ones, `[first, end)` the rows shown, and the widths those of the
/// optional artist and the title.
#[derive(Clone, Copy, Debug, PartialEq, Eq, Structural)]
pub struct UpNext {
    pub start: usize,
    pub sel: usize,
    pub first: usize,
    pub end: usize,
    pub bar_w: usize,
    pub artist_w: usize,
    pub title_w: usize,
}

/// Where the upcoming tracks begin.
pub open spec fn upcoming_start(current: Option<usize>) -> nat {
    match current {
        Some(i) => (i + 1) as nat,
        None => 0,
    }
}

/// The up-next layout, when anything is upcoming. The artist column
/// appears only once the pane is wide enough for both to stay readable.
pub open spec fn up_next_spec(current: Option<usize>, total: usize, queue_sel: usize, width: u16, height: u16) -> UpNext {
    let start = upcoming_start(current);
    let upcoming = total - start;
    let sel: int = if queue_sel >= start {
        if queue_sel < total - 1 {
            queue_sel as int
        } else {
            total - 1
        }
    } else if start < total - 1 {
        start as int
    } else {
        total - 1
    };
    let win = window_spec((sel - start) as usize, upcoming as usize, height as usize);
    let bar_w: int = if upcoming > height {
        1
    } else {
        0
    };
    let flex: int = if width >= 8 + bar_w {
        width - 8 - bar_w
    } else {
        0
    };
    let artist_w: int = if flex >= 44 {
        flex * 2 / 5
    } else {
        0
    };
    UpNext {
        start: start as usize,
        sel: sel as usize,
        first: (start + win.0) as usize,
        end: (start + win.1) as usize,
        bar_w: bar_w as usize,
        artist_w: artist_w as usize,
        title_w: (flex - artist_w) as usize,
    }
}

/// What the up-next column says when nothing is upcoming.
pub open spec fn up_next_message(total: usize) -> Seq<char> {
    if total == 0 {
        "nothing queued"@
    } else {
        "end of the queue"@
    }
}

/// Lay out the up-next column for a queue of `total` tracks whose current
/// one is `current`; the message to show instead when none is upcoming.
pub fn up_next(current: Option<usize>, total: usize, queue_sel: usize, width: u16, height: u16) -> (r: Result<UpNext, &'static str>)
    requires
        current matches Some(i) ==> i < total,
    ensures
        total <= upcoming_start(current) ==> (r matches Err(m) && m@ == up_next_message(total)),
        total > upcoming_start(current) ==> r == Ok::<UpNext, &'static str>(
            up_next_spec(current, total, queue_sel, width, height),
        ),
{
    let start: usize = match current {
        Some(i) => i + 1,
        None => 0,
    };
    if total <= start {
        let m = if total == 0 {
            "nothing queued"
        } else {
            "end of the queue"
        };
        proof {
            reveal_strlit("nothing queued");
            reveal_strlit("end of the queue");
        }
        return Err(m);
    }
    let upcoming = total - start;
    let low = if queue_sel >= start {
        queue_sel
    } else {
        start
    };
    let sel = if low < total - 1 {
        low
    } else {
        total - 1
    };
    let (ws, we) = window(sel - start, upcoming, height as usize);
    let bar_w: usize = if upcoming > height as usize {
        1
    } else {
        0
    };
    let w = width as usize;
    let flex: usize = if w >= 8 + bar_w {
        w - 8 - bar_w
    } else {
        0
    };
    let artist_w: usize = if flex >= 44 {
        flex * 2 / 5
    } else {
        0
    };
    Ok(UpNext { start, sel, first: start + ws, end: start + we, bar_w, artist_w, title_w: flex - artist_w })
}

/// One up-next row before it is fitted: title and duration, with the
/// artist in front when there is a column for it.
pub open spec fn up_next_row_spec(u: UpNext, artist: Seq<char>, title: Seq<char>, duration: Seq<char>) -> Seq<char> {
    if u.artist_w > 0 {
        "  "@ + fit_spec(artist, (u.artist_w - 1) as usize) + " "@ + fit_spec(title, u.title_w)
            + rfit_spec(duration, 6)
    } else {
        "  "@ + fit_spec(title, u.title_w) + rfit_spec(duration, 6)
    }
}

/// An up-next row, elided to the pane's width less the scrollbar.
pub fn up_next_row(u: &UpNext, artist: &str, title: &str, duration: &str, width: u16) -> (r: String)
    requires
        u.bar_w <= width,
    ensures
        r@ == elide_spec(up_next_row_spec(*u, artist@, title@, duration@), (width - u.bar_w) as u16),
{
    let mut out: Vec<char> = Vec::new();
    push_str(&mut out, "  ");
    if u.artist_w > 0 {
        push_string(&mut out, fit(artist, u.artist_w - 1));
        push_str(&mut out, " ");
    }
    push_string(&mut out, fit(title, u.title_w));
    push_string(&mut out, rfit(duration, 6));
    proof {
        reveal_strlit("  ");
        reveal_strlit(" ");
    }
    let row = string_from(out.as_slice());
    assert(row@ =~= up_next_row_spec(*u, artist@, title@, duration@));
    elide(row.as_str(), width - u.bar_w as u16)
}

/// A library row before it is fitted: indented two columns a level, its
/// marker and label, and the sublabel after two spaces when there is one.
pub open spec fn library_row_spec(depth: usize, marker: Seq<char>, label: Seq<char>, sublabel: Seq<char>) -> Seq<char> {
    spaces(2 * depth) + marker + " "@ + label + if sublabel.len() == 0 {
        Seq::<char>::empty()
    } else {
        "  "@ + sublabel
    }
}

/// A library row fitted to the pane's width less the scrollbar's.
pub fn library_row(depth: usize, marker: &str, label: &str, sublabel: &str, width: u16, bar_w: usize) -> (r: String)
    requires
        2 * depth < usize::MAX,
    ensures
        r@ == fit_spec(
            library_row_spec(depth, marker@, label@, sublabel@),
            (if width >= bar_w {
                width - bar_w
            } else {
                0
            }) as usize,
        ),
{
    let mut out: Vec<char> = Vec::new();
    let indent = 2 * depth;
    let mut k: usize = 0;
    while k < indent
        invariant
            k <= indent,
            indent == 2 * depth,
            out@ =~= spaces(k as int),
        decreases indent - k,
    {
        out.push(' ');
        k += 1;
    }
    push_str(&mut out, marker);
    push_str(&mut out, " ");
    push_str(&mut out, label);
    let sub = chars_of(sublabel);
    if sub.len() > 0 {
        push_str(&mut out, "  ");
        push_chars(&mut out, sub.as_slice());
    }
    proof {
        reveal_strlit("  ");
        reveal_strlit(" ");
    }
    let text = string_from(out.as_slice());
    assert(text@ =~= library_row_spec(depth, marker@, label@, sublabel@));
    let w: usize = if width as usize >= bar_w {
        width as usize - bar_w
    } else {
        0
    };
    fit(text.as_str(), w)
}

} // verus!
