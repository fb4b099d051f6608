//! What a library fetch was started for. A node opened with "play" starts
//! playback on the first page that holds a song, and the later pages of that
//! node keep feeding the queue; a page for anything else only fills the tree.
use vstd::prelude::*;
use crate::app::library::{node_at_spec, same_path, song_positions, song_positions_spec, LibKind, LibNode};

verus! {

/// The two library paths a fetch can be waited on for.
pub struct LoadPlan {
    /// A node whose songs should start playing as soon as some arrive.
    pub pending_play: Option<Vec<usize>>,
    /// A node whose further pages extend the queue it started.
    pub queue_feed: Option<Vec<usize>>,
}

/// What a page of children asks the program to do.
#[derive(Clone, Copy, Debug, PartialEq, Eq, Structural)]
pub enum PageStep {
    /// Nothing beyond showing the page.
    Nothing,
    /// Replace the queue with the songs under the node and play the first.
    PlayAll,
    /// Say that the node holds nothing playable.
    NothingPlayable,
    /// Append the page's songs to the queue and prefetch the next one.
    ExtendQueue,
}

/// A path as a sequence, when there is one.
pub open spec fn path_view(p: Option<Vec<usize>>) -> Option<Seq<usize>> {
    match p {
        Some(v) => Some(v@),
        None => None,
    }
}

/// The node at `path` has a song among its children.
pub open spec fn playable_spec(nodes: Seq<LibNode>, path: Seq<usize>) -> bool {
    match node_at_spec(nodes, path) {
        Some(n) => song_positions_spec(n.children@).len() > 0,
        None => false,
    }
}

/// The page holds a song.
pub open spec fn has_song(page: Seq<LibKind>) -> bool {
    exists|i: int| 0 <= i < page.len() && (#[trigger] page[i]) is Song
}

impl LoadPlan {
    /// The two paths, as sequences.
    pub open spec fn view(self) -> (Option<Seq<usize>>, Option<Seq<usize>>) {
        (path_view(self.pending_play), path_view(self.queue_feed))
    }

    /// What `page_arrived` does, given whether the node now holds a song and
    /// whether the page itself did.
    pub open spec fn page_post(
        s: (Option<Seq<usize>>, Option<Seq<usize>>),
        path: Seq<usize>,
        last: bool,
        playable: bool,
        page_songs: bool,
        t: (Option<Seq<usize>>, Option<Seq<usize>>),
        step: PageStep,
    ) -> bool {
        if s.0 == Some(path) {
            if playable {
                step == PageStep::PlayAll && t == (None::<Seq<usize>>, if last {
                    None
                } else {
                    Some(path)
                })
            } else if last {
                step == PageStep::NothingPlayable && t == (None::<Seq<usize>>, s.1)
            } else {
                step == PageStep::Nothing && t == s
            }
        } else if s.1 == Some(path) {
            &&& step == if page_songs {
                PageStep::ExtendQueue
            } else {
                PageStep::Nothing
            }
            &&& t == (s.0, if last {
                None
            } else {
                s.1
            })
        } else {
            step == PageStep::Nothing && t == s
        }
    }

    /// Nothing waited on.
    pub fn new() -> (p: LoadPlan)
        ensures
            p.view() == (None::<Seq<usize>>, None::<Seq<usize>>),
    {
        LoadPlan { pending_play: None, queue_feed: None }
    }

    /// Play the songs under `path` once they load.
    pub fn play_when_loaded(&mut self, path: Vec<usize>)
        ensures
            final(self).view() == (Some(path@), old(self).view().1),
    {
        self.pending_play = Some(path);
    }

    /// The queue was replaced: whatever fed the old one no longer applies.
    pub fn queue_replaced(&mut self)
        ensures
            final(self).view() == (old(self).view().0, None::<Seq<usize>>),
    {
        self.queue_feed = None;
    }

    /// A page of children arrived for the node at `path` and has been taken
    /// into `nodes`; `last` when no more pages follow. A node waited on for
    /// playback starts on the first page that gives it a song, and its later
    /// pages feed the queue; once the last page has come with no song, the
    /// wait ends with a notice. A page for a node nobody waits on changes
    /// nothing here.
    pub fn page_arrived(&mut self, nodes: &Vec<LibNode>, path: &[usize], page: &Vec<LibKind>, last: bool) -> (step: PageStep)
        ensures
            Self::page_post(
                old(self).view(),
                path@,
                last,
                playable_spec(nodes@, path@),
                has_song(page@),
                final(self).view(),
                step,
            ),
    {
        let waiting = match &self.pending_play {
            Some(p) => same_path(p.as_slice(), path),
            None => false,
        };
        if waiting {
            let songs = song_positions(nodes, path);
            if songs.len() > 0 {
                self.pending_play = None;
                self.queue_feed = if last {
                    None
                } else {
                    Some(vstd::slice::slice_to_vec(path))
                };
                return PageStep::PlayAll;
            } else if last {
                self.pending_play = None;
                return PageStep::NothingPlayable;
            }
            return PageStep::Nothing;
        }
        let feeding = match &self.queue_feed {
            Some(p) => same_path(p.as_slice(), path),
            None => false,
        };
        if !feeding {
            return PageStep::Nothing;
        }
        if last {
            self.queue_feed = None;
        }
        if page_has_song(page) {
            PageStep::ExtendQueue
        } else {
            PageStep::Nothing
        }
    }

    /// A fetch for the node at `path` failed: stop waiting on it.
    pub fn load_failed(&mut self, path: &[usize])
        ensures
            final(self).view() == (
                if old(self).view().0 == Some(path@) {
                    None
                } else {
                    old(self).view().0
                },
                if old(self).view().1 == Some(path@) {
                    None
                } else {
                    old(self).view().1
                },
            ),
    {
        let pending = match &self.pending_play {
            Some(p) => same_path(p.as_slice(), path),
            None => false,
        };
        if pending {
            self.pending_play = None;
        }
        let feeding = match &self.queue_feed {
            Some(p) => same_path(p.as_slice(), path),
            None => false,
        };
        if feeding {
            self.queue_feed = None;
        }
    }
}

/// Whether a page holds a song.
fn page_has_song(page: &Vec<LibKind>) -> (r: bool)
    ensures
        r == has_song(page@),
{
    let mut i: usize = 0;
    while i < page.len()
        invariant
            i <= page@.len(),
            forall|j: int| 0 <= j < i ==> !(page@[j] is Song),
        decreases page@.len() - i,
    {
        if page[i].is_song() {
            return true;
        }
        i += 1;
    }
    false
}

/// Once a fetch has failed, a late page for the same node starts nothing:
/// it neither plays nor extends the queue.
pub proof fn law_failed_load_stays_quiet(
    s: LoadPlan,
    path: Seq<usize>,
    t: LoadPlan,
    last: bool,
    playable: bool,
    page_songs: bool,
    u: LoadPlan,
    step: PageStep,
)
    requires
        t.view() == (
            if s.view().0 == Some(path) {
                None
            } else {
                s.view().0
            },
            if s.view().1 == Some(path) {
                None
            } else {
                s.view().1
            },
        ),
        LoadPlan::page_post(t.view(), path, last, playable, page_songs, u.view(), step),
    ensures
        step == PageStep::Nothing,
        u.view() == t.view(),
{
}

/// Playback waited on for a node starts at most once: after the page that
/// started it, later pages of that node only feed the queue.
pub proof fn law_playback_starts_once(
    s: LoadPlan,
    path: Seq<usize>,
    last1: bool,
    songs1: bool,
    t: LoadPlan,
    last2: bool,
    playable2: bool,
    songs2: bool,
    u: LoadPlan,
    step2: PageStep,
)
    requires
        LoadPlan::page_post(s.view(), path, last1, true, songs1, t.view(), PageStep::PlayAll),
        LoadPlan::page_post(t.view(), path, last2, playable2, songs2, u.view(), step2),
    ensures
        step2 != PageStep::PlayAll,
        step2 != PageStep::NothingPlayable,
{
}

} // verus!
