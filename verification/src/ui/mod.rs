//! Interface logic that does not draw: pane cycling, scroll windows, text
//! fitting and the block-letter fonts.
use vstd::prelude::*;
use vstd::view::View as _;

pub mod banner;
pub mod bigtext;
pub mod chrome;
pub mod lists;
pub mod overlay;
pub mod track;
pub mod views;
pub mod widgets;

verus! {

/// Which pane is focused. Tab cycles in this order, matching kew's F2..F6.
#[derive(Clone, Copy, Debug, PartialEq, Eq, Structural)]
pub enum View {
    Queue,
    Library,
    Track,
    Search,
    Help,
    Lyrics,
}

impl View {
    pub open spec fn spec_next(self) -> View {
        match self {
            View::Queue => View::Library,
            View::Library => View::Track,
            View::Track => View::Search,
            View::Search => View::Queue,
            View::Help | View::Lyrics => View::Track,
        }
    }

    pub open spec fn spec_prev(self) -> View {
        match self {
            View::Queue => View::Search,
            View::Library => View::Queue,
            View::Track => View::Library,
            View::Search => View::Track,
            View::Help | View::Lyrics => View::Track,
        }
    }

    /// One of the four panes Tab stops at.
    pub open spec fn on_cycle(self) -> bool {
        self == View::Queue || self == View::Library || self == View::Track || self == View::Search
    }

    /// kew's Tab order skips Help and Lyrics -- they are destinations, not
    /// stops on the cycle.
    pub fn next(self) -> (r: Self)
        ensures
            r == self.spec_next(),
    {
        match self {
            View::Queue => View::Library,
            View::Library => View::Track,
            View::Track => View::Search,
            View::Search => View::Queue,
            View::Help | View::Lyrics => View::Track,
        }
    }

    pub fn prev(self) -> (r: Self)
        ensures
            r == self.spec_prev(),
    {
        match self {
            View::Queue => View::Search,
            View::Library => View::Queue,
            View::Track => View::Library,
            View::Search => View::Track,
            View::Help | View::Lyrics => View::Track,
        }
    }

    pub fn title(self) -> (r: &'static str)
        ensures
            r@ == match self {
                View::Queue => "queue"@,
                View::Library => "library"@,
                View::Track => "track"@,
                View::Search => "search"@,
                View::Help => "help"@,
                View::Lyrics => "lyrics"@,
            },
    {
        match self {
            View::Queue => "queue",
            View::Library => "library",
            View::Track => "track",
            View::Search => "search",
            View::Help => "help",
            View::Lyrics => "lyrics",
        }
    }
}

/// On the Tab cycle, `prev` undoes `next` and `next` undoes `prev`; four
/// steps come back round; from Help or Lyrics either key lands on Track.
pub proof fn law_tab_cycle(v: View)
    ensures
        v.on_cycle() ==> v.spec_next().spec_prev() == v,
        v.on_cycle() ==> v.spec_prev().spec_next() == v,
        v.spec_next().spec_next().spec_next().spec_next() == v || !v.on_cycle(),
        v.spec_next().on_cycle(),
        v.spec_prev().on_cycle(),
        !v.on_cycle() ==> v.spec_next() == View::Track && v.spec_prev() == View::Track,
{
}

} // verus!
