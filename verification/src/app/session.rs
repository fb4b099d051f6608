//! What each action does to the session: the focused pane, the overlay menu,
//! the selections and the queue. What needs the player, the network or the
//! screen comes back as effects, for the program to carry out in order.
use vstd::prelude::*;
use vstd::view::View as _;
use crate::app::input::{
    in_list_spec, point_in_list, progress_at, progress_at_spec, row_at, row_at_spec, tab_at,
    tab_at_spec, column_views, HitRegions, MouseKind,
};
use crate::app::library::{rows_view, LibColumn, LibRow};
use crate::app::menu::{
    choices_spec, current_name, pick_spec, setting_choices, settings, settings_spec, step_choice,
    MenuItem, MenuScreen, Setting, SettingValues,
};
use crate::config::keymap::{Action, KeyCode};
use crate::config::{CoverMode, VisualizerMode};
use crate::player::PlayerEvent;
use crate::queue::{identity, Queue, RepeatMode};
use crate::text::{chars_of, eq_chars, push_str, string_from, trim, trim_spec};
use crate::ui::View;

verus! {

/// A status-line message.
#[derive(Clone, Copy, Debug, PartialEq, Eq, Structural)]
pub enum Notice {
    NothingQueued,
    ShuffleOn,
    ShuffleOff,
    RepeatOff,
    RepeatAll,
    RepeatOne,
    NoAudioCapture,
    /// The cover was switched on; it is drawn with this renderer.
    CoverOn(CoverMode),
    CoverOff,
    QueueCleared,
    QueueEmpty,
    EndOfQueue,
    TrackFailed,
    QueueFinished,
    PlayerExited,
    /// A play-all was asked of an empty list.
    NothingToPlay,
    /// A library node turned out to hold no songs.
    NothingPlayable,
    /// A search found nothing.
    NoResults,
}

/// The words of each notice.
pub open spec fn notice_text(n: Notice) -> Seq<char> {
    match n {
        Notice::NothingQueued => "nothing queued"@,
        Notice::ShuffleOn => "shuffle on"@,
        Notice::ShuffleOff => "shuffle off"@,
        Notice::RepeatOff => "repeat off"@,
        Notice::RepeatAll => "repeat all"@,
        Notice::RepeatOne => "repeat one"@,
        Notice::NoAudioCapture => "no audio capture available for the visualizer"@,
        Notice::CoverOn(m) => "cover on ("@ + match m {
            CoverMode::Auto => "auto"@,
            CoverMode::Kitty => "kitty"@,
            CoverMode::Sixel => "sixel"@,
            CoverMode::Blocks => "blocks"@,
            CoverMode::Off => "off"@,
        } + ")"@,
        Notice::CoverOff => "cover off"@,
        Notice::QueueCleared => "queue cleared"@,
        Notice::QueueEmpty => "queue is empty"@,
        Notice::EndOfQueue => "end of queue"@,
        Notice::TrackFailed => "track failed to load, skipping"@,
        Notice::QueueFinished => "queue finished"@,
        Notice::PlayerExited => "mpv exited"@,
        Notice::NothingToPlay => "nothing to play"@,
        Notice::NothingPlayable => "nothing playable here"@,
        Notice::NoResults => "no results"@,
    }
}

impl Notice {
    /// The message as shown.
    pub fn text(self) -> (r: String)
        ensures
            r@ == notice_text(self),
    {
        match self {
            Notice::NothingQueued => "nothing queued".to_string(),
            Notice::ShuffleOn => "shuffle on".to_string(),
            Notice::ShuffleOff => "shuffle off".to_string(),
            Notice::RepeatOff => "repeat off".to_string(),
            Notice::RepeatAll => "repeat all".to_string(),
            Notice::RepeatOne => "repeat one".to_string(),
            Notice::NoAudioCapture => "no audio capture available for the visualizer".to_string(),
            Notice::CoverOn(m) => {
                let mut v: Vec<char> = Vec::new();
                push_str(&mut v, "cover on (");
                push_str(&mut v, m.name());
                push_str(&mut v, ")");
                string_from(v.as_slice())
            },
            Notice::CoverOff => "cover off".to_string(),
            Notice::QueueCleared => "queue cleared".to_string(),
            Notice::QueueEmpty => "queue is empty".to_string(),
            Notice::EndOfQueue => "end of queue".to_string(),
            Notice::TrackFailed => "track failed to load, skipping".to_string(),
            Notice::QueueFinished => "queue finished".to_string(),
            Notice::PlayerExited => "mpv exited".to_string(),
            Notice::NothingToPlay => "nothing to play".to_string(),
            Notice::NothingPlayable => "nothing playable here".to_string(),
            Notice::NoResults => "no results".to_string(),
        }
    }
}

/// Work an action leaves for the program.
#[derive(Clone, Copy, Debug, PartialEq, Eq, Structural)]
pub enum Effect {
    Notify(Notice),
    TogglePause,
    StopPlayback,
    /// Drop everything queued in the player but the current entry.
    ClearPlaylist,
    /// Forget the loaded cover.
    DropCover,
    /// Stop a still-arriving playlist from refilling the queue.
    ClearQueueFeed,
    /// Skip to the player's prefetched next entry.
    PlaylistNext,
    /// Restart the current track.
    SeekToStart,
    /// Play the queue's current track from the start.
    StartCurrent,
    SeekForward,
    SeekBack,
    VolumeUp,
    VolumeDown,
    /// Whether the player loops the current file.
    SetLoopFile(bool),
    /// The upcoming track changed: re-prime the player's prefetch.
    ResyncPrefetch,
    /// Take any pixel graphics off the screen.
    ClearCoverArt,
    EnsureLibrary,
    EnsureLyrics,
    LibraryAscend,
    LibraryDescend,
    /// Move the library cursor among its siblings.
    LibraryMoveSibling(i16),
    /// Jump the library cursor to its first (`false`) or last sibling.
    LibraryEdgeSibling(bool),
    /// Step the search filter forward (`true`) or back.
    CycleSearchFilter(bool),
    /// Play or queue the selected search hit; `true` plays at once.
    ActivateSearchHit(bool),
    /// Open, play or queue the selected library row; `true` plays at once.
    ActivateLibraryRow(bool),
    ToggleLike,
    StartRadio,
    PlayAllSearch,
    PlaySelectedLibraryNode,
    /// Grow or shrink the assumed cell height by this much.
    NudgeCover(i32),
    /// Apply the choice at this index of the setting's choices.
    ApplySetting(Setting, usize),
    /// The current track changed: refresh its cover, lyrics and media
    /// metadata.
    TrackChanged,
    /// Queue the following track in the player so it is buffered in time.
    PrefetchNext,
    /// Seek the current track to `.0 / .1` of its length, when the length
    /// is known.
    SeekFraction(u16, u16),
    /// Extend the queue with the radio mix of the current track, quietly.
    AppendRadio,
    /// Say that the last track of the queue was queued.
    AnnounceQueued,
}

/// What a key press means to the search box.
#[derive(Clone, Copy, Debug, PartialEq, Eq, Structural)]
pub enum SearchKey {
    /// Run the typed query.
    Submit,
    /// Delete the last character typed.
    Erase,
    /// Type this character.
    Type(char),
    /// The box took the key; nothing more to do.
    Consumed,
    /// The box does not have focus: the key table decides.
    PassOn,
}

/// A reply from work the program ran in the background, as far as the
/// session decides what to do with it.
pub enum Reply {
    /// A search finished with this many results.
    SearchResults(usize),
    /// Suggestions arrived for `query`; `input` is what the box holds now.
    Suggestions { query: String, input: String },
    /// A cover arrived for `video_id`; `wanted` is the track whose cover is
    /// awaited, if any.
    Cover { video_id: String, wanted: Option<String> },
    /// Lyrics arrived for `video_id`; `playing` is the current track's.
    Lyrics { video_id: String, playing: Option<String> },
    /// A request failed.
    Error,
}

/// An optional text, as plain characters.
pub open spec fn opt_text(o: Option<String>) -> Option<Seq<char>> {
    match o {
        Some(s) => Some(s@),
        None => None,
    }
}

/// What the program knows that the session does not.
#[derive(Clone, Copy, Debug, PartialEq, Eq, Structural)]
pub struct Context {
    /// The library pane is showing columns and is the pane the keys act on.
    pub in_library_columns: bool,
    /// A side pane sits beside the track view.
    pub side_pane_open: bool,
    /// That side pane shows the library rather than the queue.
    pub side_pane_is_library: bool,
    /// Rows in the library list.
    pub library_len: usize,
    /// Rows in the search results.
    pub search_len: usize,
    /// Audio capture is available to the visualizer.
    pub visualizer_available: bool,
    /// The current track has played for more than three seconds.
    pub past_three_seconds: bool,
    /// The configured cover renderer.
    pub cover_mode: CoverMode,
}

/// Interface state the actions change.
pub struct Session<T> {
    pub queue: Queue<T>,
    pub view: View,
    /// Where Help and Lyrics were opened from, so escape returns there.
    pub prev_view: View,
    pub menu_open: bool,
    pub menu_screen: MenuScreen,
    pub menu_sel: usize,
    pub option_sel: usize,
    pub queue_sel: usize,
    pub library_sel: usize,
    pub search_sel: usize,
    pub lyrics_scroll: u16,
    pub search_editing: bool,
    pub cover_visible: bool,
    pub visualizer: VisualizerMode,
    pub autoplay_radio: bool,
    pub should_quit: bool,
    /// Last playlist position the player reported, to notice its own
    /// advances.
    pub player_pos: i64,
    /// A search is running.
    pub searching: bool,
}

/// A context for the actions that do not read one.
pub open spec fn arbitrary_context() -> Context {
    Context {
        in_library_columns: false,
        side_pane_open: false,
        side_pane_is_library: false,
        library_len: 0,
        search_len: 0,
        visualizer_available: false,
        past_three_seconds: false,
        cover_mode: CoverMode::Auto,
    }
}

/// The play-order place after `p`, as `Queue::advance` moves: one on, or
/// round to the start under repeat-all; nowhere past the end.
pub open spec fn next_place<T>(q: Queue<T>, p: Option<usize>) -> Option<usize> {
    match p {
        None => None,
        Some(p) => if q.items().len() == 0 {
            None
        } else {
            match q.mode() {
                RepeatMode::All => Some(((p + 1) % (q.play_order().len() as int)) as usize),
                _ => if p + 1 < q.play_order().len() {
                    Some((p + 1) as usize)
                } else {
                    None
                },
            }
        },
    }
}

/// Where `k` advances take the cursor from `p`: an advance with nowhere to
/// go stays put.
pub open spec fn place_after<T>(q: Queue<T>, p: Option<usize>, k: nat) -> Option<usize>
    decreases k,
{
    if k == 0 {
        p
    } else {
        let prev = place_after(q, p, (k - 1) as nat);
        match next_place(q, prev) {
            Some(n) => Some(n),
            None => prev,
        }
    }
}

/// Nothing left to do.
pub open spec fn no_effects() -> Seq<Effect> {
    Seq::empty()
}

/// `sel + delta` kept within `0..len`.
pub open spec fn clamp_step(sel: int, delta: int, len: int) -> int {
    let x = sel + delta;
    if x < 0 {
        0
    } else if x > len - 1 {
        len - 1
    } else {
        x
    }
}

/// `scroll + delta` saturated to the range of `u16`.
pub open spec fn saturating_scroll(scroll: u16, delta: i16) -> u16 {
    let x = scroll + delta;
    if x < 0 {
        0
    } else if x > 65535 {
        65535
    } else {
        x as u16
    }
}

/// The notice for a repeat mode.
pub open spec fn repeat_notice(m: RepeatMode) -> Notice {
    match m {
        RepeatMode::Off => Notice::RepeatOff,
        RepeatMode::All => Notice::RepeatAll,
        RepeatMode::One => Notice::RepeatOne,
    }
}

/// The repeat mode a choice of `off`, `all`, `one` names.
pub open spec fn repeat_choice(i: int) -> RepeatMode {
    if i == 1 {
        RepeatMode::All
    } else if i == 2 {
        RepeatMode::One
    } else {
        RepeatMode::Off
    }
}

/// The visualizer mode a choice of `bars`, `braille`, `off` names.
pub open spec fn visualizer_choice(i: int) -> VisualizerMode {
    if i == 1 {
        VisualizerMode::Braille
    } else if i == 2 {
        VisualizerMode::Off
    } else {
        VisualizerMode::Bars
    }
}

fn clamped(sel: usize, delta: i16, len: usize) -> (r: usize)
    requires
        len > 0,
    ensures
        r == clamp_step(sel as int, delta as int, len as int),
{
    if delta < 0 {
        let d = (0 - (delta as i32)) as usize;
        if d >= sel {
            0
        } else {
            let x = sel - d;
            if x > len - 1 {
                len - 1
            } else {
                x
            }
        }
    } else {
        let d = delta as usize;
        if sel >= len - 1 || d >= (len - 1) - sel {
            len - 1
        } else {
            sel + d
        }
    }
}

fn scrolled(scroll: u16, delta: i16) -> (r: u16)
    ensures
        r == saturating_scroll(scroll, delta),
{
    let x = scroll as i32 + delta as i32;
    if x < 0 {
        0
    } else if x > 65535 {
        65535
    } else {
        x as u16
    }
}

impl<T> Session<T> {
    /// A fresh session on the track view with an empty queue.
    pub fn new() -> (s: Self)
        ensures
            s.queue.wf(),
            s.queue.items() == Seq::<T>::empty(),
            s.view == View::Track,
            s.prev_view == View::Track,
            !s.menu_open,
            s.menu_screen == MenuScreen::Main,
            s.menu_sel == 0 && s.option_sel == 0 && s.queue_sel == 0 && s.library_sel == 0
                && s.search_sel == 0 && s.lyrics_scroll == 0,
            !s.search_editing && s.cover_visible && !s.should_quit,
            s.visualizer == VisualizerMode::Bars,
            !s.autoplay_radio,
            s.player_pos == 0,
            !s.searching,
    {
        Session {
            queue: Queue::new(),
            view: View::Track,
            prev_view: View::Track,
            menu_open: false,
            menu_screen: MenuScreen::Main,
            menu_sel: 0,
            option_sel: 0,
            queue_sel: 0,
            library_sel: 0,
            search_sel: 0,
            lyrics_scroll: 0,
            search_editing: false,
            cover_visible: true,
            visualizer: VisualizerMode::Bars,
            autoplay_radio: false,
            should_quit: false,
            player_pos: 0,
            searching: false,
        }
    }

    /// `s` focused on `v`. Only panes navigated *from* are remembered, so
    /// escaping out of help cannot land back in help.
    pub open spec fn with_view(s: Self, v: View) -> Self {
        if s.view != v && !(s.view == View::Help || s.view == View::Lyrics) {
            Session { view: v, prev_view: s.view, ..s }
        } else {
            Session { view: v, ..s }
        }
    }

    /// Changing the focused pane takes the art off the screen.
    pub open spec fn view_effects(s: Self, v: View) -> Seq<Effect> {
        if s.view != v {
            seq![Effect::ClearCoverArt]
        } else {
            seq![]
        }
    }

    /// The pane the selection keys act on: the side pane's list on the track
    /// view when one is showing, the focused pane otherwise.
    pub open spec fn active_pane(s: Self, ctx: Context) -> View {
        if s.view == View::Track && ctx.side_pane_open {
            if ctx.side_pane_is_library {
                View::Library
            } else {
                View::Queue
            }
        } else {
            s.view
        }
    }

    /// Length of the list the selection keys act on.
    pub open spec fn pane_len(s: Self, ctx: Context) -> int {
        match Self::active_pane(s, ctx) {
            View::Queue => s.queue.items().len() as int,
            View::Library => ctx.library_len as int,
            View::Search => ctx.search_len as int,
            _ => 0,
        }
    }

    /// `s` with the focused pane's selection set to `to`.
    pub open spec fn with_selection(s: Self, to: usize) -> Self {
        match s.view {
            View::Queue => Session { queue_sel: to, ..s },
            View::Library => Session { library_sel: to, ..s },
            View::Search => Session { search_sel: to, ..s },
            _ => s,
        }
    }

    /// The focused pane's selection.
    pub open spec fn selection_spec(s: Self) -> usize {
        match s.view {
            View::Queue => s.queue_sel,
            View::Library => s.library_sel,
            View::Search => s.search_sel,
            _ => 0,
        }
    }

    /// Moving the selection by `delta`: lyrics scroll; library columns move
    /// among siblings; lists clamp to their ends.
    pub open spec fn moved(s: Self, delta: i16, ctx: Context) -> (Self, Seq<Effect>) {
        if s.view == View::Lyrics {
            (Session { lyrics_scroll: saturating_scroll(s.lyrics_scroll, delta), ..s }, seq![])
        } else if ctx.in_library_columns {
            (s, seq![Effect::LibraryMoveSibling(delta)])
        } else if Self::pane_len(s, ctx) == 0 {
            (s, seq![])
        } else {
            (
                Self::with_selection(
                    s,
                    clamp_step(Self::selection_spec(s) as int, delta as int, Self::pane_len(s, ctx))
                        as usize,
                ),
                seq![],
            )
        }
    }

    /// Setting the selection to `to`, clamped to the list; in library columns
    /// a jump to the first or last sibling.
    pub open spec fn selected_to(s: Self, to: usize, ctx: Context) -> (Self, Seq<Effect>) {
        if ctx.in_library_columns {
            (s, seq![Effect::LibraryEdgeSibling(to > 0)])
        } else if Self::pane_len(s, ctx) == 0 {
            (s, seq![])
        } else {
            (
                Self::with_selection(
                    s,
                    if to < Self::pane_len(s, ctx) - 1 {
                        to
                    } else {
                        (Self::pane_len(s, ctx) - 1) as usize
                    },
                ),
                seq![],
            )
        }
    }

    /// `t` is `s` but for the queue.
    pub open spec fn same_but_queue(s: Self, t: Self) -> bool {
        t == Session { queue: t.queue, ..s }
    }

    /// Whether the menu takes this action itself.
    pub open spec fn menu_consumes(s: Self, a: Action) -> bool {
        s.menu_open && (s.menu_screen == MenuScreen::Options || match a {
            Action::ScrollUp | Action::ScrollDown | Action::ToggleMenu | Action::Enqueue
            | Action::EnqueueAndPlay | Action::Quit => true,
            _ => false,
        })
    }

    /// The session with the menu closed.
    pub open spec fn menu_closed(s: Self) -> Self {
        Session { menu_open: false, ..s }
    }

    /// What stepping setting `st` by `delta` does, for the settings the
    /// session holds; the others are handed to the program by choice index.
    pub open spec fn adjust_post(
        s: Self,
        st: Setting,
        delta: int,
        v: SettingValues,
        t: Self,
        e: Seq<Effect>,
    ) -> bool {
        match st {
            Setting::ShowCover => {
                let i = if s.cover_visible {
                    0int
                } else {
                    1
                };
                let next = (i + delta) % 2;
                t == Session { cover_visible: next == 0, ..s } && e == seq![Effect::ClearCoverArt]
            },
            Setting::Visualizer => {
                let i = match s.visualizer {
                    VisualizerMode::Bars => 0int,
                    VisualizerMode::Braille => 1,
                    VisualizerMode::Off => 2,
                };
                let next = (i + delta) % 3;
                t == Session { visualizer: visualizer_choice(next), ..s } && e == seq![
                    Effect::ClearCoverArt,
                ]
            },
            Setting::Shuffle => {
                let i = if s.queue.shuffled() {
                    1int
                } else {
                    0
                };
                let want = (i + delta) % 2 == 1;
                if want != s.queue.shuffled() {
                    Self::same_but_queue(s, t) && Queue::toggle_shuffle_post(s.queue, t.queue) && e
                        == seq![Effect::ResyncPrefetch]
                } else {
                    t == s && e == no_effects()
                }
            },
            Setting::Repeat => {
                let i = match s.queue.mode() {
                    RepeatMode::Off => 0int,
                    RepeatMode::All => 1,
                    RepeatMode::One => 2,
                };
                let m = repeat_choice((i + delta) % 3);
                &&& Self::same_but_queue(s, t)
                &&& t.queue.wf()
                &&& t.queue.items() == s.queue.items()
                &&& t.queue.play_order() == s.queue.play_order()
                &&& t.queue.cursor() == s.queue.cursor()
                &&& t.queue.shuffled() == s.queue.shuffled()
                &&& t.queue.mode() == m
                &&& e == seq![Effect::SetLoopFile(m == RepeatMode::One), Effect::ResyncPrefetch]
            },
            Setting::AutoplayRadio => {
                let i = if s.autoplay_radio {
                    0int
                } else {
                    1
                };
                t == Session { autoplay_radio: (i + delta) % 2 == 0, ..s } && e == no_effects()
            },
            _ => {
                let c = choices_spec(st, v);
                t == s && if c.len() == 0 {
                    e == no_effects()
                } else {
                    e == seq![
                        Effect::ApplySetting(
                            st,
                            ((pick_spec(c, current_name(st, v)) + delta) % (c.len() as int)) as usize,
                        ),
                    ]
                }
            },
        }
    }

    /// What activating the selection does: on the queue, jump to the
    /// selected track and play it; search hits and library rows are the
    /// program's to play or queue.
    pub open spec fn activate_post(s: Self, jump: bool, ctx: Context, t: Self, e: Seq<Effect>) -> bool {
        match Self::active_pane(s, ctx) {
            View::Queue => if s.queue_sel < s.queue.items().len() {
                &&& Self::same_but_queue(s, t)
                &&& t.queue.wf()
                &&& Queue::jump_to_post(s.queue, t.queue, s.queue_sel)
                &&& e == seq![Effect::StartCurrent]
            } else {
                t == s && e == no_effects()
            },
            View::Search => t == s && e == seq![Effect::ActivateSearchHit(jump)],
            View::Library => t == s && e == seq![Effect::ActivateLibraryRow(jump)],
            _ => t == s && e == no_effects(),
        }
    }

    /// What each action does once the menu has let it through.
    pub open spec fn action_post(s: Self, a: Action, ctx: Context, t: Self, e: Seq<Effect>) -> bool {
        match a {
            Action::Quit => t == Session { should_quit: true, ..s } && e == no_effects(),
            Action::PlayPause => t == s && e == if s.queue.current_item() is None {
                seq![Effect::Notify(Notice::NothingQueued)]
            } else {
                seq![Effect::TogglePause]
            },
            Action::Stop => t == s && e == seq![Effect::StopPlayback],
            Action::Prev => if ctx.in_library_columns {
                t == s && e == seq![Effect::LibraryAscend]
            } else if s.view == View::Search {
                t == s && e == seq![Effect::CycleSearchFilter(false)]
            } else if ctx.past_three_seconds {
                t == s && e == seq![Effect::SeekToStart]
            } else {
                &&& Self::same_but_queue(s, t)
                &&& t.queue.wf()
                &&& Queue::previous_post(s.queue, t.queue)
                &&& e == if s.queue.cursor() is Some {
                    seq![Effect::StartCurrent]
                } else {
                    no_effects()
                }
            },
            Action::Next => if ctx.in_library_columns {
                t == s && e == seq![Effect::LibraryDescend]
            } else if s.view == View::Search {
                t == s && e == seq![Effect::CycleSearchFilter(true)]
            } else {
                t == s && e == if s.queue.item_at_place(s.queue.next_pos_spec()) is Some {
                    seq![Effect::PlaylistNext]
                } else {
                    seq![Effect::Notify(Notice::EndOfQueue)]
                }
            },
            Action::SeekForward => t == s && e == seq![Effect::SeekForward],
            Action::SeekBack => t == s && e == seq![Effect::SeekBack],
            Action::VolumeUp => t == s && e == seq![Effect::VolumeUp],
            Action::VolumeDown => t == s && e == seq![Effect::VolumeDown],
            Action::Shuffle => {
                &&& Self::same_but_queue(s, t)
                &&& t.queue.wf()
                &&& Queue::toggle_shuffle_post(s.queue, t.queue)
                &&& e == seq![
                    Effect::ResyncPrefetch,
                    Effect::Notify(
                        if t.queue.shuffled() {
                            Notice::ShuffleOn
                        } else {
                            Notice::ShuffleOff
                        },
                    ),
                ]
            },
            Action::ToggleRepeat => {
                let m = s.queue.mode().spec_cycle();
                &&& Self::same_but_queue(s, t)
                &&& t.queue.wf()
                &&& t.queue.items() == s.queue.items()
                &&& t.queue.play_order() == s.queue.play_order()
                &&& t.queue.cursor() == s.queue.cursor()
                &&& t.queue.shuffled() == s.queue.shuffled()
                &&& t.queue.mode() == m
                &&& e == seq![
                    Effect::SetLoopFile(m == RepeatMode::One),
                    Effect::ResyncPrefetch,
                    Effect::Notify(repeat_notice(m)),
                ]
            },
            Action::CycleVisualizer => {
                let m = s.visualizer.spec_cycle();
                t == Session { visualizer: m, ..s } && e == if !ctx.visualizer_available && m
                    != VisualizerMode::Off {
                    seq![Effect::Notify(Notice::NoAudioCapture)]
                } else {
                    no_effects()
                }
            },
            Action::ToggleAscii => t == Session { cover_visible: !s.cover_visible, ..s } && e
                == seq![
                Effect::ClearCoverArt,
                Effect::Notify(
                    if !s.cover_visible {
                        Notice::CoverOn(ctx.cover_mode)
                    } else {
                        Notice::CoverOff
                    },
                ),
            ],
            Action::NextView => t == Self::with_view(s, s.view.spec_next()) && e
                == Self::view_effects(s, s.view.spec_next()),
            Action::PrevView => t == Self::with_view(s, s.view.spec_prev()) && e
                == Self::view_effects(s, s.view.spec_prev()),
            Action::ShowQueue => t == Self::with_view(s, View::Queue) && e == Self::view_effects(
                s,
                View::Queue,
            ),
            Action::ShowTrack => t == Self::with_view(s, View::Track) && e == Self::view_effects(
                s,
                View::Track,
            ),
            Action::ShowHelp => t == Self::with_view(s, View::Help) && e == Self::view_effects(
                s,
                View::Help,
            ),
            Action::ShowLibrary => t == Self::with_view(s, View::Library) && e
                == Self::view_effects(s, View::Library).push(Effect::EnsureLibrary),
            Action::ShowSearch => t == Session {
                search_editing: true,
                ..Self::with_view(s, View::Search)
            } && e == Self::view_effects(s, View::Search),
            Action::ShowLyrics => t == Self::with_view(s, View::Lyrics) && e
                == Self::view_effects(s, View::Lyrics).push(Effect::EnsureLyrics),
            Action::ScrollUp => (t, e) == Self::moved(s, -1i16, ctx),
            Action::ScrollDown => (t, e) == Self::moved(s, 1, ctx),
            Action::PageUp => (t, e) == Self::moved(s, -10i16, ctx),
            Action::PageDown => (t, e) == Self::moved(s, 10, ctx),
            Action::Top => (t, e) == Self::selected_to(s, 0, ctx),
            Action::Bottom => (t, e) == Self::selected_to(s, usize::MAX, ctx),
            Action::Enqueue => Self::activate_post(s, false, ctx, t, e),
            Action::EnqueueAndPlay => Self::activate_post(s, true, ctx, t, e),
            Action::Remove => if s.view == View::Queue && s.queue_sel < s.queue.items().len() {
                &&& t == Session { queue: t.queue, queue_sel: t.queue_sel, ..s }
                &&& t.queue.wf()
                &&& Queue::remove_post(s.queue, t.queue, s.queue_sel)
                &&& t.queue_sel == if s.queue_sel >= t.queue.items().len() {
                    if t.queue.items().len() > 0 {
                        (t.queue.items().len() - 1) as usize
                    } else {
                        0
                    }
                } else {
                    s.queue_sel
                }
                &&& e == seq![Effect::ResyncPrefetch]
            } else {
                t == s && e == no_effects()
            },
            Action::ClearQueue => {
                &&& Self::same_but_queue(s, t)
                &&& t.queue.wf()
                &&& Queue::clear_post(s.queue, t.queue)
                &&& e == seq![
                    Effect::ClearQueueFeed,
                    Effect::StopPlayback,
                    Effect::ClearPlaylist,
                    Effect::DropCover,
                    Effect::Notify(Notice::QueueCleared),
                ]
            },
            Action::MoveUp => if s.view == View::Queue {
                let r: Option<usize> = if 0 < s.queue_sel < s.queue.items().len() {
                    Some((s.queue_sel - 1) as usize)
                } else {
                    None
                };
                &&& t == Session {
                    queue: t.queue,
                    queue_sel: match r {
                        Some(n) => n,
                        None => s.queue_sel,
                    },
                    ..s
                }
                &&& t.queue.wf()
                &&& Queue::move_up_post(s.queue, t.queue, s.queue_sel, r)
                &&& e == if r is Some {
                    seq![Effect::ResyncPrefetch]
                } else {
                    no_effects()
                }
            } else {
                t == s && e == no_effects()
            },
            Action::MoveDown => if s.view == View::Queue {
                let r: Option<usize> = if s.queue_sel + 1 < s.queue.items().len() {
                    Some((s.queue_sel + 1) as usize)
                } else {
                    None
                };
                &&& t == Session {
                    queue: t.queue,
                    queue_sel: match r {
                        Some(n) => n,
                        None => s.queue_sel,
                    },
                    ..s
                }
                &&& t.queue.wf()
                &&& Queue::move_down_post(s.queue, t.queue, s.queue_sel, r)
                &&& e == if r is Some {
                    seq![Effect::ResyncPrefetch]
                } else {
                    no_effects()
                }
            } else {
                t == s && e == no_effects()
            },
            Action::ToggleLike => t == s && e == seq![Effect::ToggleLike],
            Action::StartRadio => t == s && e == seq![Effect::StartRadio],
            Action::PlayAll => match s.view {
                View::Search => t == s && e == seq![Effect::PlayAllSearch],
                View::Library => t == s && e == seq![Effect::PlaySelectedLibraryNode],
                _ => if s.queue.items().len() == 0 {
                    t == s && e == seq![Effect::Notify(Notice::QueueEmpty)]
                } else {
                    &&& Self::same_but_queue(s, t)
                    &&& t.queue.wf()
                    &&& Queue::jump_to_post(s.queue, t.queue, 0)
                    &&& e == seq![Effect::StartCurrent]
                },
            },
            Action::ToggleMenu => if s.view == View::Help || s.view == View::Lyrics {
                t == Self::with_view(s, s.prev_view) && e == Self::view_effects(s, s.prev_view)
            } else {
                t == Session {
                    menu_open: !s.menu_open,
                    menu_sel: 0,
                    menu_screen: MenuScreen::Main,
                    ..s
                } && e == no_effects()
            },
            Action::CoverSmaller => t == s && e == seq![Effect::NudgeCover(-2i32)],
            Action::CoverBigger => t == s && e == seq![Effect::NudgeCover(2)],
        }
    }

    /// What a key does while the menu is open and takes it.
    pub open spec fn menu_post(s: Self, a: Action, v: SettingValues, t: Self, e: Seq<Effect>) -> bool {
        match s.menu_screen {
            MenuScreen::Main => match a {
                Action::ScrollUp => t == Session {
                    menu_sel: if s.menu_sel > 0 {
                        (s.menu_sel - 1) as usize
                    } else {
                        0
                    },
                    ..s
                } && e == no_effects(),
                Action::ScrollDown => t == Session {
                    menu_sel: if s.menu_sel < 2 {
                        (s.menu_sel + 1) as usize
                    } else {
                        2
                    },
                    ..s
                } && e == no_effects(),
                Action::ToggleMenu => t == Session { menu_open: false, ..s } && e == no_effects(),
                Action::Quit => t == Session { should_quit: true, ..s } && e == no_effects(),
                _ => {
                    let item = if s.menu_sel < 2 {
                        crate::app::menu::menu_items_spec()[s.menu_sel as int]
                    } else {
                        MenuItem::Quit
                    };
                    match item {
                        MenuItem::Options => t == Session {
                            menu_screen: MenuScreen::Options,
                            option_sel: 0,
                            ..s
                        } && e == no_effects(),
                        MenuItem::Help => {
                            let closed = Session { menu_open: false, ..s };
                            t == Self::with_view(closed, View::Help) && e == Self::view_effects(
                                closed,
                                View::Help,
                            )
                        },
                        MenuItem::Quit => t == Session { should_quit: true, ..s } && e == no_effects(),
                    }
                },
            },
            MenuScreen::Options => {
                let st = if s.option_sel < 9 {
                    settings_spec()[s.option_sel as int]
                } else {
                    Setting::AutoplayRadio
                };
                match a {
                    Action::ScrollUp => t == Session {
                        option_sel: if s.option_sel > 0 {
                            (s.option_sel - 1) as usize
                        } else {
                            0
                        },
                        ..s
                    } && e == no_effects(),
                    Action::ScrollDown => t == Session {
                        option_sel: if s.option_sel < 9 {
                            (s.option_sel + 1) as usize
                        } else {
                            9
                        },
                        ..s
                    } && e == no_effects(),
                    Action::Prev => Self::adjust_post(s, st, -1, v, t, e),
                    Action::Next | Action::Enqueue | Action::EnqueueAndPlay => Self::adjust_post(
                        s,
                        st,
                        1,
                        v,
                        t,
                        e,
                    ),
                    Action::ToggleMenu => t == Session { menu_screen: MenuScreen::Main, ..s } && e
                        == no_effects(),
                    Action::Quit => t == Session { should_quit: true, ..s } && e == no_effects(),
                    _ => t == s && e == no_effects(),
                }
            },
        }
    }

    /// Focus `view`, remembering where we came from.
    pub fn set_view(&mut self, view: View) -> (e: Vec<Effect>)
        ensures
            *final(self) == Self::with_view(*old(self), view),
            e@ == Self::view_effects(*old(self), view),
    {
        let mut e: Vec<Effect> = Vec::new();
        if self.view != view {
            e.push(Effect::ClearCoverArt);
            if !(self.view == View::Help || self.view == View::Lyrics) {
                self.prev_view = self.view;
            }
        }
        self.view = view;
        e
    }

    /// The pane the selection keys act on.
    pub fn active_list(&self, ctx: Context) -> (v: View)
        ensures
            v == Self::active_pane(*self, ctx),
    {
        if self.view == View::Track && ctx.side_pane_open {
            if ctx.side_pane_is_library {
                View::Library
            } else {
                View::Queue
            }
        } else {
            self.view
        }
    }

    /// Length of the list the selection keys act on.
    pub fn list_len(&self, ctx: Context) -> (n: usize)
        ensures
            n == Self::pane_len(*self, ctx),
    {
        match self.active_list(ctx) {
            View::Queue => self.queue.len(),
            View::Library => ctx.library_len,
            View::Search => ctx.search_len,
            _ => 0,
        }
    }

    /// The focused pane's selection, for the panes that have one.
    pub fn selection(&self) -> (r: Option<usize>)
        ensures
            r == match self.view {
                View::Queue => Some(self.queue_sel),
                View::Library => Some(self.library_sel),
                View::Search => Some(self.search_sel),
                _ => None,
            },
    {
        match self.view {
            View::Queue => Some(self.queue_sel),
            View::Library => Some(self.library_sel),
            View::Search => Some(self.search_sel),
            _ => None,
        }
    }

    fn set_focused_selection(&mut self, to: usize)
        ensures
            *final(self) == Self::with_selection(*old(self), to),
    {
        match self.view {
            View::Queue => self.queue_sel = to,
            View::Library => self.library_sel = to,
            View::Search => self.search_sel = to,
            _ => {},
        }
    }

    fn focused_selection(&self) -> (r: usize)
        ensures
            r == Self::selection_spec(*self),
    {
        match self.view {
            View::Queue => self.queue_sel,
            View::Library => self.library_sel,
            View::Search => self.search_sel,
            _ => 0,
        }
    }

    /// Move the selection by `delta` rows: lyrics scroll instead, and in
    /// library columns the cursor stays among its siblings.
    pub fn move_selection(&mut self, delta: i16, ctx: Context) -> (e: Vec<Effect>)
        ensures
            (*final(self), e@) == Self::moved(*old(self), delta, ctx),
    {
        if self.view == View::Lyrics {
            self.lyrics_scroll = scrolled(self.lyrics_scroll, delta);
            return Vec::new();
        }
        if ctx.in_library_columns {
            let mut e: Vec<Effect> = Vec::new();
            e.push(Effect::LibraryMoveSibling(delta));
            return e;
        }
        let len = self.list_len(ctx);
        if len == 0 {
            return Vec::new();
        }
        let next = clamped(self.focused_selection(), delta, len);
        self.set_focused_selection(next);
        Vec::new()
    }

    /// Put the selection at row `to`, clamped to the list.
    pub fn set_selection(&mut self, to: usize, ctx: Context) -> (e: Vec<Effect>)
        ensures
            (*final(self), e@) == Self::selected_to(*old(self), to, ctx),
    {
        if ctx.in_library_columns {
            let mut e: Vec<Effect> = Vec::new();
            e.push(Effect::LibraryEdgeSibling(to > 0));
            return e;
        }
        let len = self.list_len(ctx);
        if len == 0 {
            return Vec::new();
        }
        let next = if to < len - 1 {
            to
        } else {
            len - 1
        };
        self.set_focused_selection(next);
        Vec::new()
    }

    /// Enter on the active list: on the queue, play the selected track.
    pub fn activate_selection(&mut self, jump: bool, ctx: Context) -> (e: Vec<Effect>)
        requires
            old(self).queue.wf(),
        ensures
            Self::activate_post(*old(self), jump, ctx, *final(self), e@),
    {
        let mut e: Vec<Effect> = Vec::new();
        match self.active_list(ctx) {
            View::Queue => {
                if self.queue_sel < self.queue.len() {
                    let i = self.queue_sel;
                    let hit = self.queue.jump_to(i).is_some();
                    if hit {
                        e.push(Effect::StartCurrent);
                    }
                }
            },
            View::Search => e.push(Effect::ActivateSearchHit(jump)),
            View::Library => e.push(Effect::ActivateLibraryRow(jump)),
            _ => {},
        }
        e
    }

    fn adjust_cover(&mut self, delta: i32) -> (e: Vec<Effect>)
        requires
            delta == 1 || delta == -1,
        ensures
            *final(self) == (Session {
                cover_visible: ((if old(self).cover_visible { 0int } else { 1 }) + delta) % 2 == 0,
                ..*old(self)
            }),
            e@ == seq![Effect::ClearCoverArt],
    {
        let i: usize = if self.cover_visible {
            0
        } else {
            1
        };
        let next = step_choice(i, 2, delta);
        let mut e: Vec<Effect> = Vec::new();
        e.push(Effect::ClearCoverArt);
        self.cover_visible = next == 0;
        e
    }

    fn adjust_visualizer(&mut self, delta: i32) -> (e: Vec<Effect>)
        requires
            delta == 1 || delta == -1,
        ensures
            *final(self) == (Session {
                visualizer: visualizer_choice(
                    (match old(self).visualizer {
                        VisualizerMode::Bars => 0int,
                        VisualizerMode::Braille => 1,
                        VisualizerMode::Off => 2,
                    } + delta) % 3,
                ),
                ..*old(self)
            }),
            e@ == seq![Effect::ClearCoverArt],
    {
        let i: usize = match self.visualizer {
            VisualizerMode::Bars => 0,
            VisualizerMode::Braille => 1,
            VisualizerMode::Off => 2,
        };
        let next = step_choice(i, 3, delta);
        self.visualizer = if next == 1 {
            VisualizerMode::Braille
        } else if next == 2 {
            VisualizerMode::Off
        } else {
            VisualizerMode::Bars
        };
        let mut e: Vec<Effect> = Vec::new();
        e.push(Effect::ClearCoverArt);
        e
    }

    fn adjust_shuffle(&mut self, delta: i32, v: &SettingValues) -> (e: Vec<Effect>)
        requires
            old(self).queue.wf(),
            delta == 1 || delta == -1,
        ensures
            final(self).queue.wf(),
            Self::adjust_post(*old(self), Setting::Shuffle, delta as int, *v, *final(self), e@),
    {
        let i: usize = if self.queue.is_shuffled() {
            1
        } else {
            0
        };
        let want = step_choice(i, 2, delta) == 1;
        let mut e: Vec<Effect> = Vec::new();
        if want != self.queue.is_shuffled() {
            self.queue.toggle_shuffle();
            e.push(Effect::ResyncPrefetch);
        }
        e
    }

    fn adjust_repeat(&mut self, delta: i32, v: &SettingValues) -> (e: Vec<Effect>)
        requires
            old(self).queue.wf(),
            delta == 1 || delta == -1,
        ensures
            final(self).queue.wf(),
            Self::adjust_post(*old(self), Setting::Repeat, delta as int, *v, *final(self), e@),
    {
        let i: usize = match self.queue.repeat_mode() {
            RepeatMode::Off => 0,
            RepeatMode::All => 1,
            RepeatMode::One => 2,
        };
        let next = step_choice(i, 3, delta);
        let m = if next == 1 {
            RepeatMode::All
        } else if next == 2 {
            RepeatMode::One
        } else {
            RepeatMode::Off
        };
        self.queue.set_repeat(m);
        let mut e: Vec<Effect> = Vec::new();
        e.push(Effect::SetLoopFile(m == RepeatMode::One));
        e.push(Effect::ResyncPrefetch);
        assert(e@ =~= seq![Effect::SetLoopFile(m == RepeatMode::One), Effect::ResyncPrefetch]);
        e
    }

    fn adjust_autoplay(&mut self, delta: i32)
        requires
            delta == 1 || delta == -1,
        ensures
            *final(self) == (Session {
                autoplay_radio: ((if old(self).autoplay_radio { 0int } else { 1 }) + delta) % 2 == 0,
                ..*old(self)
            }),
    {
        let i: usize = if self.autoplay_radio {
            0
        } else {
            1
        };
        self.autoplay_radio = step_choice(i, 2, delta) == 0;
    }

    fn adjust_elsewhere(&self, st: Setting, delta: i32, v: &SettingValues) -> (e: Vec<Effect>)
        requires
            v.theme_names@.len() <= 0x4000_0000,
            delta == 1 || delta == -1,
        ensures
            choices_spec(st, *v).len() == 0 ==> e@ == no_effects(),
            choices_spec(st, *v).len() > 0 ==> e@ == seq![
                Effect::ApplySetting(
                    st,
                    ((pick_spec(choices_spec(st, *v), current_name(st, *v)) + delta) % (choices_spec(
                        st,
                        *v,
                    ).len() as int)) as usize,
                ),
            ],
    {
        let (choices, i) = setting_choices(st, v);
        assert(crate::app::menu::views_of(choices@).len() == choices@.len());
        let mut e: Vec<Effect> = Vec::new();
        if choices.len() > 0 {
            let next = step_choice(i, choices.len(), delta);
            e.push(Effect::ApplySetting(st, next));
        }
        e
    }

    /// Step setting `st` by `delta` around its choices.
    fn adjust_setting(&mut self, st: Setting, delta: i32, v: &SettingValues) -> (e: Vec<Effect>)
        requires
            old(self).queue.wf(),
            v.theme_names@.len() <= 0x4000_0000,
            delta == 1 || delta == -1,
        ensures
            final(self).queue.wf(),
            Self::adjust_post(*old(self), st, delta as int, *v, *final(self), e@),
    {
        match st {
            Setting::ShowCover => self.adjust_cover(delta),
            Setting::Visualizer => self.adjust_visualizer(delta),
            Setting::Shuffle => self.adjust_shuffle(delta, v),
            Setting::Repeat => self.adjust_repeat(delta, v),
            Setting::AutoplayRadio => {
                self.adjust_autoplay(delta);
                Vec::new()
            },
            _ => self.adjust_elsewhere(st, delta, v),
        }
    }

    /// Keys while the overlay is open: `true` when the menu took the key,
    /// `false` when it closed and normal handling should follow.
    fn handle_menu_action(&mut self, action: Action, v: &SettingValues) -> (r: (bool, Vec<Effect>))
        requires
            old(self).queue.wf(),
            v.theme_names@.len() <= 0x4000_0000,
        ensures
            final(self).queue.wf(),
            r.0 == Self::menu_consumes(*old(self), action),
            r.0 ==> Self::menu_post(*old(self), action, *v, *final(self), r.1@),
            !r.0 ==> *final(self) == Self::menu_closed(*old(self)) && r.1@ == no_effects(),
    {
        let mut e: Vec<Effect> = Vec::new();
        if !self.menu_open {
            return (false, e);
        }
        match self.menu_screen {
            MenuScreen::Main => match action {
                Action::ScrollUp => {
                    self.menu_sel = if self.menu_sel > 0 {
                        self.menu_sel - 1
                    } else {
                        0
                    };
                },
                Action::ScrollDown => {
                    self.menu_sel = if self.menu_sel < 2 {
                        self.menu_sel + 1
                    } else {
                        2
                    };
                },
                Action::ToggleMenu => self.menu_open = false,
                Action::Enqueue | Action::EnqueueAndPlay => {
                    let items = crate::app::menu::menu_items();
                    let idx = if self.menu_sel < 2 {
                        self.menu_sel
                    } else {
                        2
                    };
                    match items[idx] {
                        MenuItem::Options => {
                            self.menu_screen = MenuScreen::Options;
                            self.option_sel = 0;
                        },
                        MenuItem::Help => {
                            self.menu_open = false;
                            e = self.set_view(View::Help);
                        },
                        MenuItem::Quit => self.should_quit = true,
                    }
                },
                Action::Quit => self.should_quit = true,
                _ => {
                    self.menu_open = false;
                    return (false, e);
                },
            },
            MenuScreen::Options => {
                let all = settings();
                let idx = if self.option_sel < 9 {
                    self.option_sel
                } else {
                    9
                };
                let st = all[idx];
                match action {
                    Action::ScrollUp => {
                        self.option_sel = if self.option_sel > 0 {
                            self.option_sel - 1
                        } else {
                            0
                        };
                    },
                    Action::ScrollDown => {
                        self.option_sel = if self.option_sel < 9 {
                            self.option_sel + 1
                        } else {
                            9
                        };
                    },
                    // Left and right step the value, which is what the arrows
                    // beside the selected row advertise.
                    Action::Prev => {
                        e = self.adjust_setting(st, -1, v);
                    },
                    Action::Next | Action::Enqueue | Action::EnqueueAndPlay => {
                        e = self.adjust_setting(st, 1, v);
                    },
                    // Escape backs out to the menu rather than closing outright.
                    Action::ToggleMenu => self.menu_screen = MenuScreen::Main,
                    Action::Quit => self.should_quit = true,
                    _ => {},
                }
            },
        }
        (true, e)
    }

    /// Remove the selected queue row.
    fn remove_selection(&mut self) -> (e: Vec<Effect>)
        requires
            old(self).queue.wf(),
        ensures
            Self::action_post(*old(self), Action::Remove, arbitrary_context(), *final(self), e@),
    {
        let mut e: Vec<Effect> = Vec::new();
        if self.view == View::Queue && self.queue_sel < self.queue.len() {
            self.queue.remove(self.queue_sel);
            if self.queue_sel >= self.queue.len() {
                self.queue_sel = if self.queue.len() > 0 {
                    self.queue.len() - 1
                } else {
                    0
                };
            }
            e.push(Effect::ResyncPrefetch);
        }
        e
    }

    /// Whether `a` is among the actions on playback and the queue's transport state.
    pub open spec fn is_transport(a: Action) -> bool {
        a == Action::Quit || a == Action::PlayPause || a == Action::Stop || a == Action::Prev || a == Action::Next || a == Action::SeekForward || a == Action::SeekBack || a == Action::VolumeUp || a == Action::VolumeDown || a == Action::Shuffle || a == Action::ToggleRepeat
    }

    /// Playback and the queue's transport state.
    fn transport(&mut self, action: Action, ctx: Context) -> (e: Vec<Effect>)
        requires
            old(self).queue.wf(),
            Self::is_transport(action),
        ensures
            final(self).queue.wf(),
            Self::action_post(*old(self), action, ctx, *final(self), e@),
    {
        let mut e: Vec<Effect> = Vec::new();
        match action {
            Action::Quit => self.should_quit = true,
            Action::PlayPause => {
                if self.queue.current().is_none() {
                    e.push(Effect::Notify(Notice::NothingQueued));
                } else {
                    e.push(Effect::TogglePause);
                }
            },
            Action::Stop => e.push(Effect::StopPlayback),
            // Left and right walk the columns while the library shows them;
            // in search they step through the filters.
            Action::Prev => {
                if ctx.in_library_columns {
                    e.push(Effect::LibraryAscend);
                } else if self.view == View::Search {
                    e.push(Effect::CycleSearchFilter(false));
                } else if ctx.past_three_seconds {
                    // Restart the track if we are more than a few seconds
                    // in, like every other player; otherwise go back one.
                    e.push(Effect::SeekToStart);
                } else {
                    let back = self.queue.previous().is_some();
                    if back {
                        e.push(Effect::StartCurrent);
                    }
                }
            },
            Action::Next => {
                if ctx.in_library_columns {
                    e.push(Effect::LibraryDescend);
                } else if self.view == View::Search {
                    e.push(Effect::CycleSearchFilter(true));
                } else if self.queue.peek_next().is_some() {
                    // The player's prefetched entry makes the skip instant.
                    e.push(Effect::PlaylistNext);
                } else {
                    e.push(Effect::Notify(Notice::EndOfQueue));
                }
            },
            Action::SeekForward => e.push(Effect::SeekForward),
            Action::SeekBack => e.push(Effect::SeekBack),
            Action::VolumeUp => e.push(Effect::VolumeUp),
            Action::VolumeDown => e.push(Effect::VolumeDown),
            Action::Shuffle => {
                let on = self.queue.toggle_shuffle();
                // The upcoming track changed, so re-prime the prefetch.
                e.push(Effect::ResyncPrefetch);
                let n = if on {
                    Notice::ShuffleOn
                } else {
                    Notice::ShuffleOff
                };
                e.push(Effect::Notify(n));
                assert(e@ =~= seq![Effect::ResyncPrefetch, Effect::Notify(n)]);
            },
            Action::ToggleRepeat => {
                let m = self.queue.repeat_mode().cycle();
                self.queue.set_repeat(m);
                // Repeat-one is cheapest handled inside the player.
                e.push(Effect::SetLoopFile(m == RepeatMode::One));
                e.push(Effect::ResyncPrefetch);
                let n = match m {
                    RepeatMode::Off => Notice::RepeatOff,
                    RepeatMode::All => Notice::RepeatAll,
                    RepeatMode::One => Notice::RepeatOne,
                };
                e.push(Effect::Notify(n));
                assert(e@ =~= seq![
                    Effect::SetLoopFile(m == RepeatMode::One),
                    Effect::ResyncPrefetch,
                    Effect::Notify(n),
                ]);
            },
            _ => {},
        }
        e
    }

    /// Whether `a` is among the actions on panes, overlays and what is shown.
    pub open spec fn is_display(a: Action) -> bool {
        a == Action::CycleVisualizer || a == Action::ToggleAscii || a == Action::NextView || a == Action::PrevView || a == Action::ShowQueue || a == Action::ShowTrack || a == Action::ShowHelp || a == Action::ShowLibrary || a == Action::ShowSearch || a == Action::ShowLyrics || a == Action::ToggleMenu || a == Action::CoverSmaller || a == Action::CoverBigger || a == Action::ToggleLike || a == Action::StartRadio
    }

    /// Panes, overlays and what is shown.
    #[verifier::rlimit(40)]
    fn display(&mut self, action: Action, ctx: Context) -> (e: Vec<Effect>)
        requires
            old(self).queue.wf(),
            Self::is_display(action),
        ensures
            final(self).queue.wf(),
            Self::action_post(*old(self), action, ctx, *final(self), e@),
    {
        let mut e: Vec<Effect> = Vec::new();
        match action {
            Action::CycleVisualizer => {
                self.visualizer = self.visualizer.cycle();
                if !ctx.visualizer_available && self.visualizer != VisualizerMode::Off {
                    e.push(Effect::Notify(Notice::NoAudioCapture));
                }
            },
            Action::ToggleAscii => {
                // Just show or hide; which renderer to use is a setting.
                e.push(Effect::ClearCoverArt);
                self.cover_visible = !self.cover_visible;
                let n = if self.cover_visible {
                    Notice::CoverOn(ctx.cover_mode)
                } else {
                    Notice::CoverOff
                };
                e.push(Effect::Notify(n));
                assert(e@ =~= seq![Effect::ClearCoverArt, Effect::Notify(n)]);
            },
            Action::NextView => {
                let next = self.view.next();
                e = self.set_view(next);
            },
            Action::PrevView => {
                let prev = self.view.prev();
                e = self.set_view(prev);
            },
            Action::ShowQueue => e = self.set_view(View::Queue),
            Action::ShowTrack => e = self.set_view(View::Track),
            Action::ShowHelp => e = self.set_view(View::Help),
            Action::ShowLibrary => {
                e = self.set_view(View::Library);
                e.push(Effect::EnsureLibrary);
            },
            Action::ShowSearch => {
                e = self.set_view(View::Search);
                self.search_editing = true;
            },
            Action::ShowLyrics => {
                e = self.set_view(View::Lyrics);
                e.push(Effect::EnsureLyrics);
            },
            Action::ToggleLike => e.push(Effect::ToggleLike),
            Action::StartRadio => e.push(Effect::StartRadio),
            Action::ToggleMenu => {
                // Help and lyrics are overlays in their own right; escape
                // dismisses them rather than opening the menu over the top.
                if self.view == View::Help || self.view == View::Lyrics {
                    let back = self.prev_view;
                    e = self.set_view(back);
                } else {
                    self.menu_open = !self.menu_open;
                    self.menu_sel = 0;
                    self.menu_screen = MenuScreen::Main;
                }
            },
            Action::CoverSmaller => e.push(Effect::NudgeCover(-2)),
            Action::CoverBigger => e.push(Effect::NudgeCover(2)),
            _ => {},
        }
        e
    }

    /// Whether `a` is among the actions on moving and using the selection.
    pub open spec fn is_navigate(a: Action) -> bool {
        a == Action::ScrollUp || a == Action::ScrollDown || a == Action::PageUp || a == Action::PageDown || a == Action::Top || a == Action::Bottom || a == Action::Enqueue || a == Action::EnqueueAndPlay
    }

    /// Moving and using the selection.
    fn navigate(&mut self, action: Action, ctx: Context) -> (e: Vec<Effect>)
        requires
            old(self).queue.wf(),
            Self::is_navigate(action),
        ensures
            final(self).queue.wf(),
            Self::action_post(*old(self), action, ctx, *final(self), e@),
    {
        let mut e: Vec<Effect> = Vec::new();
        match action {
            Action::ScrollUp => e = self.move_selection(-1, ctx),
            Action::ScrollDown => e = self.move_selection(1, ctx),
            Action::PageUp => e = self.move_selection(-10, ctx),
            Action::PageDown => e = self.move_selection(10, ctx),
            Action::Top => e = self.set_selection(0, ctx),
            Action::Bottom => e = self.set_selection(usize::MAX, ctx),
            Action::Enqueue => e = self.activate_selection(false, ctx),
            Action::EnqueueAndPlay => e = self.activate_selection(true, ctx),
            _ => {},
        }
        e
    }

    /// Whether `a` is among the actions on editing the queue.
    pub open spec fn is_edit(a: Action) -> bool {
        a == Action::Remove || a == Action::ClearQueue || a == Action::MoveUp || a == Action::MoveDown || a == Action::PlayAll
    }

    /// Editing the queue.
    fn edit(&mut self, action: Action, ctx: Context) -> (e: Vec<Effect>)
        requires
            old(self).queue.wf(),
            Self::is_edit(action),
        ensures
            final(self).queue.wf(),
            Self::action_post(*old(self), action, ctx, *final(self), e@),
    {
        let mut e: Vec<Effect> = Vec::new();
        match action {
            Action::Remove => e = self.remove_selection(),
            Action::ClearQueue => {
                // Stop a still-arriving playlist from refilling what was
                // just cleared.
                e.push(Effect::ClearQueueFeed);
                self.queue.clear();
                e.push(Effect::StopPlayback);
                e.push(Effect::ClearPlaylist);
                e.push(Effect::DropCover);
                e.push(Effect::Notify(Notice::QueueCleared));
                assert(e@ =~= seq![
                    Effect::ClearQueueFeed,
                    Effect::StopPlayback,
                    Effect::ClearPlaylist,
                    Effect::DropCover,
                    Effect::Notify(Notice::QueueCleared),
                ]);
            },
            Action::MoveUp => {
                if self.view == View::Queue {
                    if let Some(n) = self.queue.move_up(self.queue_sel) {
                        self.queue_sel = n;
                        e.push(Effect::ResyncPrefetch);
                    }
                }
            },
            Action::MoveDown => {
                if self.view == View::Queue {
                    if let Some(n) = self.queue.move_down(self.queue_sel) {
                        self.queue_sel = n;
                        e.push(Effect::ResyncPrefetch);
                    }
                }
            },
            Action::PlayAll => match self.view {
                View::Search => e.push(Effect::PlayAllSearch),
                View::Library => e.push(Effect::PlaySelectedLibraryNode),
                _ => {
                    if self.queue.is_empty() {
                        e.push(Effect::Notify(Notice::QueueEmpty));
                    } else {
                        self.queue.jump_to(0);
                        e.push(Effect::StartCurrent);
                    }
                },
            },
            _ => {},
        }
        e
    }

    /// Carry out `action`: first the overlay menu, if open, gets the key;
    /// then the action itself. `ctx` and `v` describe what the program holds.
    pub fn handle_action(&mut self, action: Action, ctx: Context, v: &SettingValues) -> (e: Vec<Effect>)
        requires
            old(self).queue.wf(),
            v.theme_names@.len() <= 0x4000_0000,
        ensures
            final(self).queue.wf(),
            Self::menu_consumes(*old(self), action) ==> Self::menu_post(
                *old(self),
                action,
                *v,
                *final(self),
                e@,
            ),
            !Self::menu_consumes(*old(self), action) ==> Self::action_post(
                Self::menu_closed(*old(self)),
                action,
                ctx,
                *final(self),
                e@,
            ),
    {
        let (consumed, e0) = self.handle_menu_action(action, v);
        if consumed {
            return e0;
        }
        match action {
            Action::Quit | Action::PlayPause | Action::Stop | Action::Prev | Action::Next
            | Action::SeekForward | Action::SeekBack | Action::VolumeUp | Action::VolumeDown
            | Action::Shuffle | Action::ToggleRepeat => self.transport(action, ctx),
            Action::ScrollUp | Action::ScrollDown | Action::PageUp | Action::PageDown | Action::Top
            | Action::Bottom | Action::Enqueue | Action::EnqueueAndPlay => self.navigate(action, ctx),
            Action::Remove | Action::ClearQueue | Action::MoveUp | Action::MoveDown
            | Action::PlayAll => self.edit(action, ctx),
            _ => self.display(action, ctx),
        }
    }

    /// What a player event does: its own playlist advances are mirrored in
    /// the queue; failures, the end of the queue and the player's exit are
    /// reported.
    pub open spec fn player_event_post(s: Self, ev: PlayerEvent, t: Self, e: Seq<Effect>) -> bool {
        match ev {
            PlayerEvent::PlaylistPos(pos) => if pos > s.player_pos {
                &&& t == Session { queue: t.queue, player_pos: pos, ..s }
                &&& t.queue.wf()
                &&& t.queue.items() == s.queue.items()
                &&& t.queue.play_order() == s.queue.play_order()
                &&& t.queue.mode() == s.queue.mode()
                &&& t.queue.shuffled() == s.queue.shuffled()
                &&& t.queue.cursor() == place_after(s.queue, s.queue.cursor(), (pos - s.player_pos) as nat)
                &&& e == if t.queue.current_item() is Some {
                    seq![Effect::TrackChanged, Effect::PrefetchNext]
                } else {
                    seq![Effect::PrefetchNext]
                }
            } else {
                t == s && e == no_effects()
            },
            PlayerEvent::EndFile { reason } => t == s && e == if reason@ == "error"@ {
                seq![Effect::Notify(Notice::TrackFailed)]
            } else {
                no_effects()
            },
            PlayerEvent::Idle => t == s && e == if s.queue.item_at_place(s.queue.next_pos_spec()) is None {
                seq![Effect::Notify(Notice::QueueFinished)]
            } else {
                no_effects()
            },
            PlayerEvent::Exited => t == Session { should_quit: true, ..s } && e == seq![
                Effect::Notify(Notice::PlayerExited),
            ],
            PlayerEvent::FileLoaded => t == s && e == no_effects(),
        }
    }

    /// React to something the player reported.
    pub fn handle_player_event(&mut self, ev: &PlayerEvent) -> (e: Vec<Effect>)
        requires
            old(self).queue.wf(),
        ensures
            final(self).queue.wf(),
            Self::player_event_post(*old(self), *ev, *final(self), e@),
    {
        let mut e: Vec<Effect> = Vec::new();
        match ev {
            PlayerEvent::PlaylistPos(pos) => {
                let pos = *pos;
                // The player walked forward on its own (gapless advance or a
                // forced playlist-next); mirror that in the queue.
                if pos > self.player_pos {
                    let q_pos = self.player_pos;
                    let steps: u128 = (pos as i128 - self.player_pos as i128) as u128;
                    let ghost q0 = self.queue;
                    let ghost s0 = *self;
                    let mut k: u128 = 0;
                    while k < steps
                        invariant
                            k <= steps,
                            *self == (Session { queue: self.queue, ..s0 }),
                            self.queue.wf(),
                            self.queue.items() == q0.items(),
                            self.queue.play_order() == q0.play_order(),
                            self.queue.mode() == q0.mode(),
                            self.queue.shuffled() == q0.shuffled(),
                            self.queue.cursor() == place_after(q0, q0.cursor(), k as nat),
                        decreases steps - k,
                    {
                        self.queue.advance();
                        k += 1;
                    }
                    assert(steps as nat == (pos - q_pos) as nat);
                    self.player_pos = pos;
                    if self.queue.current().is_some() {
                        e.push(Effect::TrackChanged);
                    }
                    e.push(Effect::PrefetchNext);
                    assert(e@ =~= if self.queue.current_item() is Some {
                        seq![Effect::TrackChanged, Effect::PrefetchNext]
                    } else {
                        seq![Effect::PrefetchNext]
                    });
                }
            },
            PlayerEvent::EndFile { reason } => {
                let r = chars_of(reason.as_str());
                let err = chars_of("error");
                if eq_chars(r.as_slice(), err.as_slice()) {
                    e.push(Effect::Notify(Notice::TrackFailed));
                }
            },
            PlayerEvent::Idle => {
                if self.queue.peek_next().is_none() {
                    e.push(Effect::Notify(Notice::QueueFinished));
                }
            },
            PlayerEvent::Exited => {
                e.push(Effect::Notify(Notice::PlayerExited));
                self.should_quit = true;
            },
            PlayerEvent::FileLoaded => {},
        }
        e
    }

    /// The focused pane's selection, for the panes that have one.
    pub open spec fn focused_selection_spec(s: Self) -> Option<usize> {
        match s.view {
            View::Queue => Some(s.queue_sel),
            View::Library => Some(s.library_sel),
            View::Search => Some(s.search_sel),
            _ => None,
        }
    }

    /// What a click on list item `i` does: the first click selects, a click
    /// on the current selection activates, as in a file manager.
    pub open spec fn click_post(s: Self, i: usize, ctx: Context, t: Self, e: Seq<Effect>) -> bool {
        let (t1, e1) = Self::selected_to(s, i, ctx);
        if Self::focused_selection_spec(s) == Some(i) {
            exists|e2: Seq<Effect>| #[trigger] Self::activate_post(t1, false, ctx, t, e2) && e == e1 + e2
        } else {
            t == t1 && e == e1
        }
    }

    /// What a mouse event does. The wheel scrolls a list it is over and
    /// turns the volume anywhere else; a left click picks a tab, seeks on the
    /// progress bar, or selects (then activates) a list row; a right click
    /// plays or pauses. `columns` and `rows` are the library's.
    pub open spec fn mouse_post(
        s: Self,
        kind: MouseKind,
        col: u16,
        row: u16,
        hits: HitRegions,
        columns: Seq<LibColumn>,
        rows: Seq<LibRow>,
        ctx: Context,
        v: SettingValues,
        t: Self,
        e: Seq<Effect>,
    ) -> bool {
        match kind {
            MouseKind::ScrollUp => if in_list_spec(hits, col, row) {
                (t, e) == Self::moved(s, -3i16, ctx)
            } else {
                t == s && e == seq![Effect::VolumeUp]
            },
            MouseKind::ScrollDown => if in_list_spec(hits, col, row) {
                (t, e) == Self::moved(s, 3i16, ctx)
            } else {
                t == s && e == seq![Effect::VolumeDown]
            },
            MouseKind::LeftDown => match tab_at_spec(hits.tabs@, col, row) {
                Some(view) => t == Self::with_view(s, view) && e == Self::view_effects(s, view) + if view
                    == View::Library {
                    seq![Effect::EnsureLibrary]
                } else {
                    no_effects()
                },
                None => match progress_at_spec(hits, col, row) {
                    Some(p) => t == s && e == seq![Effect::SeekFraction(p.0, p.1)],
                    None => match row_at_spec(
                        hits,
                        Self::pane_len(s, ctx),
                        column_views(columns),
                        rows_view(rows),
                        col,
                        row,
                    ) {
                        Some(i) => Self::click_post(s, i as usize, ctx, t, e),
                        None => t == s && e == no_effects(),
                    },
                },
            },
            MouseKind::RightDown => {
                &&& Self::menu_consumes(s, Action::PlayPause) ==> Self::menu_post(s, Action::PlayPause, v, t, e)
                &&& !Self::menu_consumes(s, Action::PlayPause) ==> Self::action_post(
                    Self::menu_closed(s),
                    Action::PlayPause,
                    ctx,
                    t,
                    e,
                )
            },
            MouseKind::Other => t == s && e == no_effects(),
        }
    }

    fn click(&mut self, index: usize, ctx: Context) -> (e: Vec<Effect>)
        requires
            old(self).queue.wf(),
        ensures
            Self::click_post(*old(self), index, ctx, *final(self), e@),
    {
        let already = match self.selection() {
            Some(s) => s == index,
            None => false,
        };
        let mut e = self.set_selection(index, ctx);
        if already {
            let ghost e1 = e@;
            let mut e2 = self.activate_selection(false, ctx);
            let ghost e2v = e2@;
            e.append(&mut e2);
            assert(e@ == e1 + e2v);
        }
        e
    }

    /// React to the mouse at `col`, `row`, given where the last frame drew
    /// things (`hits`) and the library's columns and rows.
    pub fn handle_mouse(
        &mut self,
        kind: MouseKind,
        col: u16,
        row: u16,
        hits: &HitRegions,
        columns: &Vec<LibColumn>,
        rows: &Vec<LibRow>,
        ctx: Context,
        v: &SettingValues,
    ) -> (e: Vec<Effect>)
        requires
            old(self).queue.wf(),
            v.theme_names@.len() <= 0x4000_0000,
        ensures
            final(self).queue.wf(),
            Self::mouse_post(*old(self), kind, col, row, *hits, columns@, rows@, ctx, *v, *final(self), e@),
    {
        match kind {
            MouseKind::ScrollUp => {
                if point_in_list(hits, col, row) {
                    self.move_selection(-3, ctx)
                } else {
                    let mut e: Vec<Effect> = Vec::new();
                    e.push(Effect::VolumeUp);
                    e
                }
            },
            MouseKind::ScrollDown => {
                if point_in_list(hits, col, row) {
                    self.move_selection(3, ctx)
                } else {
                    let mut e: Vec<Effect> = Vec::new();
                    e.push(Effect::VolumeDown);
                    e
                }
            },
            MouseKind::LeftDown => {
                if let Some(view) = tab_at(hits, col, row) {
                    let mut e = self.set_view(view);
                    let ghost e0 = e@;
                    if view == View::Library {
                        e.push(Effect::EnsureLibrary);
                        assert(e@ =~= e0 + seq![Effect::EnsureLibrary]);
                    } else {
                        assert(e@ =~= e0 + no_effects());
                    }
                    return e;
                }
                if let Some(p) = progress_at(hits, col, row) {
                    let mut e: Vec<Effect> = Vec::new();
                    e.push(Effect::SeekFraction(p.0, p.1));
                    return e;
                }
                let len = self.list_len(ctx);
                match row_at(hits, len, columns, rows, col, row) {
                    Some(index) => self.click(index, ctx),
                    None => Vec::new(),
                }
            },
            MouseKind::RightDown => self.handle_action(Action::PlayPause, ctx, v),
            MouseKind::Other => Vec::new(),
        }
    }

    /// Skip ahead, whatever pane is focused (a media key): to the player's
    /// prefetched entry when there is a next track.
    pub fn next_track(&self) -> (e: Vec<Effect>)
        requires
            self.queue.wf(),
        ensures
            e@ == if self.queue.item_at_place(self.queue.next_pos_spec()) is Some {
                seq![Effect::PlaylistNext]
            } else {
                seq![Effect::Notify(Notice::EndOfQueue)]
            },
    {
        let mut e: Vec<Effect> = Vec::new();
        if self.queue.peek_next().is_some() {
            e.push(Effect::PlaylistNext);
        } else {
            e.push(Effect::Notify(Notice::EndOfQueue));
        }
        e
    }

    /// What `prev_track` does.
    pub open spec fn prev_post(s: Self, past_three_seconds: bool, t: Self, e: Seq<Effect>) -> bool {
        if past_three_seconds {
            t == s && e == seq![Effect::SeekToStart]
        } else {
            &&& Self::same_but_queue(s, t)
            &&& t.queue.wf()
            &&& Queue::previous_post(s.queue, t.queue)
            &&& e == if s.queue.cursor() is Some {
                seq![Effect::StartCurrent]
            } else {
                no_effects()
            }
        }
    }

    /// Go back, whatever pane is focused (a media key): restart the track
    /// when more than a few seconds in, else step back one.
    pub fn prev_track(&mut self, past_three_seconds: bool) -> (e: Vec<Effect>)
        requires
            old(self).queue.wf(),
        ensures
            final(self).queue.wf(),
            Self::prev_post(*old(self), past_three_seconds, *final(self), e@),
    {
        let mut e: Vec<Effect> = Vec::new();
        if past_three_seconds {
            e.push(Effect::SeekToStart);
        } else {
            let back = self.queue.previous().is_some();
            if back {
                e.push(Effect::StartCurrent);
            }
        }
        e
    }

    /// Set shuffle on or off, as a desktop's control asks.
    pub fn set_shuffle(&mut self, on: bool) -> (e: Vec<Effect>)
        requires
            old(self).queue.wf(),
        ensures
            final(self).queue.wf(),
            old(self).queue.shuffled() == on ==> *final(self) == *old(self) && e@ == no_effects(),
            old(self).queue.shuffled() != on ==> Self::same_but_queue(*old(self), *final(self))
                && Queue::toggle_shuffle_post(old(self).queue, final(self).queue) && e@ == seq![
                Effect::ResyncPrefetch,
            ],
    {
        let mut e: Vec<Effect> = Vec::new();
        if self.queue.is_shuffled() != on {
            self.queue.toggle_shuffle();
            e.push(Effect::ResyncPrefetch);
        }
        e
    }

    /// Set the repeat mode, as a desktop's control asks: the player loops
    /// the file itself for repeat-one.
    pub fn set_repeat(&mut self, m: RepeatMode) -> (e: Vec<Effect>)
        requires
            old(self).queue.wf(),
        ensures
            final(self).queue.wf(),
            Self::same_but_queue(*old(self), *final(self)),
            final(self).queue.items() == old(self).queue.items(),
            final(self).queue.play_order() == old(self).queue.play_order(),
            final(self).queue.cursor() == old(self).queue.cursor(),
            final(self).queue.shuffled() == old(self).queue.shuffled(),
            final(self).queue.mode() == m,
            e@ == seq![Effect::SetLoopFile(m == RepeatMode::One), Effect::ResyncPrefetch],
    {
        self.queue.set_repeat(m);
        let mut e: Vec<Effect> = Vec::new();
        e.push(Effect::SetLoopFile(m == RepeatMode::One));
        e.push(Effect::ResyncPrefetch);
        assert(e@ =~= seq![Effect::SetLoopFile(m == RepeatMode::One), Effect::ResyncPrefetch]);
        e
    }

    /// What `on_reply` does: `keep` says whether the reply's content is
    /// still wanted, or stale and to be dropped.
    pub open spec fn reply_post(s: Self, r: Reply, t: Self, keep: bool, e: Seq<Effect>) -> bool {
        match r {
            Reply::SearchResults(n) => {
                &&& t == Session { searching: false, search_sel: 0, ..s }
                &&& keep
                &&& e == if n == 0 {
                    seq![Effect::Notify(Notice::NoResults)]
                } else {
                    no_effects()
                }
            },
            Reply::Suggestions { query, input } => t == s && keep == (query@ == trim_spec(input@))
                && e == no_effects(),
            Reply::Cover { video_id, wanted } => t == s && keep == (opt_text(wanted) == Some(video_id@))
                && e == no_effects(),
            Reply::Lyrics { video_id, playing } => t == s && keep == (opt_text(playing) == Some(
                video_id@,
            )) && e == no_effects(),
            Reply::Error => t == Session { searching: false, ..s } && keep && e == no_effects(),
        }
    }

    /// Take in a background reply: a finished search stops the spinner and
    /// resets the selection, saying so when nothing was found; a failure
    /// stops the spinner; suggestions, a cover or lyrics that arrive for
    /// something no longer wanted are dropped, so a late reply cannot
    /// overwrite what belongs to the current input or track.
    pub fn on_reply(&mut self, r: &Reply) -> (out: (bool, Vec<Effect>))
        ensures
            Self::reply_post(*old(self), *r, *final(self), out.0, out.1@),
    {
        let mut e: Vec<Effect> = Vec::new();
        match r {
            Reply::SearchResults(n) => {
                self.searching = false;
                self.search_sel = 0;
                if *n == 0 {
                    e.push(Effect::Notify(Notice::NoResults));
                    assert(e@ =~= seq![Effect::Notify(Notice::NoResults)]);
                }
                (true, e)
            },
            Reply::Suggestions { query, input } => {
                let c = chars_of(input.as_str());
                let t = trim(c.as_slice());
                let q = chars_of(query.as_str());
                (eq_chars(q.as_slice(), t), e)
            },
            Reply::Cover { video_id, wanted } => {
                let keep = match wanted {
                    Some(w) => same_text(w.as_str(), video_id.as_str()),
                    None => false,
                };
                (keep, e)
            },
            Reply::Lyrics { video_id, playing } => {
                let keep = match playing {
                    Some(p) => same_text(p.as_str(), video_id.as_str()),
                    None => false,
                };
                (keep, e)
            },
            Reply::Error => {
                self.searching = false;
                (true, e)
            },
        }
    }

    /// What `search_key` does.
    pub open spec fn search_key_post(s: Self, code: KeyCode, ctrl: bool, t: Self, r: SearchKey) -> bool {
        if s.search_editing {
            match code {
                KeyCode::Enter => t == s && r == SearchKey::Submit,
                KeyCode::Esc => t == Session { search_editing: false, ..s } && r == SearchKey::Consumed,
                KeyCode::Backspace => t == s && r == SearchKey::Erase,
                KeyCode::Char(c) => t == s && r == if ctrl {
                    SearchKey::Consumed
                } else {
                    SearchKey::Type(c)
                },
                _ => t == s && r == SearchKey::Consumed,
            }
        } else if s.view == View::Search && code == KeyCode::Char('i') {
            t == Session { search_editing: true, ..s } && r == SearchKey::Consumed
        } else {
            t == s && r == SearchKey::PassOn
        }
    }

    /// A key press, before the key table sees it. While the search box has
    /// focus, typing reaches the box rather than triggering playback
    /// shortcuts; `i` in the search pane gives the box focus again.
    pub fn search_key(&mut self, code: KeyCode, ctrl: bool) -> (r: SearchKey)
        ensures
            Self::search_key_post(*old(self), code, ctrl, *final(self), r),
    {
        if self.search_editing {
            match code {
                KeyCode::Enter => SearchKey::Submit,
                KeyCode::Esc => {
                    self.search_editing = false;
                    SearchKey::Consumed
                },
                KeyCode::Backspace => SearchKey::Erase,
                KeyCode::Char(c) => if ctrl {
                    SearchKey::Consumed
                } else {
                    SearchKey::Type(c)
                },
                _ => SearchKey::Consumed,
            }
        } else if self.view == View::Search && code == KeyCode::Char('i') {
            self.search_editing = true;
            SearchKey::Consumed
        } else {
            SearchKey::PassOn
        }
    }

    /// What `play_all` does.
    pub open spec fn play_all_post(s: Self, tracks: Seq<T>, start: usize, t: Self, e: Seq<Effect>) -> bool {
        if tracks.len() == 0 {
            t == s && e == seq![Effect::Notify(Notice::NothingToPlay)]
        } else {
            &&& Self::same_but_queue(s, t)
            &&& t.queue.wf()
            &&& t.queue.items() == tracks
            &&& t.queue.mode() == s.queue.mode()
            &&& t.queue.shuffled() == s.queue.shuffled()
            &&& !s.queue.shuffled() ==> t.queue.play_order() == identity(tracks.len())
                && t.queue.cursor() == Some(
                if start < tracks.len() {
                    start
                } else {
                    (tracks.len() - 1) as usize
                },
            )
            &&& s.queue.shuffled() && start < tracks.len() ==> t.queue.play_order()[0] == start
                && t.queue.cursor() == Some(0usize)
            &&& s.queue.shuffled() && start >= tracks.len() ==> t.queue.cursor() is None
            &&& e == seq![Effect::ClearQueueFeed, Effect::StartCurrent]
        }
    }

    /// Replace the queue with `tracks` and start playing at `start`; the
    /// loads that were feeding the old queue no longer apply. An empty list
    /// changes nothing but the status line.
    pub fn play_all(&mut self, tracks: Vec<T>, start: usize) -> (e: Vec<Effect>)
        requires
            old(self).queue.wf(),
            tracks@.len() + 1 < usize::MAX,
        ensures
            Self::play_all_post(*old(self), tracks@, start, *final(self), e@),
    {
        let mut e: Vec<Effect> = Vec::new();
        if tracks.len() == 0 {
            e.push(Effect::Notify(Notice::NothingToPlay));
            assert(e@ =~= seq![Effect::Notify(Notice::NothingToPlay)]);
            return e;
        }
        self.queue.replace(tracks, start);
        e.push(Effect::ClearQueueFeed);
        e.push(Effect::StartCurrent);
        assert(e@ =~= seq![Effect::ClearQueueFeed, Effect::StartCurrent]);
        e
    }

    /// What `play_one_off` does.
    pub open spec fn one_off_post(s: Self, track: T, in_playlist: bool, t: Self, e: Seq<Effect>) -> bool {
        if in_playlist && s.queue.current_item() is Some {
            &&& Self::same_but_queue(s, t)
            &&& t.queue.wf()
            &&& t.queue.items() == s.queue.items().push(track)
            &&& t.queue.play_order() == s.queue.play_order().insert(
                s.queue.next_slot(),
                s.queue.items().len() as usize,
            )
            &&& t.queue.current_spec() == Some(s.queue.items().len() as usize)
            &&& t.queue.mode() == s.queue.mode()
            &&& t.queue.shuffled() == s.queue.shuffled()
            &&& e == seq![Effect::StartCurrent]
        } else {
            Self::enqueue_post(s, track, true, t, e)
        }
    }

    /// Play one track picked from outside the running queue. While a
    /// playlist plays (`in_playlist`: the queue came from a library
    /// listing), it slots in as the next track and plays now, and the
    /// playlist resumes after it; otherwise it is added and played as any
    /// picked track is.
    pub fn play_one_off(&mut self, track: T, in_playlist: bool) -> (e: Vec<Effect>)
        requires
            old(self).queue.wf(),
            old(self).queue.items().len() + 1 < usize::MAX,
        ensures
            Self::one_off_post(*old(self), track, in_playlist, *final(self), e@),
    {
        if !in_playlist || self.queue.current().is_none() {
            return self.enqueue(track, true);
        }
        let at = self.queue.insert_next(track);
        self.queue.jump_to(at);
        let mut e: Vec<Effect> = Vec::new();
        e.push(Effect::StartCurrent);
        assert(e@ =~= seq![Effect::StartCurrent]);
        e
    }

    /// What `enqueue` does.
    pub open spec fn enqueue_post(s: Self, track: T, jump: bool, t: Self, e: Seq<Effect>) -> bool {
        let idle = s.queue.current_item() is None;
        &&& Self::same_but_queue(s, t)
        &&& t.queue.wf()
        &&& t.queue.items() == s.queue.items().push(track)
        &&& t.queue.mode() == s.queue.mode()
        &&& t.queue.shuffled() == s.queue.shuffled()
        &&& if idle || jump {
            &&& t.queue.current_spec() == Some(s.queue.items().len() as usize)
            &&& e == seq![Effect::StartCurrent] + if s.autoplay_radio && idle {
                seq![Effect::AppendRadio]
            } else {
                no_effects()
            }
        } else {
            &&& t.queue.cursor() == s.queue.cursor()
            &&& t.queue.play_order() == s.queue.play_order().push(s.queue.items().len() as usize)
            &&& e == seq![Effect::ResyncPrefetch, Effect::AnnounceQueued]
        }
    }

    /// Add a track from outside the queue (a search hit). With nothing
    /// playing, or when asked to `jump`, it plays at once -- and a search
    /// hit played into silence brings its radio mix along, if that is on;
    /// otherwise it waits its turn at the end.
    pub fn enqueue(&mut self, track: T, jump: bool) -> (e: Vec<Effect>)
        requires
            old(self).queue.wf(),
            old(self).queue.items().len() + 1 < usize::MAX,
        ensures
            Self::enqueue_post(*old(self), track, jump, *final(self), e@),
    {
        let idle = self.queue.current().is_none();
        self.queue.push(track);
        let last = self.queue.len() - 1;
        let mut e: Vec<Effect> = Vec::new();
        if idle || jump {
            self.queue.jump_to(last);
            e.push(Effect::StartCurrent);
            if self.autoplay_radio && idle {
                e.push(Effect::AppendRadio);
                assert(e@ =~= seq![Effect::StartCurrent] + seq![Effect::AppendRadio]);
            } else {
                assert(e@ =~= seq![Effect::StartCurrent] + no_effects());
            }
        } else {
            e.push(Effect::ResyncPrefetch);
            e.push(Effect::AnnounceQueued);
            assert(e@ =~= seq![Effect::ResyncPrefetch, Effect::AnnounceQueued]);
        }
        e
    }
}

/// Escape leaves help or lyrics for the pane they were opened from: show
/// help from any other pane, then toggle the menu, and that pane is focused
/// again, with the menu still closed.
pub proof fn law_escape_returns_from_help<T>(s: Session<T>, ctx: Context, t1: Session<T>, e1: Seq<Effect>, t2: Session<T>, e2: Seq<Effect>)
    requires
        !s.menu_open,
        s.view != View::Help,
        s.view != View::Lyrics,
        Session::action_post(s, Action::ShowHelp, ctx, t1, e1),
        Session::action_post(Session::menu_closed(t1), Action::ToggleMenu, ctx, t2, e2),
    ensures
        t2.view == s.view,
        !t2.menu_open,
{
}

/// The menu's cursors never leave their lists: whatever key the open menu
/// takes, the entry and option selections stay on an entry.
pub proof fn law_menu_cursor_stays_in_range<T>(
    s: Session<T>,
    a: Action,
    v: SettingValues,
    t: Session<T>,
    e: Seq<Effect>,
)
    requires
        s.menu_sel <= 2,
        s.option_sel <= 9,
        Session::menu_post(s, a, v, t, e),
    ensures
        t.menu_sel <= 2,
        t.option_sel <= 9,
{
    if s.menu_screen == MenuScreen::Options {
        let st = if s.option_sel < 9 {
            settings_spec()[s.option_sel as int]
        } else {
            Setting::AutoplayRadio
        };
        if a == Action::Prev {
            lemma_adjust_keeps_cursors(s, st, -1, v, t, e);
        } else if a == Action::Next || a == Action::Enqueue || a == Action::EnqueueAndPlay {
            lemma_adjust_keeps_cursors(s, st, 1, v, t, e);
        }
    }
}

/// Stepping a setting's value moves neither menu cursor.
proof fn lemma_adjust_keeps_cursors<T>(s: Session<T>, st: Setting, delta: int, v: SettingValues, t: Session<T>, e: Seq<Effect>)
    requires
        Session::adjust_post(s, st, delta, v, t, e),
    ensures
        t.menu_sel == s.menu_sel,
        t.option_sel == s.option_sel,
{
    match st {
        Setting::ShowCover => {},
        Setting::Visualizer => {},
        Setting::Shuffle => {},
        Setting::Repeat => {},
        Setting::AutoplayRadio => {},
        _ => {},
    }
}

/// Whether two texts are the same.
fn same_text(a: &str, b: &str) -> (r: bool)
    ensures
        r == (a@ == b@),
{
    let x = chars_of(a);
    let y = chars_of(b);
    eq_chars(x.as_slice(), y.as_slice())
}

} // verus!
