//! Actions and the key table that produces them.
//!
//! Defaults follow kew's bindings, so muscle memory carries over. Keys and
//! modifiers are the library's own plain values; the terminal's key events
//! are converted to them by the program.
use vstd::prelude::*;
use crate::text::{push_decimal, push_str, string_from};

verus! {

/// Every discrete thing a keypress can do. Mirrors kew's `MSG_*` set.
#[derive(Clone, Copy, Debug, PartialEq, Eq, Structural)]
pub enum Action {
    PlayPause,
    Stop,
    Next,
    Prev,
    ScrollUp,
    ScrollDown,
    PageUp,
    PageDown,
    Top,
    Bottom,
    VolumeUp,
    VolumeDown,
    SeekForward,
    SeekBack,
    Shuffle,
    ToggleRepeat,
    Enqueue,
    EnqueueAndPlay,
    Remove,
    ClearQueue,
    MoveUp,
    MoveDown,
    ShowQueue,
    ShowLibrary,
    ShowTrack,
    ShowSearch,
    ShowHelp,
    ShowLyrics,
    NextView,
    PrevView,
    CycleVisualizer,
    ToggleAscii,
    ToggleLike,
    StartRadio,
    /// Play everything in the current context: the selected playlist, album
    /// or artist in the library, or all the search results.
    PlayAll,
    /// Open or close the menu overlay.
    ToggleMenu,
    /// Shrink the assumed cell size, making sixel art smaller.
    CoverSmaller,
    /// Grow the assumed cell size, making sixel art larger.
    CoverBigger,
    Quit,
}

/// A key, as far as the key table tells keys apart.
#[derive(Clone, Copy, Debug, PartialEq, Eq, Structural)]
pub enum KeyCode {
    Char(char),
    F(u8),
    Enter,
    Esc,
    Tab,
    BackTab,
    Backspace,
    Delete,
    Left,
    Right,
    Up,
    Down,
    PageUp,
    PageDown,
    Home,
    End,
    /// Any other key; none is bound.
    Other,
}

/// Modifier bits, as the terminal reports them.
pub const SHIFT: u8 = 1;
pub const CONTROL: u8 = 2;
pub const ALT: u8 = 4;

/// The modifiers that distinguish a binding: Shift is implicit in the
/// character for things like `S`.
pub open spec fn significant(mods: u8) -> u8 {
    mods & 6u8
}

/// kew's default bindings, verbatim where they make sense for a streaming
/// client: key, modifier bits, action.
pub open spec fn default_bindings() -> Seq<(KeyCode, u8, Action)> {
    seq![
        (KeyCode::Char(' '), 0u8, Action::PlayPause),
        (KeyCode::Char('p'), 0u8, Action::PlayPause),
        (KeyCode::Char('S'), 1u8, Action::Stop),
        (KeyCode::Char('h'), 0u8, Action::Prev),
        (KeyCode::Char('l'), 0u8, Action::Next),
        (KeyCode::Left, 0u8, Action::Prev),
        (KeyCode::Right, 0u8, Action::Next),
        (KeyCode::Char('a'), 0u8, Action::SeekBack),
        (KeyCode::Char('d'), 0u8, Action::SeekForward),
        (KeyCode::Char('+'), 0u8, Action::VolumeUp),
        (KeyCode::Char('='), 0u8, Action::VolumeUp),
        (KeyCode::Char('-'), 0u8, Action::VolumeDown),
        (KeyCode::Char('k'), 0u8, Action::ScrollUp),
        (KeyCode::Char('j'), 0u8, Action::ScrollDown),
        (KeyCode::Up, 0u8, Action::ScrollUp),
        (KeyCode::Down, 0u8, Action::ScrollDown),
        (KeyCode::PageUp, 0u8, Action::PageUp),
        (KeyCode::PageDown, 0u8, Action::PageDown),
        (KeyCode::Home, 0u8, Action::Top),
        (KeyCode::End, 0u8, Action::Bottom),
        (KeyCode::Tab, 0u8, Action::NextView),
        (KeyCode::BackTab, 1u8, Action::PrevView),
        (KeyCode::Char('s'), 0u8, Action::Shuffle),
        (KeyCode::Char('r'), 0u8, Action::ToggleRepeat),
        (KeyCode::Char('v'), 0u8, Action::CycleVisualizer),
        (KeyCode::Char('b'), 0u8, Action::ToggleAscii),
        (KeyCode::Char('.'), 0u8, Action::ToggleLike),
        (KeyCode::Char('R'), 1u8, Action::StartRadio),
        (KeyCode::Char('['), 0u8, Action::CoverSmaller),
        (KeyCode::Char(']'), 0u8, Action::CoverBigger),
        (KeyCode::Enter, 0u8, Action::Enqueue),
        (KeyCode::Enter, 4u8, Action::EnqueueAndPlay),
        (KeyCode::Char('g'), 2u8, Action::EnqueueAndPlay),
        (KeyCode::Char('f'), 0u8, Action::MoveUp),
        (KeyCode::Char('g'), 0u8, Action::MoveDown),
        (KeyCode::Delete, 0u8, Action::Remove),
        (KeyCode::Backspace, 0u8, Action::ClearQueue),
        (KeyCode::Char('1'), 0u8, Action::ShowQueue),
        (KeyCode::Char('2'), 0u8, Action::ShowLibrary),
        (KeyCode::Char('3'), 0u8, Action::ShowTrack),
        (KeyCode::Char('4'), 0u8, Action::ShowSearch),
        (KeyCode::F(2), 0u8, Action::ShowQueue),
        (KeyCode::F(3), 0u8, Action::ShowLibrary),
        (KeyCode::F(4), 0u8, Action::ShowTrack),
        (KeyCode::F(5), 0u8, Action::ShowSearch),
        (KeyCode::F(6), 0u8, Action::ShowHelp),
        (KeyCode::Char('m'), 0u8, Action::ShowLyrics),
        (KeyCode::Char('/'), 0u8, Action::ShowSearch),
        (KeyCode::Char('P'), 1u8, Action::PlayAll),
        (KeyCode::Esc, 0u8, Action::ToggleMenu),
        (KeyCode::Char('q'), 0u8, Action::Quit),
    ]
}

/// A resolved key -> action table.
pub struct Keymap {
    bindings: Vec<(KeyCode, u8, Action)>,
}

impl Keymap {
    pub closed spec fn table(&self) -> Seq<(KeyCode, u8, Action)> {
        self.bindings@
    }

    /// The action of the first binding for `code` whose significant
    /// modifiers are the ones held.
    pub open spec fn resolve_spec(&self, code: KeyCode, mods: u8) -> Option<Action> {
        first_match(self.table(), code, mods)
    }
}

pub open spec fn first_match(t: Seq<(KeyCode, u8, Action)>, code: KeyCode, mods: u8) -> Option<
    Action,
>
    decreases t.len(),
{
    if t.len() == 0 {
        None
    } else if t[0].0 == code && significant(t[0].1) == significant(mods) {
        Some(t[0].2)
    } else {
        first_match(t.drop_first(), code, mods)
    }
}

/// The default keys do what the key list promises: space and `p` play or
/// pause, `h`/`l` and the arrows skip, `j`/`k` and the arrows move the
/// selection, `a`/`d` seek, `+`/`=` raise the volume and `-` lowers it,
/// `s`/`r` shuffle and repeat, `v`/`b` the visualizer and cover, `.` and
/// `R` like and radio, delete and backspace remove and clear, `m` and `/`
/// lyrics and search, `P` plays everything, escape opens the menu and `q`
/// quits. Modifiers tell bindings apart: enter queues the selection and
/// alt+enter or ctrl+g queues and plays it, while a plain `g` moves a row
/// down. Only `+` and `=` raise the volume, and only `-` lowers it.
pub proof fn law_default_keys_match_the_key_list(k: Keymap)
    requires
        k.table() == default_bindings(),
    ensures
        k.resolve_spec(KeyCode::Char(' '), 0) == Some(Action::PlayPause),
        k.resolve_spec(KeyCode::Char('p'), 0) == Some(Action::PlayPause),
        k.resolve_spec(KeyCode::Char('h'), 0) == Some(Action::Prev),
        k.resolve_spec(KeyCode::Left, 0) == Some(Action::Prev),
        k.resolve_spec(KeyCode::Char('l'), 0) == Some(Action::Next),
        k.resolve_spec(KeyCode::Right, 0) == Some(Action::Next),
        k.resolve_spec(KeyCode::Char('j'), 0) == Some(Action::ScrollDown),
        k.resolve_spec(KeyCode::Down, 0) == Some(Action::ScrollDown),
        k.resolve_spec(KeyCode::Char('k'), 0) == Some(Action::ScrollUp),
        k.resolve_spec(KeyCode::Up, 0) == Some(Action::ScrollUp),
        k.resolve_spec(KeyCode::Char('a'), 0) == Some(Action::SeekBack),
        k.resolve_spec(KeyCode::Char('d'), 0) == Some(Action::SeekForward),
        k.resolve_spec(KeyCode::Char('+'), 0) == Some(Action::VolumeUp),
        k.resolve_spec(KeyCode::Char('='), 0) == Some(Action::VolumeUp),
        k.resolve_spec(KeyCode::Char('-'), 0) == Some(Action::VolumeDown),
        k.resolve_spec(KeyCode::Char('s'), 0) == Some(Action::Shuffle),
        k.resolve_spec(KeyCode::Char('r'), 0) == Some(Action::ToggleRepeat),
        k.resolve_spec(KeyCode::Char('v'), 0) == Some(Action::CycleVisualizer),
        k.resolve_spec(KeyCode::Char('b'), 0) == Some(Action::ToggleAscii),
        k.resolve_spec(KeyCode::Char('.'), 0) == Some(Action::ToggleLike),
        k.resolve_spec(KeyCode::Char('R'), SHIFT) == Some(Action::StartRadio),
        k.resolve_spec(KeyCode::Delete, 0) == Some(Action::Remove),
        k.resolve_spec(KeyCode::Backspace, 0) == Some(Action::ClearQueue),
        k.resolve_spec(KeyCode::Char('m'), 0) == Some(Action::ShowLyrics),
        k.resolve_spec(KeyCode::Char('/'), 0) == Some(Action::ShowSearch),
        k.resolve_spec(KeyCode::Char('P'), SHIFT) == Some(Action::PlayAll),
        k.resolve_spec(KeyCode::Esc, 0) == Some(Action::ToggleMenu),
        k.resolve_spec(KeyCode::Char('q'), 0) == Some(Action::Quit),
        k.resolve_spec(KeyCode::Enter, 0) == Some(Action::Enqueue),
        k.resolve_spec(KeyCode::Enter, ALT) == Some(Action::EnqueueAndPlay),
        k.resolve_spec(KeyCode::Char('g'), CONTROL) == Some(Action::EnqueueAndPlay),
        k.resolve_spec(KeyCode::Char('g'), 0) == Some(Action::MoveDown),
        forall|code: KeyCode|
            #![trigger k.resolve_spec(code, 0)]
            k.resolve_spec(code, 0) == Some(Action::VolumeUp) ==> code == KeyCode::Char('+') || code
                == KeyCode::Char('='),
        forall|code: KeyCode|
            #![trigger k.resolve_spec(code, 0)]
            k.resolve_spec(code, 0) == Some(Action::VolumeDown) ==> code == KeyCode::Char('-'),
{
    let t = default_bindings();
    lemma_default_front_keys();
    lemma_first_match_split(t, 24, KeyCode::Char('P'), SHIFT);
    lemma_first_match_split(t, 24, KeyCode::Esc, 0);
    lemma_first_match_split(t, 24, KeyCode::Char('q'), 0);
    lemma_default_head(KeyCode::Char('P'), SHIFT);
    lemma_default_head(KeyCode::Esc, 0);
    lemma_default_head(KeyCode::Char('q'), 0);
    lemma_first_match_split(t, 24, KeyCode::Enter, 0);
    lemma_first_match_split(t, 24, KeyCode::Enter, ALT);
    lemma_first_match_split(t, 24, KeyCode::Char('g'), CONTROL);
    lemma_first_match_split(t, 24, KeyCode::Char('g'), 0);
    lemma_default_head(KeyCode::Enter, 0);
    lemma_default_head(KeyCode::Enter, ALT);
    lemma_default_head(KeyCode::Char('g'), CONTROL);
    lemma_default_head(KeyCode::Char('g'), 0);
    lemma_default_tail_keys();
    assert forall|code: KeyCode|
        #![trigger k.resolve_spec(code, 0)]
        k.resolve_spec(code, 0) == Some(Action::VolumeUp) || k.resolve_spec(code, 0) == Some(
            Action::VolumeDown,
        ) implies (k.resolve_spec(code, 0) == Some(Action::VolumeUp) ==> code == KeyCode::Char(
            '+',
        ) || code == KeyCode::Char('=')) && (k.resolve_spec(code, 0) == Some(Action::VolumeDown)
            ==> code == KeyCode::Char('-')) by {
        lemma_first_match_split(t, 24, code, 0);
        lemma_default_head(code, 0);
        lemma_default_tail(code);
    }
}

proof fn lemma_default_front_keys()
    ensures
        ({
            let t = default_bindings();
            &&& first_match(t, KeyCode::Char(' '), 0) == Some(Action::PlayPause)
            &&& first_match(t, KeyCode::Char('p'), 0) == Some(Action::PlayPause)
            &&& first_match(t, KeyCode::Char('h'), 0) == Some(Action::Prev)
            &&& first_match(t, KeyCode::Left, 0) == Some(Action::Prev)
            &&& first_match(t, KeyCode::Char('l'), 0) == Some(Action::Next)
            &&& first_match(t, KeyCode::Right, 0) == Some(Action::Next)
            &&& first_match(t, KeyCode::Char('j'), 0) == Some(Action::ScrollDown)
            &&& first_match(t, KeyCode::Down, 0) == Some(Action::ScrollDown)
            &&& first_match(t, KeyCode::Char('k'), 0) == Some(Action::ScrollUp)
            &&& first_match(t, KeyCode::Up, 0) == Some(Action::ScrollUp)
            &&& first_match(t, KeyCode::Char('a'), 0) == Some(Action::SeekBack)
            &&& first_match(t, KeyCode::Char('d'), 0) == Some(Action::SeekForward)
            &&& first_match(t, KeyCode::Char('+'), 0) == Some(Action::VolumeUp)
            &&& first_match(t, KeyCode::Char('='), 0) == Some(Action::VolumeUp)
            &&& first_match(t, KeyCode::Char('-'), 0) == Some(Action::VolumeDown)
            &&& first_match(t, KeyCode::Char('s'), 0) == Some(Action::Shuffle)
            &&& first_match(t, KeyCode::Char('r'), 0) == Some(Action::ToggleRepeat)
            &&& first_match(t, KeyCode::Char('v'), 0) == Some(Action::CycleVisualizer)
            &&& first_match(t, KeyCode::Char('b'), 0) == Some(Action::ToggleAscii)
            &&& first_match(t, KeyCode::Char('.'), 0) == Some(Action::ToggleLike)
            &&& first_match(t, KeyCode::Char('R'), SHIFT) == Some(Action::StartRadio)
            &&& first_match(t, KeyCode::Delete, 0) == Some(Action::Remove)
            &&& first_match(t, KeyCode::Backspace, 0) == Some(Action::ClearQueue)
            &&& first_match(t, KeyCode::Char('m'), 0) == Some(Action::ShowLyrics)
            &&& first_match(t, KeyCode::Char('/'), 0) == Some(Action::ShowSearch)
        }),
{
    assert(0u8 & 6u8 == 0u8 && 1u8 & 6u8 == 0u8 && 2u8 & 6u8 == 2u8 && 4u8 & 6u8 == 4u8) by (bit_vector);
    reveal_with_fuel(first_match, 48);
}

/// In the first bindings of the default table only `+` and `=` raise the
/// volume and only `-` lowers it; none of them is `P`, escape, `q`,
/// enter or `g`.
proof fn lemma_default_head(code: KeyCode, mods: u8)
    requires
        mods == 0 || mods == SHIFT || mods == CONTROL || mods == ALT,
    ensures
        ({
            let r = first_match(default_bindings().take(24), code, mods);
            &&& r == Some(Action::VolumeUp) ==> code == KeyCode::Char('+') || code == KeyCode::Char('=')
            &&& r == Some(Action::VolumeDown) ==> code == KeyCode::Char('-')
            &&& (code == KeyCode::Char('P') || code == KeyCode::Esc || code == KeyCode::Char('q')
                || code == KeyCode::Enter || code == KeyCode::Char('g')) ==> r is None
        }),
{
    assert(0u8 & 6u8 == 0u8 && 1u8 & 6u8 == 0u8 && 2u8 & 6u8 == 2u8 && 4u8 & 6u8 == 4u8) by (bit_vector);
    reveal_with_fuel(first_match, 25);
}

/// The rest of the default table neither raises nor lowers the volume.
proof fn lemma_default_tail(code: KeyCode)
    ensures
        first_match(default_bindings().skip(24), code, 0) != Some(Action::VolumeUp),
        first_match(default_bindings().skip(24), code, 0) != Some(Action::VolumeDown),
{
    assert(0u8 & 6u8 == 0u8 && 1u8 & 6u8 == 0u8 && 2u8 & 6u8 == 2u8 && 4u8 & 6u8 == 4u8) by (bit_vector);
    reveal_with_fuel(first_match, 28);
}

/// In the rest of the default table `P` plays everything, escape opens the
/// menu and `q` quits; enter queues and alt+enter or ctrl+g queues and
/// plays, while a plain `g` moves the row down.
proof fn lemma_default_tail_keys()
    ensures
        ({
            let t = default_bindings().skip(24);
            &&& first_match(t, KeyCode::Char('P'), SHIFT) == Some(Action::PlayAll)
            &&& first_match(t, KeyCode::Esc, 0) == Some(Action::ToggleMenu)
            &&& first_match(t, KeyCode::Char('q'), 0) == Some(Action::Quit)
            &&& first_match(t, KeyCode::Enter, 0) == Some(Action::Enqueue)
            &&& first_match(t, KeyCode::Enter, ALT) == Some(Action::EnqueueAndPlay)
            &&& first_match(t, KeyCode::Char('g'), CONTROL) == Some(Action::EnqueueAndPlay)
            &&& first_match(t, KeyCode::Char('g'), 0) == Some(Action::MoveDown)
        }),
{
    assert(0u8 & 6u8 == 0u8 && 1u8 & 6u8 == 0u8 && 2u8 & 6u8 == 2u8 && 4u8 & 6u8 == 4u8) by (bit_vector);
    reveal_with_fuel(first_match, 28);
}

/// Shift plays no part in finding a binding: it is implicit in the
/// character, so a key resolves alike with or without it.
pub proof fn law_shift_is_implicit(k: Keymap, code: KeyCode, mods: u8)
    ensures
        k.resolve_spec(code, mods | SHIFT) == k.resolve_spec(code, mods),
        k.resolve_spec(code, mods & 6u8) == k.resolve_spec(code, mods),
{
    assert((mods | 1u8) & 6u8 == mods & 6u8) by (bit_vector);
    assert((mods & 6u8) & 6u8 == mods & 6u8) by (bit_vector);
    lemma_first_match_same_mods(k.table(), code, mods | SHIFT, mods);
    lemma_first_match_same_mods(k.table(), code, mods & 6u8, mods);
}

proof fn lemma_first_match_same_mods(t: Seq<(KeyCode, u8, Action)>, code: KeyCode, a: u8, b: u8)
    requires
        significant(a) == significant(b),
    ensures
        first_match(t, code, a) == first_match(t, code, b),
    decreases t.len(),
{
    if t.len() > 0 {
        lemma_first_match_same_mods(t.drop_first(), code, a, b);
    }
}

/// The first match in `t`, looked for in its first `n` bindings and then
/// in the rest.
pub open spec fn first_match_split(t: Seq<(KeyCode, u8, Action)>, n: int, code: KeyCode, mods: u8) -> Option<Action> {
    match first_match(t.take(n), code, mods) {
        Some(a) => Some(a),
        None => first_match(t.skip(n), code, mods),
    }
}

proof fn lemma_first_match_split(t: Seq<(KeyCode, u8, Action)>, n: int, code: KeyCode, mods: u8)
    requires
        0 <= n <= t.len(),
    ensures
        first_match(t, code, mods) == first_match_split(t, n, code, mods),
    decreases n,
{
    if n == 0 {
        assert(t.skip(0) =~= t);
    } else {
        lemma_first_match_split(t.drop_first(), n - 1, code, mods);
        assert(t.take(n).drop_first() =~= t.drop_first().take(n - 1));
        assert(t.drop_first().skip(n - 1) =~= t.skip(n));
        assert(t.take(n)[0] == t[0]);
    }
}

impl Default for Keymap {
    /// kew's default bindings.
    fn default() -> (r: Self)
        ensures
            r.table() == default_bindings(),
    {
        let bindings = vec![
            (KeyCode::Char(' '), 0u8, Action::PlayPause),
            (KeyCode::Char('p'), 0u8, Action::PlayPause),
            (KeyCode::Char('S'), 1u8, Action::Stop),
            (KeyCode::Char('h'), 0u8, Action::Prev),
            (KeyCode::Char('l'), 0u8, Action::Next),
            (KeyCode::Left, 0u8, Action::Prev),
            (KeyCode::Right, 0u8, Action::Next),
            (KeyCode::Char('a'), 0u8, Action::SeekBack),
            (KeyCode::Char('d'), 0u8, Action::SeekForward),
            (KeyCode::Char('+'), 0u8, Action::VolumeUp),
            (KeyCode::Char('='), 0u8, Action::VolumeUp),
            (KeyCode::Char('-'), 0u8, Action::VolumeDown),
            (KeyCode::Char('k'), 0u8, Action::ScrollUp),
            (KeyCode::Char('j'), 0u8, Action::ScrollDown),
            (KeyCode::Up, 0u8, Action::ScrollUp),
            (KeyCode::Down, 0u8, Action::ScrollDown),
            (KeyCode::PageUp, 0u8, Action::PageUp),
            (KeyCode::PageDown, 0u8, Action::PageDown),
            (KeyCode::Home, 0u8, Action::Top),
            (KeyCode::End, 0u8, Action::Bottom),
            (KeyCode::Tab, 0u8, Action::NextView),
            (KeyCode::BackTab, 1u8, Action::PrevView),
            (KeyCode::Char('s'), 0u8, Action::Shuffle),
            (KeyCode::Char('r'), 0u8, Action::ToggleRepeat),
            (KeyCode::Char('v'), 0u8, Action::CycleVisualizer),
            (KeyCode::Char('b'), 0u8, Action::ToggleAscii),
            (KeyCode::Char('.'), 0u8, Action::ToggleLike),
            (KeyCode::Char('R'), 1u8, Action::StartRadio),
            (KeyCode::Char('['), 0u8, Action::CoverSmaller),
            (KeyCode::Char(']'), 0u8, Action::CoverBigger),
            (KeyCode::Enter, 0u8, Action::Enqueue),
            (KeyCode::Enter, 4u8, Action::EnqueueAndPlay),
            (KeyCode::Char('g'), 2u8, Action::EnqueueAndPlay),
            (KeyCode::Char('f'), 0u8, Action::MoveUp),
            (KeyCode::Char('g'), 0u8, Action::MoveDown),
            (KeyCode::Delete, 0u8, Action::Remove),
            (KeyCode::Backspace, 0u8, Action::ClearQueue),
            (KeyCode::Char('1'), 0u8, Action::ShowQueue),
            (KeyCode::Char('2'), 0u8, Action::ShowLibrary),
            (KeyCode::Char('3'), 0u8, Action::ShowTrack),
            (KeyCode::Char('4'), 0u8, Action::ShowSearch),
            (KeyCode::F(2), 0u8, Action::ShowQueue),
            (KeyCode::F(3), 0u8, Action::ShowLibrary),
            (KeyCode::F(4), 0u8, Action::ShowTrack),
            (KeyCode::F(5), 0u8, Action::ShowSearch),
            (KeyCode::F(6), 0u8, Action::ShowHelp),
            (KeyCode::Char('m'), 0u8, Action::ShowLyrics),
            (KeyCode::Char('/'), 0u8, Action::ShowSearch),
            (KeyCode::Char('P'), 1u8, Action::PlayAll),
            (KeyCode::Esc, 0u8, Action::ToggleMenu),
            (KeyCode::Char('q'), 0u8, Action::Quit),
        ];
        assert(bindings@ =~= default_bindings());
        Keymap { bindings }
    }
}

/// The name the help view shows for a key.
pub open spec fn key_name_spec(code: KeyCode) -> Seq<char> {
    match code {
        KeyCode::Char(c) => if c == ' ' {
            "space"@
        } else {
            seq![c]
        },
        KeyCode::F(n) => seq!['F'] + crate::text::decimal(n as nat),
        KeyCode::Enter => "enter"@,
        KeyCode::Esc => "esc"@,
        KeyCode::Tab => "tab"@,
        KeyCode::BackTab => "shift+tab"@,
        KeyCode::Backspace => "bksp"@,
        KeyCode::Delete => "del"@,
        KeyCode::Left => "\u{2190}"@,
        KeyCode::Right => "\u{2192}"@,
        KeyCode::Up => "\u{2191}"@,
        KeyCode::Down => "\u{2193}"@,
        KeyCode::PageUp => "pgup"@,
        KeyCode::PageDown => "pgdn"@,
        KeyCode::Home => "home"@,
        KeyCode::End => "end"@,
        KeyCode::Other => "other"@,
    }
}

/// A binding as the help view spells it, modifiers first.
pub open spec fn binding_name(code: KeyCode, mods: u8) -> Seq<char> {
    (if mods & 2u8 != 0 { "ctrl+"@ } else { seq![] }) + (if mods & 4u8 != 0 {
        "alt+"@
    } else {
        seq![]
    }) + key_name_spec(code)
}

/// The names of the bindings of `action`, in table order.
pub open spec fn names_for(t: Seq<(KeyCode, u8, Action)>, action: Action) -> Seq<Seq<char>>
    decreases t.len(),
{
    if t.len() == 0 {
        seq![]
    } else {
        let rest = names_for(t.drop_last(), action);
        if t.last().2 == action {
            rest.push(binding_name(t.last().0, t.last().1))
        } else {
            rest
        }
    }
}

fn push_key_name(out: &mut Vec<char>, code: KeyCode)
    ensures
        final(out)@ == old(out)@ + key_name_spec(code),
{
    match code {
        KeyCode::Char(c) => if c == ' ' {
            push_str(out, "space");
        } else {
            out.push(c);
        },
        KeyCode::F(n) => {
            out.push('F');
            push_decimal(out, n as u64);
            assert(final(out)@ =~= old(out)@ + key_name_spec(code));
        },
        KeyCode::Enter => push_str(out, "enter"),
        KeyCode::Esc => push_str(out, "esc"),
        KeyCode::Tab => push_str(out, "tab"),
        KeyCode::BackTab => push_str(out, "shift+tab"),
        KeyCode::Backspace => push_str(out, "bksp"),
        KeyCode::Delete => push_str(out, "del"),
        KeyCode::Left => push_str(out, "\u{2190}"),
        KeyCode::Right => push_str(out, "\u{2192}"),
        KeyCode::Up => push_str(out, "\u{2191}"),
        KeyCode::Down => push_str(out, "\u{2193}"),
        KeyCode::PageUp => push_str(out, "pgup"),
        KeyCode::PageDown => push_str(out, "pgdn"),
        KeyCode::Home => push_str(out, "home"),
        KeyCode::End => push_str(out, "end"),
        KeyCode::Other => push_str(out, "other"),
    }
}

impl Keymap {
    pub fn resolve(&self, code: KeyCode, mods: u8) -> (r: Option<Action>)
        ensures
            r == self.resolve_spec(code, mods),
    {
        let sig = mods & 6u8;
        let mut i: usize = 0;
        assert(self.bindings@.skip(0) =~= self.bindings@);
        while i < self.bindings.len()
            invariant
                0 <= i <= self.bindings@.len(),
                sig == significant(mods),
                first_match(self.bindings@, code, mods) == first_match(
                    self.bindings@.skip(i as int),
                    code,
                    mods,
                ),
            decreases self.bindings@.len() - i,
        {
            let (c, m, a) = self.bindings[i];
            assert(self.bindings@.skip(i as int)[0] == self.bindings@[i as int]);
            if c == code && (m & 6u8) == sig {
                return Some(a);
            }
            assert(self.bindings@.skip(i as int).drop_first() =~= self.bindings@.skip(i + 1));
            i += 1;
        }
        None
    }

    /// The key(s) bound to an action, for rendering the help view.
    /// Modifiers are included: without them `ctrl+g` renders as a bare `g`,
    /// which collides with whatever plain `g` is bound to.
    pub fn keys_for(&self, action: Action) -> (r: Vec<String>)
        ensures
            r@.len() == names_for(self.table(), action).len(),
            forall|k: int| 0 <= k < r@.len() ==> #[trigger] r@[k]@ == names_for(self.table(), action)[k],
    {
        let mut out: Vec<String> = Vec::new();
        let mut i: usize = 0;
        while i < self.bindings.len()
            invariant
                0 <= i <= self.bindings@.len(),
                out@.len() == names_for(self.bindings@.take(i as int), action).len(),
                forall|k: int| 0 <= k < out@.len() ==> #[trigger] out@[k]@ == names_for(
                    self.bindings@.take(i as int),
                    action,
                )[k],
            decreases self.bindings@.len() - i,
        {
            let (c, m, a) = self.bindings[i];
            assert(self.bindings@.take(i + 1).drop_last() =~= self.bindings@.take(i as int));
            if a == action {
                let mut s: Vec<char> = Vec::new();
                if m & 2u8 != 0 {
                    push_str(&mut s, "ctrl+");
                }
                if m & 4u8 != 0 {
                    push_str(&mut s, "alt+");
                }
                push_key_name(&mut s, c);
                assert(s@ =~= binding_name(c, m));
                out.push(string_from(s.as_slice()));
            }
            i += 1;
        }
        assert(self.bindings@.take(self.bindings@.len() as int) =~= self.bindings@);
        out
    }
}

} // verus!
