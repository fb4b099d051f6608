//! What the desktop media controls are told about the current track.
//!
//! The D-Bus service itself belongs to the program; the identity a track is
//! published under, and which metadata fields it carries, are decided here.
use vstd::prelude::*;
use vstd::utf8::{encode_utf8, decode_utf8};
use crate::model::watch_url;
use crate::queue::{Queue, RepeatMode};
use crate::text::{push_str, string_from};

verus! {

broadcast use vstd::utf8::encode_utf8_decode_utf8;

/// The lower-case hex digit for `n` in 0..16.
pub open spec fn hex_char(n: int) -> char {
    if n < 10 {
        (n + 48) as char
    } else {
        (n + 87) as char
    }
}

/// The value of a lower-case hex digit.
pub open spec fn hex_value(c: char) -> int {
    if (c as int) < 58 {
        c as int - 48
    } else {
        c as int - 87
    }
}

/// Each byte as two lower-case hex digits, high nibble first.
pub open spec fn hex_bytes(b: Seq<u8>) -> Seq<char>
    decreases b.len(),
{
    if b.len() == 0 {
        Seq::empty()
    } else {
        hex_bytes(b.drop_last()) + seq![hex_char((b.last() / 16) as int), hex_char((b.last() % 16) as int)]
    }
}

/// Reading pairs of hex digits back into bytes.
pub open spec fn unhex(s: Seq<char>) -> Seq<u8>
    decreases s.len(),
{
    if s.len() < 2 {
        Seq::empty()
    } else {
        unhex(s.take(s.len() - 2)).push((16 * hex_value(s[s.len() - 2]) + hex_value(s[s.len() - 1])) as u8)
    }
}

/// The object path prefix every track id shares. The `x` keeps the last
/// element nonempty even for an empty video id.
pub open spec fn track_prefix() -> Seq<char> {
    "/org/mpris/MediaPlayer2/ytkew/track/x"@
}

/// The object path a track is published under: the prefix, then the video
/// id's UTF-8 bytes in hex. Object paths allow only `[A-Za-z0-9_]` in an
/// element, while video ids are base64url and so contain `-`; hex keeps the
/// id stable and collision-free, where the queue index would change a
/// track's identity whenever the queue was reordered.
pub open spec fn track_path_spec(video_id: Seq<char>) -> Seq<char> {
    track_prefix() + hex_bytes(encode_utf8(video_id))
}

proof fn lemma_hex_char(n: int)
    requires
        0 <= n < 16,
    ensures
        hex_value(hex_char(n)) == n,
        ('0' <= hex_char(n) <= '9') || ('a' <= hex_char(n) <= 'f'),
{
    if n < 10 {
        assert(((n + 48) as char) as int == n + 48);
    } else {
        assert(((n + 87) as char) as int == n + 87);
    }
}

proof fn lemma_hex_bytes_len(b: Seq<u8>)
    ensures
        hex_bytes(b).len() == 2 * b.len(),
    decreases b.len(),
{
    if b.len() > 0 {
        lemma_hex_bytes_len(b.drop_last());
    }
}

proof fn lemma_unhex_hex(b: Seq<u8>)
    ensures
        unhex(hex_bytes(b)) == b,
    decreases b.len(),
{
    if b.len() > 0 {
        let h = hex_bytes(b);
        let x = b.last();
        lemma_hex_bytes_len(b);
        lemma_hex_bytes_len(b.drop_last());
        lemma_unhex_hex(b.drop_last());
        lemma_hex_char((x / 16) as int);
        lemma_hex_char((x % 16) as int);
        assert(h.take(h.len() - 2) =~= hex_bytes(b.drop_last()));
        assert(16 * (x / 16) + x % 16 == x);
        assert(unhex(h) =~= b);
    }
}

proof fn lemma_hex_digits(b: Seq<u8>)
    ensures
        forall|i: int|
            0 <= i < hex_bytes(b).len() ==> ('0' <= #[trigger] hex_bytes(b)[i] <= '9') || ('a'
                <= hex_bytes(b)[i] <= 'f'),
    decreases b.len(),
{
    if b.len() > 0 {
        lemma_hex_digits(b.drop_last());
        lemma_hex_char((b.last() / 16) as int);
        lemma_hex_char((b.last() % 16) as int);
        lemma_hex_bytes_len(b.drop_last());
    }
}

/// Two tracks share a published identity only when they are the same
/// video: the track path determines the video id.
pub proof fn law_track_paths_identify_tracks(a: Seq<char>, b: Seq<char>)
    requires
        track_path_spec(a) == track_path_spec(b),
    ensures
        a == b,
{
    let ha = hex_bytes(encode_utf8(a));
    let hb = hex_bytes(encode_utf8(b));
    assert(ha =~= track_path_spec(a).skip(track_prefix().len() as int));
    assert(hb =~= track_path_spec(b).skip(track_prefix().len() as int));
    lemma_unhex_hex(encode_utf8(a));
    lemma_unhex_hex(encode_utf8(b));
    assert(decode_utf8(encode_utf8(a)) == a);
    assert(decode_utf8(encode_utf8(b)) == b);
}

/// Every track path is a valid object path: after the fixed prefix, the
/// last element holds only ASCII letters and digits.
pub proof fn law_track_path_is_an_object_path(video_id: Seq<char>)
    ensures
        track_path_spec(video_id).take(track_prefix().len() as int) == track_prefix(),
        forall|i: int|
            track_prefix().len() <= i < track_path_spec(video_id).len() ==> ('0'
                <= #[trigger] track_path_spec(video_id)[i] <= '9') || ('a' <= track_path_spec(
                video_id,
            )[i] <= 'f'),
{
    let b = encode_utf8(video_id);
    lemma_hex_digits(b);
    assert(track_path_spec(video_id).take(track_prefix().len() as int) =~= track_prefix());
    assert forall|i: int|
        track_prefix().len() <= i < track_path_spec(video_id).len() implies ('0'
            <= #[trigger] track_path_spec(video_id)[i] <= '9') || ('a' <= track_path_spec(video_id)[i]
            <= 'f') by {
        assert(track_path_spec(video_id)[i] == hex_bytes(b)[i - track_prefix().len()]);
    }
}

/// The hex digit for `n` in 0..16.
fn hex_digit(n: u8) -> (c: char)
    requires
        n < 16,
    ensures
        c == hex_char(n as int),
{
    if n < 10 {
        let v: u8 = n + 48;
        v as char
    } else {
        let v: u8 = n + 87;
        v as char
    }
}

/// The object path a track is published under.
pub fn track_path(video_id: &str) -> (r: String)
    ensures
        r@ == track_path_spec(video_id@),
{
    let bytes = video_id.as_bytes();
    let mut out: Vec<char> = Vec::new();
    push_str(&mut out, "/org/mpris/MediaPlayer2/ytkew/track/x");
    let ghost start = out@;
    let mut i: usize = 0;
    while i < bytes.len()
        invariant
            i <= bytes@.len(),
            bytes@ == encode_utf8(video_id@),
            start == track_prefix(),
            out@ == start + hex_bytes(bytes@.take(i as int)),
        decreases bytes@.len() - i,
    {
        let b = bytes[i];
        out.push(hex_digit(b / 16));
        out.push(hex_digit(b % 16));
        assert(bytes@.take(i + 1).drop_last() =~= bytes@.take(i as int));
        i += 1;
        assert(out@ =~= start + hex_bytes(bytes@.take(i as int)));
    }
    assert(bytes@.take(bytes@.len() as int) =~= bytes@);
    string_from(out.as_slice())
}

/// The fields the desktop shows for a track, before the program puts them
/// into a D-Bus metadata map (with the length, which it keeps in seconds as
/// a float).
pub struct TrackMeta {
    /// The object path the track is published under.
    pub track_id: String,
    pub title: String,
    /// Absent when the track names no artist.
    pub artist: Option<String>,
    pub album: Option<String>,
    /// The cached cover as a `file://` URL, else the remote thumbnail.
    pub art_url: Option<String>,
    /// The watch page.
    pub url: String,
}

/// An optional string, as plain text.
pub open spec fn opt_view(o: Option<&str>) -> Option<Seq<char>> {
    match o {
        Some(s) => Some(s@),
        None => None,
    }
}

/// An optional owned string, as plain text.
pub open spec fn opt_string_view(o: Option<String>) -> Option<Seq<char>> {
    match o {
        Some(s) => Some(s@),
        None => None,
    }
}

fn owned(o: Option<&str>) -> (r: Option<String>)
    ensures
        opt_string_view(r) == opt_view(o),
{
    match o {
        Some(s) => Some(s.to_string()),
        None => None,
    }
}

/// Metadata for a track. `art_path` is where its cover is cached: desktop
/// widgets fetch the art URL themselves and most only handle `file://`, so
/// the remote thumbnail is only the fallback.
pub fn metadata_for(
    video_id: &str,
    title: &str,
    artist: &str,
    album: Option<&str>,
    thumbnail: Option<&str>,
    art_path: Option<&str>,
) -> (m: TrackMeta)
    ensures
        m.track_id@ == track_path_spec(video_id@),
        m.title@ == title@,
        opt_string_view(m.artist) == if artist@.len() == 0 {
            None
        } else {
            Some(artist@)
        },
        opt_string_view(m.album) == opt_view(album),
        opt_string_view(m.art_url) == match art_path {
            Some(p) => Some("file://"@ + p@),
            None => opt_view(thumbnail),
        },
        m.url@ == "https://music.youtube.com/watch?v="@ + video_id@,
{
    let art_url = match art_path {
        Some(p) => {
            let mut v: Vec<char> = Vec::new();
            push_str(&mut v, "file://");
            push_str(&mut v, p);
            Some(string_from(v.as_slice()))
        },
        None => owned(thumbnail),
    };
    TrackMeta {
        track_id: track_path(video_id),
        title: title.to_string(),
        artist: if artist.is_empty() {
            None
        } else {
            Some(artist.to_string())
        },
        album: owned(album),
        art_url,
        url: watch_url(video_id),
    }
}


/// Whether anything plays, as the media controls report it.
#[derive(Clone, Copy, Debug, PartialEq, Eq, Structural)]
pub enum Playback {
    Stopped,
    Paused,
    Playing,
}

/// What the media controls show of the transport and allow of it.
#[derive(Clone, Copy, Debug, PartialEq, Eq, Structural)]
pub struct Transport {
    pub status: Playback,
    pub can_next: bool,
    pub can_prev: bool,
    pub can_play: bool,
    pub can_seek: bool,
    pub shuffle: bool,
    pub repeat: RepeatMode,
}

/// The transport of a queue: stopped with no current track, else paused
/// or playing; skipping ahead needs a next track, the rest a current one.
pub open spec fn transport_spec<T>(q: Queue<T>, paused: bool) -> Transport {
    let playing = q.current_item() is Some;
    Transport {
        status: if !playing {
            Playback::Stopped
        } else if paused {
            Playback::Paused
        } else {
            Playback::Playing
        },
        can_next: q.item_at_place(q.next_pos_spec()) is Some,
        can_prev: playing,
        can_play: playing,
        can_seek: playing,
        shuffle: q.shuffled(),
        repeat: q.mode(),
    }
}

/// The transport to publish for this queue.
pub fn transport<T>(q: &Queue<T>, paused: bool) -> (r: Transport)
    requires
        q.wf(),
    ensures
        r == transport_spec(*q, paused),
{
    let playing = q.current().is_some();
    let status = if !playing {
        Playback::Stopped
    } else if paused {
        Playback::Paused
    } else {
        Playback::Playing
    };
    Transport {
        status,
        can_next: q.peek_next().is_some(),
        can_prev: playing,
        can_play: playing,
        can_seek: playing,
        shuffle: q.is_shuffled(),
        repeat: q.repeat_mode(),
    }
}

/// A property whose change the media controls are told of.
#[derive(Clone, Copy, Debug, PartialEq, Eq, Structural)]
pub enum Change {
    PlaybackStatus,
    Metadata,
    Volume,
    CanGoNext,
    CanGoPrevious,
    CanPlay,
    CanPause,
    CanSeek,
    Shuffle,
    LoopStatus,
}

/// The properties to announce when the transport goes from `a` to `b`,
/// with the track and the volume changed or not: each that differs, in
/// this order, play and pause together.
pub open spec fn changes_spec(a: Transport, b: Transport, track_changed: bool, volume_changed: bool) -> Seq<Change> {
    only_if(a.status != b.status, seq![Change::PlaybackStatus]) + only_if(track_changed, seq![Change::Metadata])
        + only_if(volume_changed, seq![Change::Volume]) + only_if(a.can_next != b.can_next, seq![Change::CanGoNext])
        + only_if(a.can_prev != b.can_prev, seq![Change::CanGoPrevious]) + only_if(
        a.can_play != b.can_play,
        seq![Change::CanPlay, Change::CanPause],
    ) + only_if(a.can_seek != b.can_seek, seq![Change::CanSeek]) + only_if(a.shuffle != b.shuffle, seq![Change::Shuffle])
        + only_if(a.repeat != b.repeat, seq![Change::LoopStatus])
}

/// `c` appended when `cond` holds.
pub open spec fn only_if(cond: bool, c: Seq<Change>) -> Seq<Change> {
    if cond {
        c
    } else {
        seq![]
    }
}

fn push_when(r: &mut Vec<Change>, cond: bool, c: Change)
    ensures
        final(r)@ == old(r)@ + only_if(cond, seq![c]),
{
    if cond {
        r.push(c);
    }
    assert(final(r)@ =~= old(r)@ + only_if(cond, seq![c]));
}

/// The properties that changed; none when nothing did, and then nothing
/// is published.
pub fn changes(a: &Transport, b: &Transport, track_changed: bool, volume_changed: bool) -> (r: Vec<Change>)
    ensures
        r@ == changes_spec(*a, *b, track_changed, volume_changed),
{
    let mut r: Vec<Change> = Vec::new();
    push_when(&mut r, a.status != b.status, Change::PlaybackStatus);
    push_when(&mut r, track_changed, Change::Metadata);
    push_when(&mut r, volume_changed, Change::Volume);
    push_when(&mut r, a.can_next != b.can_next, Change::CanGoNext);
    push_when(&mut r, a.can_prev != b.can_prev, Change::CanGoPrevious);
    let ghost before = r@;
    push_when(&mut r, a.can_play != b.can_play, Change::CanPlay);
    push_when(&mut r, a.can_play != b.can_play, Change::CanPause);
    assert(r@ =~= before + only_if(a.can_play != b.can_play, seq![Change::CanPlay, Change::CanPause]));
    push_when(&mut r, a.can_seek != b.can_seek, Change::CanSeek);
    push_when(&mut r, a.shuffle != b.shuffle, Change::Shuffle);
    push_when(&mut r, a.repeat != b.repeat, Change::LoopStatus);
    assert(r@ =~= changes_spec(*a, *b, track_changed, volume_changed));
    r
}

/// Skipping ahead is offered exactly when a track follows the current one:
/// a later place in the play order, or with repeat-all any place at all.
/// With no current track, or at the last place without repeat-all, it is
/// not; the rest of the controls need a current track.
pub proof fn law_next_offered_only_when_a_track_follows<T>(q: Queue<T>, paused: bool)
    requires
        q.wf(),
    ensures
        transport_spec(q, paused).can_next == (q.cursor() matches Some(p) && (p + 1 < q.play_order().len() || q.mode()
            == RepeatMode::All)),
        transport_spec(q, paused).can_prev == q.cursor() is Some,
        transport_spec(q, paused).can_play == q.cursor() is Some,
        transport_spec(q, paused).can_seek == q.cursor() is Some,
        transport_spec(q, paused).status == if q.cursor() is None {
            Playback::Stopped
        } else if paused {
            Playback::Paused
        } else {
            Playback::Playing
        },
{
    let n = q.play_order().len() as int;
    if let Some(p) = q.cursor() {
        assert(q.play_order()[p as int] < q.items().len());
        if q.mode() == RepeatMode::All {
            assert(0 <= (p + 1) % n < n) by (nonlinear_arith)
                requires
                    n > 0,
            ;
            let k = (p + 1) % n;
            assert(q.play_order()[k] < q.items().len());
        } else if p + 1 < n {
            assert(q.play_order()[p + 1] < q.items().len());
        }
    }
}

/// Publishing the same transport again, with the same track and volume,
/// announces nothing.
pub proof fn law_unchanged_state_stays_quiet(t: Transport)
    ensures
        changes_spec(t, t, false, false) == Seq::<Change>::empty(),
{
    assert(changes_spec(t, t, false, false) =~= Seq::<Change>::empty());
}

/// What identifies the published track: its video id and the cover path,
/// so metadata is republished once the cover arrives, not only when the
/// track changes.
pub open spec fn track_key_spec(video_id: Seq<char>, art_path: Option<Seq<char>>) -> Seq<char> {
    video_id + "|"@ + match art_path {
        Some(p) => p,
        None => Seq::<char>::empty(),
    }
}

/// The key of the published track.
pub fn track_key(video_id: &str, art_path: Option<&str>) -> (r: String)
    ensures
        r@ == track_key_spec(video_id@, opt_view(art_path)),
{
    let mut v: Vec<char> = Vec::new();
    push_str(&mut v, video_id);
    push_str(&mut v, "|");
    match art_path {
        Some(p) => push_str(&mut v, p),
        None => {},
    }
    proof {
        reveal_strlit("|");
    }
    string_from(v.as_slice())
}

} // verus!
