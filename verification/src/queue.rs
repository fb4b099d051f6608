//! Playback queue.
//!
//! `tracks` holds the queue in the order the user sees and edits it; `order`
//! is the order playback actually follows. Keeping them separate means
//! toggling shuffle never scrambles the list on screen, and toggling it back
//! off restores the original sequence rather than an approximation of it.
//!
//! The queue is generic over what a track is: nothing here looks inside one.
use vstd::prelude::*;

verus! {

broadcast use vstd::seq_lib::group_to_multiset_ensures;

/// What happens when playback reaches the end of the queue.
#[derive(Clone, Copy, Debug, PartialEq, Eq, Structural)]
pub enum RepeatMode {
    Off,
    /// Loop the current track forever.
    One,
    /// Wrap around to the start when the queue ends.
    All,
}

impl RepeatMode {
    /// The mode the repeat key moves to: off, all, one, then off again.
    pub open spec fn spec_cycle(self) -> RepeatMode {
        match self {
            RepeatMode::Off => RepeatMode::All,
            RepeatMode::All => RepeatMode::One,
            RepeatMode::One => RepeatMode::Off,
        }
    }

    pub fn cycle(self) -> (r: Self)
        ensures
            r == self.spec_cycle(),
    {
        match self {
            RepeatMode::Off => RepeatMode::All,
            RepeatMode::All => RepeatMode::One,
            RepeatMode::One => RepeatMode::Off,
        }
    }
}

impl Default for RepeatMode {
    fn default() -> (r: Self)
        ensures
            r == RepeatMode::Off,
    {
        RepeatMode::Off
    }
}

/// `order` is a permutation of `0..n`: every track index exactly once.
pub open spec fn is_perm(order: Seq<usize>, n: nat) -> bool {
    &&& order.len() == n
    &&& order.no_duplicates()
    &&& forall|i: int| 0 <= i < order.len() ==> #[trigger] order[i] < n
    &&& forall|k: usize| k < n ==> #[trigger] order.contains(k)
}

/// `0, 1, .., n - 1`: the play order of an unshuffled queue.
pub open spec fn identity(n: nat) -> Seq<usize> {
    Seq::new(n, |i: int| i as usize)
}

/// The place of `x` in `order`, for a value that occurs there.
pub open spec fn position_of(order: Seq<usize>, x: usize) -> int {
    choose|q: int| 0 <= q < order.len() && order[q] == x
}

/// The index a surviving track has after track `removed` is taken out.
pub open spec fn shift_down(v: usize, removed: usize) -> usize {
    if v > removed {
        (v - 1) as usize
    } else {
        v
    }
}

/// The play order after the entry at place `q` (the removed track,
/// `removed`) is dropped and the indices above it close the gap.
pub open spec fn order_without(order: Seq<usize>, q: int, removed: usize) -> Seq<usize> {
    order.remove(q).map_values(|v: usize| shift_down(v, removed))
}

/// Index `v` relabelled for a swap of visible rows `a` and `b`.
pub open spec fn relabel(v: usize, a: usize, b: usize) -> usize {
    if v == a {
        b
    } else if v == b {
        a
    } else {
        v
    }
}

/// `s` with the entries at `a` and `b` exchanged.
pub open spec fn swapped<A>(s: Seq<A>, a: int, b: int) -> Seq<A> {
    s.update(a, s[b]).update(b, s[a])
}

/// Calls `rand::seq::SliceRandom::shuffle` on `v` with the thread-local
/// generator (`rand::rng()`). Claimed: the result holds the same values, each
/// as often as before. Which order comes out is chance and is not stated.
#[verifier::external_body]
fn shuffled(v: Vec<usize>) -> (r: Vec<usize>)
    ensures
        r@.to_multiset() == v@.to_multiset(),
{
    let mut v = v;
    rand::seq::SliceRandom::shuffle(v.as_mut_slice(), &mut rand::rng());
    v
}

/// Two sequences with the same multiset: distinctness, membership and length
/// carry over.
proof fn lemma_same_multiset_distinct(a: Seq<usize>, b: Seq<usize>)
    requires
        a.to_multiset() == b.to_multiset(),
        a.no_duplicates(),
    ensures
        b.no_duplicates(),
        b.len() == a.len(),
        forall|x: usize| a.contains(x) <==> b.contains(x),
{
    a.lemma_multiset_has_no_duplicates();
    b.lemma_multiset_has_no_duplicates_conv();
    assert(a.to_multiset().len() == a.len());
    assert(b.to_multiset().len() == b.len());
    assert forall|x: usize| a.contains(x) <==> b.contains(x) by {
        assert(a.contains(x) <==> a.to_multiset().count(x) > 0);
        assert(b.contains(x) <==> b.to_multiset().count(x) > 0);
    }
}

/// A duplicate-free sequence of values below `n` that holds all of them has
/// length `n`.
proof fn lemma_distinct_bounded_len(s: Seq<usize>, n: nat)
    requires
        n <= usize::MAX + 1,
        s.no_duplicates(),
        forall|j: int| 0 <= j < s.len() ==> #[trigger] s[j] < n,
        forall|k: usize| k < n ==> #[trigger] s.contains(k),
    ensures
        s.len() == n,
{
    let st = s.to_set();
    s.unique_seq_to_set();
    let full = Set::new(|k: usize| k < n);
    assert(st =~= full) by {
        assert forall|k: usize| full.contains(k) implies st.contains(k) by {
            assert(s.contains(k));
        }
        assert forall|k: usize| st.contains(k) implies full.contains(k) by {
            let j = choose|j: int| 0 <= j < s.len() && s[j] == k;
        }
    }
    lemma_usize_range_len(n);
}

/// `{k: usize | k < n}` has `n` elements.
proof fn lemma_usize_range_len(n: nat)
    requires
        n <= usize::MAX + 1,
    ensures
        Set::new(|k: usize| k < n).finite(),
        Set::new(|k: usize| k < n).len() == n,
    decreases n,
{
    if n == 0 {
        assert(Set::new(|k: usize| k < n) =~= Set::<usize>::empty());
    } else {
        lemma_usize_range_len((n - 1) as nat);
        assert(Set::new(|k: usize| k < n) =~= Set::new(|k: usize| k < (n - 1) as nat).insert(
            (n - 1) as usize,
        ));
    }
}

/// `0, 1, .., n - 1` as a vector.
fn identity_order(n: usize) -> (r: Vec<usize>)
    ensures
        r@ == identity(n as nat),
        is_perm(r@, n as nat),
{
    let mut v: Vec<usize> = Vec::new();
    let mut i: usize = 0;
    while i < n
        invariant
            0 <= i <= n,
            v@ =~= identity(i as nat),
        decreases n - i,
    {
        v.push(i);
        i += 1;
    }
    proof {
        lemma_identity_is_perm(n as nat);
    }
    v
}

/// The identity order is a permutation.
pub proof fn lemma_identity_is_perm(n: nat)
    requires
        n <= usize::MAX + 1,
    ensures
        is_perm(identity(n), n),
{
    let s = identity(n);
    assert forall|k: usize| k < n implies #[trigger] s.contains(k) by {
        assert(s[k as int] == k);
    }
    assert forall|a: int, b: int| 0 <= a < s.len() && 0 <= b < s.len() && a != b implies s[a]
        != s[b] by {
        assert(s[a] == a as usize);
        assert(s[b] == b as usize);
    }
    assert forall|j: int| 0 <= j < s.len() implies #[trigger] s[j] < n by {
        assert(s[j] == j as usize);
    }
}

/// Appending the next index keeps a permutation a permutation.
pub proof fn lemma_perm_push(order: Seq<usize>, n: nat)
    requires
        is_perm(order, n),
        n < usize::MAX,
    ensures
        is_perm(order.push(n as usize), n + 1),
{
    let s = order.push(n as usize);
    assert forall|k: usize| k < n + 1 implies #[trigger] s.contains(k) by {
        if k < n {
            assert(order.contains(k));
            let i = choose|i: int| 0 <= i < order.len() && order[i] == k;
            assert(s[i] == k);
        } else {
            assert(s[n as int] == k);
        }
    }
}

/// Putting the next index anywhere in a permutation gives a permutation of
/// one more.
pub proof fn lemma_perm_insert(order: Seq<usize>, n: nat, at: int)
    requires
        is_perm(order, n),
        n < usize::MAX,
        0 <= at <= order.len(),
    ensures
        is_perm(order.insert(at, n as usize), n + 1),
{
    let s = order.insert(at, n as usize);
    assert(s.len() == n + 1);
    assert forall|i: int| 0 <= i < s.len() implies #[trigger] s[i] < n + 1 by {
        if i < at {
            assert(s[i] == order[i]);
        } else if i > at {
            assert(s[i] == order[i - 1]);
        }
    }
    assert forall|i: int, j: int| 0 <= i < s.len() && 0 <= j < s.len() && i != j implies s[i] != s[j] by {
        let oi = if i < at { i } else { i - 1 };
        let oj = if j < at { j } else { j - 1 };
        if i != at && j != at {
            assert(s[i] == order[oi] && s[j] == order[oj]);
            assert(order[oi] < n);
        } else if i == at {
            assert(s[j] == order[oj]);
            assert(order[oj] < n);
        } else {
            assert(s[i] == order[oi]);
            assert(order[oi] < n);
        }
    }
    assert forall|k: usize| k < n + 1 implies #[trigger] s.contains(k) by {
        if k < n {
            assert(order.contains(k));
            let i = choose|i: int| 0 <= i < order.len() && order[i] == k;
            if i < at {
                assert(s[i] == k);
            } else {
                assert(s[i + 1] == k);
            }
        } else {
            assert(s[at] == k);
        }
    }
}

/// Dropping a removed track's entry from a permutation and closing the gap
/// leaves a permutation of one fewer.
pub proof fn lemma_order_without_perm(order: Seq<usize>, n: nat, removed: usize)
    requires
        is_perm(order, n),
        n <= usize::MAX,
        removed < n,
    ensures
        0 <= position_of(order, removed) < order.len(),
        order[position_of(order, removed)] == removed,
        is_perm(order_without(order, position_of(order, removed), removed), (n - 1) as nat),
{
    assert(order.contains(removed));
    let q = position_of(order, removed);
    assert(order[q] == removed);
    let r = order_without(order, q, removed);
    let rm = order.remove(q);
    assert(r.len() == n - 1);
    assert forall|j: int| 0 <= j < r.len() implies #[trigger] r[j] < (n - 1) as nat by {
        let src = if j < q { j } else { j + 1 };
        assert(rm[j] == order[src]);
        assert(order[src] != removed);
    }
    assert forall|a: int, b: int| 0 <= a < r.len() && 0 <= b < r.len() && a != b implies r[a]
        != r[b] by {
        let sa = if a < q { a } else { a + 1 };
        let sb = if b < q { b } else { b + 1 };
        assert(rm[a] == order[sa]);
        assert(rm[b] == order[sb]);
        assert(order[sa] != removed);
        assert(order[sb] != removed);
        assert(order[sa] != order[sb]);
    }
    assert forall|k: usize| k < (n - 1) as nat implies #[trigger] r.contains(k) by {
        let v: usize = if k < removed { k } else { (k + 1) as usize };
        assert(order.contains(v));
        assert(v != removed);
        let j = choose|j: int| 0 <= j < order.len() && order[j] == v;
        assert(j != q);
        let jj = if j < q { j } else { j - 1 };
        assert(rm[jj] == order[j]);
        assert(rm[jj] == v);
        assert(r[jj] == k);
    }
}

/// Relabelling two track indices keeps a permutation a permutation.
pub proof fn lemma_relabel_perm(order: Seq<usize>, n: nat, a: usize, b: usize)
    requires
        is_perm(order, n),
        a < n,
        b < n,
    ensures
        is_perm(order.map_values(|v: usize| relabel(v, a, b)), n),
{
    let r = order.map_values(|v: usize| relabel(v, a, b));
    assert forall|x: int, y: int| 0 <= x < r.len() && 0 <= y < r.len() && x != y implies r[x]
        != r[y] by {
        assert(order[x] != order[y]);
    }
    assert forall|j: int| 0 <= j < r.len() implies #[trigger] r[j] < n by {
        assert(order[j] < n);
    }
    assert forall|k: usize| k < n implies #[trigger] r.contains(k) by {
        let v = relabel(k, a, b);
        assert(order.contains(v));
        let j = choose|j: int| 0 <= j < order.len() && order[j] == v;
        assert(r[j] == k);
    }
}

pub struct Queue<T> {
    tracks: Vec<T>,
    order: Vec<usize>,
    /// Index into `order`, not into `tracks`.
    pos: Option<usize>,
    pub repeat: RepeatMode,
    pub shuffle: bool,
}

impl<T> Default for Queue<T> {
    fn default() -> (q: Self)
        ensures
            q.wf(),
            q.items() == Seq::<T>::empty(),
            q.cursor() is None,
            q.mode() == RepeatMode::Off,
            !q.shuffled(),
    {
        Self::new()
    }
}

impl<T> Queue<T> {
    /// The tracks in the order the user sees them.
    pub closed spec fn items(&self) -> Seq<T> {
        self.tracks@
    }

    /// The order playback follows, as indices into `items`.
    pub closed spec fn play_order(&self) -> Seq<usize> {
        self.order@
    }

    /// The place in `play_order` of the current track, if any.
    pub closed spec fn cursor(&self) -> Option<usize> {
        self.pos
    }

    /// The repeat mode, as a spec value.
    pub closed spec fn mode(&self) -> RepeatMode {
        self.repeat
    }

    /// Whether shuffle is on, as a spec value.
    pub closed spec fn shuffled(&self) -> bool {
        self.shuffle
    }

    /// The play order is a permutation of the tracks and the cursor, when
    /// set, points into it.
    pub open spec fn wf(&self) -> bool {
        &&& is_perm(self.play_order(), self.items().len())
        &&& self.items().len() < usize::MAX
        &&& self.cursor() matches Some(p) ==> p < self.play_order().len()
    }

    /// Index into `items` of the current track.
    pub open spec fn current_spec(&self) -> Option<usize> {
        match self.cursor() {
            Some(p) => if p < self.play_order().len() {
                Some(self.play_order()[p as int])
            } else {
                None
            },
            None => None,
        }
    }

    /// The current track itself.
    pub open spec fn current_item(&self) -> Option<T> {
        match self.current_spec() {
            Some(i) => if i < self.items().len() {
                Some(self.items()[i as int])
            } else {
                None
            },
            None => None,
        }
    }

    /// Place in `play_order` that playback moves to next, if it moves at all.
    pub open spec fn next_pos_spec(&self) -> Option<usize> {
        match self.cursor() {
            None => None,
            Some(p) => if self.items().len() == 0 {
                None
            } else {
                match self.mode() {
                    RepeatMode::All => Some(((p + 1) % (self.play_order().len() as int)) as usize),
                    _ => if p + 1 < self.play_order().len() {
                        Some((p + 1) as usize)
                    } else {
                        None
                    },
                }
            },
        }
    }

    /// Place in `play_order` that `previous` moves to.
    pub open spec fn prev_pos_spec(&self) -> Option<usize> {
        match self.cursor() {
            None => None,
            Some(p) => if p > 0 {
                Some((p - 1) as usize)
            } else if self.mode() == RepeatMode::All && self.play_order().len() > 0 {
                Some((self.play_order().len() - 1) as usize)
            } else {
                Some(0)
            },
        }
    }

    /// The track at place `p` of the play order.
    pub open spec fn item_at_place(&self, p: Option<usize>) -> Option<T> {
        match p {
            Some(p) => if p < self.play_order().len() && self.play_order()[p as int]
                < self.items().len() {
                Some(self.items()[self.play_order()[p as int] as int])
            } else {
                None
            },
            None => None,
        }
    }

    pub fn new() -> (q: Self)
        ensures
            q.wf(),
            q.items() == Seq::<T>::empty(),
            q.cursor() is None,
            q.mode() == RepeatMode::Off,
            !q.shuffled(),
    {
        Queue { tracks: Vec::new(), order: Vec::new(), pos: None, repeat: RepeatMode::Off, shuffle: false }
    }

    pub fn tracks(&self) -> (r: &[T])
        ensures
            r@ == self.items(),
    {
        self.tracks.as_slice()
    }

    /// The play order, as indices into `tracks`.
    pub fn order(&self) -> (r: &[usize])
        ensures
            r@ == self.play_order(),
    {
        self.order.as_slice()
    }

    /// Whether shuffle is on.
    pub fn is_shuffled(&self) -> (r: bool)
        ensures
            r == self.shuffled(),
    {
        self.shuffle
    }

    /// The repeat mode.
    pub fn repeat_mode(&self) -> (r: RepeatMode)
        ensures
            r == self.mode(),
    {
        self.repeat
    }

    /// Set the repeat mode; nothing else changes.
    pub fn set_repeat(&mut self, mode: RepeatMode)
        requires
            old(self).wf(),
        ensures
            final(self).wf(),
            final(self).mode() == mode,
            final(self).items() == old(self).items(),
            final(self).play_order() == old(self).play_order(),
            final(self).cursor() == old(self).cursor(),
            final(self).shuffled() == old(self).shuffled(),
    {
        self.repeat = mode;
    }

    pub fn len(&self) -> (r: usize)
        ensures
            r == self.items().len(),
    {
        self.tracks.len()
    }

    pub fn is_empty(&self) -> (r: bool)
        ensures
            r == (self.items().len() == 0),
    {
        self.tracks.is_empty()
    }

    /// Position of the current track within `tracks` (what the UI highlights).
    pub fn current_index(&self) -> (r: Option<usize>)
        ensures
            r == self.current_spec(),
    {
        match self.pos {
            Some(p) => if p < self.order.len() {
                Some(self.order[p])
            } else {
                None
            },
            None => None,
        }
    }

    pub fn current(&self) -> (r: Option<&T>)
        ensures
            match r {
                Some(t) => self.current_item() == Some(*t),
                None => self.current_item() is None,
            },
    {
        match self.current_index() {
            Some(i) => if i < self.tracks.len() {
                Some(&self.tracks[i])
            } else {
                None
            },
            None => None,
        }
    }

    /// Append a track. A newly appended track goes at the end of the
    /// playback order even when shuffled, so "add to queue" stays
    /// predictable mid-listen.
    pub fn push(&mut self, track: T)
        requires
            old(self).wf(),
            old(self).items().len() + 1 < usize::MAX,
        ensures
            final(self).wf(),
            final(self).items() == old(self).items().push(track),
            final(self).play_order() == old(self).play_order().push(
                old(self).items().len() as usize,
            ),
            final(self).cursor() == old(self).cursor(),
            final(self).mode() == old(self).mode(),
            final(self).shuffled() == old(self).shuffled(),
    {
        let idx = self.tracks.len();
        proof {
            lemma_perm_push(self.order@, self.tracks@.len());
        }
        self.tracks.push(track);
        self.order.push(idx);
    }

    /// Where `insert_next` puts a track in the play order: right after the
    /// current place, or at the end with nothing current.
    pub open spec fn next_slot(&self) -> int {
        match self.cursor() {
            Some(p) => p + 1,
            None => self.play_order().len() as int,
        }
    }

    /// What `insert_next` does.
    pub open spec fn insert_next_post(before: Self, after: Self, track: T, r: usize) -> bool {
        &&& r == before.items().len()
        &&& after.items() == before.items().push(track)
        &&& after.play_order() == before.play_order().insert(before.next_slot(), r)
        &&& after.cursor() == before.cursor()
        &&& after.mode() == before.mode()
        &&& after.shuffled() == before.shuffled()
    }

    /// Add a track to play next: it goes right after the current place in
    /// the play order, and the rest of the order is kept. Returns its index
    /// among the tracks.
    pub fn insert_next(&mut self, track: T) -> (r: usize)
        requires
            old(self).wf(),
            old(self).items().len() + 1 < usize::MAX,
        ensures
            final(self).wf(),
            Self::insert_next_post(*old(self), *final(self), track, r),
    {
        let idx = self.tracks.len();
        let at = match self.pos {
            Some(p) => p + 1,
            None => self.order.len(),
        };
        proof {
            lemma_perm_insert(self.order@, self.tracks@.len(), at as int);
        }
        self.tracks.push(track);
        self.order.insert(at, idx);
        idx
    }

    /// Append several tracks, each as `push` would.
    pub fn extend(&mut self, tracks: Vec<T>)
        requires
            old(self).wf(),
            old(self).items().len() + tracks@.len() + 1 < usize::MAX,
        ensures
            final(self).wf(),
            final(self).items() == old(self).items() + tracks@,
            final(self).play_order() == old(self).play_order() + Seq::new(
                tracks@.len(),
                |i: int| (old(self).items().len() + i) as usize,
            ),
            final(self).cursor() == old(self).cursor(),
            final(self).mode() == old(self).mode(),
            final(self).shuffled() == old(self).shuffled(),
    {
        let start = self.tracks.len();
        let count = tracks.len();
        let mut tracks = tracks;
        let ghost old_order = self.order@;
        let ghost added = tracks@;
        self.tracks.append(&mut tracks);
        let mut i: usize = 0;
        while i < count
            invariant
                0 <= i <= count,
                start == old(self).tracks@.len(),
                count == added.len(),
                start + count + 1 < usize::MAX,
                self.tracks@ == old(self).tracks@ + added,
                is_perm(self.order@, (start + i) as nat),
                self.order@ == old_order + Seq::new(i as nat, |j: int| (start + j) as usize),
                self.pos == old(self).pos,
                self.repeat == old(self).repeat,
                self.shuffle == old(self).shuffle,
                old(self).pos matches Some(p) ==> p < start,
            decreases count - i,
        {
            proof {
                lemma_perm_push(self.order@, (start + i) as nat);
            }
            self.order.push(start + i);
            i += 1;
            assert(self.order@ =~= old_order + Seq::new(i as nat, |j: int| (start + j) as usize));
        }
    }

    /// Replace the whole queue and start from `start`. With shuffle on,
    /// `start` leads the new play order; a `start` that names no track then
    /// leaves the queue with no current track.
    pub fn replace(&mut self, tracks: Vec<T>, start: usize)
        requires
            tracks@.len() + 1 < usize::MAX,
        ensures
            final(self).wf(),
            final(self).items() == tracks@,
            final(self).mode() == old(self).mode(),
            final(self).shuffled() == old(self).shuffled(),
            !old(self).shuffled() ==> final(self).play_order() == identity(tracks@.len()),
            !old(self).shuffled() ==> final(self).cursor() == if tracks@.len() == 0 {
                None
            } else {
                Some(if start < tracks@.len() {
                    start
                } else {
                    (tracks@.len() - 1) as usize
                })
            },
            old(self).shuffled() && start < tracks@.len() ==> final(self).play_order()[0] == start,
            old(self).shuffled() && start < tracks@.len() ==> final(self).cursor() == Some(0usize),
            old(self).shuffled() && start >= tracks@.len() ==> final(self).cursor() is None,
    {
        self.tracks = tracks;
        self.order = identity_order(self.tracks.len());
        if self.shuffle {
            if start < self.tracks.len() {
                self.reshuffle_keeping(Some(start));
            } else {
                self.reshuffle_keeping(None);
                self.pos = None;
            }
        } else {
            self.pos = if self.tracks.len() == 0 {
                None
            } else {
                Some(if start < self.tracks.len() {
                    start
                } else {
                    self.tracks.len() - 1
                })
            };
        }
    }

    /// What `clear` does to a queue.
    pub open spec fn clear_post(before: Self, after: Self) -> bool {
        &&& after.items() == Seq::<T>::empty()
        &&& after.cursor() is None
        &&& after.mode() == before.mode()
        &&& after.shuffled() == before.shuffled()
    }

    pub fn clear(&mut self)
        ensures
            final(self).wf(),
            Self::clear_post(*old(self), *final(self)),

    {
        self.tracks.clear();
        self.order.clear();
        self.pos = None;
        proof {
            lemma_identity_is_perm(0);
            assert(self.order@ =~= identity(0));
        }
    }

    /// Shuffle the playback order, pinning `keep` to the front so the track
    /// you are currently hearing does not restart.
    fn reshuffle_keeping(&mut self, keep: Option<usize>)
        requires
            old(self).tracks@.len() < usize::MAX,
            keep matches Some(k) ==> k < old(self).tracks@.len(),
        ensures
            final(self).wf(),
            final(self).tracks@ == old(self).tracks@,
            final(self).repeat == old(self).repeat,
            final(self).shuffle == old(self).shuffle,
            keep matches Some(k) ==> final(self).order@[0] == k,
            final(self).pos == if final(self).tracks@.len() == 0 {
                None
            } else {
                Some(0usize)
            },
    {
        let n = self.tracks.len();
        let mut rest: Vec<usize> = Vec::new();
        let mut i: usize = 0;
        while i < n
            invariant
                0 <= i <= n,
                n == self.tracks@.len(),
                keep matches Some(k) ==> k < n,
                rest@.no_duplicates(),
                forall|j: int| 0 <= j < rest@.len() ==> #[trigger] rest@[j] < i && Some(
                    rest@[j],
                ) != keep,
                forall|k: usize| k < i && Some(k) != keep ==> #[trigger] rest@.contains(k),
                rest@.len() <= i,
            decreases n - i,
        {
            if Some(i) != keep {
                let ghost before = rest@;
                rest.push(i);
                proof {
                    assert forall|k: usize| k < i + 1 && Some(k) != keep implies #[trigger] rest@.contains(
                        k,
                    ) by {
                        if k < i {
                            assert(before.contains(k));
                            let j = choose|j: int| 0 <= j < before.len() && before[j] == k;
                            assert(rest@[j] == k);
                        } else {
                            assert(rest@[before.len() as int] == k);
                        }
                    }
                }
            }
            i += 1;
        }
        let ghost before_shuffle = rest@;
        let mut rest = shuffled(rest);
        proof {
            lemma_same_multiset_distinct(before_shuffle, rest@);
        }
        let mut order: Vec<usize> = Vec::new();
        match keep {
            Some(k) => {
                order.push(k);
            },
            None => {},
        }
        let ghost front = order@;
        let ghost after = rest@;
        order.append(&mut rest);
        proof {
            let o = order@;
            let fl = front.len() as int;
            assert(o =~= front + after);
            assert forall|k: usize| k < n implies #[trigger] o.contains(k) by {
                if Some(k) == keep {
                    assert(o[0] == k);
                } else {
                    assert(before_shuffle.contains(k));
                    assert(after.contains(k));
                    let j = choose|j: int| 0 <= j < after.len() && after[j] == k;
                    assert(o[fl + j] == k);
                }
            }
            assert forall|a: int, b: int| 0 <= a < o.len() && 0 <= b < o.len() && a != b implies o[a]
                != o[b] by {
                if a >= fl && b >= fl {
                    assert(o[a] == after[a - fl]);
                    assert(o[b] == after[b - fl]);
                } else if a < fl {
                    assert(o[b] == after[b - fl]);
                    assert(after.contains(o[b]));
                    assert(before_shuffle.contains(o[b]));
                } else {
                    assert(o[a] == after[a - fl]);
                    assert(after.contains(o[a]));
                    assert(before_shuffle.contains(o[a]));
                }
            }
            assert forall|j: int| 0 <= j < o.len() implies #[trigger] o[j] < n by {
                if j >= fl {
                    assert(o[j] == after[j - fl]);
                    assert(after.contains(o[j]));
                    assert(before_shuffle.contains(o[j]));
                }
            }
            lemma_distinct_bounded_len(o, n as nat);
        }
        self.order = order;
        self.pos = if self.order.len() == 0 {
            None
        } else {
            Some(0)
        };
    }

    /// What `jump_to` does to a queue.
    pub open spec fn jump_to_post(before: Self, after: Self, track_index: usize) -> bool {
        &&& after.items() == before.items()
        &&& after.play_order() == before.play_order()
        &&& after.mode() == before.mode()
        &&& after.shuffled() == before.shuffled()
        &&& track_index < before.items().len() ==> after.current_spec() == Some(
                track_index,
            )
        &&& track_index >= before.items().len() ==> after.cursor() == before.cursor()
    }

    /// Set the current track by its index in `tracks`.
    pub fn jump_to(&mut self, track_index: usize) -> (r: Option<&T>)
        requires
            old(self).wf(),
        ensures
            final(self).wf(),
            Self::jump_to_post(*old(self), *final(self), track_index),
            match r {
                Some(t) => track_index < old(self).items().len() && *t == old(self).items()[track_index as int],
                None => track_index >= old(self).items().len(),
            },

    {
        let n = self.order.len();
        let mut p: usize = 0;
        while p < n
            invariant
                0 <= p <= n,
                n == self.order@.len(),
                self.wf(),
                self.tracks@ == old(self).tracks@,
                self.order@ == old(self).order@,
                self.pos == old(self).pos,
                self.repeat == old(self).repeat,
                self.shuffle == old(self).shuffle,
                forall|j: int| 0 <= j < p ==> self.order@[j] != track_index,
            decreases n - p,
        {
            if self.order[p] == track_index {
                self.pos = Some(p);
                return self.current();
            }
            p += 1;
        }
        proof {
            if track_index < self.tracks@.len() {
                assert(self.order@.contains(track_index));
            }
        }
        None
    }

    fn next_pos(&self) -> (r: Option<usize>)
        requires
            self.wf(),
        ensures
            r == self.next_pos_spec(),
            r matches Some(p) ==> p < self.play_order().len(),
    {
        let pos = match self.pos {
            Some(p) => p,
            None => return None,
        };
        if self.tracks.is_empty() {
            return None;
        }
        match self.repeat {
            // Repeat-one is handled by the caller (it re-seeks rather than
            // re-resolving the stream), so for ordering purposes it advances.
            RepeatMode::One | RepeatMode::Off => {
                if pos + 1 < self.order.len() {
                    Some(pos + 1)
                } else {
                    None
                }
            },
            RepeatMode::All => Some((pos + 1) % self.order.len()),
        }
    }

    /// The track that would play next, without advancing. Used both for
    /// prefetch and to decide whether to stop at the end of the queue.
    pub fn peek_next(&self) -> (r: Option<&T>)
        requires
            self.wf(),
        ensures
            match r {
                Some(t) => self.item_at_place(self.next_pos_spec()) == Some(*t),
                None => self.item_at_place(self.next_pos_spec()) is None,
            },
    {
        match self.next_pos() {
            Some(p) => if p < self.order.len() {
                let i = self.order[p];
                if i < self.tracks.len() {
                    Some(&self.tracks[i])
                } else {
                    None
                }
            } else {
                None
            },
            None => None,
        }
    }

    /// Move to the next track in play order, if there is one.
    pub fn advance(&mut self) -> (r: Option<&T>)
        requires
            old(self).wf(),
        ensures
            final(self).wf(),
            final(self).items() == old(self).items(),
            final(self).play_order() == old(self).play_order(),
            final(self).mode() == old(self).mode(),
            final(self).shuffled() == old(self).shuffled(),
            old(self).next_pos_spec() is None ==> final(self).cursor() == old(self).cursor()
                && r is None,
            old(self).next_pos_spec() is Some ==> final(self).cursor() == old(self).next_pos_spec(),
            old(self).next_pos_spec() is Some ==> (r matches Some(t) && final(self).current_item() == Some(*t)),
    {
        let p = match self.next_pos() {
            Some(p) => p,
            None => return None,
        };
        self.pos = Some(p);
        self.current()
    }

    /// What `previous` does to a queue.
    pub open spec fn previous_post(before: Self, after: Self) -> bool {
        &&& after.items() == before.items()
        &&& after.play_order() == before.play_order()
        &&& after.mode() == before.mode()
        &&& after.shuffled() == before.shuffled()
        &&& after.cursor() == before.prev_pos_spec()
    }

    /// Step back in play order. At the start it stays put, unless repeat-all
    /// wraps it to the end.
    pub fn previous(&mut self) -> (r: Option<&T>)
        requires
            old(self).wf(),
        ensures
            final(self).wf(),
            Self::previous_post(*old(self), *final(self)),
            old(self).cursor() is None ==> r is None,
            old(self).cursor() is Some ==> (r matches Some(t) && final(self).current_item()
                == Some(*t)),

    {
        let pos = match self.pos {
            Some(p) => p,
            None => return None,
        };
        let p = if pos > 0 {
            pos - 1
        } else if self.repeat == RepeatMode::All && !self.order.is_empty() {
            self.order.len() - 1
        } else {
            0
        };
        self.pos = Some(p);
        self.current()
    }

    /// What `toggle_shuffle` does to a queue.
    pub open spec fn toggle_shuffle_post(before: Self, after: Self) -> bool {
        &&& after.shuffled() == !before.shuffled()
        &&& after.items() == before.items()
        &&& after.mode() == before.mode()
        &&& before.current_spec() is Some ==> after.current_spec() == before.current_spec()
        &&& !after.shuffled() ==> after.play_order() == identity(before.items().len())
        &&& !after.shuffled() ==> after.cursor() == before.current_spec()
        &&& after.shuffled() ==> after.cursor() == if before.items().len() == 0 {
            None
        } else {
            Some(0usize)
        }
    }

    /// Turn shuffle on or off, keeping the current track current. Turning it
    /// off restores the visible order as the play order.
    pub fn toggle_shuffle(&mut self) -> (r: bool)
        requires
            old(self).wf(),
        ensures
            final(self).wf(),
            r == final(self).shuffled(),
            Self::toggle_shuffle_post(*old(self), *final(self)),
    {
        self.shuffle = !self.shuffle;
        let current = self.current_index();
        if self.shuffle {
            self.reshuffle_keeping(current);
        } else {
            self.order = identity_order(self.tracks.len());
            self.pos = current;
        }
        self.shuffle
    }

    /// Where `x` sits in the play order, if it does.
    fn position(&self, x: usize) -> (r: Option<usize>)
        requires
            self.order@.no_duplicates(),
        ensures
            match r {
                Some(p) => p < self.order@.len() && self.order@[p as int] == x && p
                    == position_of(self.order@, x),
                None => !self.order@.contains(x),
            },
    {
        let n = self.order.len();
        let mut p: usize = 0;
        while p < n
            invariant
                0 <= p <= n,
                n == self.order@.len(),
                self.order@.no_duplicates(),
                forall|j: int| 0 <= j < p ==> self.order@[j] != x,
            decreases n - p,
        {
            if self.order[p] == x {
                proof {
                    let q = position_of(self.order@, x);
                    assert(self.order@.contains(x));
                    assert(0 <= q < self.order@.len());
                    assert(self.order@[q] == x);
                    if q != p as int {
                        assert(self.order@[q] != self.order@[p as int]);
                    }
                }
                return Some(p);
            }
            p += 1;
        }
        None
    }

    /// What `remove` does to a queue.
    pub open spec fn remove_post(before: Self, after: Self, track_index: usize) -> bool {
        &&& after.mode() == before.mode()
        &&& after.shuffled() == before.shuffled()
        &&& track_index >= before.items().len() ==> after.items() == before.items()
                && after.play_order() == before.play_order() && after.cursor()
                == before.cursor()
        &&& track_index < before.items().len() ==> after.items() == before.items().remove(track_index as int)
        &&& track_index < before.items().len() ==> after.play_order() == order_without(
                before.play_order(),
                position_of(before.play_order(), track_index),
                track_index,
            )
        &&& track_index < before.items().len() ==> after.cursor() == match before.current_spec() {
                Some(c) => if c == track_index {
                    if after.items().len() == 0 {
                        None
                    } else {
                        Some(
                            if before.cursor().unwrap() < after.items().len() {
                                before.cursor().unwrap()
                            } else {
                                (after.items().len() - 1) as usize
                            },
                        )
                    }
                } else {
                    Some(
                        position_of(after.play_order(), shift_down(c, track_index)) as usize,
                    )
                },
                None => None,
            }
        &&& (before.current_spec() matches Some(c) && c != track_index) ==> after.current_item()
            == before.current_item()
    }

    /// Remove a track by its index in `tracks`, keeping the current track
    /// current where it survives.
    pub fn remove(&mut self, track_index: usize)
        requires
            old(self).wf(),
        ensures
            final(self).wf(),
            Self::remove_post(*old(self), *final(self), track_index),

    {
        if track_index >= self.tracks.len() {
            return ;
        }
        let current = self.current_index();
        let ghost old_order = self.order@;
        let ghost n = self.tracks@.len();
        proof {
            lemma_order_without_perm(old_order, n, track_index);
        }
        let ghost q = position_of(old_order, track_index);
        self.tracks.remove(track_index);
        // Rebuild the order, dropping the removed index and shifting the rest.
        let mut new_order: Vec<usize> = Vec::new();
        let len = self.order.len();
        let mut i: usize = 0;
        while i < len
            invariant
                0 <= i <= len,
                len == old_order.len(),
                self.order@ == old_order,
                0 <= q < len,
                old_order[q] == track_index,
                forall|j: int| 0 <= j < len && j != q ==> old_order[j] != track_index,
                i <= q ==> new_order@ =~= old_order.subrange(0, i as int).map_values(
                    |v: usize| shift_down(v, track_index),
                ),
                i > q ==> new_order@ =~= old_order.subrange(0, i as int).remove(q).map_values(
                    |v: usize| shift_down(v, track_index),
                ),
            decreases len - i,
        {
            let v = self.order[i];
            proof {
                assert(old_order.subrange(0, i + 1) =~= old_order.subrange(0, i as int).push(v));
                if i > q {
                    assert(old_order.subrange(0, i + 1).remove(q) =~= old_order.subrange(
                        0,
                        i as int,
                    ).remove(q).push(v));
                } else if i == q {
                    assert(old_order.subrange(0, i + 1).remove(q) =~= old_order.subrange(
                        0,
                        i as int,
                    ));
                }
                assert(forall|j: int| 0 <= j < len && j != q ==> old_order[j] != track_index);
            }
            if v != track_index {
                new_order.push(if v > track_index {
                    v - 1
                } else {
                    v
                });
            }
            i += 1;
        }
        proof {
            assert(old_order.subrange(0, len as int) =~= old_order);
        }
        self.order = new_order;
        let old_pos = self.pos;
        // Keep pointing at the same track where possible.
        self.pos = match current {
            Some(c) => if c == track_index {
                // The playing track went away; stay at the same slot.
                let p = match old_pos {
                    Some(p) => p,
                    None => 0,
                };
                if self.order.is_empty() {
                    None
                } else {
                    Some(
                        if p < self.order.len() {
                            p
                        } else {
                            self.order.len() - 1
                        },
                    )
                }
            } else {
                let adjusted = if c > track_index {
                    c - 1
                } else {
                    c
                };
                proof {
                    assert(self.order@.contains(adjusted));
                }
                self.position(adjusted)
            },
            None => None,
        };
    }

    /// Swap visible rows `lo` and `lo + 1`; the play order is relabelled
    /// so each entry still refers to the same track.
    fn swap_visible(&mut self, lo: usize)
        requires
            old(self).wf(),
            lo + 1 < old(self).tracks@.len(),
        ensures
            final(self).wf(),
            final(self).tracks@ == swapped(old(self).tracks@, lo as int, lo + 1),
            final(self).order@ == old(self).order@.map_values(
                |v: usize| relabel(v, lo, (lo + 1) as usize),
            ),
            final(self).pos == old(self).pos,
            final(self).repeat == old(self).repeat,
            final(self).shuffle == old(self).shuffle,
    {
        let hi = lo + 1;
        let ghost old_tracks = self.tracks@;
        let x = self.tracks.remove(hi);
        self.tracks.insert(lo, x);
        assert(self.tracks@ =~= swapped(old_tracks, lo as int, hi as int));
        let ghost old_order = self.order@;
        proof {
            lemma_relabel_perm(old_order, old_tracks.len(), lo, hi);
        }
        let mut new_order: Vec<usize> = Vec::new();
        let len = self.order.len();
        let mut i: usize = 0;
        while i < len
            invariant
                0 <= i <= len,
                len == old_order.len(),
                self.order@ == old_order,
                new_order@ =~= old_order.subrange(0, i as int).map_values(
                    |v: usize| relabel(v, lo, hi),
                ),
            decreases len - i,
        {
            let v = self.order[i];
            proof {
                assert(old_order.subrange(0, i + 1) =~= old_order.subrange(0, i as int).push(v));
            }
            new_order.push(
                if v == lo {
                    hi
                } else if v == hi {
                    lo
                } else {
                    v
                },
            );
            i += 1;
        }
        proof {
            assert(old_order.subrange(0, len as int) =~= old_order);
        }
        self.order = new_order;
    }

    /// What `move_up` does to a queue, returning `r`.
    pub open spec fn move_up_post(before: Self, after: Self, track_index: usize, r: Option<usize>) -> bool {
        &&& after.mode() == before.mode()
        &&& after.shuffled() == before.shuffled()
        &&& after.cursor() == before.cursor()
        &&& after.current_item() == before.current_item()
        &&& (track_index == 0 || track_index >= before.items().len()) ==> r is None && after.items() == before.items() && after.play_order() == before.play_order()
        &&& (0 < track_index < before.items().len()) ==> r == Some((track_index - 1) as usize)
                && after.items() == swapped(
                before.items(),
                track_index - 1,
                track_index as int,
            ) && after.play_order() == before.play_order().map_values(
                |v: usize| relabel(v, (track_index - 1) as usize, track_index),
            )
    }

    /// Move a track up in the *visible* queue. Only meaningful unshuffled.
    /// Returns its new index.
    pub fn move_up(&mut self, track_index: usize) -> (r: Option<usize>)
        requires
            old(self).wf(),
        ensures
            final(self).wf(),
            Self::move_up_post(*old(self), *final(self), track_index, r),

    {
        if track_index == 0 || track_index >= self.tracks.len() {
            return None;
        }
        self.swap_visible(track_index - 1);
        proof {
            self.lemma_swap_keeps_current(*old(self), (track_index - 1) as usize);
        }
        Some(track_index - 1)
    }

    /// What `move_down` does to a queue, returning `r`.
    pub open spec fn move_down_post(before: Self, after: Self, track_index: usize, r: Option<usize>) -> bool {
        &&& after.mode() == before.mode()
        &&& after.shuffled() == before.shuffled()
        &&& after.cursor() == before.cursor()
        &&& after.current_item() == before.current_item()
        &&& track_index + 1 >= before.items().len() ==> r is None && after.items()
                == before.items() && after.play_order() == before.play_order()
        &&& track_index + 1 < before.items().len() ==> r == Some((track_index + 1) as usize)
                && after.items() == swapped(
                before.items(),
                track_index as int,
                track_index + 1,
            ) && after.play_order() == before.play_order().map_values(
                |v: usize| relabel(v, track_index, (track_index + 1) as usize),
            )
    }

    /// Move a track down in the *visible* queue. Returns its new index.
    pub fn move_down(&mut self, track_index: usize) -> (r: Option<usize>)
        requires
            old(self).wf(),
        ensures
            final(self).wf(),
            Self::move_down_post(*old(self), *final(self), track_index, r),

    {
        if track_index >= self.tracks.len() || track_index + 1 >= self.tracks.len() {
            return None;
        }
        self.swap_visible(track_index);
        proof {
            self.lemma_swap_keeps_current(*old(self), track_index);
        }
        Some(track_index + 1)
    }

    /// A row swap carries the current track along with it.
    proof fn lemma_swap_keeps_current(&self, before: Self, lo: usize)
        requires
            before.wf(),
            lo + 1 < before.tracks@.len(),
            self.tracks@ == swapped(before.tracks@, lo as int, lo + 1),
            self.order@ == before.order@.map_values(|v: usize| relabel(v, lo, (lo + 1) as usize)),
            self.pos == before.pos,
        ensures
            self.current_item() == before.current_item(),
    {
        match before.pos {
            Some(p) => {
                if p < before.order@.len() {
                    let c = before.order@[p as int];
                    assert(self.order@[p as int] == relabel(c, lo, (lo + 1) as usize));
                }
            },
            None => {},
        }
    }

    /// Toggling shuffle on and back off restores the visible order as the
    /// play order, leaves the tracks alone and keeps the current track.
    pub proof fn law_unshuffle_restores_order(q0: Self, q1: Self, q2: Self)
        requires
            q0.wf(),
            Self::toggle_shuffle_post(q0, q1),
            Self::toggle_shuffle_post(q1, q2),
        ensures
            q2.shuffled() == q0.shuffled(),
            q2.items() == q0.items(),
            !q0.shuffled() ==> q2.play_order() == identity(q0.items().len()),
            q0.current_spec() is Some ==> q2.current_spec() == q0.current_spec(),
    {
    }

    /// Where a step forward actually moved, a step back returns to where
    /// playback was: `previous` undoes `advance`.
    pub proof fn law_previous_undoes_advance(q0: Self, q1: Self)
        requires
            q0.wf(),
            q0.next_pos_spec() is Some,
            q1.items() == q0.items(),
            q1.play_order() == q0.play_order(),
            q1.mode() == q0.mode(),
            q1.cursor() == q0.next_pos_spec(),
        ensures
            q1.prev_pos_spec() == q0.cursor(),
    {
        let p = q0.cursor().unwrap();
        let n = q0.play_order().len() as int;
        if q0.mode() == RepeatMode::All {
            if p + 1 < n {
                assert((p + 1) % n == p + 1) by (nonlinear_arith)
                    requires
                        0 <= p + 1 < n,
                ;
            } else {
                assert((p + 1) % n == 0) by (nonlinear_arith)
                    requires
                        p + 1 == n,
                        n > 0,
                ;
            }
        }
    }

    /// `previous` steps back one place in the play order. At the first place
    /// it stays there, unless repeat-all wraps it round to the last place;
    /// with no current track there stays none.
    pub proof fn law_previous_steps_back(q0: Self, q1: Self)
        requires
            q0.wf(),
            Self::previous_post(q0, q1),
        ensures
            q0.cursor() is None ==> q1.cursor() is None,
            q0.cursor() matches Some(p) ==> (p > 0 ==> q1.cursor() == Some((p - 1) as usize)),
            q0.cursor() == Some(0usize) && q0.mode() != RepeatMode::All ==> q1.cursor() == Some(
                0usize,
            ),
            q0.cursor() == Some(0usize) && q0.mode() == RepeatMode::All ==> q1.cursor() == Some(
                (q0.play_order().len() - 1) as usize,
            ),
            q1.items() == q0.items(),
            q1.play_order() == q0.play_order(),
    {
    }

    /// Moving a row down right after moving it up puts the queue back as it
    /// was: the same tracks in the same places and the same play order.
    pub proof fn law_move_down_undoes_move_up(q0: Self, q1: Self, q2: Self, i: usize)
        requires
            q0.wf(),
            0 < i < q0.items().len(),
            q1.items() == swapped(q0.items(), i - 1, i as int),
            q1.play_order() == q0.play_order().map_values(
                |v: usize| relabel(v, (i - 1) as usize, i),
            ),
            q2.items() == swapped(q1.items(), i - 1, i as int),
            q2.play_order() == q1.play_order().map_values(
                |v: usize| relabel(v, (i - 1) as usize, i),
            ),
        ensures
            q2.items() == q0.items(),
            q2.play_order() == q0.play_order(),
    {
        assert(q2.items() =~= q0.items());
        assert(q2.play_order() =~= q0.play_order());
    }

    /// 1-based position for the "(3/12)" status readout.
    pub fn human_position(&self) -> (r: (usize, usize))
        requires
            self.wf(),
        ensures
            r.1 == self.items().len(),
            r.0 == match self.cursor() {
                Some(p) => p + 1,
                None => 0,
            },
    {
        let first = match self.pos {
            Some(p) => p + 1,
            None => 0,
        };
        (first, self.tracks.len())
    }
}

/// A track added to play next while one is playing is the next to play,
/// whatever the repeat mode: the playlist resumes after it.
pub proof fn law_inserted_track_plays_next<T>(before: Queue<T>, after: Queue<T>, track: T, r: usize)
    requires
        before.wf(),
        before.cursor() is Some,
        Queue::insert_next_post(before, after, track, r),
    ensures
        after.item_at_place(after.next_pos_spec()) == Some(track),
{
    let p = before.cursor()->0;
    let o = before.play_order();
    assert(o.len() == before.items().len());
    assert(after.play_order()[p + 1] == r);
    assert(after.items()[r as int] == track);
    assert(p < o.len());
    assert(after.play_order().len() == o.len() + 1);
    let m = after.play_order().len() as int;
    assert(0 <= p + 1 < m);
    assert((p + 1) % m == p + 1) by {
        vstd::arithmetic::div_mod::lemma_small_mod((p + 1) as nat, m as nat);
    }
}

} // verus!
