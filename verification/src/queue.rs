//! The play queue of the player and the decisions taken on it: which song comes
//! next or before, what happens when a song ends, and how the queue is shuffled.
//!
//! The playback thread of the application owns a `Queue`; it performs the audio
//! and network work these decisions ask for.

use rand::seq::SliceRandom;
use vstd::prelude::*;
use crate::api::{SongDTO, SongEntry};
use crate::playback::LoopMode;

verus! {

broadcast use {vstd::seq_lib::group_seq_properties, vstd::seq_lib::group_to_multiset_ensures};

// ---------------------------------------------------------------------------
// Searching sequences
// ---------------------------------------------------------------------------

/// `j` is the first position at or after `from` whose element satisfies `pred`.
pub open spec fn is_first_match<A>(s: Seq<A>, pred: spec_fn(A) -> bool, from: int, j: int) -> bool {
    &&& from <= j < s.len()
    &&& pred(s[j])
    &&& forall|k: int| from <= k < j ==> !pred(#[trigger] s[k])
}

/// The first position at or after `from` whose element satisfies `pred`, or -1.
pub open spec fn first_match<A>(s: Seq<A>, pred: spec_fn(A) -> bool, from: int) -> int {
    if exists|j: int| is_first_match(s, pred, from, j) {
        choose|j: int| is_first_match(s, pred, from, j)
    } else {
        -1
    }
}

/// The first position of `x` in `s`, or -1 (`iter().position(|y| *y == x)`).
pub open spec fn first_index(s: Seq<u128>, x: u128) -> int {
    first_match(s, is_id(x), 0)
}

/// The test "is `x`".
pub open spec fn is_id(x: u128) -> spec_fn(u128) -> bool {
    |y: u128| y == x
}

/// The test "has an audio URL".
pub open spec fn has_audio() -> spec_fn(SongEntry) -> bool {
    |e: SongEntry| e.audio_url is Some
}

/// The first position after `idx` whose entry has an audio URL, or -1.
pub open spec fn first_streamable_after(u: Seq<SongEntry>, idx: int) -> int {
    first_match(u, has_audio(), idx + 1)
}

pub proof fn lemma_first_match_is<A>(s: Seq<A>, pred: spec_fn(A) -> bool, from: int, j: int)
    requires
        is_first_match(s, pred, from, j),
    ensures
        first_match(s, pred, from) == j,
{
    let c = choose|j: int| is_first_match(s, pred, from, j);
    assert(is_first_match(s, pred, from, c));
    if c < j {
        assert(!pred(s[c]));
    } else if c > j {
        assert(!pred(s[j]));
    }
}

pub proof fn lemma_no_match<A>(s: Seq<A>, pred: spec_fn(A) -> bool, from: int)
    requires
        forall|k: int| from <= k < s.len() ==> !pred(#[trigger] s[k]),
    ensures
        first_match(s, pred, from) == -1,
{
    assert forall|j: int| !is_first_match(s, pred, from, j) by {
        if from <= j < s.len() {
            assert(!pred(s[j]));
        }
    }
}

/// A match at `k` means the first match exists and lies at or before `k`.
pub proof fn lemma_match_bounds_first<A>(s: Seq<A>, pred: spec_fn(A) -> bool, from: int, k: int)
    requires
        from <= k < s.len(),
        pred(s[k]),
    ensures
        from <= first_match(s, pred, from) <= k,
        is_first_match(s, pred, from, first_match(s, pred, from)),
    decreases k - from,
{
    if exists|m: int| from <= m < k && pred(#[trigger] s[m]) {
        let m = choose|m: int| from <= m < k && pred(#[trigger] s[m]);
        lemma_match_bounds_first(s, pred, from, m);
    } else {
        assert(is_first_match(s, pred, from, k));
        lemma_first_match_is(s, pred, from, k);
    }
}

/// The first match is a match, or there is none at all.
pub proof fn lemma_first_match_cases<A>(s: Seq<A>, pred: spec_fn(A) -> bool, from: int)
    requires
        from >= 0,
    ensures
        first_match(s, pred, from) == -1 || is_first_match(s, pred, from, first_match(s, pred, from)),
        first_match(s, pred, from) == -1 <==> (forall|k: int| from <= k < s.len() ==> !pred(#[trigger] s[k])),
{
    if exists|k: int| from <= k < s.len() && pred(#[trigger] s[k]) {
        let k = choose|k: int| from <= k < s.len() && pred(#[trigger] s[k]);
        lemma_match_bounds_first(s, pred, from, k);
        assert(!(forall|k: int| from <= k < s.len() ==> !pred(#[trigger] s[k])));
    } else {
        assert(forall|k: int| from <= k < s.len() ==> !pred(#[trigger] s[k]));
        lemma_no_match(s, pred, from);
    }
}

/// The first position of `x` in `v`.
pub fn position_of(v: &Vec<u128>, x: u128) -> (r: Option<usize>)
    ensures
        match r {
            Some(i) => i == first_index(v@, x) && i < v.len() && v@[i as int] == x,
            None => first_index(v@, x) == -1 && !v@.contains(x),
        },
{
    let ghost pred = is_id(x);
    let mut i: usize = 0;
    while i < v.len()
        invariant
            i <= v.len(),
            pred == is_id(x),
            forall|k: int| 0 <= k < i ==> v@[k] != x,
        decreases v.len() - i,
    {
        if v[i] == x {
            assert(is_first_match(v@, pred, 0, i as int));
            proof {
                lemma_first_match_is(v@, pred, 0, i as int);
            }
            return Some(i);
        }
        i += 1;
    }
    proof {
        lemma_no_match(v@, pred, 0);
    }
    None
}

/// Whether `x` occurs in `v`.
pub fn contains_id(v: &Vec<u128>, x: u128) -> (b: bool)
    ensures
        b == v@.contains(x),
{
    position_of(v, x).is_some()
}

/// The first position after `idx` whose entry has an audio URL.
pub fn streamable_after(u: &Vec<SongDTO>, idx: usize) -> (r: Option<usize>)
    ensures
        match r {
            Some(j) => j == first_streamable_after(entries(u@), idx as int) && j < u.len(),
            None => first_streamable_after(entries(u@), idx as int) == -1,
        },
{
    let ghost es = entries(u@);
    let ghost pred = has_audio();
    if idx >= u.len() {
        proof {
            lemma_no_match(es, pred, idx + 1);
        }
        return None;
    }
    let mut j: usize = idx + 1;
    while j < u.len()
        invariant
            idx < j <= u.len(),
            es == entries(u@),
            pred == has_audio(),
            forall|k: int| idx + 1 <= k < j ==> !pred(#[trigger] es[k]),
        decreases u.len() - j,
    {
        if u[j].audio_url.is_some() {
            assert(is_first_match(es, pred, idx + 1, j as int));
            proof {
                lemma_first_match_is(es, pred, idx + 1, j as int);
            }
            return Some(j);
        }
        j += 1;
    }
    proof {
        lemma_no_match(es, pred, idx + 1);
    }
    None
}

// ---------------------------------------------------------------------------
// Orders
// ---------------------------------------------------------------------------

/// The contents of a list of song entries.
pub open spec fn entries(v: Seq<SongDTO>) -> Seq<SongEntry> {
    v.map_values(|s: SongDTO| s@)
}

/// `perm` lists each position `0..n` exactly once.
pub open spec fn is_order(perm: Seq<usize>, n: nat) -> bool {
    &&& perm.len() == n
    &&& perm.no_duplicates()
    &&& forall|k: int| 0 <= k < n ==> #[trigger] perm[k] < n
}

/// The positions `0..n` in increasing order.
pub open spec fn identity(n: nat) -> Seq<usize> {
    Seq::new(n, |k: int| k as usize)
}

/// `s` rearranged so that position `k` holds `s[perm[k]]`.
pub open spec fn permute<A>(s: Seq<A>, perm: Seq<usize>) -> Seq<A> {
    Seq::new(perm.len(), |k: int| s[perm[k] as int])
}

/// `s` with positions `0` and `i` exchanged.
pub open spec fn swap_front<A>(s: Seq<A>, i: int) -> Seq<A> {
    s.update(0, s[i]).update(i, s[0])
}

/// A random rearrangement of `0..n` is an order.
proof fn lemma_shuffled_identity_is_order(perm: Seq<usize>, n: nat)
    requires
        n <= usize::MAX,
        perm.to_multiset() == identity(n).to_multiset(),
    ensures
        is_order(perm, n),
{
    let id = identity(n);
    assert(id.no_duplicates());
    id.lemma_multiset_has_no_duplicates();
    vstd::seq_lib::to_multiset_len(perm);
    vstd::seq_lib::to_multiset_len(id);
    assert forall|x: usize| perm.to_multiset().contains(x) implies perm.to_multiset().count(x) == 1 by {
    }
    perm.lemma_multiset_has_no_duplicates_conv();
    assert forall|k: int| 0 <= k < n implies #[trigger] perm[k] < n by {
        vstd::seq_lib::to_multiset_contains(perm, perm[k]);
        vstd::seq_lib::to_multiset_contains(id, perm[k]);
        assert(perm.contains(perm[k]));
        let j = choose|j: int| 0 <= j < id.len() && id[j] == perm[k];
    }
}

/// `rand::rng()`: the thread-local random generator.
#[verifier::external_type_specification]
#[verifier::external_body]
pub struct ExThreadRng(rand::rngs::ThreadRng);

/// Calls `rand::rng()`; nothing is promised of the generator.
#[verifier::external_body]
fn thread_rng() -> rand::rngs::ThreadRng {
    rand::rng()
}

/// Calls `SliceRandom::shuffle`: the slice is rearranged at random, each element kept
/// (stated as equal multisets); the order chosen is not stated.
#[verifier::external_body]
fn shuffle_in_place(v: &mut Vec<usize>, rng: &mut rand::rngs::ThreadRng)
    ensures
        final(v)@.to_multiset() == old(v)@.to_multiset(),
{
    v.shuffle(rng);
}

/// Calls `rand::random_range(low..high)`: some value in `low..high`; which one is not stated.
#[verifier::external_body]
fn random_in(low: usize, high: usize) -> (r: usize)
    requires
        low < high,
    ensures
        low <= r < high,
{
    rand::random_range(low..high)
}

/// A random order of `0..n`.
pub fn shuffled_order(n: usize) -> (perm: Vec<usize>)
    ensures
        is_order(perm@, n as nat),
{
    let mut v: Vec<usize> = Vec::new();
    let mut k: usize = 0;
    while k < n
        invariant
            k <= n,
            v@ == identity(k as nat),
        decreases n - k,
    {
        v.push(k);
        k += 1;
        assert(v@ =~= identity(k as nat));
    }
    let ghost before = v@;
    let mut rng = thread_rng();
    shuffle_in_place(&mut v, &mut rng);
    proof {
        lemma_shuffled_identity_is_order(v@, n as nat);
    }
    v
}

/// `pl` rearranged by `order`.
pub fn permute_ids(pl: &Vec<u128>, order: &Vec<usize>) -> (r: Vec<u128>)
    requires
        forall|k: int| 0 <= k < order.len() ==> #[trigger] order@[k] < pl.len(),
    ensures
        r@ == permute(pl@, order@),
{
    let mut r: Vec<u128> = Vec::new();
    let mut k: usize = 0;
    while k < order.len()
        invariant
            k <= order.len(),
            forall|m: int| 0 <= m < order.len() ==> #[trigger] order@[m] < pl.len(),
            r@ == permute(pl@, order@.take(k as int)),
        decreases order.len() - k,
    {
        r.push(pl[order[k]]);
        k += 1;
        assert(r@ =~= permute(pl@, order@.take(k as int)));
    }
    assert(order@.take(order.len() as int) =~= order@);
    r
}

/// `u` rearranged by `order`.
pub fn permute_entries(u: &Vec<SongDTO>, order: &Vec<usize>) -> (r: Vec<SongDTO>)
    requires
        forall|k: int| 0 <= k < order.len() ==> #[trigger] order@[k] < u.len(),
    ensures
        entries(r@) == permute(entries(u@), order@),
{
    let mut r: Vec<SongDTO> = Vec::new();
    let mut k: usize = 0;
    while k < order.len()
        invariant
            k <= order.len(),
            forall|m: int| 0 <= m < order.len() ==> #[trigger] order@[m] < u.len(),
            entries(r@) == permute(entries(u@), order@.take(k as int)),
        decreases order.len() - k,
    {
        let e = u[order[k]].clone();
        let ghost before = r@;
        r.push(e);
        assert(r@ == before.push(e));
        assert(entries(r@) =~= entries(before).push(e@));
        k += 1;
        assert(entries(r@) =~= permute(entries(u@), order@.take(k as int)));
    }
    assert(order@.take(order.len() as int) =~= order@);
    r
}

fn swap_front_order(order: &mut Vec<usize>, i: usize)
    requires
        i < old(order).len(),
    ensures
        final(order)@ == swap_front(old(order)@, i as int),
{
    let first = order[0];
    let other = order[i];
    order.set(0, other);
    order.set(i, first);
}

// ---------------------------------------------------------------------------
// The queue
// ---------------------------------------------------------------------------

/// A song to start, by its position in the list the decision was taken on; `from_url`
/// says that it is streamed from the entry at that position of the URL playlist.
#[derive(Debug, Clone, Copy, PartialEq, Eq, Structural)]
pub struct Target {
    pub index: usize,
    pub song: u128,
    pub from_url: bool,
}

/// What the player does once the current song has played to its end.
#[derive(Debug, Clone, Copy, PartialEq, Eq, Structural)]
pub enum EndAction {
    /// Start the given song of the play order.
    Play(Target),
    /// Play the current song again from the song database.
    ReplayCurrent,
    /// The queue was dropped; playback stops.
    Stopped,
    /// Nothing to do.
    Idle,
}

/// The mathematical state of the queue.
pub struct QueueModel {
    /// The playlist as set by the user (shuffled in place while shuffling is on).
    pub playlist: Option<Seq<u128>>,
    /// The songs to stream, position by position alongside the playlist.
    pub url_playlist: Option<Seq<SongEntry>>,
    /// The order the playback follows.
    pub ordered: Option<Seq<u128>>,
    pub shuffle: bool,
    pub loop_mode: LoopMode,
}

/// The play queue of the player.
pub struct Queue {
    playlist: Option<Vec<u128>>,
    url_playlist: Option<Vec<SongDTO>>,
    ordered: Option<Vec<u128>>,
    shuffle: bool,
    loop_mode: LoopMode,
}

pub open spec fn ids_view(o: Option<Vec<u128>>) -> Option<Seq<u128>> {
    match o {
        Some(v) => Some(v@),
        None => None,
    }
}

pub open spec fn entries_view(o: Option<Vec<SongDTO>>) -> Option<Seq<SongEntry>> {
    match o {
        Some(v) => Some(entries(v@)),
        None => None,
    }
}

impl View for Queue {
    type V = QueueModel;

    closed spec fn view(&self) -> QueueModel {
        QueueModel {
            playlist: ids_view(self.playlist),
            url_playlist: entries_view(self.url_playlist),
            ordered: ids_view(self.ordered),
            shuffle: self.shuffle,
            loop_mode: self.loop_mode,
        }
    }
}

impl QueueModel {
    /// While a playlist is set, the play order is the playlist itself (a shuffle
    /// rearranges both alike); while shuffling is off, the two are equal in any case.
    pub open spec fn wf(self) -> bool {
        &&& (self.playlist is Some ==> self.ordered == self.playlist)
        &&& (!self.shuffle ==> self.ordered == self.playlist)
    }

    /// The URL playlist has an entry for every playlist position (a shuffle indexes it so).
    pub open spec fn url_covers(self) -> bool {
        match (self.playlist, self.url_playlist) {
            (Some(p), Some(u)) => u.len() >= p.len(),
            _ => true,
        }
    }

    /// The order a shuffle applies: `perm`, with the current song then brought to the
    /// front (`swap`), or moved off the front to position `alt` (no `swap`).
    pub open spec fn adjusted_order(p: Seq<u128>, perm: Seq<usize>, current: Option<u128>, swap: bool, alt: int) -> Seq<usize> {
        match current {
            Some(c) => {
                let i = first_index(permute(p, perm), c);
                if i < 0 {
                    perm
                } else if swap {
                    swap_front(perm, i)
                } else if i == 0 && p.len() > 1 {
                    swap_front(perm, alt)
                } else {
                    perm
                }
            },
            None => perm,
        }
    }

    /// Re-derives the play order: with `shuffle`, the playlist (and the URL playlist
    /// alongside it) is rearranged by `perm` adjusted for the current song; without, the
    /// play order becomes the playlist.
    pub open spec fn reorder(self, shuffle: bool, swap: bool, current: Option<u128>, perm: Seq<usize>, alt: int) -> QueueModel {
        if shuffle {
            match self.playlist {
                Some(p) => {
                    let order = QueueModel::adjusted_order(p, perm, current, swap, alt);
                    let new_p = permute(p, order);
                    let new_u = match self.url_playlist {
                        Some(u) => permute(u, order),
                        None => Seq::<SongEntry>::empty(),
                    };
                    QueueModel {
                        playlist: Some(new_p),
                        url_playlist: if new_u.len() == 0 { None } else { Some(new_u) },
                        ordered: Some(new_p),
                        ..self
                    }
                },
                None => self,
            }
        } else {
            QueueModel { ordered: self.playlist, ..self }
        }
    }

    /// Setting a new playlist re-derives the order, keeping the current song in front.
    pub open spec fn set_playlist(self, p: Option<Seq<u128>>, current: Option<u128>, perm: Seq<usize>, alt: int) -> QueueModel {
        QueueModel { playlist: p, ..self }.reorder(self.shuffle, true, current, perm, alt)
    }

    /// A new playlist that lacks the current song ends the current song.
    pub open spec fn stops_current(p: Option<Seq<u128>>, current: Option<u128>) -> bool {
        p matches Some(s) && current matches Some(c) && !s.contains(c)
    }

    /// Turning shuffling on or off re-derives the order when the setting changes.
    pub open spec fn set_shuffle(self, enabled: bool, current: Option<u128>, perm: Seq<usize>, alt: int) -> QueueModel {
        let q = if self.shuffle != enabled { self.reorder(enabled, true, current, perm, alt) } else { self };
        QueueModel { shuffle: enabled, ..q }
    }

    /// The song at position `k` of the play order, streamed when the URL playlist matches
    /// the order's length.
    pub open spec fn target_at(self, k: int) -> Target {
        let o = self.ordered.unwrap();
        Target {
            index: k as usize,
            song: o[k],
            from_url: self.url_playlist matches Some(u) && u.len() == o.len(),
        }
    }

    /// Drops both the playlist and the play order.
    pub open spec fn cleared(self) -> QueueModel {
        QueueModel { playlist: None, ordered: None, ..self }
    }

    /// The current song is the last of the play order, and the order restarts shuffled.
    pub open spec fn reshuffles_at_end(self, current: u128) -> bool {
        &&& self.ordered matches Some(o)
        &&& first_index(o, current) >= 0
        &&& first_index(o, current) + 1 >= o.len()
        &&& self.loop_mode == LoopMode::All
        &&& self.shuffle
    }

    /// The state and action once `current` has played to its end.
    pub open spec fn song_end(self, current: u128, perm: Seq<usize>, alt: int) -> (QueueModel, EndAction) {
        match self.ordered {
            Some(o) => {
                let idx = first_index(o, current);
                if idx >= 0 {
                    if idx + 1 >= o.len() {
                        match self.loop_mode {
                            LoopMode::All => {
                                let q = if self.shuffle { self.reorder(true, false, Some(current), perm, alt) } else { self };
                                (q, EndAction::Play(q.target_at(0)))
                            },
                            LoopMode::One => (self, EndAction::ReplayCurrent),
                            LoopMode::Off => (self.cleared(), EndAction::Stopped),
                        }
                    } else {
                        (self, EndAction::Play(self.target_at(idx + 1)))
                    }
                } else {
                    (self.cleared(), EndAction::Stopped)
                }
            },
            None => (self, if self.loop_mode != LoopMode::Off { EndAction::ReplayCurrent } else { EndAction::Idle }),
        }
    }

    /// The song the "next" button starts: the one after the current song in the
    /// playlist; with a URL playlist of the same length, the first later one that has
    /// an audio URL.
    pub open spec fn next_target(self, current: u128) -> Option<Target> {
        match self.playlist {
            Some(p) => {
                let idx = first_index(p, current);
                if idx < 0 {
                    None
                } else {
                    match self.url_playlist {
                        Some(u) if u.len() == p.len() => {
                            let j = first_streamable_after(u, idx);
                            if j < 0 { None } else { Some(Target { index: j as usize, song: p[j], from_url: true }) }
                        },
                        _ => if idx + 1 < p.len() {
                            Some(Target { index: (idx + 1) as usize, song: p[idx + 1], from_url: false })
                        } else {
                            None
                        },
                    }
                }
            },
            None => None,
        }
    }

    /// The song the "previous" button starts: the one before the current song in the playlist.
    pub open spec fn previous_target(self, current: u128) -> Option<Target> {
        match self.playlist {
            Some(p) => {
                let idx = first_index(p, current);
                if idx >= 1 {
                    Some(Target {
                        index: (idx - 1) as usize,
                        song: p[idx - 1],
                        from_url: self.url_playlist matches Some(u) && u.len() == p.len(),
                    })
                } else {
                    None
                }
            },
            None => None,
        }
    }

    /// Asking for a song outside the play order drops the playlist.
    pub open spec fn leaves_order(self, song: u128) -> bool {
        self.ordered matches Some(o) && !o.contains(song)
    }
}

/// A valid shuffle draw for a list of `n` songs: an order of `0..n`, and a position
/// `1 <= alt < n` to move the current song to (any value when `n <= 1`).
pub open spec fn valid_draw(perm: Seq<usize>, alt: int, n: nat) -> bool {
    is_order(perm, n) && (n <= 1 || 1 <= alt < n)
}

fn clone_ids(v: &Option<Vec<u128>>) -> (r: Option<Vec<u128>>)
    ensures
        ids_view(r) == ids_view(*v),
{
    match v {
        Some(v) => {
            let mut r: Vec<u128> = Vec::new();
            let mut i: usize = 0;
            while i < v.len()
                invariant
                    i <= v.len(),
                    r@ == v@.take(i as int),
                decreases v.len() - i,
            {
                r.push(v[i]);
                i += 1;
                assert(r@ =~= v@.take(i as int));
            }
            assert(v@.take(v.len() as int) =~= v@);
            Some(r)
        },
        None => None,
    }
}

impl Queue {
    /// An empty queue: no playlist, shuffling off, no looping.
    pub fn new() -> (q: Self)
        ensures
            q@ == (QueueModel { playlist: None, url_playlist: None, ordered: None, shuffle: false, loop_mode: LoopMode::Off }),
            q@.wf(),
    {
        Queue { playlist: None, url_playlist: None, ordered: None, shuffle: false, loop_mode: LoopMode::Off }
    }

    /// The playlist as set by the user.
    pub fn get_playlist(&self) -> (r: Option<Vec<u128>>)
        ensures
            ids_view(r) == self@.playlist,
    {
        clone_ids(&self.playlist)
    }

    /// The play order.
    pub fn get_ordered(&self) -> (r: Option<Vec<u128>>)
        ensures
            ids_view(r) == self@.ordered,
    {
        clone_ids(&self.ordered)
    }

    /// The entry at position `index` of the URL playlist.
    pub fn url_entry(&self, index: usize) -> (r: Option<SongDTO>)
        ensures
            match (r, self@.url_playlist) {
                (Some(e), Some(u)) => index < u.len() && e@ == u[index as int],
                (None, Some(u)) => index >= u.len(),
                (None, None) => true,
                (Some(_), None) => false,
            },
    {
        match &self.url_playlist {
            Some(u) => {
                if index < u.len() {
                    Some(u[index].clone())
                } else {
                    None
                }
            },
            None => None,
        }
    }

    /// The number of entries of the URL playlist, if there is one.
    pub fn url_playlist_len(&self) -> (r: Option<usize>)
        ensures
            match self@.url_playlist {
                Some(u) => r == Some(u.len() as usize),
                None => r is None,
            },
    {
        match &self.url_playlist {
            Some(u) => Some(u.len()),
            None => None,
        }
    }

    pub fn shuffle(&self) -> (b: bool)
        ensures
            b == self@.shuffle,
    {
        self.shuffle
    }

    pub fn loop_mode(&self) -> (m: LoopMode)
        ensures
            m == self@.loop_mode,
    {
        self.loop_mode
    }

    /// Re-derives the play order (see `QueueModel::reorder`), drawing the shuffle at random.
    fn reorder(&mut self, shuffle: bool, swap: bool, current: Option<u128>)
        requires
            shuffle ==> old(self)@.url_covers(),
        ensures
            exists|perm: Seq<usize>, alt: int|
                valid_draw(perm, alt, len_of(old(self)@.playlist))
                && final(self)@ == old(self)@.reorder(shuffle, swap, current, perm, alt),
    {
        proof {
            if let Some(p) = &self.playlist {
                assert(p@.len() == p.len());
            }
        }
        if !shuffle || self.playlist.is_none() {
            if !shuffle {
                self.ordered = clone_ids(&self.playlist);
            }
            proof {
                let n = len_of(old(self)@.playlist);
                lemma_identity_is_order(n);
                assert(valid_draw(identity(n), 1, n));
                assert(self@ == old(self)@.reorder(shuffle, swap, current, identity(n), 1));
            }
            return;
        }
        let pl = self.playlist.as_ref().unwrap();
        let n = pl.len();
        let mut order = shuffled_order(n);
        let ghost perm = order@;
        let mut alt: usize = 1;
        match current {
            Some(c) => {
                let shuffled = permute_ids(pl, &order);
                match position_of(&shuffled, c) {
                    Some(i) => {
                        if swap {
                            proof { lemma_swap_front_order(order@, n as nat, i as int); }
                            swap_front_order(&mut order, i);
                        } else if i == 0 && n > 1 {
                            alt = random_in(1, n);
                            proof { lemma_swap_front_order(order@, n as nat, alt as int); }
                            swap_front_order(&mut order, alt);
                        }
                    },
                    None => {},
                }
            },
            None => {},
        }
        assert(order@ == QueueModel::adjusted_order(pl@, perm, current, swap, alt as int));
        assert(is_order(order@, n as nat));
        let new_p = permute_ids(pl, &order);
        let new_u = match &self.url_playlist {
            Some(u) => {
                let r = permute_entries(u, &order);
                if r.len() == 0 { None } else { Some(r) }
            },
            None => None,
        };
        let new_p = Some(new_p);
        self.playlist = clone_ids(&new_p);
        self.ordered = new_p;
        self.url_playlist = new_u;
        assert(len_of(old(self)@.playlist) == n);
        assert(valid_draw(perm, alt as int, len_of(old(self)@.playlist))
            && self@ == old(self)@.reorder(shuffle, swap, current, perm, alt as int));
    }
}

impl Queue {
    /// Sets the playlist (the user's `Playlist` command) and re-derives the play order,
    /// keeping the current song in front while shuffling. Returns whether the new
    /// playlist lacks the current song, which then has to stop.
    pub fn set_playlist(&mut self, playlist: Option<Vec<u128>>, current: Option<u128>) -> (stop: bool)
        requires
            old(self)@.wf(),
            old(self)@.shuffle ==> (QueueModel { playlist: ids_view(playlist), ..old(self)@ }).url_covers(),
        ensures
            final(self)@.wf(),
            stop == QueueModel::stops_current(ids_view(playlist), current),
            exists|perm: Seq<usize>, alt: int|
                valid_draw(perm, alt, len_of(ids_view(playlist)))
                && final(self)@ == old(self)@.set_playlist(ids_view(playlist), current, perm, alt),
    {
        let stop = match (&playlist, current) {
            (Some(p), Some(c)) => !contains_id(p, c),
            _ => false,
        };
        self.playlist = playlist;
        let shuffle = self.shuffle;
        self.reorder(shuffle, true, current);
        proof {
            let perm = choose|perm: Seq<usize>, alt: int|
                valid_draw(perm, alt, len_of(ids_view(playlist)))
                && self@ == (QueueModel { playlist: ids_view(playlist), ..old(self)@ }).reorder(shuffle, true, current, perm, alt);
            lemma_reorder_wf(QueueModel { playlist: ids_view(playlist), ..old(self)@ }, shuffle, true, current, perm.0, perm.1);
        }
        stop
    }

    /// Sets the URL playlist (the user's `UrlPlaylist` command).
    pub fn set_url_playlist(&mut self, url_playlist: Option<Vec<SongDTO>>)
        requires
            old(self)@.wf(),
        ensures
            final(self)@.wf(),
            final(self)@ == (QueueModel { url_playlist: entries_view(url_playlist), ..old(self)@ }),
    {
        self.url_playlist = url_playlist;
    }

    /// Turns shuffling on or off; a change re-derives the play order with the current
    /// song in front.
    pub fn set_shuffle(&mut self, enabled: bool, current: Option<u128>)
        requires
            old(self)@.wf(),
            enabled && !old(self)@.shuffle ==> old(self)@.url_covers(),
        ensures
            final(self)@.wf(),
            exists|perm: Seq<usize>, alt: int|
                valid_draw(perm, alt, len_of(old(self)@.playlist))
                && final(self)@ == old(self)@.set_shuffle(enabled, current, perm, alt),
    {
        if self.shuffle != enabled {
            self.reorder(enabled, true, current);
            proof {
                let perm = choose|perm: Seq<usize>, alt: int|
                    valid_draw(perm, alt, len_of(old(self)@.playlist))
                    && self@ == old(self)@.reorder(enabled, true, current, perm, alt);
                lemma_reorder_wf(old(self)@, enabled, true, current, perm.0, perm.1);
            }
        } else {
            proof {
                let n = len_of(old(self)@.playlist);
                lemma_view_lengths(old(self));
                lemma_identity_is_order(n);
                assert(valid_draw(identity(n), 1, n));
            }
        }
        self.shuffle = enabled;
        proof {
            if old(self)@.shuffle == enabled {
                let n = len_of(old(self)@.playlist);
                assert(self@ == old(self)@.set_shuffle(enabled, current, identity(n), 1));
            }
        }
    }

    /// Sets the loop mode.
    pub fn set_loop_mode(&mut self, mode: LoopMode)
        requires
            old(self)@.wf(),
        ensures
            final(self)@.wf(),
            final(self)@ == (QueueModel { loop_mode: mode, ..old(self)@ }),
    {
        self.loop_mode = mode;
    }

    /// Whether asking for `song` drops the playlist, the song being outside the play order.
    pub fn leaves_order(&self, song: u128) -> (b: bool)
        ensures
            b == self@.leaves_order(song),
    {
        match &self.ordered {
            Some(o) => !contains_id(o, song),
            None => false,
        }
    }

    /// The song the "next" button starts (see `QueueModel::next_target`).
    pub fn next_target(&self, current: u128) -> (r: Option<Target>)
        ensures
            r == self@.next_target(current),
    {
        match &self.playlist {
            None => None,
            Some(p) => {
                match position_of(p, current) {
                    None => None,
                    Some(idx) => {
                        match &self.url_playlist {
                            Some(u) if u.len() == p.len() => {
                                proof { assert(entries(u@).len() == u.len()); }
                                match streamable_after(u, idx) {
                                    Some(j) => Some(Target { index: j, song: p[j], from_url: true }),
                                    None => None,
                                }
                            },
                            _ => {
                                if idx + 1 < p.len() {
                                    Some(Target { index: idx + 1, song: p[idx + 1], from_url: false })
                                } else {
                                    None
                                }
                            },
                        }
                    },
                }
            },
        }
    }

    /// The song the "previous" button starts (see `QueueModel::previous_target`).
    pub fn previous_target(&self, current: u128) -> (r: Option<Target>)
        ensures
            r == self@.previous_target(current),
    {
        match &self.playlist {
            None => None,
            Some(p) => {
                match position_of(p, current) {
                    Some(idx) => {
                        if idx >= 1 {
                            let from_url = match &self.url_playlist {
                                Some(u) => u.len() == p.len(),
                                None => false,
                            };
                            Some(Target { index: idx - 1, song: p[idx - 1], from_url })
                        } else {
                            None
                        }
                    },
                    None => None,
                }
            },
        }
    }

    /// Decides what follows once `current` has played to its end, updating the queue
    /// (see `QueueModel::song_end`); a restart in shuffle mode draws a new order.
    pub fn on_song_finished(&mut self, current: u128) -> (action: EndAction)
        requires
            old(self)@.wf(),
            old(self)@.reshuffles_at_end(current) ==> old(self)@.url_covers(),
        ensures
            final(self)@.wf(),
            exists|perm: Seq<usize>, alt: int|
                valid_draw(perm, alt, len_of(old(self)@.playlist))
                && (final(self)@, action) == old(self)@.song_end(current, perm, alt),
            action matches EndAction::Play(t) ==> (
                final(self)@.ordered matches Some(o) && t.index < o.len() && t.song == o[t.index as int]
                && (t.from_url ==> (final(self)@.url_playlist matches Some(u) && t.index < u.len()))),
    {
        proof {
            lemma_view_lengths(old(self));
            let n = len_of(old(self)@.playlist);
            lemma_identity_is_order(n);
            assert(valid_draw(identity(n), 1, n));
        }
        let ghost n = len_of(old(self)@.playlist);
        let ghost mut draw: (Seq<usize>, int) = (identity(n), 1);
        let action = match &self.ordered {
            None => {
                if self.loop_mode != LoopMode::Off { EndAction::ReplayCurrent } else { EndAction::Idle }
            },
            Some(o) => {
                let len = o.len();
                match position_of(o, current) {
                    None => {
                        self.playlist = None;
                        self.ordered = None;
                        EndAction::Stopped
                    },
                    Some(idx) => {
                        if idx + 1 >= len {
                            match self.loop_mode {
                                LoopMode::All => {
                                    if self.shuffle {
                                        self.reorder(true, false, Some(current));
                                        proof {
                                            draw = choose|perm: Seq<usize>, alt: int|
                                                valid_draw(perm, alt, n)
                                                && self@ == old(self)@.reorder(true, false, Some(current), perm, alt);
                                            lemma_reorder_wf(old(self)@, true, false, Some(current), draw.0, draw.1);
                                            lemma_reorder_keeps_nonempty(old(self)@, current, draw.0, draw.1);
                                        }
                                    }
                                    let o2 = self.ordered.as_ref().unwrap();
                                    let from_url = match &self.url_playlist {
                                        Some(u) => u.len() == o2.len(),
                                        None => false,
                                    };
                                    EndAction::Play(Target { index: 0, song: o2[0], from_url })
                                },
                                LoopMode::One => EndAction::ReplayCurrent,
                                LoopMode::Off => {
                                    self.playlist = None;
                                    self.ordered = None;
                                    EndAction::Stopped
                                },
                            }
                        } else {
                            let from_url = match &self.url_playlist {
                                Some(u) => u.len() == len,
                                None => false,
                            };
                            EndAction::Play(Target { index: idx + 1, song: o[idx + 1], from_url })
                        }
                    },
                }
            },
        };
        assert(valid_draw(draw.0, draw.1, len_of(old(self)@.playlist))
            && (self@, action) == old(self)@.song_end(current, draw.0, draw.1));
        action
    }
}

/// Whether a request to play `requested` must (re)load audio: another song is current,
/// or nothing is queued in the mixer.
pub fn needs_reload(current: Option<u128>, requested: u128, mixer_empty: bool) -> (b: bool)
    ensures
        b == (current != Some(requested) || mixer_empty),
{
    match current {
        Some(c) => c != requested || mixer_empty,
        None => true,
    }
}

/// Whether audio that finished loading for `incoming` is outdated, another song having
/// become current meanwhile.
pub fn is_outdated(incoming: Option<u128>, current: Option<u128>) -> (b: bool)
    ensures
        b == (incoming matches Some(a) && current matches Some(c) && a != c),
{
    match (incoming, current) {
        (Some(a), Some(c)) => a != c,
        _ => false,
    }
}

proof fn lemma_view_lengths(q: &Queue)
    ensures
        len_of(q@.playlist) <= usize::MAX,
{
    if let Some(p) = &q.playlist {
        assert(p@.len() == p.len());
    }
}

/// Re-deriving the order with the shuffle setting that then holds leaves the queue well formed.
proof fn lemma_reorder_wf(q: QueueModel, shuffle: bool, swap: bool, current: Option<u128>, perm: Seq<usize>, alt: int)
    ensures
        (QueueModel { shuffle: shuffle, ..q.reorder(shuffle, swap, current, perm, alt) }).wf(),
{
}

/// Restarting a non-empty play order in shuffle mode leaves it non-empty.
proof fn lemma_reorder_keeps_nonempty(q: QueueModel, current: u128, perm: Seq<usize>, alt: int)
    requires
        q.wf(),
        q.ordered matches Some(o) && o.len() > 0,
        valid_draw(perm, alt, len_of(q.playlist)),
    ensures
        q.reorder(true, false, Some(current), perm, alt).ordered matches Some(o) && o.len() > 0,
{
    if let Some(p) = q.playlist {
        let o = q.ordered.unwrap();
        vstd::seq_lib::to_multiset_len(o);
        vstd::seq_lib::to_multiset_len(p);
        let order = QueueModel::adjusted_order(p, perm, Some(current), false, alt);
        if order != perm {
            assert(order.len() == perm.len());
        }
    }
}

pub open spec fn len_of(o: Option<Seq<u128>>) -> nat {
    match o {
        Some(s) => s.len(),
        None => 0,
    }
}

proof fn lemma_identity_is_order(n: nat)
    requires
        n <= usize::MAX,
    ensures
        is_order(identity(n), n),
{
}

proof fn lemma_swap_front_order(perm: Seq<usize>, n: nat, i: int)
    requires
        is_order(perm, n),
        0 <= i < n,
    ensures
        is_order(swap_front(perm, i), n),
{
    let s = swap_front(perm, i);
    assert forall|a: int, b: int| 0 <= a < s.len() && 0 <= b < s.len() && a != b implies s[a] != s[b] by {
        let pa = if a == 0 { i } else if a == i { 0 } else { a };
        let pb = if b == 0 { i } else if b == i { 0 } else { b };
        assert(s[a] == perm[pa]);
        assert(s[b] == perm[pb]);
    }
}

} // verus!

verus! {

// ---------------------------------------------------------------------------
// Laws
// ---------------------------------------------------------------------------

/// Rearranging by an order keeps every element with its multiplicity.
pub proof fn lemma_permute_keeps_multiset<A>(p: Seq<A>, order: Seq<usize>)
    requires
        is_order(order, p.len()),
    ensures
        permute(p, order).to_multiset() == p.to_multiset(),
    decreases p.len(),
{
    broadcast use vstd::multiset::group_multiset_axioms;
    let n = p.len();
    if n == 0 {
        assert(permute(p, order) =~= p);
    } else {
        let j = order[n - 1] as int;
        let q = p.remove(j);
        let o2 = Seq::new((n - 1) as nat, |k: int| if (order[k] as int) < j { order[k] } else { (order[k] - 1) as usize });
        assert forall|k: int| 0 <= k < n - 1 implies #[trigger] o2[k] < n - 1 by {
            assert(order[k] != order[n - 1]);
        }
        assert forall|a: int, b: int| 0 <= a < o2.len() && 0 <= b < o2.len() && a != b implies o2[a] != o2[b] by {
            assert(order[a] != order[b]);
            assert(order[a] != order[n - 1]);
            assert(order[b] != order[n - 1]);
        }
        assert(is_order(o2, q.len()));
        lemma_permute_keeps_multiset(q, o2);
        let full = permute(p, order);
        assert forall|k: int| 0 <= k < n - 1 implies #[trigger] permute(q, o2)[k] == full.drop_last()[k] by {
            assert(order[k] != order[n - 1]);
        }
        assert(permute(q, o2) =~= full.drop_last());
        assert(full =~= full.drop_last().push(p[j]));
        vstd::seq_lib::to_multiset_build(full.drop_last(), p[j]);
        vstd::seq_lib::to_multiset_remove(p, j);
        vstd::seq_lib::to_multiset_contains(p, p[j]);
        assert(full.to_multiset() =~= p.to_multiset());
    }
}

/// The adjusted order of a valid draw is an order.
pub proof fn lemma_adjusted_is_order(p: Seq<u128>, perm: Seq<usize>, current: Option<u128>, swap: bool, alt: int)
    requires
        valid_draw(perm, alt, p.len()),
    ensures
        is_order(QueueModel::adjusted_order(p, perm, current, swap, alt), p.len()),
{
    if let Some(c) = current {
        let i = first_index(permute(p, perm), c);
        lemma_first_match_cases(permute(p, perm), is_id(c), 0);
        if i >= 0 {
            if swap {
                lemma_swap_front_order(perm, p.len(), i);
            } else if i == 0 && p.len() > 1 {
                lemma_swap_front_order(perm, p.len(), alt);
            }
        }
    }
}

/// Shuffling keeps the playlist's songs, each as often as before, and makes the play
/// order that same rearrangement.
pub proof fn law_shuffle_keeps_songs(q: QueueModel, swap: bool, current: Option<u128>, perm: Seq<usize>, alt: int)
    requires
        q.playlist is Some,
        valid_draw(perm, alt, len_of(q.playlist)),
    ensures
        q.reorder(true, swap, current, perm, alt).playlist matches Some(np)
            && np.to_multiset() == q.playlist.unwrap().to_multiset(),
        q.reorder(true, swap, current, perm, alt).ordered == q.reorder(true, swap, current, perm, alt).playlist,
{
    let p = q.playlist.unwrap();
    lemma_adjusted_is_order(p, perm, current, swap, alt);
    lemma_permute_keeps_multiset(p, QueueModel::adjusted_order(p, perm, current, swap, alt));
}

/// Shuffling moves each URL playlist entry together with its song: position `k` of both
/// new lists comes from one and the same position of the old lists.
pub proof fn law_shuffle_keeps_pairs(q: QueueModel, swap: bool, current: Option<u128>, perm: Seq<usize>, alt: int, k: int)
    requires
        q.playlist is Some,
        q.url_covers(),
        valid_draw(perm, alt, len_of(q.playlist)),
        q.reorder(true, swap, current, perm, alt).url_playlist is Some,
        0 <= k < q.playlist.unwrap().len(),
    ensures
        ({
            let r = q.reorder(true, swap, current, perm, alt);
            exists|i: int| 0 <= i < q.playlist.unwrap().len()
                && r.playlist.unwrap()[k] == q.playlist.unwrap()[i]
                && r.url_playlist.unwrap()[k] == q.url_playlist.unwrap()[i]
        }),
{
    let p = q.playlist.unwrap();
    let order = QueueModel::adjusted_order(p, perm, current, swap, alt);
    lemma_adjusted_is_order(p, perm, current, swap, alt);
    let i = order[k] as int;
    assert(0 <= i < p.len());
    let r = q.reorder(true, swap, current, perm, alt);
    assert(r.playlist.unwrap()[k] == p[i] && r.url_playlist.unwrap()[k] == q.url_playlist.unwrap()[i]);
}

/// Shuffling with the current song brought forward starts the new order with that song.
pub proof fn law_shuffle_puts_current_first(q: QueueModel, current: u128, perm: Seq<usize>, alt: int)
    requires
        q.playlist matches Some(p) && p.contains(current),
        valid_draw(perm, alt, len_of(q.playlist)),
    ensures
        q.reorder(true, true, Some(current), perm, alt).playlist.unwrap()[0] == current,
{
    let p = q.playlist.unwrap();
    let shuffled = permute(p, perm);
    lemma_permute_keeps_multiset(p, perm);
    vstd::seq_lib::to_multiset_contains(p, current);
    vstd::seq_lib::to_multiset_contains(shuffled, current);
    let k = choose|k: int| 0 <= k < shuffled.len() && shuffled[k] == current;
    lemma_match_bounds_first(shuffled, is_id(current), 0, k);
    let i = first_index(shuffled, current);
    assert(shuffled[i] == current);
}

/// Restarting a shuffled queue never begins with the song that just ended, when the
/// queue holds more than one song and no song twice.
pub proof fn law_restart_avoids_current(q: QueueModel, current: u128, perm: Seq<usize>, alt: int)
    requires
        q.playlist matches Some(p) && p.contains(current) && p.len() > 1 && p.no_duplicates(),
        valid_draw(perm, alt, len_of(q.playlist)),
    ensures
        q.reorder(true, false, Some(current), perm, alt).playlist.unwrap()[0] != current,
{
    let p = q.playlist.unwrap();
    let shuffled = permute(p, perm);
    lemma_permute_keeps_multiset(p, perm);
    vstd::seq_lib::to_multiset_contains(p, current);
    vstd::seq_lib::to_multiset_contains(shuffled, current);
    let k = choose|k: int| 0 <= k < shuffled.len() && shuffled[k] == current;
    lemma_match_bounds_first(shuffled, is_id(current), 0, k);
    let i = first_index(shuffled, current);
    if i == 0 {
        assert(perm[alt] != perm[0]);
        assert(p[perm[0] as int] == current);
    } else {
        assert(!is_id(current)(shuffled[0]));
    }
}

/// The "next" song lies after the current song in the playlist and is the song at its
/// index; a streamed one has an audio URL.
pub proof fn law_next_is_later(q: QueueModel, current: u128)
    requires
        q.next_target(current) is Some,
        len_of(q.playlist) <= usize::MAX,
    ensures
        ({
            let t = q.next_target(current).unwrap();
            let p = q.playlist.unwrap();
            &&& first_index(p, current) < t.index < p.len()
            &&& p[t.index as int] == t.song
            &&& t.from_url ==> q.url_playlist.unwrap()[t.index as int].audio_url is Some
        }),
{
    let p = q.playlist.unwrap();
    let idx = first_index(p, current);
    assert(idx >= 0);
    match q.url_playlist {
        Some(u) => {
            if u.len() == p.len() {
                lemma_first_match_cases(u, has_audio(), idx + 1);
                let j = first_streamable_after(u, idx);
                assert(j >= 0);
                assert(is_first_match(u, has_audio(), idx + 1, j));
                assert(has_audio()(u[j]));
            }
        },
        None => {},
    }
}

/// Going back one song and then forward one song returns to the same song, for a
/// playlist without repeated songs and without URL playlist.
pub proof fn law_previous_then_next(q: QueueModel, current: u128)
    requires
        q.playlist matches Some(p) && p.no_duplicates(),
        q.url_playlist is None,
        q.previous_target(current) is Some,
    ensures
        q.next_target(q.previous_target(current).unwrap().song) == Some(Target {
            index: first_index(q.playlist.unwrap(), current) as usize,
            song: current,
            from_url: false,
        }),
{
    let p = q.playlist.unwrap();
    let idx = first_index(p, current);
    lemma_first_match_cases(p, is_id(current), 0);
    let prev = p[idx - 1];
    assert(is_first_match(p, is_id(prev), 0, idx - 1)) by {
        assert forall|k: int| 0 <= k < idx - 1 implies !is_id(prev)(#[trigger] p[k]) by {
            assert(p[k] != p[idx - 1]);
        }
    }
    lemma_first_match_is(p, is_id(prev), 0, idx - 1);
}

/// With looping over the whole queue, the end of the last song starts the first song
/// of the (possibly reshuffled) order; with looping off, it ends the queue.
pub proof fn law_end_of_queue(q: QueueModel, current: u128, perm: Seq<usize>, alt: int)
    requires
        q.ordered matches Some(o) && first_index(o, current) >= 0 && first_index(o, current) + 1 >= o.len(),
    ensures
        q.loop_mode == LoopMode::All ==> (q.song_end(current, perm, alt).1 matches EndAction::Play(t) && t.index == 0),
        q.loop_mode == LoopMode::One ==> q.song_end(current, perm, alt).1 == EndAction::ReplayCurrent,
        q.loop_mode == LoopMode::Off ==> q.song_end(current, perm, alt) == (q.cleared(), EndAction::Stopped),
{
}

/// Setting a playlist while shuffling, with a current song that the new playlist
/// holds, starts the new play order with the current song; the order holds as many
/// songs as the playlist.
pub proof fn law_set_playlist_puts_current_first(q: QueueModel, s: Seq<u128>, c: u128, perm: Seq<usize>, alt: int)
    requires
        q.shuffle,
        s.contains(c),
        valid_draw(perm, alt, s.len()),
    ensures
        q.set_playlist(Some(s), Some(c), perm, alt).ordered matches Some(o) && o.len() == s.len() && o[0] == c,
{
    let q1 = QueueModel { playlist: Some(s), ..q };
    law_shuffle_puts_current_first(q1, c, perm, alt);
    let order = QueueModel::adjusted_order(s, perm, Some(c), true, alt);
    lemma_adjusted_is_order(s, perm, Some(c), true, alt);
}

/// Turning shuffling on, with a current song that the playlist holds, starts the new
/// play order with the current song.
pub proof fn law_set_shuffle_puts_current_first(q: QueueModel, c: u128, perm: Seq<usize>, alt: int)
    requires
        !q.shuffle,
        q.playlist matches Some(s) && s.contains(c),
        valid_draw(perm, alt, len_of(q.playlist)),
    ensures
        q.set_shuffle(true, Some(c), perm, alt).ordered matches Some(o)
            && o.len() == q.playlist.unwrap().len() && o[0] == c,
        q.set_shuffle(true, Some(c), perm, alt).shuffle,
{
    let s = q.playlist.unwrap();
    law_shuffle_puts_current_first(q, c, perm, alt);
    lemma_adjusted_is_order(s, perm, Some(c), true, alt);
}

/// With no play order, the end of a song replays it exactly when some loop mode is on,
/// and otherwise does nothing; the queue is left as it is.
pub proof fn law_end_without_order(q: QueueModel, current: u128, perm: Seq<usize>, alt: int)
    requires
        q.ordered is None,
    ensures
        (q.song_end(current, perm, alt).1 == EndAction::ReplayCurrent) <==> q.loop_mode != LoopMode::Off,
        (q.song_end(current, perm, alt).1 == EndAction::Idle) <==> q.loop_mode == LoopMode::Off,
        q.song_end(current, perm, alt).0 == q,
{
}

/// "Next" with a URL playlist skips no playable entry: it starts the first entry after
/// the current song's position that has an audio URL, and gives nothing only when no
/// later entry has one.
pub proof fn law_next_skips_no_playable_entry(q: QueueModel, current: u128, i: int)
    requires
        q.playlist matches Some(p) && 0 <= i < p.len() && p[i] == current
            && (forall|m: int| 0 <= m < i ==> p[m] != current),
        q.url_playlist matches Some(u) && u.len() == q.playlist.unwrap().len(),
        len_of(q.playlist) <= usize::MAX,
    ensures
        ({
            let p = q.playlist.unwrap();
            let u = q.url_playlist.unwrap();
            match q.next_target(current) {
                Some(t) => {
                    &&& i < t.index < u.len()
                    &&& t.from_url
                    &&& t.song == p[t.index as int]
                    &&& u[t.index as int].audio_url is Some
                    &&& forall|k: int| i < k < t.index ==> (#[trigger] u[k]).audio_url is None
                },
                None => forall|k: int| i < k < u.len() ==> (#[trigger] u[k]).audio_url is None,
            }
        }),
{
    let p = q.playlist.unwrap();
    let u = q.url_playlist.unwrap();
    assert(is_first_match(p, is_id(current), 0, i));
    lemma_first_match_is(p, is_id(current), 0, i);
    assert(first_index(p, current) == i);
    lemma_first_match_cases(u, has_audio(), i + 1);
    let j = first_streamable_after(u, i);
    if j >= 0 {
        assert(is_first_match(u, has_audio(), i + 1, j));
        assert forall|k: int| i < k < j implies (#[trigger] u[k]).audio_url is None by {
            assert(!has_audio()(u[k]));
        }
        assert(has_audio()(u[j]));
    } else {
        assert forall|k: int| i < k < u.len() implies (#[trigger] u[k]).audio_url is None by {
            assert(!has_audio()(u[k]));
        }
    }
}

} // verus!
