//! The index of cached assets (downloaded audio and images) and its sweep: expired
//! entries are dropped, then the least recently used ones until the cache fits its
//! size limit.
//!
//! Asset identifiers (UUIDs) are held as their 128-bit value. Times are seconds since
//! the Unix epoch, read by the caller.

use dashmap::DashMap;
use vstd::prelude::*;
use crate::queue::is_order;
use crate::text::{chars_of, decimal, push_decimal, push_str, push_all, push_hex_lower, same_text, string_of, hex_lower};

verus! {

broadcast use vstd::seq_lib::group_seq_properties;

/// What kind of asset a cache entry holds.
#[derive(Debug, Clone, Copy, Hash, PartialEq, Eq, Structural)]
pub enum AssetType {
    Audio,
    Image,
}

/// One cached asset file.
pub struct CacheEntry {
    /// The number its file is named after.
    pub id: u64,
    /// When it was last used; 0 means it never expires.
    pub last_touched: u64,
    /// Its size in bytes.
    pub size: u64,
    /// The file name extension, if the file has one.
    pub extension: Option<String>,
}

impl Clone for CacheEntry {
    fn clone(&self) -> (r: Self)
        ensures
            r == *self,
    {
        CacheEntry {
            id: self.id,
            last_touched: self.last_touched,
            size: self.size,
            extension: match &self.extension {
                Some(e) => Some(e.clone()),
                None => None,
            },
        }
    }
}

/// The cache settings.
#[derive(Debug, Clone, Copy)]
pub struct CacheConfig {
    /// Entries untouched for longer than this many seconds expire.
    pub cache_expiration_secs: u64,
    /// The size the cache is cut down to, in MiB.
    pub cache_size_limit_mb: u64,
    /// Seconds between two sweeps.
    pub cache_sweep_interval_secs: u64,
}

/// A cache key: the asset's identifier and kind.
pub type CacheKey = (u128, AssetType);

// ---------------------------------------------------------------------------
// File names
// ---------------------------------------------------------------------------

/// The file below the cache directory that the song list is kept in.
pub const SONGS_CACHE_FILE: &'static str = "songs.ron";

/// The file below the cache directory that a playlist list is kept in: the user's own
/// playlists, or the public ones.
pub fn playlists_cache_file(is_personal: bool) -> (f: &'static str)
    ensures
        f@ == if is_personal { "my_playlists.ron"@ } else { "playlists.ron"@ },
{
    if is_personal { "my_playlists.ron" } else { "playlists.ron" }
}

/// The file below the cache directory that the official setlists of a year are kept
/// in: `setlists_`, the year in decimal, and `.ron`.
pub fn setlists_cache_file(year: u32) -> (f: String)
    ensures
        f@ == "setlists_"@ + decimal(year as nat) + ".ron"@,
{
    let mut out: Vec<char> = Vec::new();
    push_str(&mut out, "setlists_");
    push_decimal(&mut out, year as u64);
    push_str(&mut out, ".ron");
    string_of(&out)
}

/// The path of an asset file below the cache directory: `assets/` followed by the id
/// as 16 lower-case hexadecimal digits, and `.` and the extension if there is one.
pub open spec fn asset_path_of(id: u64, extension: Option<Seq<char>>) -> Seq<char> {
    let base = "assets/"@ + hex_lower(id as nat, 16);
    match extension {
        Some(e) => base + "."@ + e,
        None => base,
    }
}

/// The path of an asset file below the cache directory (`format!("assets/{:016x}", id)`,
/// with `.{ext}` appended when there is an extension).
pub fn asset_path(id: u64, extension: Option<&str>) -> (p: String)
    ensures
        p@ == asset_path_of(id, match extension { Some(e) => Some(e@), None => None }),
{
    let mut out: Vec<char> = Vec::new();
    push_str(&mut out, "assets/");
    push_hex_lower(&mut out, id as u128, 16);
    match extension {
        Some(e) => {
            push_str(&mut out, ".");
            push_str(&mut out, e);
        },
        None => {},
    }
    string_of(&out)
}

/// The file extension stored for an image of the given content type.
pub open spec fn image_extension_of(content_type: Option<Seq<char>>) -> Option<Seq<char>> {
    match content_type {
        Some(ct) => if ct == "image/jpeg"@ || ct == "image/jpg"@ {
            Some("jpeg"@)
        } else if ct == "image/png"@ {
            Some("png"@)
        } else if ct == "image/webp"@ {
            Some("webp"@)
        } else {
            None
        },
        None => None,
    }
}

/// The file extension stored for an image of the given content type: `jpeg`, `png` or
/// `webp`, none for other types.
pub fn image_extension(content_type: Option<&str>) -> (r: Option<String>)
    ensures
        match r { Some(s) => Some(s@), None => None } == image_extension_of(match content_type { Some(c) => Some(c@), None => None }),
{
    match content_type {
        Some(ct) => {
            if same_text(ct, "image/jpeg") || same_text(ct, "image/jpg") {
                Some("jpeg".to_owned())
            } else if same_text(ct, "image/png") {
                Some("png".to_owned())
            } else if same_text(ct, "image/webp") {
                Some("webp".to_owned())
            } else {
                None
            }
        },
        None => None,
    }
}

// ---------------------------------------------------------------------------
// Sweep planning
// ---------------------------------------------------------------------------

/// The index's entries in the order the map yields them.
pub type Walk = Seq<(u128, AssetType, CacheEntry)>;

pub open spec fn key_at(w: Walk, i: int) -> CacheKey {
    (w[i].0, w[i].1)
}

/// The sum of the sizes of all entries.
pub open spec fn total_size(w: Walk) -> int
    decreases w.len(),
{
    if w.len() == 0 { 0 } else { total_size(w.drop_last()) + w.last().2.size }
}

/// The sum of the sizes of the entries at the given positions.
pub open spec fn size_at(w: Walk, idx: Seq<usize>) -> int
    decreases idx.len(),
{
    if idx.len() == 0 { 0 } else { w[idx[0] as int].2.size + size_at(w, idx.drop_first()) }
}

/// An entry has expired: it can expire and was last used before `threshold`.
pub open spec fn is_expired(e: CacheEntry, threshold: int) -> bool {
    e.last_touched != 0 && e.last_touched < threshold
}

/// The positions of the expired entries, in walk order.
pub open spec fn expired_positions(w: Walk, threshold: int) -> Seq<usize>
    decreases w.len(),
{
    if w.len() == 0 {
        seq![]
    } else {
        let r = expired_positions(w.drop_last(), threshold);
        if is_expired(w.last().2, threshold) { r.push((w.len() - 1) as usize) } else { r }
    }
}

/// Entry `a` comes before entry `b` by age: used earlier, or used at the same time and
/// met earlier in the walk (a stable sort by last use).
pub open spec fn age_before(w: Walk, a: usize, b: usize) -> bool {
    w[a as int].2.last_touched < w[b as int].2.last_touched
        || (w[a as int].2.last_touched == w[b as int].2.last_touched && a < b)
}

/// `order` lists all positions of the walk, oldest first.
pub open spec fn is_age_order(w: Walk, order: Seq<usize>) -> bool {
    &&& is_order(order, w.len())
    &&& forall|i: int, j: int| 0 <= i < j < order.len() ==> age_before(w, #[trigger] order[i], #[trigger] order[j])
}

/// The sum of the sizes of the entries that have not expired: what stays once the
/// expired entries are gone.
pub open spec fn kept_size(w: Walk, threshold: int) -> int
    decreases w.len(),
{
    if w.len() == 0 {
        0
    } else {
        kept_size(w.drop_last(), threshold) + if is_expired(w.last().2, threshold) { 0 } else { w.last().2.size as int }
    }
}

/// An entry may be evicted: it can expire and has not expired yet.
pub open spec fn evictable(e: CacheEntry, threshold: int) -> bool {
    e.last_touched != 0 && !is_expired(e, threshold)
}

/// The test "the entry at this position may be evicted".
pub open spec fn evictable_at(w: Walk, threshold: int) -> spec_fn(usize) -> bool {
    |i: usize| evictable(w[i as int].2, threshold)
}

/// The positions, in `order`, of the entries that may be evicted.
pub open spec fn eviction_candidates(w: Walk, order: Seq<usize>, threshold: int) -> Seq<usize> {
    order.filter(evictable_at(w, threshold))
}

/// The shortest prefix of `cands` whose sizes add up to at least `over`; all of
/// `cands` when they do not.
pub open spec fn evict_oldest(w: Walk, cands: Seq<usize>, over: int) -> Seq<usize>
    decreases cands.len(),
{
    if over <= 0 || cands.len() == 0 {
        seq![]
    } else {
        seq![cands[0]] + evict_oldest(w, cands.drop_first(), over - w[cands[0] as int].2.size)
    }
}

/// The outcome of a sweep: the expired entries go, then the oldest entries that may be
/// evicted, until what stays fits `max` (or none is left that may be evicted).
/// Returns the expired and the evicted positions.
pub open spec fn sweep_outcome(w: Walk, order: Seq<usize>, threshold: int, max: int) -> (Seq<usize>, Seq<usize>) {
    (expired_positions(w, threshold), evict_oldest(w, eviction_candidates(w, order, threshold), kept_size(w, threshold) - max))
}

/// The expiry threshold of a sweep at `now`.
pub open spec fn threshold_of(now: u64, config: CacheConfig) -> int {
    now - config.cache_expiration_secs
}

/// The size limit in bytes.
pub open spec fn max_bytes(config: CacheConfig) -> int {
    config.cache_size_limit_mb * 1024 * 1024
}

proof fn lemma_total_size_prefix(w: Walk, i: int)
    requires
        0 <= i < w.len(),
    ensures
        total_size(w.take(i + 1)) == total_size(w.take(i)) + w[i].2.size,
        total_size(w.take(i + 1)) <= total_size(w),
    decreases w.len() - i,
{
    assert(w.take(i + 1).drop_last() =~= w.take(i));
    if i + 1 < w.len() {
        lemma_total_size_prefix(w, i + 1);
    } else {
        assert(w.take(i + 1) =~= w);
    }
}

/// The sum of all sizes, if it fits in a `u64`.
fn checked_total(w: &Vec<(u128, AssetType, CacheEntry)>) -> (t: Option<u64>)
    ensures
        match t {
            Some(t) => t == total_size(w@),
            None => total_size(w@) > u64::MAX,
        },
{
    let mut t: u64 = 0;
    let mut i: usize = 0;
    while i < w.len()
        invariant
            i <= w.len(),
            t == total_size(w@.take(i as int)),
        decreases w.len() - i,
    {
        proof {
            lemma_total_size_prefix(w@, i as int);
        }
        match t.checked_add(w[i].2.size) {
            Some(s) => t = s,
            None => return None,
        }
        i += 1;
    }
    assert(w@.take(w.len() as int) =~= w@);
    Some(t)
}

proof fn lemma_kept_within_total(w: Walk, threshold: int)
    ensures
        0 <= kept_size(w, threshold) <= total_size(w),
    decreases w.len(),
{
    if w.len() > 0 {
        lemma_kept_within_total(w.drop_last(), threshold);
    }
}

/// The size of what stays once the expired entries are gone.
fn kept_of(w: &Vec<(u128, AssetType, CacheEntry)>, threshold: u64) -> (t: u64)
    requires
        total_size(w@) <= u64::MAX,
    ensures
        t == kept_size(w@, threshold as int),
{
    let mut t: u64 = 0;
    let mut i: usize = 0;
    while i < w.len()
        invariant
            i <= w.len(),
            total_size(w@) <= u64::MAX,
            t == kept_size(w@.take(i as int), threshold as int),
        decreases w.len() - i,
    {
        proof {
            lemma_total_size_prefix(w@, i as int);
            assert(w@.take(i + 1).drop_last() =~= w@.take(i as int));
            lemma_kept_within_total(w@.take(i + 1), threshold as int);
        }
        let e = &w[i].2;
        if !(e.last_touched != 0 && e.last_touched < threshold) {
            t = t + e.size;
        }
        i += 1;
    }
    assert(w@.take(w.len() as int) =~= w@);
    t
}

/// The positions of the expired entries.
fn expired_of(w: &Vec<(u128, AssetType, CacheEntry)>, threshold: u64) -> (r: Vec<usize>)
    ensures
        r@ == expired_positions(w@, threshold as int),
{
    let mut r: Vec<usize> = Vec::new();
    let mut i: usize = 0;
    while i < w.len()
        invariant
            i <= w.len(),
            r@ == expired_positions(w@.take(i as int), threshold as int),
        decreases w.len() - i,
    {
        assert(w@.take(i + 1).drop_last() =~= w@.take(i as int));
        let e = &w[i].2;
        if e.last_touched != 0 && e.last_touched < threshold {
            r.push(i);
        }
        i += 1;
    }
    assert(w@.take(w.len() as int) =~= w@);
    r
}

/// The positions of the walk, oldest first (a stable insertion sort by last use).
fn age_order(w: &Vec<(u128, AssetType, CacheEntry)>) -> (order: Vec<usize>)
    ensures
        is_age_order(w@, order@),
{
    let mut order: Vec<usize> = Vec::new();
    let mut i: usize = 0;
    while i < w.len()
        invariant
            i <= w.len(),
            order.len() == i,
            order@.no_duplicates(),
            forall|k: int| 0 <= k < order.len() ==> #[trigger] order@[k] < i,
            forall|a: int, b: int| 0 <= a < b < order.len() ==> age_before(w@, #[trigger] order@[a], #[trigger] order@[b]),
        decreases w.len() - i,
    {
        let t = w[i].2.last_touched;
        let mut pos: usize = 0;
        while pos < order.len() && w[order[pos]].2.last_touched <= t
            invariant
                pos <= order.len(),
                i < w.len(),
                forall|k: int| 0 <= k < order.len() ==> #[trigger] order@[k] < i,
                forall|k: int| 0 <= k < pos ==> w@[order@[k] as int].2.last_touched <= t,
            decreases order.len() - pos,
        {
            pos += 1;
        }
        let ghost before = order@;
        order.insert(pos, i);
        assert(order@ == before.insert(pos as int, i));
        assert forall|a: int, b: int| 0 <= a < b < order.len() implies age_before(w@, #[trigger] order@[a], #[trigger] order@[b]) by {
            if b == pos {
                assert(order@[a] == before[a]);
            } else if a == pos {
                assert(order@[b] == before[b - 1]);
                assert(w@[before[pos as int] as int].2.last_touched > t);
                if b - 1 > pos {
                    assert(age_before(w@, before[pos as int], before[b - 1]));
                }
            } else {
                let a0 = if a < pos { a } else { a - 1 };
                let b0 = if b < pos { b } else { b - 1 };
                assert(order@[a] == before[a0]);
                assert(order@[b] == before[b0]);
            }
        }
        assert forall|a: int, b: int| 0 <= a < order.len() && 0 <= b < order.len() && a != b implies order@[a] != order@[b] by {
            let a0 = if a < pos { a } else { a - 1 };
            let b0 = if b < pos { b } else { b - 1 };
            if a != pos && b != pos {
                assert(order@[a] == before[a0]);
                assert(order@[b] == before[b0]);
            } else if a == pos {
                assert(order@[b] == before[b0]);
            } else {
                assert(order@[a] == before[a0]);
            }
        }
        i += 1;
    }
    order
}

/// The positions, in `order`, of the entries that may be evicted.
fn candidates_of(w: &Vec<(u128, AssetType, CacheEntry)>, order: &Vec<usize>, threshold: u64) -> (r: Vec<usize>)
    requires
        forall|k: int| 0 <= k < order.len() ==> #[trigger] order@[k] < w.len(),
    ensures
        r@ == eviction_candidates(w@, order@, threshold as int),
        forall|k: int| 0 <= k < r.len() ==> #[trigger] r@[k] < w.len(),
{
    let ghost pred = evictable_at(w@, threshold as int);
    let mut r: Vec<usize> = Vec::new();
    let mut k: usize = 0;
    while k < order.len()
        invariant
            k <= order.len(),
            pred == evictable_at(w@, threshold as int),
            forall|m: int| 0 <= m < order.len() ==> #[trigger] order@[m] < w.len(),
            r@ == order@.take(k as int).filter(pred),
            forall|m: int| 0 <= m < r.len() ==> #[trigger] r@[m] < w.len(),
        decreases order.len() - k,
    {
        proof {
            reveal_with_fuel(Seq::<_>::filter, 1);
            assert(order@.take(k + 1).drop_last() =~= order@.take(k as int));
        }
        let e = &w[order[k]].2;
        if e.last_touched != 0 && !(e.last_touched < threshold) {
            r.push(order[k]);
        }
        k += 1;
    }
    assert(order@.take(order.len() as int) =~= order@);
    r
}

/// The oldest candidates that must go for what stays (`kept` bytes) to fit `max`; all
/// of them when that is not enough.
fn evict_of(w: &Vec<(u128, AssetType, CacheEntry)>, cands: &Vec<usize>, kept: u64, max: u64) -> (r: Vec<usize>)
    requires
        forall|k: int| 0 <= k < cands.len() ==> #[trigger] cands@[k] < w.len(),
    ensures
        r@ == evict_oldest(w@, cands@, kept - max),
{
    let mut freed: u128 = 0;
    let mut k: usize = 0;
    assert(cands@.skip(0) =~= cands@);
    assert(cands@.take(0) + evict_oldest(w@, cands@, kept - max) =~= evict_oldest(w@, cands@, kept - max));
    while k < cands.len() && (kept as u128) > (max as u128) + freed
        invariant
            k <= cands.len(),
            forall|m: int| 0 <= m < cands.len() ==> #[trigger] cands@[m] < w.len(),
            freed <= k * 0xffff_ffff_ffff_ffffu128,
            evict_oldest(w@, cands@, kept - max)
                == cands@.take(k as int) + evict_oldest(w@, cands@.skip(k as int), kept - max - freed),
        decreases cands.len() - k,
    {
        let size = w[cands[k]].2.size;
        proof {
            let rest = cands@.skip(k as int);
            assert(rest.drop_first() =~= cands@.skip(k + 1));
            assert(rest[0] == cands@[k as int]);
            let x = evict_oldest(w@, cands@.skip(k + 1), kept - max - freed - size);
            assert(cands@.take(k as int) + (seq![cands@[k as int]] + x) =~= cands@.take(k + 1) + x);
            assert(k < usize::MAX);
            assert((k + 1) * 0xffff_ffff_ffff_ffffu128 == k * 0xffff_ffff_ffff_ffffu128 + 0xffff_ffff_ffff_ffffu128) by (nonlinear_arith);
            assert(k * 0xffff_ffff_ffff_ffffu128 <= 0xffff_ffff_ffff_fffeu128 * 0xffff_ffff_ffff_ffffu128) by (nonlinear_arith)
                requires k < 0xffff_ffff_ffff_ffffu128;
        }
        freed = freed + size as u128;
        k += 1;
    }
    proof {
        if k == cands.len() {
            assert(cands@.skip(k as int) =~= Seq::<usize>::empty());
        }
        assert(evict_oldest(w@, cands@.skip(k as int), kept - max - freed) =~= Seq::<usize>::empty());
    }
    let mut v: Vec<usize> = Vec::new();
    let mut m: usize = 0;
    while m < k
        invariant
            m <= k <= cands.len(),
            v@ == cands@.take(m as int),
        decreases k - m,
    {
        v.push(cands[m]);
        m += 1;
        assert(v@ =~= cands@.take(m as int));
    }
    assert(v@ + Seq::<usize>::empty() =~= v@);
    v
}

/// The expired and evicted positions of a sweep.
pub struct SweepPlan {
    pub expired: Vec<usize>,
    pub evicted: Vec<usize>,
}

/// Plans a sweep at `now` over the entries in walk order: returns the age order it used
/// and the outcome (see `sweep_outcome`).
pub fn plan_sweep(w: &Vec<(u128, AssetType, CacheEntry)>, now: u64, config: &CacheConfig) -> (r: (Vec<usize>, SweepPlan))
    requires
        now >= config.cache_expiration_secs,
        max_bytes(*config) <= u64::MAX,
        total_size(w@) <= u64::MAX,
    ensures
        is_age_order(w@, r.0@),
        sweep_outcome(w@, r.0@, threshold_of(now, *config), max_bytes(*config)) == (r.1.expired@, r.1.evicted@),
{
    let threshold = now - config.cache_expiration_secs;
    let max = config.cache_size_limit_mb * 1024 * 1024;
    let kept = kept_of(w, threshold);
    let expired = expired_of(w, threshold);
    let order = age_order(w);
    let cands = candidates_of(w, &order, threshold);
    let evicted = evict_of(w, &cands, kept, max);
    (order, SweepPlan { expired, evicted })
}

// ---------------------------------------------------------------------------
// The index
// ---------------------------------------------------------------------------

/// The cached assets by key, held in a concurrent map used from one owner at a time.
#[verifier::external_body]
pub struct CacheIndex {
    map: DashMap<(u128, AssetType), CacheEntry>,
}

/// The entries the index holds.
pub uninterp spec fn index_contents(index: CacheIndex) -> Map<CacheKey, CacheEntry>;

/// `w` lists every entry of `m` exactly once.
pub open spec fn enumerates(w: Walk, m: Map<CacheKey, CacheEntry>) -> bool {
    &&& forall|i: int| 0 <= i < w.len() ==> m.contains_key(#[trigger] key_at(w, i)) && m[key_at(w, i)] == w[i].2
    &&& forall|i: int, j: int| 0 <= i < j < w.len() ==> #[trigger] key_at(w, i) != #[trigger] key_at(w, j)
    &&& forall|k: CacheKey| m.contains_key(k) ==> exists|i: int| 0 <= i < w.len() && #[trigger] key_at(w, i) == k
}

/// The keys at the given positions of the walk.
pub open spec fn keys_at(w: Walk, idx: Seq<usize>) -> Set<CacheKey> {
    Set::new(|k: CacheKey| exists|j: int| 0 <= j < idx.len() && key_at(w, idx[j] as int) == k)
}

impl CacheIndex {
    /// Calls `DashMap::new`: an empty map.
    #[verifier::external_body]
    pub(crate) fn new() -> (index: CacheIndex)
        ensures
            index_contents(index).dom().is_empty(),
    {
        CacheIndex { map: DashMap::new() }
    }

    /// Calls `DashMap::get` and copies the entry found.
    #[verifier::external_body]
    pub(crate) fn get(&self, key: CacheKey) -> (r: Option<CacheEntry>)
        ensures
            match r {
                Some(e) => index_contents(*self).contains_key(key) && e == index_contents(*self)[key],
                None => !index_contents(*self).contains_key(key),
            },
    {
        self.map.get(&key).map(|r| r.value().clone())
    }

    /// Calls `DashMap::insert`: the key now maps to `entry`, other keys are unchanged.
    #[verifier::external_body]
    pub(crate) fn insert(&mut self, key: CacheKey, entry: CacheEntry)
        ensures
            index_contents(*final(self)) == index_contents(*old(self)).insert(key, entry),
    {
        self.map.insert(key, entry);
    }

    /// Calls `DashMap::remove`: the key is gone, other keys are unchanged; the removed
    /// entry is returned.
    #[verifier::external_body]
    pub(crate) fn remove(&mut self, key: CacheKey) -> (r: Option<CacheEntry>)
        ensures
            index_contents(*final(self)) == index_contents(*old(self)).remove(key),
            match r {
                Some(e) => index_contents(*old(self)).contains_key(key) && e == index_contents(*old(self))[key],
                None => !index_contents(*old(self)).contains_key(key),
            },
    {
        self.map.remove(&key).map(|(_, v)| v)
    }

    /// Calls `DashMap::iter` and copies every entry, in the order the map yields them
    /// (that order is not stated).
    #[verifier::external_body]
    pub(crate) fn entries(&self) -> (w: Vec<(u128, AssetType, CacheEntry)>)
        ensures
            enumerates(w@, index_contents(*self)),
    {
        self.map.iter().map(|r| (r.key().0, r.key().1, r.value().clone())).collect()
    }
}

/// The entries of a list of keyed entries, a later entry for a key replacing an earlier one.
pub open spec fn entries_map(w: Walk) -> Map<CacheKey, CacheEntry>
    decreases w.len(),
{
    if w.len() == 0 {
        Map::empty()
    } else {
        entries_map(w.drop_last()).insert(key_at(w, w.len() - 1), w.last().2)
    }
}

impl CacheIndex {
    /// An index holding the given entries (as read back from the index file).
    pub fn from_entries(w: &Vec<(u128, AssetType, CacheEntry)>) -> (index: CacheIndex)
        ensures
            index_contents(index) == entries_map(w@),
    {
        let mut index = CacheIndex::new();
        let mut i: usize = 0;
        while i < w.len()
            invariant
                i <= w@.len(),
                index_contents(index) == entries_map(w@.take(i as int)),
            decreases w@.len() - i,
        {
            let e = &w[i];
            index.insert((e.0, e.1), e.2.clone());
            i += 1;
            assert(w@.take(i as int).drop_last() =~= w@.take(i - 1));
            assert(index_contents(index) =~= entries_map(w@.take(i as int)));
        }
        assert(w@.take(w@.len() as int) =~= w@);
        index
    }

    /// Every entry of the index, each once (to be written to the index file); the
    /// order is the map's.
    pub fn walk(&self) -> (w: Vec<(u128, AssetType, CacheEntry)>)
        ensures
            enumerates(w@, index_contents(*self)),
    {
        self.entries()
    }

    /// Records a downloaded asset under `key`: file `id`, used at `now`, of `size` bytes.
    pub fn record(&mut self, key: CacheKey, id: u64, size: u64, extension: Option<String>, now: u64)
        ensures
            index_contents(*final(self)) == index_contents(*old(self)).insert(key,
                CacheEntry { id, last_touched: now, size, extension }),
    {
        self.insert(key, CacheEntry { id, last_touched: now, size, extension });
    }

    /// Forgets the asset under `key` (its file is gone).
    pub fn forget(&mut self, key: CacheKey)
        ensures
            index_contents(*final(self)) == index_contents(*old(self)).remove(key),
    {
        self.remove(key);
    }

    /// The path below the cache directory of the image file recorded under `key`.
    pub fn image_path(&self, key: CacheKey) -> (p: Option<String>)
        ensures
            match index_contents(*self).get(key) {
                Some(e) => p matches Some(s) && s@ == asset_path_of(e.id, match e.extension { Some(x) => Some(x@), None => None }),
                None => p is None,
            },
    {
        match self.get(key) {
            Some(e) => {
                let path = match &e.extension {
                    Some(x) => asset_path(e.id, Some(x.as_str())),
                    None => asset_path(e.id, None),
                };
                Some(path)
            },
            None => None,
        }
    }
}

/// The counter that names new asset files: the id a new file gets, and the counter after.
pub fn reserve_id(next_id: u64) -> (r: (u64, u64))
    ensures
        r.0 == next_id,
        r.1 == if next_id == u64::MAX { 0 } else { (next_id + 1) as u64 },
{
    let after = if next_id == u64::MAX { 0 } else { next_id + 1 };
    (next_id, after)
}

/// An entry after a use at `now`: its last use becomes `now`, unless it never expires.
pub open spec fn touched(e: CacheEntry, now: u64) -> CacheEntry {
    if e.last_touched != 0 { CacheEntry { last_touched: now, ..e } } else { e }
}

/// The entries left after removing the keys at positions `idx` of the walk.
pub open spec fn without(m: Map<CacheKey, CacheEntry>, w: Walk, idx: Seq<usize>) -> Map<CacheKey, CacheEntry> {
    m.remove_keys(keys_at(w, idx))
}

impl CacheIndex {
    /// Looks up `key` and records a use at `now`; returns the file id of the entry.
    pub fn touch(&mut self, key: CacheKey, now: u64) -> (id: Option<u64>)
        ensures
            match index_contents(*old(self)).get(key) {
                Some(e) => id == Some(e.id) && index_contents(*final(self)) == index_contents(*old(self)).insert(key, touched(e, now)),
                None => id is None && index_contents(*final(self)) == index_contents(*old(self)),
            },
    {
        match self.get(key) {
            Some(e) => {
                let id = e.id;
                if e.last_touched != 0 {
                    let updated = CacheEntry { last_touched: now, ..e };
                    self.insert(key, updated);
                } else {
                    assert(index_contents(*old(self)).insert(key, e) =~= index_contents(*old(self)));
                }
                Some(id)
            },
            None => None,
        }
    }

    /// Removes the keys at the given positions of the walk, returning their file ids.
    fn remove_at(&mut self, w: &Vec<(u128, AssetType, CacheEntry)>, idx: &Vec<usize>) -> (ids: Vec<u64>)
        requires
            forall|k: int| 0 <= k < idx.len() ==> #[trigger] idx@[k] < w.len(),
        ensures
            index_contents(*final(self)) == without(index_contents(*old(self)), w@, idx@),
            ids.len() == idx.len(),
            forall|k: int| 0 <= k < idx.len() ==> #[trigger] ids@[k] == w@[idx@[k] as int].2.id,
    {
        let mut ids: Vec<u64> = Vec::new();
        let mut k: usize = 0;
        while k < idx.len()
            invariant
                k <= idx.len(),
                forall|m: int| 0 <= m < idx.len() ==> #[trigger] idx@[m] < w.len(),
                index_contents(*self) == without(index_contents(*old(self)), w@, idx@.take(k as int)),
                ids.len() == k,
                forall|m: int| 0 <= m < k ==> #[trigger] ids@[m] == w@[idx@[m] as int].2.id,
            decreases idx.len() - k,
        {
            let entry = &w[idx[k]];
            self.remove((entry.0, entry.1));
            ids.push(entry.2.id);
            k += 1;
            proof {
                let key = key_at(w@, idx@[k - 1] as int);
                assert(keys_at(w@, idx@.take(k as int)) =~= keys_at(w@, idx@.take(k - 1)).insert(key)) by {
                    assert forall|c: CacheKey| keys_at(w@, idx@.take(k as int)).contains(c) implies keys_at(w@, idx@.take(k - 1)).insert(key).contains(c) by {
                        let j = choose|j: int| 0 <= j < k && #[trigger] key_at(w@, idx@.take(k as int)[j] as int) == c;
                        if j < k - 1 {
                            assert(idx@.take(k - 1)[j] == idx@.take(k as int)[j]);
                        }
                    }
                    assert forall|c: CacheKey| keys_at(w@, idx@.take(k - 1)).insert(key).contains(c) implies keys_at(w@, idx@.take(k as int)).contains(c) by {
                        if c == key {
                            assert(idx@.take(k as int)[k - 1] == idx@[k - 1]);
                        } else {
                            let j = choose|j: int| 0 <= j < k - 1 && #[trigger] key_at(w@, idx@.take(k - 1)[j] as int) == c;
                            assert(idx@.take(k - 1)[j] == idx@.take(k as int)[j]);
                        }
                    }
                }
                assert(index_contents(*self) =~= without(index_contents(*old(self)), w@, idx@.take(k as int)));
            }
        }
        assert(idx@.take(idx.len() as int) =~= idx@);
        ids
    }

    /// Sweeps the index at `now`: plans the sweep over a walk of the entries (see
    /// `sweep_outcome`) and removes the expired, then the evicted entries. Returns the
    /// file ids of the removed entries in that order; none, leaving the index as it
    /// is, when the sizes of the entries add up to more than a `u64` holds.
    pub fn sweep(&mut self, now: u64, config: &CacheConfig) -> (r: Option<Vec<u64>>)
        requires
            now >= config.cache_expiration_secs,
            max_bytes(*config) <= u64::MAX,
        ensures
            exists|w: Walk, order: Seq<usize>| #![trigger is_age_order(w, order)] {
                let (ex, ev) = sweep_outcome(w, order, threshold_of(now, *config), max_bytes(*config));
                &&& w.len() <= usize::MAX
                &&& enumerates(w, index_contents(*old(self)))
                &&& is_age_order(w, order)
                &&& if total_size(w) <= u64::MAX {
                    &&& r matches Some(ids)
                    &&& ids@ == (ex + ev).map_values(|i: usize| w[i as int].2.id)
                    &&& index_contents(*final(self)) == without(index_contents(*old(self)), w, ex + ev)
                } else {
                    &&& r is None
                    &&& index_contents(*final(self)) == index_contents(*old(self))
                }
            },
    {
        let w = self.entries();
        if checked_total(&w).is_none() {
            let order = age_order(&w);
            assert(w@.len() <= usize::MAX && enumerates(w@, index_contents(*old(self))) && is_age_order(w@, order@));
            return None;
        }
        let (order, plan) = plan_sweep(&w, now, config);
        let mut all = plan.expired;
        let mut ev = plan.evicted;
        let ghost ex_s = all@;
        let ghost ev_s = ev@;
        let ghost outcome = sweep_outcome(w@, order@, threshold_of(now, *config), max_bytes(*config));
        assert(outcome == (ex_s, ev_s));
        proof {
            lemma_sweep_positions_in_walk(w@, order@, threshold_of(now, *config), max_bytes(*config));
        }
        all.append(&mut ev);
        assert(all@ == ex_s + ev_s);
        assert forall|k: int| 0 <= k < all.len() implies #[trigger] all@[k] < w.len() by {
            if k < ex_s.len() {
                assert(all@[k] == ex_s[k]);
                assert(outcome.0[k] < w.len());
            } else {
                assert(all@[k] == ev_s[k - ex_s.len()]);
                assert(outcome.1[k - ex_s.len()] < w.len());
            }
        }
        let ids = self.remove_at(&w, &all);
        assert(ids@ =~= (ex_s + ev_s).map_values(|i: usize| w@[i as int].2.id));
        assert(w@.len() <= usize::MAX && enumerates(w@, index_contents(*old(self))) && is_age_order(w@, order@));
        Some(ids)
    }
}

/// The positions a sweep removes lie within the walk.
proof fn lemma_sweep_positions_in_walk(w: Walk, order: Seq<usize>, threshold: int, max: int)
    requires
        is_age_order(w, order),
    ensures
        forall|k: int| 0 <= k < sweep_outcome(w, order, threshold, max).0.len()
            ==> #[trigger] sweep_outcome(w, order, threshold, max).0[k] < w.len(),
        forall|k: int| 0 <= k < sweep_outcome(w, order, threshold, max).1.len()
            ==> #[trigger] sweep_outcome(w, order, threshold, max).1[k] < w.len(),
{
    lemma_expired_positions_in_walk(w, threshold);
    let cands = eviction_candidates(w, order, threshold);
    assert forall|k: int| 0 <= k < cands.len() implies #[trigger] cands[k] < w.len() by {
        lemma_filter_within(order, evictable_at(w, threshold), w.len(), k);
    }
    lemma_evicted_within(w, cands, kept_size(w, threshold) - max);
}

proof fn lemma_filter_within(s: Seq<usize>, pred: spec_fn(usize) -> bool, n: nat, k: int)
    requires
        forall|m: int| 0 <= m < s.len() ==> #[trigger] s[m] < n,
        0 <= k < s.filter(pred).len(),
    ensures
        s.filter(pred)[k] < n,
{
    s.lemma_filter_contains_rev(pred, s.filter(pred)[k]);
}

proof fn lemma_expired_positions_in_walk(w: Walk, threshold: int)
    ensures
        forall|k: int| 0 <= k < expired_positions(w, threshold).len() ==> #[trigger] expired_positions(w, threshold)[k] < w.len(),
    decreases w.len(),
{
    if w.len() > 0 {
        lemma_expired_positions_in_walk(w.drop_last(), threshold);
        let r = expired_positions(w.drop_last(), threshold);
        assert forall|k: int| 0 <= k < r.len() implies #[trigger] r[k] < w.len() by {
            assert(r[k] < w.drop_last().len());
        }
    }
}

/// The evicted positions are a prefix of the candidates.
proof fn lemma_evicted_within(w: Walk, cands: Seq<usize>, over: int)
    requires
        forall|k: int| 0 <= k < cands.len() ==> #[trigger] cands[k] < w.len(),
    ensures
        evict_oldest(w, cands, over).len() <= cands.len(),
        evict_oldest(w, cands, over) == cands.take(evict_oldest(w, cands, over).len() as int),
        forall|k: int| 0 <= k < evict_oldest(w, cands, over).len() ==> #[trigger] evict_oldest(w, cands, over)[k] < w.len(),
    decreases cands.len(),
{
    if over > 0 && cands.len() > 0 {
        let rest = cands.drop_first();
        lemma_evicted_within(w, rest, over - w[cands[0] as int].2.size);
        let r = evict_oldest(w, rest, over - w[cands[0] as int].2.size);
        assert(seq![cands[0]] + r =~= cands.take(r.len() + 1 as int));
    } else {
        assert(cands.take(0) =~= Seq::<usize>::empty());
    }
}

// ---------------------------------------------------------------------------
// Laws
// ---------------------------------------------------------------------------

proof fn lemma_size_at_nonneg(w: Walk, idx: Seq<usize>)
    ensures
        size_at(w, idx) >= 0,
    decreases idx.len(),
{
    if idx.len() > 0 {
        lemma_size_at_nonneg(w, idx.drop_first());
    }
}

/// The evicted entries free at least `over` bytes, unless every candidate is evicted.
proof fn lemma_evicted_frees_enough(w: Walk, cands: Seq<usize>, over: int)
    ensures
        size_at(w, evict_oldest(w, cands, over)) >= over || evict_oldest(w, cands, over) == cands,
    decreases cands.len(),
{
    let ev = evict_oldest(w, cands, over);
    if over > 0 && cands.len() > 0 {
        let rest = cands.drop_first();
        let o2 = over - w[cands[0] as int].2.size;
        let r = evict_oldest(w, rest, o2);
        lemma_evicted_frees_enough(w, rest, o2);
        assert(ev == seq![cands[0]] + r);
        assert(ev.drop_first() =~= r);
        if r == rest {
            assert(ev =~= cands);
        }
    } else if over <= 0 {
        lemma_size_at_nonneg(w, ev);
    } else {
        assert(cands =~= Seq::<usize>::empty());
    }
}

proof fn lemma_expired_positions_are_expired(w: Walk, threshold: int)
    requires
        w.len() <= usize::MAX,
    ensures
        forall|k: int| 0 <= k < expired_positions(w, threshold).len()
            ==> is_expired(w[#[trigger] expired_positions(w, threshold)[k] as int].2, threshold),
        forall|j: int| 0 <= j < w.len() && is_expired(w[j].2, threshold)
            ==> #[trigger] expired_positions(w, threshold).contains(j as usize),
    decreases w.len(),
{
    if w.len() > 0 {
        let d = w.drop_last();
        lemma_expired_positions_are_expired(d, threshold);
        lemma_expired_positions_in_walk(d, threshold);
        let r = expired_positions(d, threshold);
        assert forall|k: int| 0 <= k < r.len() implies is_expired(w[#[trigger] r[k] as int].2, threshold) by {
            assert(r[k] < d.len());
            assert(w[r[k] as int] == d[r[k] as int]);
        }
        assert forall|j: int| 0 <= j < w.len() && is_expired(w[j].2, threshold)
            implies #[trigger] expired_positions(w, threshold).contains(j as usize) by {
            if j < w.len() - 1 {
                assert(d[j] == w[j]);
                assert(r.contains(j as usize));
                let k = choose|k: int| 0 <= k < r.len() && r[k] == j as usize;
                if is_expired(w.last().2, threshold) {
                    assert(r.push((w.len() - 1) as usize)[k] == j as usize);
                }
            } else {
                assert(expired_positions(w, threshold).last() == (w.len() - 1) as usize);
            }
        }
    }
}

/// An order of `0..n` lists every position.
proof fn lemma_order_covers(perm: Seq<usize>, n: nat, j: int)
    requires
        is_order(perm, n),
        0 <= j < n,
    ensures
        perm.contains(j as usize),
{
    let ints = perm.map_values(|x: usize| x as int);
    assert(ints.no_duplicates()) by {
        assert forall|a: int, b: int| 0 <= a < ints.len() && 0 <= b < ints.len() && a != b implies ints[a] != ints[b] by {
            assert(perm[a] != perm[b]);
        }
    }
    ints.unique_seq_to_set();
    vstd::set_lib::lemma_int_range(0, n as int);
    let range = vstd::set_lib::set_int_range(0, n as int);
    assert(ints.to_set().subset_of(range)) by {
        assert forall|x: int| ints.to_set().contains(x) implies range.contains(x) by {
            let k = choose|k: int| 0 <= k < ints.len() && ints[k] == x;
            assert(perm[k] < n);
        }
    }
    vstd::seq_lib::seq_to_set_is_finite(ints);
    vstd::set_lib::lemma_subset_equality(ints.to_set(), range);
    assert(range.contains(j));
    assert(ints.to_set().contains(j));
    let k = choose|k: int| 0 <= k < ints.len() && ints[k] == j;
    assert(perm[k] == j as usize);
}

/// Filtering an age-sorted order keeps it age-sorted.
proof fn lemma_filter_keeps_age_order(w: Walk, order: Seq<usize>, pred: spec_fn(usize) -> bool)
    requires
        forall|i: int, j: int| 0 <= i < j < order.len() ==> age_before(w, #[trigger] order[i], #[trigger] order[j]),
    ensures
        forall|i: int, j: int| 0 <= i < j < order.filter(pred).len()
            ==> age_before(w, #[trigger] order.filter(pred)[i], #[trigger] order.filter(pred)[j]),
    decreases order.len(),
{
    reveal_with_fuel(Seq::<_>::filter, 1);
    if order.len() > 0 {
        let d = order.drop_last();
        lemma_filter_keeps_age_order(w, d, pred);
        let fd = d.filter(pred);
        let f = order.filter(pred);
        if pred(order.last()) {
            assert(f == fd.push(order.last()));
            assert forall|i: int, j: int| 0 <= i < j < f.len() implies age_before(w, #[trigger] f[i], #[trigger] f[j]) by {
                if j == f.len() - 1 {
                    d.lemma_filter_contains_rev(pred, fd[i]);
                    let m = choose|m: int| 0 <= m < d.len() && d[m] == fd[i];
                    assert(order[m] == fd[i]);
                    assert(age_before(w, order[m], order[order.len() - 1]));
                } else {
                    assert(f[i] == fd[i] && f[j] == fd[j]);
                }
            }
        } else {
            assert(f == fd);
        }
    }
}

/// A sweep never removes an entry that never expires.
pub proof fn law_sweep_spares_never_expiring(w: Walk, order: Seq<usize>, threshold: int, max: int)
    requires
        w.len() <= usize::MAX,
        is_age_order(w, order),
    ensures
        forall|k: int| 0 <= k < sweep_outcome(w, order, threshold, max).0.len()
            ==> w[#[trigger] sweep_outcome(w, order, threshold, max).0[k] as int].2.last_touched != 0,
        forall|k: int| 0 <= k < sweep_outcome(w, order, threshold, max).1.len()
            ==> w[#[trigger] sweep_outcome(w, order, threshold, max).1[k] as int].2.last_touched != 0,
{
    lemma_expired_positions_are_expired(w, threshold);
    let pred = evictable_at(w, threshold);
    let cands = eviction_candidates(w, order, threshold);
    let ev = sweep_outcome(w, order, threshold, max).1;
    assert forall|k: int| 0 <= k < cands.len() implies #[trigger] cands[k] < w.len() by {
        lemma_filter_within(order, pred, w.len(), k);
    }
    lemma_evicted_within(w, cands, kept_size(w, threshold) - max);
    assert forall|k: int| 0 <= k < ev.len() implies w[#[trigger] ev[k] as int].2.last_touched != 0 by {
        assert(ev[k] == cands[k]);
        order.lemma_filter_contains_rev(pred, cands[k]);
    }
}

/// After a sweep, what stays (the entries that did not expire, less those evicted) fits
/// the size limit, unless every entry that may be evicted was evicted.
pub proof fn law_sweep_fits_limit(w: Walk, order: Seq<usize>, threshold: int, max: int)
    ensures
        kept_size(w, threshold) - size_at(w, sweep_outcome(w, order, threshold, max).1) <= max
            || sweep_outcome(w, order, threshold, max).1 == eviction_candidates(w, order, threshold),
{
    lemma_evicted_frees_enough(w, eviction_candidates(w, order, threshold), kept_size(w, threshold) - max);
}

/// A sweep removes every expired entry.
pub proof fn law_sweep_removes_expired(w: Walk, order: Seq<usize>, threshold: int, max: int, j: int)
    requires
        w.len() <= usize::MAX,
        0 <= j < w.len(),
        is_expired(w[j].2, threshold),
    ensures
        sweep_outcome(w, order, threshold, max).0.contains(j as usize),
{
    lemma_expired_positions_are_expired(w, threshold);
}

/// A sweep evicts the least recently used entries: an entry that may be evicted and
/// survives was used no earlier than any evicted entry.
pub proof fn law_sweep_evicts_oldest(w: Walk, order: Seq<usize>, threshold: int, max: int, e: int, j: int)
    requires
        w.len() <= usize::MAX,
        is_age_order(w, order),
        0 <= e < sweep_outcome(w, order, threshold, max).1.len(),
        0 <= j < w.len(),
        evictable(w[j].2, threshold),
        !sweep_outcome(w, order, threshold, max).1.contains(j as usize),
    ensures
        w[sweep_outcome(w, order, threshold, max).1[e] as int].2.last_touched <= w[j].2.last_touched,
{
    let pred = evictable_at(w, threshold);
    let cands = eviction_candidates(w, order, threshold);
    let ev = sweep_outcome(w, order, threshold, max).1;
    assert forall|k: int| 0 <= k < cands.len() implies #[trigger] cands[k] < w.len() by {
        lemma_filter_within(order, pred, w.len(), k);
    }
    lemma_evicted_within(w, cands, kept_size(w, threshold) - max);
    lemma_order_covers(order, w.len(), j);
    let q = choose|q: int| 0 <= q < order.len() && order[q] == j as usize;
    order.lemma_filter_contains(pred, q);
    let p = choose|p: int| 0 <= p < cands.len() && cands[p] == j as usize;
    assert(ev == cands.take(ev.len() as int));
    if p < ev.len() {
        assert(ev[p] == j as usize);
    }
    lemma_filter_keeps_age_order(w, order, pred);
    assert(ev[e] == cands[e]);
    assert(age_before(w, cands[e], cands[p]));
}

/// A sweep expires exactly the entries last used before the threshold, whatever their
/// kind or file: an entry is among the expired ones if and only if it can expire
/// (`last_touched != 0`) and its last use lies before `threshold`; the entries it then
/// evicts are ones that can expire and were used at or after the threshold.
pub proof fn law_sweep_expires_by_last_use(w: Walk, order: Seq<usize>, threshold: int, max: int, j: int)
    requires
        w.len() <= usize::MAX,
        is_age_order(w, order),
        0 <= j < w.len(),
    ensures
        sweep_outcome(w, order, threshold, max).0.contains(j as usize)
            <==> (w[j].2.last_touched != 0 && w[j].2.last_touched < threshold),
        sweep_outcome(w, order, threshold, max).1.contains(j as usize)
            ==> (w[j].2.last_touched != 0 && w[j].2.last_touched >= threshold),
{
    lemma_expired_positions_are_expired(w, threshold);
    let ex = sweep_outcome(w, order, threshold, max).0;
    if ex.contains(j as usize) {
        let k = choose|k: int| 0 <= k < ex.len() && ex[k] == j as usize;
        assert(is_expired(w[ex[k] as int].2, threshold));
    }
    let pred = evictable_at(w, threshold);
    let cands = eviction_candidates(w, order, threshold);
    let ev = sweep_outcome(w, order, threshold, max).1;
    assert forall|k: int| 0 <= k < cands.len() implies #[trigger] cands[k] < w.len() by {
        lemma_filter_within(order, pred, w.len(), k);
    }
    lemma_evicted_within(w, cands, kept_size(w, threshold) - max);
    if ev.contains(j as usize) {
        let k = choose|k: int| 0 <= k < ev.len() && ev[k] == j as usize;
        assert(ev[k] == cands[k]);
        order.lemma_filter_contains_rev(pred, cands[k]);
        assert(pred(cands[k]));
    }
}

/// What stays once the expired entries go is the sum of the sizes of the entries that
/// never expire or were used at or after the threshold.
pub proof fn law_kept_size_counts_unexpired(w: Walk, threshold: int)
    ensures
        kept_size(w, threshold) == total_size(w.filter(|e: (u128, AssetType, CacheEntry)|
            e.2.last_touched == 0 || e.2.last_touched >= threshold)),
    decreases w.len(),
{
    reveal_with_fuel(Seq::<_>::filter, 1);
    if w.len() > 0 {
        law_kept_size_counts_unexpired(w.drop_last(), threshold);
        let f = |e: (u128, AssetType, CacheEntry)| e.2.last_touched == 0 || e.2.last_touched >= threshold;
        let fd = w.drop_last().filter(f);
        if f(w.last()) {
            assert(w.filter(f) == fd.push(w.last()));
            assert(w.filter(f).drop_last() =~= fd);
        } else {
            assert(w.filter(f) == fd);
        }
    }
}

} // verus!
