//! The classification cache: classifications kept by key in a
//! least-recently-used cache of the `lru` crate, each valid for a time to
//! live, with counts of hits and misses.
//!
//! Times are milliseconds on a clock the caller reads; an entry stored at `t`
//! with time to live `ttl` has expired once more than `ttl` has passed.
use vstd::prelude::*;
use lru::LruCache;
use std::num::NonZeroUsize;
use crate::storage::F32Bits;

verus! {

/// `lru::LruCache`, a least-recently-used cache; its contents are opaque to
/// Verus and are described by the names that the functions below speak of.
#[verifier::external_type_specification]
#[verifier::external_body]
#[verifier::reject_recursive_types(K)]
#[verifier::reject_recursive_types(V)]
#[verifier::reject_recursive_types(S)]
pub struct ExLruCache<K, V, S>(LruCache<K, V, S>);

/// `lru::DefaultHasher`, the hasher an `LruCache` is made with by default.
#[verifier::external_type_specification]
#[verifier::external_body]
pub struct ExLruHasher(lru::DefaultHasher);

/// One isotope a classification found, with its confidence.
pub struct IsotopePrediction {
    pub symbol: String,
    pub confidence: F32Bits,
}

/// The result of classifying a spectrum: the isotopes found, most likely
/// first, and how long the classification took.
pub struct Classification {
    pub isotopes: Vec<IsotopePrediction>,
    pub latency_ms: u32,
}

/// A prediction as plain values.
pub open spec fn prediction_view(p: IsotopePrediction) -> (Seq<char>, F32Bits) {
    (p.symbol@, p.confidence)
}

/// A classification as plain values.
pub open spec fn classification_view(c: Classification) -> (Seq<(Seq<char>, F32Bits)>, u32) {
    (c.isotopes@.map_values(|p: IsotopePrediction| prediction_view(p)), c.latency_ms)
}

impl Clone for IsotopePrediction {
    fn clone(&self) -> (r: Self)
        ensures
            prediction_view(r) == prediction_view(*self),
    {
        IsotopePrediction { symbol: self.symbol.clone(), confidence: self.confidence }
    }
}

impl Clone for Classification {
    fn clone(&self) -> (r: Self)
        ensures
            classification_view(r) == classification_view(*self),
    {
        let mut isotopes: Vec<IsotopePrediction> = Vec::new();
        let mut i: usize = 0;
        while i < self.isotopes.len()
            invariant
                i <= self.isotopes@.len(),
                isotopes@.map_values(|p: IsotopePrediction| prediction_view(p))
                    == self.isotopes@.take(i as int).map_values(|p: IsotopePrediction| prediction_view(p)),
            decreases self.isotopes.len() - i,
        {
            let p = self.isotopes[i].clone();
            let ghost before = isotopes@;
            isotopes.push(p);
            proof {
                assert(self.isotopes@.take(i + 1) =~= self.isotopes@.take(i as int).push(self.isotopes@[i as int]));
                assert(isotopes@.map_values(|p: IsotopePrediction| prediction_view(p))
                    =~= before.map_values(|p: IsotopePrediction| prediction_view(p)).push(prediction_view(p)));
            }
            i = i + 1;
        }
        assert(self.isotopes@.take(self.isotopes@.len() as int) =~= self.isotopes@);
        Classification { isotopes, latency_ms: self.latency_ms }
    }
}

/// A classification as the cache keeps it: when it was stored and for how long
/// it is valid.
pub struct CachedClassification {
    pub classification: Classification,
    pub stored_at_ms: u64,
    pub ttl_ms: u64,
}

/// Whether an entry stored at `stored_at` for `ttl` has expired at `now`.
pub open spec fn expired(stored_at: u64, ttl: u64, now: u64) -> bool {
    now > stored_at + ttl
}

// ---------------------------------------------------------------------------
// The `lru` crate's cache
// ---------------------------------------------------------------------------

/// The entries of an `lru::LruCache`, from the least recently used to the most
/// recently used, each with its key.
pub uninterp spec fn lru_entries(c: LruCache<String, CachedClassification>) -> Seq<(Seq<char>, CachedClassification)>;

/// The capacity an `lru::LruCache` was made with.
pub uninterp spec fn lru_capacity(c: LruCache<String, CachedClassification>) -> nat;

/// The position of `key` among the entries, or -1.
pub open spec fn position_of(s: Seq<(Seq<char>, CachedClassification)>, key: Seq<char>) -> int {
    if exists|i: int| 0 <= i < s.len() && #[trigger] s[i].0 == key {
        choose|i: int| 0 <= i < s.len() && #[trigger] s[i].0 == key
    } else {
        -1
    }
}

/// No key occurs twice.
pub open spec fn keys_distinct(s: Seq<(Seq<char>, CachedClassification)>) -> bool {
    forall|i: int, j: int| 0 <= i < j < s.len() ==> #[trigger] s[i].0 != #[trigger] s[j].0
}

/// The entries after `key` was looked up: its entry, where there is one,
/// becomes the most recently used.
pub open spec fn touched(s: Seq<(Seq<char>, CachedClassification)>, key: Seq<char>) -> Seq<(Seq<char>, CachedClassification)> {
    let i = position_of(s, key);
    if i < 0 { s } else { s.remove(i).push(s[i]) }
}

/// The entries after `value` was put under `key` in a cache of capacity
/// `cap`: an entry under the same key is replaced; else, in a full cache, the
/// least recently used entry leaves. The new entry is the most recently used.
pub open spec fn after_put(
    s: Seq<(Seq<char>, CachedClassification)>,
    cap: nat,
    key: Seq<char>,
    value: CachedClassification,
) -> Seq<(Seq<char>, CachedClassification)> {
    let i = position_of(s, key);
    if i >= 0 {
        s.remove(i).push((key, value))
    } else if s.len() >= cap {
        s.drop_first().push((key, value))
    } else {
        s.push((key, value))
    }
}

/// `lru::LruCache::new`: an empty cache of capacity `cap`.
#[verifier::external_body]
fn lru_new(cap: usize) -> (c: LruCache<String, CachedClassification>)
    requires
        cap > 0,
    ensures
        lru_entries(c) == Seq::<(Seq<char>, CachedClassification)>::empty(),
        lru_capacity(c) == cap,
{
    LruCache::new(NonZeroUsize::new(cap).unwrap())
}

/// `lru::LruCache::get`: the value under `key`, whose entry becomes the most
/// recently used.
#[verifier::external_body]
fn lru_get<'a>(c: &'a mut LruCache<String, CachedClassification>, key: &str) -> (r: Option<&'a CachedClassification>)
    ensures
        lru_entries(*final(c)) == touched(lru_entries(*old(c)), key@),
        lru_capacity(*final(c)) == lru_capacity(*old(c)),
        position_of(lru_entries(*old(c)), key@) < 0 ==> r is None,
        position_of(lru_entries(*old(c)), key@) >= 0 ==> r == Some(&lru_entries(*old(c))[position_of(lru_entries(*old(c)), key@)].1),
{
    c.get(key)
}

/// `lru::LruCache::put`: `value` under `key`, replacing the entry under the
/// same key, or else the least recently used entry of a full cache.
#[verifier::external_body]
fn lru_put(c: &mut LruCache<String, CachedClassification>, key: String, value: CachedClassification)
    ensures
        lru_entries(*final(c)) == after_put(lru_entries(*old(c)), lru_capacity(*old(c)), key@, value),
        lru_capacity(*final(c)) == lru_capacity(*old(c)),
{
    c.put(key, value);
}

/// `lru::LruCache::len`: the number of entries.
#[verifier::external_body]
fn lru_len(c: &LruCache<String, CachedClassification>) -> (n: usize)
    ensures
        n == lru_entries(*c).len(),
{
    c.len()
}

/// `lru::LruCache::cap`: the capacity.
#[verifier::external_body]
fn lru_cap(c: &LruCache<String, CachedClassification>) -> (n: usize)
    ensures
        n == lru_capacity(*c),
{
    c.cap().get()
}

/// `lru::LruCache::clear`: no entry left.
#[verifier::external_body]
fn lru_clear(c: &mut LruCache<String, CachedClassification>)
    ensures
        lru_entries(*final(c)) == Seq::<(Seq<char>, CachedClassification)>::empty(),
        lru_capacity(*final(c)) == lru_capacity(*old(c)),
{
    c.clear();
}

// ---------------------------------------------------------------------------
// Facts about the entry sequences
// ---------------------------------------------------------------------------

proof fn lemma_position(s: Seq<(Seq<char>, CachedClassification)>, key: Seq<char>)
    requires
        keys_distinct(s),
    ensures
        position_of(s, key) < s.len(),
        position_of(s, key) >= 0 ==> s[position_of(s, key)].0 == key,
        position_of(s, key) < 0 ==> forall|j: int| 0 <= j < s.len() ==> #[trigger] s[j].0 != key,
        forall|j: int| 0 <= j < s.len() && #[trigger] s[j].0 == key ==> j == position_of(s, key),
{
    if exists|i: int| 0 <= i < s.len() && #[trigger] s[i].0 == key {
        let p = position_of(s, key);
        assert forall|j: int| 0 <= j < s.len() && #[trigger] s[j].0 == key implies j == p by {
            if j < p {
                assert(s[j].0 != s[p].0);
            } else if j > p {
                assert(s[p].0 != s[j].0);
            }
        }
    }
}

proof fn lemma_touched(s: Seq<(Seq<char>, CachedClassification)>, key: Seq<char>)
    requires
        keys_distinct(s),
    ensures
        keys_distinct(touched(s, key)),
        touched(s, key).len() == s.len(),
{
    lemma_position(s, key);
    let i = position_of(s, key);
    if i >= 0 {
        let t = touched(s, key);
        let r = s.remove(i);
        assert(t == r.push(s[i]));
        assert forall|a: int, b: int| 0 <= a < b < t.len() implies #[trigger] t[a].0 != #[trigger] t[b].0 by {
            let sa = if a < i { a } else { a + 1 };
            if b == t.len() - 1 {
                assert(t[a] == s[sa]);
                assert(t[b] == s[i]);
                assert(sa != i);
            } else {
                let sb = if b < i { b } else { b + 1 };
                assert(t[a] == s[sa]);
                assert(t[b] == s[sb]);
                assert(sa < sb);
            }
        }
    }
}

proof fn lemma_after_put(
    s: Seq<(Seq<char>, CachedClassification)>,
    cap: nat,
    key: Seq<char>,
    value: CachedClassification,
)
    requires
        keys_distinct(s),
        s.len() <= cap,
        cap > 0,
    ensures
        keys_distinct(after_put(s, cap, key, value)),
        after_put(s, cap, key, value).len() <= cap,
        position_of(after_put(s, cap, key, value), key) == after_put(s, cap, key, value).len() - 1,
        after_put(s, cap, key, value).last() == (key, value),
{
    lemma_position(s, key);
    let i = position_of(s, key);
    let t = after_put(s, cap, key, value);
    let n = t.len() - 1;
    assert(t[n] == (key, value));
    if i >= 0 {
        assert forall|a: int, b: int| 0 <= a < b < t.len() implies #[trigger] t[a].0 != #[trigger] t[b].0 by {
            let sa = if a < i { a } else { a + 1 };
            assert(t[a] == s[sa]);
            if b == n {
                assert(sa != i);
            } else {
                let sb = if b < i { b } else { b + 1 };
                assert(t[b] == s[sb]);
            }
        }
    } else if s.len() >= cap {
        assert forall|a: int, b: int| 0 <= a < b < t.len() implies #[trigger] t[a].0 != #[trigger] t[b].0 by {
            assert(t[a] == s[a + 1]);
            if b < n {
                assert(t[b] == s[b + 1]);
            }
        }
    } else {
        assert forall|a: int, b: int| 0 <= a < b < t.len() implies #[trigger] t[a].0 != #[trigger] t[b].0 by {
            assert(t[a] == s[a]);
            if b < n {
                assert(t[b] == s[b]);
            }
        }
    }
    lemma_position(t, key);
    assert(t[n].0 == key);
}

// ---------------------------------------------------------------------------
// The cache
// ---------------------------------------------------------------------------

/// Counts of a cache: entries held, capacity, hits and misses. The hit rate
/// is `hit_count / (hit_count + miss_count)`, or zero before any lookup.
pub struct CacheStats {
    pub size: usize,
    pub capacity: usize,
    pub hit_count: u64,
    pub miss_count: u64,
}

/// Classifications by key, least recently used first out when full.
pub struct ClassificationCache {
    cache: LruCache<String, CachedClassification>,
    default_ttl_ms: u64,
    hit_count: u64,
    miss_count: u64,
}

impl ClassificationCache {
    /// The entries, least recently used first.
    pub closed spec fn entries(&self) -> Seq<(Seq<char>, CachedClassification)> {
        lru_entries(self.cache)
    }

    /// How many entries the cache holds at most.
    pub closed spec fn capacity(&self) -> nat {
        lru_capacity(self.cache)
    }

    /// The time to live of what is put.
    pub closed spec fn ttl(&self) -> u64 {
        self.default_ttl_ms
    }

    /// Lookups that found a live entry.
    pub closed spec fn hits(&self) -> u64 {
        self.hit_count
    }

    /// Lookups that did not.
    pub closed spec fn misses(&self) -> u64 {
        self.miss_count
    }

    /// Keys are distinct, the capacity is positive and not exceeded, and the
    /// lookups counted fit in a `u64`.
    pub closed spec fn wf(&self) -> bool {
        &&& keys_distinct(self.entries())
        &&& 0 < self.capacity()
        &&& self.entries().len() <= self.capacity()
        &&& self.hit_count + self.miss_count <= u64::MAX
    }

    /// An empty cache holding at most `capacity` entries (1000 for a
    /// capacity of zero), each valid for `ttl_ms`.
    pub fn new(capacity: usize, ttl_ms: u64) -> (c: ClassificationCache)
        ensures
            c.wf(),
            c.entries() == Seq::<(Seq<char>, CachedClassification)>::empty(),
            c.capacity() == (if capacity == 0 { 1000 } else { capacity }),
            c.ttl() == ttl_ms,
            c.hits() == 0,
            c.misses() == 0,
    {
        let cap = if capacity == 0 { 1000 } else { capacity };
        ClassificationCache { cache: lru_new(cap), default_ttl_ms: ttl_ms, hit_count: 0, miss_count: 0 }
    }

    /// The classification under `key` if its entry has not expired at
    /// `now_ms`, counted as a hit; else nothing, counted as a miss. A found
    /// entry, expired or not, becomes the most recently used.
    pub fn get(&mut self, key: &str, now_ms: u64) -> (r: Option<Classification>)
        requires
            old(self).wf(),
            old(self).hits() + old(self).misses() < u64::MAX,
        ensures
            final(self).wf(),
            final(self).entries() == touched(old(self).entries(), key@),
            final(self).capacity() == old(self).capacity(),
            final(self).ttl() == old(self).ttl(),
            ({
                let s = old(self).entries();
                let i = position_of(s, key@);
                if i >= 0 && !expired(s[i].1.stored_at_ms, s[i].1.ttl_ms, now_ms) {
                    &&& r is Some
                    &&& classification_view(r->0) == classification_view(s[i].1.classification)
                    &&& final(self).hits() == old(self).hits() + 1
                    &&& final(self).misses() == old(self).misses()
                } else {
                    &&& r is None
                    &&& final(self).hits() == old(self).hits()
                    &&& final(self).misses() == old(self).misses() + 1
                }
            }),
    {
        proof {
            lemma_position(self.entries(), key@);
            lemma_touched(self.entries(), key@);
        }
        let found = lru_get(&mut self.cache, key);
        let hit: Option<Classification> = match found {
            Some(e) => {
                let live = if now_ms >= e.stored_at_ms { now_ms - e.stored_at_ms <= e.ttl_ms } else { true };
                if live { Some(e.classification.clone()) } else { None }
            },
            None => None,
        };
        match hit {
            Some(c) => {
                self.hit_count = self.hit_count + 1;
                Some(c)
            },
            None => {
                self.miss_count = self.miss_count + 1;
                None
            },
        }
    }

    /// Keeps `classification` under `key`, stored at `now_ms` with the
    /// cache's time to live.
    pub fn put(&mut self, key: String, classification: Classification, now_ms: u64)
        requires
            old(self).wf(),
        ensures
            final(self).wf(),
            final(self).entries() == after_put(
                old(self).entries(),
                old(self).capacity(),
                key@,
                CachedClassification { classification, stored_at_ms: now_ms, ttl_ms: old(self).ttl() },
            ),
            final(self).capacity() == old(self).capacity(),
            final(self).ttl() == old(self).ttl(),
            final(self).hits() == old(self).hits(),
            final(self).misses() == old(self).misses(),
    {
        let entry = CachedClassification { classification, stored_at_ms: now_ms, ttl_ms: self.default_ttl_ms };
        proof {
            lemma_after_put(self.entries(), self.capacity(), key@, entry);
        }
        lru_put(&mut self.cache, key, entry);
    }

    /// The counts.
    pub fn get_stats(&self) -> (s: CacheStats)
        requires
            self.wf(),
        ensures
            s.size == self.entries().len(),
            s.capacity == self.capacity(),
            s.hit_count == self.hits(),
            s.miss_count == self.misses(),
    {
        CacheStats {
            size: lru_len(&self.cache),
            capacity: lru_cap(&self.cache),
            hit_count: self.hit_count,
            miss_count: self.miss_count,
        }
    }

    /// Drops every entry and resets the counts.
    pub fn clear(&mut self)
        requires
            old(self).wf(),
        ensures
            final(self).wf(),
            final(self).entries() == Seq::<(Seq<char>, CachedClassification)>::empty(),
            final(self).capacity() == old(self).capacity(),
            final(self).ttl() == old(self).ttl(),
            final(self).hits() == 0,
            final(self).misses() == 0,
    {
        lru_clear(&mut self.cache);
        self.hit_count = 0;
        self.miss_count = 0;
    }
}

/// What happens to a reading once the anomaly detector has looked at it.
pub enum ReadingDecision {
    /// The detector flagged nothing: the reading is not classified.
    NotAnomalous,
    /// A fresh cached classification of the same spectrum.
    Cached(Classification),
    /// The spectrum is to be classified, and the result stored with `put`.
    Classify,
}

impl ClassificationCache {
    /// The first steps of processing a reading: nothing more when the detector
    /// did not flag it; otherwise the cache is asked for the spectrum's key
    /// (`get`), and a miss asks for a classification.
    pub fn decide_reading(&mut self, flagged: bool, key: &str, now_ms: u64) -> (d: ReadingDecision)
        requires
            old(self).wf(),
            old(self).hits() + old(self).misses() < u64::MAX,
        ensures
            final(self).wf(),
            final(self).capacity() == old(self).capacity(),
            final(self).ttl() == old(self).ttl(),
            !flagged ==> {
                &&& d is NotAnomalous
                &&& final(self).entries() == old(self).entries()
                &&& final(self).hits() == old(self).hits()
                &&& final(self).misses() == old(self).misses()
            },
            flagged ==> ({
                let s = old(self).entries();
                let i = position_of(s, key@);
                &&& final(self).entries() == touched(s, key@)
                &&& if i >= 0 && !expired(s[i].1.stored_at_ms, s[i].1.ttl_ms, now_ms) {
                    &&& d matches ReadingDecision::Cached(c)
                    &&& classification_view(c) == classification_view(s[i].1.classification)
                    &&& final(self).hits() == old(self).hits() + 1
                    &&& final(self).misses() == old(self).misses()
                } else {
                    &&& d is Classify
                    &&& final(self).hits() == old(self).hits()
                    &&& final(self).misses() == old(self).misses() + 1
                }
            }),
    {
        if !flagged {
            return ReadingDecision::NotAnomalous;
        }
        match self.get(key, now_ms) {
            Some(c) => ReadingDecision::Cached(c),
            None => ReadingDecision::Classify,
        }
    }
}

/// The cache's entries after the first `n` of `keys` were looked up in turn.
pub open spec fn lookups_from(s: Seq<(Seq<char>, CachedClassification)>, keys: Seq<Seq<char>>, n: int) -> Seq<(Seq<char>, CachedClassification)>
    decreases n,
{
    if n <= 0 {
        s
    } else {
        touched(lookups_from(s, keys, n - 1), keys[n - 1])
    }
}

/// Whether looking up `key` in entries `e` at `now` finds a fresh entry.
pub open spec fn fresh_hit(e: Seq<(Seq<char>, CachedClassification)>, key: Seq<char>, now: u64) -> bool {
    let i = position_of(e, key);
    i >= 0 && !expired(e[i].1.stored_at_ms, e[i].1.ttl_ms, now)
}

/// The classification, as plain values, that a fresh lookup of `key` in `e` finds.
pub open spec fn found_view(e: Seq<(Seq<char>, CachedClassification)>, key: Seq<char>) -> (Seq<(Seq<char>, F32Bits)>, u32) {
    classification_view(e[position_of(e, key)].1.classification)
}

/// Among the first `n` readings (each with its spectrum's key), those whose
/// lookup, in turn, found a fresh classification, with that classification.
pub open spec fn batch_hits<R>(s: Seq<(Seq<char>, CachedClassification)>, rs: Seq<(R, String)>, n: int, now: u64) -> Seq<(R, (Seq<(Seq<char>, F32Bits)>, u32))>
    decreases n,
{
    if n <= 0 {
        Seq::empty()
    } else {
        let keys = rs.map_values(|x: (R, String)| x.1@);
        let e = lookups_from(s, keys, n - 1);
        let rest = batch_hits(s, rs, n - 1, now);
        if fresh_hit(e, keys[n - 1], now) {
            rest.push((rs[n - 1].0, found_view(e, keys[n - 1])))
        } else {
            rest
        }
    }
}

/// Among the first `n` readings, those whose lookup, in turn, found nothing
/// fresh, with their keys.
pub open spec fn batch_misses<R>(s: Seq<(Seq<char>, CachedClassification)>, rs: Seq<(R, String)>, n: int, now: u64) -> Seq<(R, Seq<char>)>
    decreases n,
{
    if n <= 0 {
        Seq::empty()
    } else {
        let keys = rs.map_values(|x: (R, String)| x.1@);
        let e = lookups_from(s, keys, n - 1);
        let rest = batch_misses(s, rs, n - 1, now);
        if fresh_hit(e, keys[n - 1], now) {
            rest
        } else {
            rest.push((rs[n - 1].0, keys[n - 1]))
        }
    }
}

/// The cache's entries after the first `n` classifications were stored, in
/// turn, under their keys at `now`.
pub open spec fn stores_from(
    s: Seq<(Seq<char>, CachedClassification)>,
    cap: nat,
    keys: Seq<Seq<char>>,
    cs: Seq<Classification>,
    now: u64,
    ttl: u64,
    n: int,
) -> Seq<(Seq<char>, CachedClassification)>
    decreases n,
{
    if n <= 0 {
        s
    } else {
        after_put(
            stores_from(s, cap, keys, cs, now, ttl, n - 1),
            cap,
            keys[n - 1],
            CachedClassification { classification: cs[n - 1], stored_at_ms: now, ttl_ms: ttl },
        )
    }
}

impl ClassificationCache {
    /// Splits a batch of anomalous readings, each with its spectrum's key, by
    /// the cache: looking each key up in turn (`get`), the readings with a
    /// fresh cached classification come out with it, in order, and the others
    /// with their keys, in order, to be classified.
    pub fn partition_batch<R>(&mut self, readings: Vec<(R, String)>, now_ms: u64) -> (r: (Vec<(R, Classification)>, Vec<(R, String)>))
        requires
            old(self).wf(),
            old(self).hits() + old(self).misses() + readings@.len() < u64::MAX,
        ensures
            final(self).wf(),
            final(self).capacity() == old(self).capacity(),
            final(self).ttl() == old(self).ttl(),
            final(self).entries() == lookups_from(old(self).entries(), readings@.map_values(|x: (R, String)| x.1@), readings@.len() as int),
            r.0@.map_values(|x: (R, Classification)| (x.0, classification_view(x.1)))
                == batch_hits(old(self).entries(), readings@, readings@.len() as int, now_ms),
            r.1@.map_values(|x: (R, String)| (x.0, x.1@)) == batch_misses(old(self).entries(), readings@, readings@.len() as int, now_ms),
            final(self).hits() == old(self).hits() + r.0@.len(),
            final(self).misses() == old(self).misses() + r.1@.len(),
    {
        let ghost s0 = self.entries();
        let ghost all = readings@;
        let ghost keys = all.map_values(|x: (R, String)| x.1@);
        let ghost h0 = self.hits();
        let ghost m0 = self.misses();
        let total = readings.len();
        let mut rest = readings;
        let mut cached: Vec<(R, Classification)> = Vec::new();
        let mut uncached: Vec<(R, String)> = Vec::new();
        let mut i: usize = 0;
        while rest.len() > 0
            invariant
                total == all.len(),
                i + rest@.len() == all.len(),
                rest@ == all.skip(i as int),
                keys == all.map_values(|x: (R, String)| x.1@),
                self.wf(),
                self.capacity() == old(self).capacity(),
                self.ttl() == old(self).ttl(),
                self.entries() == lookups_from(s0, keys, i as int),
                h0 + m0 + all.len() < u64::MAX,
                cached@.map_values(|x: (R, Classification)| (x.0, classification_view(x.1))) == batch_hits(s0, all, i as int, now_ms),
                uncached@.map_values(|x: (R, String)| (x.0, x.1@)) == batch_misses(s0, all, i as int, now_ms),
                self.hits() == h0 + cached@.len(),
                self.misses() == m0 + uncached@.len(),
                cached@.len() + uncached@.len() == i,
            decreases rest.len(),
        {
            let (r, key) = rest.remove(0);
            proof {
                assert((r, key) == all[i as int]);
                assert(keys[i as int] == key@);
                assert(rest@ =~= all.skip(i + 1));
            }
            let ghost c0 = cached@;
            let ghost u0 = uncached@;
            let ghost e = self.entries();
            match self.get(key.as_str(), now_ms) {
                Some(c) => {
                    cached.push((r, c));
                    proof {
                        let v = |x: (R, Classification)| (x.0, classification_view(x.1));
                        assert(cached@.map_values(v) =~= c0.map_values(v).push((all[i as int].0, found_view(e, keys[i as int]))));
                    }
                },
                None => {
                    uncached.push((r, key));
                    proof {
                        let v = |x: (R, String)| (x.0, x.1@);
                        assert(uncached@.map_values(v) =~= u0.map_values(v).push((all[i as int].0, keys[i as int])));
                    }
                },
            }
            i = i + 1;
        }
        (cached, uncached)
    }

    /// Stores the classifications of a batch's uncached readings, in turn,
    /// each under its reading's key at `now_ms` (`put`); a reading without a
    /// classification is left out, as are classifications beyond the
    /// readings. Returns the cached readings followed by the classified ones,
    /// in order, each with its classification.
    pub fn store_batch<R>(
        &mut self,
        cached: Vec<(R, Classification)>,
        uncached: Vec<(R, String)>,
        classifications: Vec<Classification>,
        now_ms: u64,
    ) -> (r: Vec<(R, Classification)>)
        requires
            old(self).wf(),
        ensures
            ({
                let m = if uncached@.len() < classifications@.len() { uncached@.len() } else { classifications@.len() };
                &&& final(self).wf()
                &&& final(self).capacity() == old(self).capacity()
                &&& final(self).ttl() == old(self).ttl()
                &&& final(self).hits() == old(self).hits()
                &&& final(self).misses() == old(self).misses()
                &&& final(self).entries() == stores_from(
                    old(self).entries(),
                    old(self).capacity(),
                    uncached@.map_values(|x: (R, String)| x.1@),
                    classifications@,
                    now_ms,
                    old(self).ttl(),
                    m as int,
                )
                &&& r@.len() == cached@.len() + m
                &&& forall|i: int| 0 <= i < cached@.len() ==> #[trigger] r@[i] == cached@[i]
                &&& forall|i: int| 0 <= i < m ==> (#[trigger] r@[cached@.len() + i]).0 == uncached@[i].0
                    && classification_view(r@[cached@.len() + i].1) == classification_view(classifications@[i])
            }),
    {
        let ghost s0 = self.entries();
        let ghost us = uncached@;
        let ghost cs = classifications@;
        let ghost keys = us.map_values(|x: (R, String)| x.1@);
        let ghost ttl = self.ttl();
        let ghost cap = self.capacity();
        let ghost n0 = cached@.len();
        let ghost c_all = cached@;
        let m = if uncached.len() < classifications.len() { uncached.len() } else { classifications.len() };
        let mut out = cached;
        let mut us_rest = uncached;
        let mut cs_rest = classifications;
        let mut i: usize = 0;
        while i < m
            invariant
                i <= m,
                m <= us.len() && m <= cs.len(),
                us_rest@ == us.skip(i as int),
                cs_rest@ == cs.skip(i as int),
                keys == us.map_values(|x: (R, String)| x.1@),
                self.wf(),
                self.capacity() == cap,
                self.ttl() == ttl,
                self.hits() == old(self).hits(),
                self.misses() == old(self).misses(),
                self.entries() == stores_from(s0, cap, keys, cs, now_ms, ttl, i as int),
                out@.len() == n0 + i,
                n0 == c_all.len(),
                forall|k: int| 0 <= k < n0 ==> #[trigger] out@[k] == c_all[k],
                forall|k: int| 0 <= k < i ==> (#[trigger] out@[n0 + k]).0 == us[k].0
                    && classification_view(out@[n0 + k].1) == classification_view(cs[k]),
            decreases m - i,
        {
            let (r, key) = us_rest.remove(0);
            let c = cs_rest.remove(0);
            proof {
                assert((r, key) == us[i as int]);
                assert(c == cs[i as int]);
                assert(keys[i as int] == key@);
                assert(us_rest@ =~= us.skip(i + 1));
                assert(cs_rest@ =~= cs.skip(i + 1));
            }
            let copy = c.clone();
            self.put(key, c, now_ms);
            out.push((r, copy));
            i = i + 1;
        }
        out
    }
}

/// What is put is found again under its key, until it expires: right after a
/// put, the new entry is the most recently used one and holds the value put;
/// keys stay distinct and the capacity is not exceeded.
pub proof fn law_put_then_get(
    s: Seq<(Seq<char>, CachedClassification)>,
    cap: nat,
    key: Seq<char>,
    value: CachedClassification,
)
    requires
        keys_distinct(s),
        s.len() <= cap,
        cap > 0,
    ensures
        ({
            let t = after_put(s, cap, key, value);
            &&& keys_distinct(t)
            &&& t.len() <= cap
            &&& position_of(t, key) == t.len() - 1
            &&& t[position_of(t, key)].1 == value
            &&& touched(t, key) == t
        }),
{
    lemma_after_put(s, cap, key, value);
    let t = after_put(s, cap, key, value);
    let i = position_of(t, key);
    assert(t.remove(i).push(t[i]) =~= t);
}

/// A full cache that takes a new key lets go of exactly its least recently
/// used entry; every other entry stays, in order.
pub proof fn law_evicts_least_recent(
    s: Seq<(Seq<char>, CachedClassification)>,
    cap: nat,
    key: Seq<char>,
    value: CachedClassification,
)
    requires
        keys_distinct(s),
        s.len() == cap,
        cap > 0,
        forall|j: int| 0 <= j < s.len() ==> #[trigger] s[j].0 != key,
    ensures
        after_put(s, cap, key, value) == s.subrange(1, s.len() as int).push((key, value)),
{
    lemma_position(s, key);
    assert(s.drop_first() =~= s.subrange(1, s.len() as int));
}

} // verus!
