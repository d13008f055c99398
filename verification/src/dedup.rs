//! Duplicate suppression for incoming readings.
use vstd::prelude::*;
use dashmap::DashMap;

verus! {

/// The map that tracks no sensor.
pub open spec fn no_sensors() -> Map<Seq<char>, i64> {
    Map::empty()
}

/// What a map from sensor id to last-seen timestamp holds.
pub uninterp spec fn seen_map(m: DashMap<String, i64>) -> Map<Seq<char>, i64>;

/// `DashMap::new`: an empty map.
#[verifier::external_body]
fn seen_new() -> (m: DashMap<String, i64>)
    ensures
        seen_map(m) == no_sensors(),
{
    DashMap::new()
}

/// `DashMap::get`: the value stored under `key`, if any.
#[verifier::external_body]
fn seen_get(m: &DashMap<String, i64>, key: &str) -> (r: Option<i64>)
    ensures
        seen_map(*m).dom().contains(key@) ==> r == Some(seen_map(*m)[key@]),
        !seen_map(*m).dom().contains(key@) ==> r is None,
{
    m.get(key).map(|v| *v)
}

/// `DashMap::insert`: stores `value` under `key`, replacing any earlier value.
#[verifier::external_body]
fn seen_insert(m: &mut DashMap<String, i64>, key: String, value: i64)
    ensures
        seen_map(*final(m)) == seen_map(*old(m)).insert(key@, value),
{
    m.insert(key, value);
}

/// `DashMap::len`: the number of keys.
#[verifier::external_body]
fn seen_len(m: &DashMap<String, i64>) -> (n: usize)
    ensures
        n == seen_map(*m).dom().len(),
{
    m.len()
}

/// `DashMap::retain` with the predicate "seen within `window` seconds before `now`":
/// keeps exactly the entries for which `within_window` holds.
#[verifier::external_body]
fn seen_retain_recent(m: &mut DashMap<String, i64>, now: i64, window: i64)
    ensures
        seen_map(*final(m)) == seen_map(*old(m)).restrict(
            seen_map(*old(m)).dom().filter(|k: Seq<char>| recent(now as int, seen_map(*old(m))[k] as int, window as int)),
        ),
{
    m.retain(|_, last| within_window(now, *last, window));
}

/// `DashMap::clear`: removes every entry.
#[verifier::external_body]
fn seen_clear(m: &mut DashMap<String, i64>)
    ensures
        seen_map(*final(m)) == no_sensors(),
{
    m.clear();
}

/// `last` lies less than `window` seconds before `now`.
pub open spec fn recent(now: int, last: int, window: int) -> bool {
    now - last < window
}

/// Whether `last` lies less than `window` seconds before `now`.
pub fn within_window(now: i64, last: i64, window: i64) -> (r: bool)
    ensures
        r == recent(now as int, last as int, window as int),
{
    (now as i128 - last as i128) < window as i128
}

/// Number of tracked sensors above which stale entries are pruned.
pub const DEDUP_PRUNE_ABOVE: usize = 10000;

/// Remembers, per sensor, the newest timestamp seen, to drop repeats.
pub struct Deduplicator {
    seen: DashMap<String, i64>,
    window_secs: u64,
}

impl Deduplicator {
    /// Sensor id to last recorded timestamp.
    pub closed spec fn seen(&self) -> Map<Seq<char>, i64> {
        seen_map(self.seen)
    }

    /// The deduplication window in seconds as the comparisons use it: the
    /// configured window taken as a signed 64-bit number, so a window above
    /// `i64::MAX` wraps to a negative one, within which nothing lies.
    pub closed spec fn window(&self) -> int {
        (self.window_secs as i64) as int
    }

    /// The deduplication window in seconds as configured.
    pub closed spec fn window_secs(&self) -> nat {
        self.window_secs as nat
    }

    /// Whether a reading of `sensor` at `timestamp`, checked at `now`, repeats one
    /// recorded less than the window ago with an equal or newer timestamp.
    pub open spec fn is_dup(&self, sensor: Seq<char>, timestamp: int, now: int) -> bool {
        &&& self.seen().dom().contains(sensor)
        &&& recent(now, self.seen()[sensor] as int, self.window())
        &&& timestamp <= self.seen()[sensor]
    }

    /// The tracked map after recording `sensor` at `timestamp` at time `now`:
    /// the entry is set, and when more than `DEDUP_PRUNE_ABOVE` sensors are
    /// tracked, entries outside the window are dropped.
    pub open spec fn after_record(&self, sensor: Seq<char>, timestamp: int, now: int) -> Map<Seq<char>, i64> {
        let m = self.seen().insert(sensor, timestamp as i64);
        if m.dom().len() > DEDUP_PRUNE_ABOVE {
            m.restrict(m.dom().filter(|k: Seq<char>| recent(now, m[k] as int, self.window())))
        } else {
            m
        }
    }

    /// An empty tracker with the given window.
    pub fn new(window_secs: u64) -> (d: Deduplicator)
        ensures
            d.seen() == no_sensors(),
            d.window_secs() == window_secs,
            d.window() == (window_secs as i64) as int,
            window_secs <= i64::MAX ==> d.window() == window_secs,
            window_secs > i64::MAX ==> d.window() < 0,
    {
        let d = Deduplicator { seen: seen_new(), window_secs };
        proof {
            assert(window_secs <= i64::MAX ==> (window_secs as i64) as int == window_secs) by (bit_vector);
            assert(window_secs > i64::MAX ==> (window_secs as i64) < 0) by (bit_vector);
        }
        d
    }

    fn signed_window(&self) -> (w: i64)
        ensures
            w as int == self.window(),
    {
        #[verifier::truncate]
        (self.window_secs as i64)
    }

    /// Whether the reading is a duplicate when checked at `now` (seconds).
    pub fn is_duplicate_at(&self, sensor_id: &str, timestamp: i64, now: i64) -> (r: bool)
        ensures
            r == self.is_dup(sensor_id@, timestamp as int, now as int),
    {
        match seen_get(&self.seen, sensor_id) {
            Some(last_seen) => {
                if within_window(now, last_seen, self.signed_window()) {
                    timestamp <= last_seen
                } else {
                    false
                }
            },
            None => false,
        }
    }

    /// Whether the reading is a duplicate now, by the wall clock.
    pub fn is_duplicate(&self, sensor_id: &str, timestamp: i64) -> (r: bool)
        ensures
            exists|now: int| r == self.is_dup(sensor_id@, timestamp as int, now),
    {
        let now = crate::clock::now_secs();
        self.is_duplicate_at(sensor_id, timestamp, now)
    }

    /// Records `sensor_id` at `timestamp`, pruning stale entries at `now` when
    /// too many sensors are tracked.
    pub fn record_at(&mut self, sensor_id: String, timestamp: i64, now: i64)
        ensures
            final(self).window() == old(self).window(),
            final(self).window_secs() == old(self).window_secs(),
            final(self).seen() == old(self).after_record(sensor_id@, timestamp as int, now as int),
    {
        seen_insert(&mut self.seen, sensor_id, timestamp);
        if seen_len(&self.seen) > DEDUP_PRUNE_ABOVE {
            let w = self.signed_window();
            seen_retain_recent(&mut self.seen, now, w);
        }
    }

    /// Records `sensor_id` at `timestamp`, pruning by the wall clock.
    pub fn record(&mut self, sensor_id: String, timestamp: i64)
        ensures
            final(self).window() == old(self).window(),
            final(self).window_secs() == old(self).window_secs(),
            exists|now: int| final(self).seen() == old(self).after_record(sensor_id@, timestamp as int, now),
    {
        let now = crate::clock::now_secs();
        self.record_at(sensor_id, timestamp, now);
    }

    /// Forgets every sensor.
    pub fn clear(&mut self)
        ensures
            final(self).window() == old(self).window(),
            final(self).window_secs() == old(self).window_secs(),
            final(self).seen() == no_sensors(),
    {
        seen_clear(&mut self.seen);
    }

    /// Number of sensors tracked.
    pub fn len(&self) -> (n: usize)
        ensures
            n == self.seen().dom().len(),
    {
        seen_len(&self.seen)
    }
}

/// Once a reading is recorded, the same sensor's reading at the same or an
/// older timestamp is a duplicate while the window lasts.
pub proof fn law_recorded_reading_is_duplicate(d: Deduplicator, sensor: Seq<char>, t: int, older: int, now: int)
    requires
        d.window() > 0,
        i64::MIN <= t <= i64::MAX,
        older <= t,
        now - t < d.window(),
    ensures
        ({
            let m = d.after_record(sensor, t, now);
            &&& m.dom().contains(sensor)
            &&& m[sensor] == t
            &&& recent(now, m[sensor] as int, d.window())
            &&& older <= m[sensor]
        }),
{
    let m0 = d.seen().insert(sensor, t as i64);
    assert(m0.dom().contains(sensor));
    if m0.dom().len() > DEDUP_PRUNE_ABOVE {
        assert(m0.dom().filter(|k: Seq<char>| recent(now, m0[k] as int, d.window())).contains(sensor));
    }
}

} // verus!
