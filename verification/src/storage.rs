//! Storage tiering: where readings go, which tiers a time-range query
//! reads, the cold archive's naming, and decoding of hot-tier rows.
use vstd::prelude::*;
use crate::text::{chars_eq, chars_of, concat_strs, parse_i64, parse_i64_spec, signed_decimal, signed_decimal_string, split_chars, split_on, str_eq, string_from_chars};
use crate::ordering::{SortKey, law_stable_sorted_ascending, sort_by_key_stable, stable_sorted};

verus! {

/// Quality classification for readings.
#[derive(PartialEq, Eq, Structural, Clone, Copy, Debug)]
pub enum QualityFlag {
    Valid,
    Suspect,
    Invalid,
}

/// Domain event kinds.
#[derive(PartialEq, Eq, Structural, Clone, Copy, Debug)]
pub enum EventType {
    AnomalyDetected,
    AlertTriggered,
    IncidentCreated,
    SensorOffline,
    SensorOnline,
}

/// Time-series aggregation levels.
#[derive(PartialEq, Eq, Structural, Clone, Copy, Debug)]
pub enum AggregationLevel {
    Raw,
    OneMinute,
    FiveMinutes,
    OneHour,
    OneDay,
}

/// Storage errors.
pub enum DatabaseError {
    Scylla(String),
    Sqlite(String),
    Redis(String),
    Storage(String),
    Query(String),
    Migration(String),
}

/// A 64-bit IEEE-754 value, held as its bit pattern.
#[derive(PartialEq, Eq, Structural, Clone, Copy, Debug)]
pub struct F64Bits(pub u64);

/// A 32-bit IEEE-754 value, held as its bit pattern.
#[derive(PartialEq, Eq, Structural, Clone, Copy, Debug)]
pub struct F32Bits(pub u32);

/// The uncertainty column, as stored: single precision, or double precision
/// that is narrowed to single precision when used.
#[derive(PartialEq, Eq, Structural, Clone, Copy, Debug)]
pub enum Uncertainty {
    Single(F32Bits),
    Double(F64Bits),
}

/// One radiation reading as stored. Floating-point fields are held as bit patterns.
pub struct RadiationReading {
    pub sensor_id: u128,
    pub bucket: i64,
    pub timestamp: i64,
    pub latitude: F64Bits,
    pub longitude: F64Bits,
    pub dose_rate_microsieverts: F64Bits,
    pub uncertainty: Uncertainty,
    pub quality_flag: QualityFlag,
    pub source: String,
    pub cell_id: String,
}

/// Tier retention settings.
pub struct DatabaseConfig {
    pub hot_retention_days: i64,
    pub warm_retention_days: i64,
    pub enable_cold_archive: bool,
    pub max_retry_attempts: u32,
}

/// Seconds per day.
pub const SECS_PER_DAY: i64 = 86400;

/// Largest whole number of seconds a `chrono::TimeDelta` holds.
pub const MAX_DELTA_SECS: i64 = 9223372036854775;

/// `days` whole days fit in a `chrono::TimeDelta`.
pub open spec fn days_fit(days: int) -> bool {
    -MAX_DELTA_SECS <= days * SECS_PER_DAY <= MAX_DELTA_SECS
}

impl DatabaseConfig {
    /// Default retention: hot 7 days, warm 30 days, no cold archive, 3 retries.
    pub fn default() -> (c: DatabaseConfig)
        ensures
            c.hot_retention_days == 7,
            c.warm_retention_days == 30,
            !c.enable_cold_archive,
            c.max_retry_attempts == 3,
    {
        DatabaseConfig {
            hot_retention_days: 7,
            warm_retention_days: 30,
            enable_cold_archive: false,
            max_retry_attempts: 3,
        }
    }

    /// Both retention periods fit in a `chrono::TimeDelta`.
    pub open spec fn valid(&self) -> bool {
        days_fit(self.hot_retention_days as int) && days_fit(self.warm_retention_days as int)
    }
}

/// Health of each tier.
pub struct DatabaseHealth {
    pub hot: bool,
    pub warm: bool,
    pub cache: bool,
}

impl DatabaseHealth {
    /// Healthy when every tier is.
    pub fn is_healthy(&self) -> (r: bool)
        ensures
            r == (self.hot && self.warm && self.cache),
    {
        self.hot && self.warm && self.cache
    }
}

/// Whether `chrono::DateTime::from_timestamp(secs, 0)` gives a date
/// (it is `None` outside chrono's supported range).
pub uninterp spec fn chrono_timestamp_ok(secs: int) -> bool;

/// `chrono::DateTime::from_timestamp(secs, 0).is_some()`: whether the
/// timestamp is within chrono's representable range. The range itself is
/// not stated.
#[verifier::external_body]
fn timestamp_ok(secs: i64) -> (r: bool)
    ensures
        r == chrono_timestamp_ok(secs as int),
{
    chrono::DateTime::from_timestamp(secs, 0).is_some()
}

/// Where a reading is written.
#[derive(PartialEq, Eq, Structural, Clone, Copy, Debug)]
pub enum TierChoice {
    /// Real-time tier.
    Hot,
    /// Analytical tier.
    Warm,
    /// Historical archive (not written yet: the reading is dropped with a warning).
    Cold,
    /// Older than every tier and no archive: nothing is written.
    Skip,
}

/// The tier for a reading of age `age` seconds.
pub open spec fn tier_for_age(age: int, c: DatabaseConfig) -> TierChoice {
    if age <= c.hot_retention_days * SECS_PER_DAY {
        TierChoice::Hot
    } else if age <= c.warm_retention_days * SECS_PER_DAY {
        TierChoice::Warm
    } else if c.enable_cold_archive {
        TierChoice::Cold
    } else {
        TierChoice::Skip
    }
}

/// Chooses the tier for a reading taken at `timestamp` (seconds) when it is
/// written at `now` (seconds): a reading whose timestamp chrono cannot represent
/// is refused.
pub fn route_reading(timestamp: i64, now: i64, config: &DatabaseConfig) -> (r: Result<TierChoice, DatabaseError>)
    requires
        config.valid(),
    ensures
        !chrono_timestamp_ok(timestamp as int) ==> (r matches Err(DatabaseError::Query(m)) && m@ == "Invalid timestamp"@),
        chrono_timestamp_ok(timestamp as int) ==> (r matches Ok(t) && t == tier_for_age(now - timestamp, *config)),
{
    if !timestamp_ok(timestamp) {
        return Err(DatabaseError::Query(String::from_str("Invalid timestamp")));
    }
    let age: i128 = now as i128 - timestamp as i128;
    let hot: i128 = config.hot_retention_days as i128 * 86400;
    let warm: i128 = config.warm_retention_days as i128 * 86400;
    if age <= hot {
        Ok(TierChoice::Hot)
    } else if age <= warm {
        Ok(TierChoice::Warm)
    } else if config.enable_cold_archive {
        Ok(TierChoice::Cold)
    } else {
        Ok(TierChoice::Skip)
    }
}

/// The cold archive only takes what the warm tier no longer keeps: a reading
/// past the hot window but within the warm retention goes to the warm tier
/// whether or not the cold archive is on, switching the cold archive changes
/// nothing for readings within the warm retention, and a reading goes to the
/// cold archive only once it is older than the warm retention.
pub proof fn law_cold_only_beyond_warm(age: int, c: DatabaseConfig)
    ensures
        c.hot_retention_days * SECS_PER_DAY < age <= c.warm_retention_days * SECS_PER_DAY
            ==> tier_for_age(age, c) == TierChoice::Warm,
        age <= c.warm_retention_days * SECS_PER_DAY ==> tier_for_age(age, c) == tier_for_age(
            age,
            DatabaseConfig { enable_cold_archive: !c.enable_cold_archive, ..c },
        ),
        tier_for_age(age, c) == TierChoice::Cold ==> age > c.warm_retention_days * SECS_PER_DAY
            && age > c.hot_retention_days * SECS_PER_DAY && c.enable_cold_archive,
        age <= c.hot_retention_days * SECS_PER_DAY ==> tier_for_age(age, c) == TierChoice::Hot,
        age > c.hot_retention_days * SECS_PER_DAY && age > c.warm_retention_days * SECS_PER_DAY
            ==> tier_for_age(age, c) == (if c.enable_cold_archive { TierChoice::Cold } else { TierChoice::Skip }),
{
}

/// Every reading goes to exactly the tier its age selects, and with the hot
/// window no longer than the warm one, younger readings never go to a colder tier.
pub proof fn law_younger_is_hotter(a1: int, a2: int, c: DatabaseConfig)
    requires
        a1 <= a2,
        c.hot_retention_days <= c.warm_retention_days,
    ensures
        tier_for_age(a2, c) == TierChoice::Hot ==> tier_for_age(a1, c) == TierChoice::Hot,
        tier_for_age(a2, c) == TierChoice::Warm ==> tier_for_age(a1, c) != TierChoice::Cold
            && tier_for_age(a1, c) != TierChoice::Skip,
{
}

/// The tiers a time-range query reads, as `[from, to]` ranges in milliseconds.
pub struct QueryPlan {
    pub hot: Option<(i128, i128)>,
    pub warm: Option<(i128, i128)>,
}

/// The moment a query bound stands for: the timestamp in milliseconds, or
/// `now` when chrono cannot represent it.
pub open spec fn bound_ms(ts: int, now_ms: int) -> int {
    if chrono_timestamp_ok(ts) {
        ts * 1000
    } else {
        now_ms
    }
}

/// The hot-tier range of a query from `start` to `end`.
pub open spec fn hot_range(start: int, end: int, now_ms: int, c: DatabaseConfig) -> Option<(int, int)> {
    let cutoff = now_ms - c.hot_retention_days * SECS_PER_DAY * 1000;
    if end > cutoff {
        Some((if start > cutoff { start } else { cutoff }, end))
    } else {
        None
    }
}

/// The warm-tier range of a query from `start` to `end`.
pub open spec fn warm_range(start: int, end: int, now_ms: int, c: DatabaseConfig) -> Option<(int, int)> {
    let hot_cutoff = now_ms - c.hot_retention_days * SECS_PER_DAY * 1000;
    let warm_cutoff = now_ms - c.warm_retention_days * SECS_PER_DAY * 1000;
    if start < hot_cutoff && end > warm_cutoff {
        Some((
            if start > warm_cutoff { start } else { warm_cutoff },
            if end < hot_cutoff { end } else { hot_cutoff },
        ))
    } else {
        None
    }
}

/// A range of milliseconds, as mathematical integers.
pub open spec fn range_as_int(r: Option<(i128, i128)>) -> Option<(int, int)> {
    match r {
        Some((a, b)) => Some((a as int, b as int)),
        None => None,
    }
}

/// Decides which tiers a query from `start_ts` to `end_ts` (seconds) reads at
/// `now_ms`: the hot tier holds the last `hot_retention_days`, the warm tier
/// the span back to `warm_retention_days`.
pub fn plan_query_range(start_ts: i64, end_ts: i64, now_ms: i64, config: &DatabaseConfig) -> (p: QueryPlan)
    requires
        config.valid(),
    ensures
        range_as_int(p.hot) == hot_range(bound_ms(start_ts as int, now_ms as int), bound_ms(end_ts as int, now_ms as int), now_ms as int, *config),
        range_as_int(p.warm) == warm_range(bound_ms(start_ts as int, now_ms as int), bound_ms(end_ts as int, now_ms as int), now_ms as int, *config),
{
    let start: i128 = if timestamp_ok(start_ts) { start_ts as i128 * 1000 } else { now_ms as i128 };
    let end: i128 = if timestamp_ok(end_ts) { end_ts as i128 * 1000 } else { now_ms as i128 };
    let hot_cutoff: i128 = now_ms as i128 - config.hot_retention_days as i128 * 86400 * 1000;
    let warm_cutoff: i128 = now_ms as i128 - config.warm_retention_days as i128 * 86400 * 1000;
    let ghost s = bound_ms(start_ts as int, now_ms as int);
    let ghost e = bound_ms(end_ts as int, now_ms as int);
    assert(start == s && end == e);
    let hot = if end > hot_cutoff {
        let from = if start > hot_cutoff { start } else { hot_cutoff };
        Some((from, end))
    } else {
        None
    };
    let warm = if start < hot_cutoff && end > warm_cutoff {
        let from = if start > warm_cutoff { start } else { warm_cutoff };
        let to = if end < hot_cutoff { end } else { hot_cutoff };
        Some((from, to))
    } else {
        None
    };
    QueryPlan { hot, warm }
}

/// The hot and warm ranges of a query never overlap except at the hot cutoff,
/// both lie inside the query, and with a warm window at least as long as the
/// hot one, together they cover every moment of the query back to the warm
/// cutoff, except the query's own end when that lies at or before the hot cutoff.
pub proof fn law_query_tiers_partition(start: int, end: int, now_ms: int, c: DatabaseConfig, t: int)
    requires
        start <= end,
        c.hot_retention_days <= c.warm_retention_days,
    ensures
        hot_range(start, end, now_ms, c) is Some ==> start <= hot_range(start, end, now_ms, c).unwrap().0
            && hot_range(start, end, now_ms, c).unwrap().1 == end,
        warm_range(start, end, now_ms, c) is Some ==> start <= warm_range(start, end, now_ms, c).unwrap().0
            && warm_range(start, end, now_ms, c).unwrap().1 <= end,
        hot_range(start, end, now_ms, c) is Some && warm_range(start, end, now_ms, c) is Some
            ==> warm_range(start, end, now_ms, c).unwrap().1 <= hot_range(start, end, now_ms, c).unwrap().0,
        start <= t < end && t >= now_ms - c.warm_retention_days * SECS_PER_DAY * 1000 ==> (
            (hot_range(start, end, now_ms, c) is Some && hot_range(start, end, now_ms, c).unwrap().0 <= t
                && t <= hot_range(start, end, now_ms, c).unwrap().1)
            || (warm_range(start, end, now_ms, c) is Some && warm_range(start, end, now_ms, c).unwrap().0 <= t
                && t <= warm_range(start, end, now_ms, c).unwrap().1)),
{
}

// ---------------------------------------------------------------------------
// Cold archive
// ---------------------------------------------------------------------------

/// Cold storage for historical archive.
pub struct ColdStorage {
    local_path: String,
    enabled: bool,
}

/// Cold storage errors.
#[derive(PartialEq, Eq, Structural, Clone, Copy, Debug)]
pub enum ColdStorageError {
    /// "Cold storage is disabled"
    Disabled,
}

/// What archiving a set of readings comes to.
#[derive(PartialEq, Eq, Structural, Clone, Copy, Debug)]
pub enum ArchivePlan {
    /// Nothing to archive: the result is the empty path.
    Nothing,
    /// Write an archive covering timestamps `min..=max`.
    Write { min_timestamp: i64, max_timestamp: i64 },
}

/// Smallest of a nonempty sequence.
pub open spec fn seq_min(s: Seq<i64>) -> int
    decreases s.len(),
{
    if s.len() <= 1 {
        s[0] as int
    } else {
        let m = seq_min(s.drop_last());
        if (s.last() as int) < m { s.last() as int } else { m }
    }
}

/// Largest of a nonempty sequence.
pub open spec fn seq_max(s: Seq<i64>) -> int
    decreases s.len(),
{
    if s.len() <= 1 {
        s[0] as int
    } else {
        let m = seq_max(s.drop_last());
        if (s.last() as int) > m { s.last() as int } else { m }
    }
}

impl ColdStorage {
    /// Whether archiving is on.
    pub closed spec fn enabled(&self) -> bool {
        self.enabled
    }

    /// The archive directory.
    pub closed spec fn path(&self) -> Seq<char> {
        self.local_path@
    }

    /// An enabled archive in `local_path` (the directory is made by the caller).
    pub fn enabled_at(local_path: &str) -> (c: ColdStorage)
        ensures
            c.enabled(),
            c.path() == local_path@,
    {
        ColdStorage { local_path: String::from_str(local_path), enabled: true }
    }

    /// A disabled archive.
    pub fn disabled() -> (c: ColdStorage)
        ensures
            !c.enabled(),
            c.path() == Seq::<char>::empty(),
    {
        ColdStorage { local_path: String::new(), enabled: false }
    }

    /// Whether archiving is on.
    pub fn is_enabled(&self) -> (r: bool)
        ensures
            r == self.enabled(),
    {
        self.enabled
    }

    /// The archive directory.
    pub fn local_path(&self) -> (p: &str)
        ensures
            p@ == self.path(),
    {
        self.local_path.as_str()
    }

    /// What archiving readings with these timestamps comes to: refused when
    /// disabled, nothing for no readings, else the covered time span.
    pub fn archive_plan(&self, timestamps: &Vec<i64>) -> (r: Result<ArchivePlan, ColdStorageError>)
        ensures
            !self.enabled() ==> (r matches Err(e) && e == ColdStorageError::Disabled),
            self.enabled() && timestamps@.len() == 0 ==> (r matches Ok(p) && p == ArchivePlan::Nothing),
            self.enabled() && timestamps@.len() > 0 ==> (r matches Ok(ArchivePlan::Write { min_timestamp, max_timestamp })
                && min_timestamp == seq_min(timestamps@) && max_timestamp == seq_max(timestamps@)),
    {
        if !self.enabled {
            return Err(ColdStorageError::Disabled);
        }
        if timestamps.len() == 0 {
            return Ok(ArchivePlan::Nothing);
        }
        let mut lo = timestamps[0];
        let mut hi = timestamps[0];
        let mut i: usize = 1;
        proof {
            assert(timestamps@.subrange(0, 1).len() == 1);
        }
        while i < timestamps.len()
            invariant
                1 <= i <= timestamps@.len(),
                lo == seq_min(timestamps@.subrange(0, i as int)),
                hi == seq_max(timestamps@.subrange(0, i as int)),
            decreases timestamps.len() - i,
        {
            let t = timestamps[i];
            proof {
                let p = timestamps@.subrange(0, i + 1);
                assert(p.drop_last() =~= timestamps@.subrange(0, i as int));
                assert(p.last() == t);
            }
            if t < lo {
                lo = t;
            }
            if t > hi {
                hi = t;
            }
            i = i + 1;
        }
        assert(timestamps@.subrange(0, timestamps@.len() as int) =~= timestamps@);
        Ok(ArchivePlan::Write { min_timestamp: lo, max_timestamp: hi })
    }
}

/// The archive file name for a span: `readings_{min}_{max}_{id}.parquet`.
pub open spec fn archive_name(min: int, max: int, id: Seq<char>) -> Seq<char> {
    "readings_"@ + signed_decimal(min) + "_"@ + signed_decimal(max) + "_"@ + id + ".parquet"@
}

/// Builds the archive file name for a span and a unique id.
pub fn archive_filename(min_timestamp: i64, max_timestamp: i64, id: &str) -> (s: String)
    ensures
        s@ == archive_name(min_timestamp as int, max_timestamp as int, id@),
{
    let mut s = String::from_str("readings_");
    let a = signed_decimal_string(min_timestamp);
    s.append(a.as_str());
    s.append("_");
    let b = signed_decimal_string(max_timestamp);
    s.append(b.as_str());
    s.append("_");
    s.append(id);
    s.append(".parquet");
    s
}

/// Index of the last `.` in `s`, if any.
pub open spec fn last_dot(s: Seq<char>) -> Option<int>
    decreases s.len(),
{
    if s.len() == 0 {
        None
    } else if s.last() == '.' {
        Some(s.len() - 1)
    } else {
        last_dot(s.drop_last())
    }
}

/// The file stem, as `Path::file_stem` gives it for a file name: the name up
/// to its last `.`, unless there is none, the only one leads, or the name is `..`.
pub open spec fn file_stem(name: Seq<char>) -> Seq<char> {
    if name == ".."@ {
        name
    } else {
        match last_dot(name) {
            None => name,
            Some(i) => if i == 0 { name } else { name.subrange(0, i) },
        }
    }
}

proof fn lemma_last_dot_in_range(s: Seq<char>)
    ensures
        last_dot(s) matches Some(i) ==> 0 <= i < s.len() && s[i] == '.',
        last_dot(s) is None ==> forall|k: int| 0 <= k < s.len() ==> s[k] != '.',
    decreases s.len(),
{
    if s.len() > 0 {
        lemma_last_dot_in_range(s.drop_last());
        if s.last() != '.' {
            assert forall|k: int| 0 <= k < s.len() && last_dot(s) is None implies s[k] != '.' by {
                if k < s.len() - 1 {
                    assert(s[k] == s.drop_last()[k]);
                }
            }
        }
    }
}

/// The stem of a file name.
pub fn file_stem_of(name: &Vec<char>) -> (stem: Vec<char>)
    ensures
        stem@ == file_stem(name@),
{
    let n = name.len();
    let dots: Vec<char> = vec!['.', '.'];
    if chars_eq(name, &dots) {
        proof {
            reveal_strlit("..");
            assert(dots@ =~= ".."@);
        }
        return name.clone();
    }
    proof {
        reveal_strlit("..");
        assert(dots@ =~= ".."@);
    }
    let mut k: usize = n;
    assert(name@.subrange(0, n as int) =~= name@);
    while k > 0 && name[k - 1] != '.'
        invariant
            k <= n,
            n == name@.len(),
            last_dot(name@) == last_dot(name@.subrange(0, k as int)),
        decreases k,
    {
        proof {
            let p = name@.subrange(0, k as int);
            assert(p.drop_last() =~= name@.subrange(0, k - 1));
        }
        k = k - 1;
    }
    proof {
        assert(name@.subrange(0, n as int) =~= name@);
        if k > 0 {
            let p = name@.subrange(0, k as int);
            assert(p.last() == '.');
        }
    }
    if k <= 1 {
        return name.clone();
    }
    let mut stem: Vec<char> = Vec::new();
    let mut i: usize = 0;
    while i < k - 1
        invariant
            k <= n,
            n == name@.len(),
            i <= k - 1,
            stem@ == name@.subrange(0, i as int),
        decreases k - 1 - i,
    {
        stem.push(name[i]);
        i = i + 1;
        assert(stem@ =~= name@.subrange(0, i as int));
    }
    stem
}

/// Archive metadata: the name's stem, its time span, size and creation time.
pub struct ArchiveInfo {
    pub filename: String,
    pub start_timestamp: i64,
    pub end_timestamp: i64,
    pub size_bytes: u64,
    pub created: i64,
}

impl SortKey for ArchiveInfo {
    open spec fn sort_key(&self) -> int {
        self.start_timestamp as int
    }

    fn key(&self) -> (k: i128) {
        self.start_timestamp as i128
    }
}

/// The time span an archive's file name records: the second and third
/// `_`-separated fields of its stem, when both parse as `i64`.
pub open spec fn archive_span(name: Seq<char>) -> Option<(i64, i64)> {
    let parts = split_on(file_stem(name), '_');
    if parts.len() >= 3 {
        match (parse_i64_spec(parts[1]), parse_i64_spec(parts[2])) {
            (Some(a), Some(b)) => Some((a, b)),
            _ => None,
        }
    } else {
        None
    }
}

/// Reads the time span from an archive's file name; `None` when the name
/// does not carry one.
pub fn parse_archive_name(name: &str) -> (r: Option<(String, i64, i64)>)
    ensures
        r matches Some((stem, a, b)) ==> archive_span(name@) == Some((a, b)) && stem@ == file_stem(name@),
        r is None ==> archive_span(name@) is None,
{
    let chars = chars_of(name);
    let stem = file_stem_of(&chars);
    let parts = split_chars(&stem, '_');
    if parts.len() >= 3 {
        let a = parse_i64(&parts[1]);
        let b = parse_i64(&parts[2]);
        match (a, b) {
            (Some(a), Some(b)) => Some((string_from_chars(&stem), a, b)),
            _ => None,
        }
    } else {
        None
    }
}

/// Lists archives in start-time order (equal starts keep their order).
pub fn sort_archives(archives: Vec<ArchiveInfo>) -> (r: Vec<ArchiveInfo>)
    ensures
        r@ == stable_sorted(archives@),
{
    sort_by_key_stable(archives)
}

/// Indices of the archives that end before `before` (seconds), in order.
pub fn expired_archives(archives: &Vec<ArchiveInfo>, before: i64) -> (r: Vec<usize>)
    ensures
        forall|j: int| 0 <= j < r@.len() ==> (r@[j] as int) < archives@.len() && archives@[r@[j] as int].end_timestamp < before,
        forall|i: int| 0 <= i < archives@.len() && archives@[i].end_timestamp < before ==> r@.contains(i as usize),
        forall|a: int, b: int| 0 <= a < b < r@.len() ==> r@[a] < r@[b],
{
    let mut r: Vec<usize> = Vec::new();
    let mut i: usize = 0;
    while i < archives.len()
        invariant
            i <= archives@.len(),
            forall|j: int| 0 <= j < r@.len() ==> (r@[j] as int) < i && archives@[r@[j] as int].end_timestamp < before,
            forall|k: int| 0 <= k < i && archives@[k].end_timestamp < before ==> r@.contains(k as usize),
            forall|a: int, b: int| 0 <= a < b < r@.len() ==> r@[a] < r@[b],
        decreases archives.len() - i,
    {
        if archives[i].end_timestamp < before {
            let ghost old_r = r@;
            r.push(i);
            proof {
                assert(r@[r@.len() - 1] == i);
                assert forall|k: int| 0 <= k < i + 1 && archives@[k].end_timestamp < before implies r@.contains(k as usize) by {
                    if k < i {
                        let j = choose|j: int| 0 <= j < old_r.len() && old_r[j] == k as usize;
                        assert(r@[j] == k as usize);
                    } else {
                        assert(r@[r@.len() - 1] == k as usize);
                    }
                }
            }
        }
        i = i + 1;
    }
    r
}

/// An archive file as listed from the archive directory: its name, its size
/// in bytes and when it was created (seconds).
pub struct ArchiveFile {
    pub name: String,
    pub size_bytes: u64,
    pub created: i64,
}

/// An archive's details as plain values.
pub open spec fn archive_view(a: ArchiveInfo) -> (Seq<char>, i64, i64, u64, i64) {
    (a.filename@, a.start_timestamp, a.end_timestamp, a.size_bytes, a.created)
}

/// The archives among the first `n` files, in listing order: a file counts
/// when its name is `<prefix>_<start>_<end>...`, and is known by its stem.
pub open spec fn listed_archives(files: Seq<ArchiveFile>, n: int) -> Seq<(Seq<char>, i64, i64, u64, i64)>
    decreases n,
{
    if n <= 0 {
        Seq::empty()
    } else {
        let f = files[n - 1];
        let rest = listed_archives(files, n - 1);
        match archive_span(f.name@) {
            Some((a, b)) => rest.push((file_stem(f.name@), a, b, f.size_bytes, f.created)),
            None => rest,
        }
    }
}

/// Some archive of `r` has the details `v`.
pub open spec fn lists(r: Seq<ArchiveInfo>, v: (Seq<char>, i64, i64, u64, i64)) -> bool {
    exists|i: int| 0 <= i < r.len() && archive_view(r[i]) == v
}

/// The archives among all the files, in listing order.
pub open spec fn archive_listing(files: Seq<ArchiveFile>) -> Seq<(Seq<char>, i64, i64, u64, i64)> {
    listed_archives(files, files.len() as int)
}

impl ColdStorage {
    /// Readings archived between `start` and `end` for these sensors: none,
    /// whether or not archiving is on, as reading archives back is not done.
    pub fn query_range(&self, sensor_ids: &Vec<String>, start: i64, end: i64) -> (r: Vec<RadiationReading>)
        ensures
            r@.len() == 0,
    {
        Vec::new()
    }

    /// The archives among the files of the archive directory, by start time
    /// (files with equal start times keep their listing order); none when
    /// archiving is off.
    pub fn list_archives(&self, files: Vec<ArchiveFile>) -> (r: Vec<ArchiveInfo>)
        ensures
            !self.enabled() ==> r@.len() == 0,
            self.enabled() ==> r@.len() == archive_listing(files@).len(),
            self.enabled() ==> forall|i: int, j: int|
                0 <= i <= j < r@.len() ==> #[trigger] r@[i].start_timestamp <= #[trigger] r@[j].start_timestamp,
            self.enabled() ==> forall|i: int| 0 <= i < r@.len() ==> archive_listing(files@).contains(#[trigger] archive_view(r@[i])),
            self.enabled() ==> forall|k: int|
                0 <= k < archive_listing(files@).len() ==> lists(r@, #[trigger] archive_listing(files@)[k]),
    {
        if !self.enabled {
            return Vec::new();
        }
        let ghost fs = files@;
        let n = files.len();
        let mut parsed: Vec<ArchiveInfo> = Vec::new();
        let mut i: usize = 0;
        while i < n
            invariant
                n == fs.len(),
                files@ == fs,
                i <= n,
                parsed@.map_values(|a: ArchiveInfo| archive_view(a)) == listed_archives(fs, i as int),
            decreases n - i,
        {
            let f = &files[i];
            let ghost p0 = parsed@;
            match parse_archive_name(f.name.as_str()) {
                Some((stem, a, b)) => {
                    let info = ArchiveInfo { filename: stem, start_timestamp: a, end_timestamp: b, size_bytes: f.size_bytes, created: f.created };
                    parsed.push(info);
                    assert(parsed@.map_values(|a: ArchiveInfo| archive_view(a)) =~= p0.map_values(|a: ArchiveInfo| archive_view(a)).push(archive_view(info)));
                },
                None => {},
            }
            i = i + 1;
        }
        let ghost p = parsed@;
        let r = sort_archives(parsed);
        proof {
            law_stable_sorted_ascending(p);
            p.to_multiset_ensures();
            r@.to_multiset_ensures();
            assert(p.map_values(|a: ArchiveInfo| archive_view(a)) == archive_listing(files@));
            assert(archive_listing(files@).len() == p.len());
            assert(r@.len() == p.len());
            assert forall|i: int, j: int| 0 <= i <= j < r@.len() implies #[trigger] r@[i].start_timestamp <= #[trigger] r@[j].start_timestamp by {
                assert(r@[i].sort_key() <= r@[j].sort_key());
            }
            assert forall|i: int| 0 <= i < r@.len() implies archive_listing(files@).contains(#[trigger] archive_view(r@[i])) by {
                assert(r@.to_multiset().count(r@[i]) > 0);
                assert(p.to_multiset().count(r@[i]) > 0);
                let k = choose|k: int| 0 <= k < p.len() && p[k] == r@[i];
                assert(archive_listing(files@)[k] == archive_view(p[k]));
            }
            assert forall|k: int| 0 <= k < archive_listing(files@).len() implies lists(r@, #[trigger] archive_listing(files@)[k]) by {
                assert(archive_listing(files@)[k] == archive_view(p[k]));
                assert(p.to_multiset().count(p[k]) > 0);
                assert(r@.to_multiset().count(p[k]) > 0);
                let i = choose|i: int| 0 <= i < r@.len() && r@[i] == p[k];
                assert(archive_view(r@[i]) == archive_listing(files@)[k]);
            }
            assert(fs == files@);
        }
        r
    }

    /// The positions of the archives that ended before `before` (seconds),
    /// which are to be deleted; none when archiving is off.
    pub fn delete_old_archives(&self, archives: &Vec<ArchiveInfo>, before: i64) -> (r: Vec<usize>)
        ensures
            !self.enabled() ==> r@.len() == 0,
            self.enabled() ==> {
                &&& forall|j: int| 0 <= j < r@.len() ==> (r@[j] as int) < archives@.len()
                    && archives@[r@[j] as int].end_timestamp < before
                &&& forall|i: int| 0 <= i < archives@.len() && archives@[i].end_timestamp < before ==> r@.contains(i as usize)
                &&& forall|a: int, b: int| 0 <= a < b < r@.len() ==> r@[a] < r@[b]
            },
    {
        if !self.enabled {
            return Vec::new();
        }
        expired_archives(archives, before)
    }
}


/// Column compression.
#[derive(PartialEq, Eq, Structural, Clone, Copy, Debug)]
pub enum CompressionType {
    /// No compression (`NONE`).
    Uncompressed,
    Snappy,
    Gzip,
    Zstd,
    Lz4,
}

impl CompressionType {
    /// The codec's name in upper case.
    pub fn as_str(&self) -> (s: &'static str)
        ensures
            *self == CompressionType::Uncompressed ==> s@ == "NONE"@,
            *self == CompressionType::Snappy ==> s@ == "SNAPPY"@,
            *self == CompressionType::Gzip ==> s@ == "GZIP"@,
            *self == CompressionType::Zstd ==> s@ == "ZSTD"@,
            *self == CompressionType::Lz4 ==> s@ == "LZ4"@,
    {
        match self {
            CompressionType::Uncompressed => "NONE",
            CompressionType::Snappy => "SNAPPY",
            CompressionType::Gzip => "GZIP",
            CompressionType::Zstd => "ZSTD",
            CompressionType::Lz4 => "LZ4",
        }
    }
}

/// Configuration for cold storage.
pub struct ColdStorageConfig {
    pub local_path: String,
    pub s3_bucket: Option<String>,
    pub s3_region: Option<String>,
    pub s3_endpoint: Option<String>,
    pub compression: CompressionType,
    pub retention_days: u32,
}

impl ColdStorageConfig {
    /// Local `./data/cold`, no S3, Zstd, one year.
    pub fn default() -> (c: ColdStorageConfig)
        ensures
            c.local_path@ == "./data/cold"@,
            c.s3_bucket is None,
            c.s3_region is None,
            c.s3_endpoint is None,
            c.compression == CompressionType::Zstd,
            c.retention_days == 365,
    {
        ColdStorageConfig {
            local_path: String::from_str("./data/cold"),
            s3_bucket: None,
            s3_region: None,
            s3_endpoint: None,
            compression: CompressionType::Zstd,
            retention_days: 365,
        }
    }
}

// ---------------------------------------------------------------------------
// Hot-tier rows
// ---------------------------------------------------------------------------

/// A CQL value as the hot tier returns it.
pub enum CqlCell {
    Uuid(u128),
    BigInt(i64),
    Double(F64Bits),
    Float(F32Bits),
    Text(String),
    /// Any other CQL type.
    Other,
}

/// Why a row could not be decoded.
#[derive(PartialEq, Eq, Structural, Clone, Copy, Debug)]
pub enum RowError {
    /// "Row has insufficient columns: {n}"
    InsufficientColumns(usize),
    InvalidSensorId,
    InvalidBucket,
    InvalidTimestamp,
    InvalidLatitude,
    InvalidLongitude,
    InvalidDoseRate,
    InvalidUncertainty,
}

/// Number of columns of a reading row.
pub const ROW_COLUMNS: usize = 10;

/// The UUID in a cell, if it holds one.
pub open spec fn cell_uuid(c: Option<CqlCell>) -> Option<u128> {
    match c {
        Some(CqlCell::Uuid(u)) => Some(u),
        _ => None,
    }
}

/// The big integer in a cell, if it holds one.
pub open spec fn cell_bigint(c: Option<CqlCell>) -> Option<i64> {
    match c {
        Some(CqlCell::BigInt(v)) => Some(v),
        _ => None,
    }
}

/// The double in a cell, if it holds one.
pub open spec fn cell_double(c: Option<CqlCell>) -> Option<F64Bits> {
    match c {
        Some(CqlCell::Double(v)) => Some(v),
        _ => None,
    }
}

/// The uncertainty in a cell: a float, or a double to be narrowed.
pub open spec fn cell_uncertainty(c: Option<CqlCell>) -> Option<Uncertainty> {
    match c {
        Some(CqlCell::Float(v)) => Some(Uncertainty::Single(v)),
        Some(CqlCell::Double(v)) => Some(Uncertainty::Double(v)),
        _ => None,
    }
}

/// The quality flag a cell stands for: `Valid` and `Suspect` by name, anything else `Invalid`.
pub open spec fn cell_quality(c: Option<CqlCell>) -> QualityFlag {
    match c {
        Some(CqlCell::Text(t)) => if t@ == "Valid"@ {
            QualityFlag::Valid
        } else if t@ == "Suspect"@ {
            QualityFlag::Suspect
        } else {
            QualityFlag::Invalid
        },
        _ => QualityFlag::Invalid,
    }
}

/// The text in a cell, or the empty text.
pub open spec fn cell_text(c: Option<CqlCell>) -> Seq<char> {
    match c {
        Some(CqlCell::Text(t)) => t@,
        _ => Seq::empty(),
    }
}

/// The first decoding error of a row, if any, checking columns in order.
pub open spec fn row_error(cols: Seq<Option<CqlCell>>) -> Option<RowError> {
    if cols.len() < ROW_COLUMNS {
        Some(RowError::InsufficientColumns(cols.len() as usize))
    } else if cell_uuid(cols[0]) is None {
        Some(RowError::InvalidSensorId)
    } else if cell_bigint(cols[1]) is None {
        Some(RowError::InvalidBucket)
    } else if cell_bigint(cols[2]) is None {
        Some(RowError::InvalidTimestamp)
    } else if cell_double(cols[3]) is None {
        Some(RowError::InvalidLatitude)
    } else if cell_double(cols[4]) is None {
        Some(RowError::InvalidLongitude)
    } else if cell_double(cols[5]) is None {
        Some(RowError::InvalidDoseRate)
    } else if cell_uncertainty(cols[6]) is None {
        Some(RowError::InvalidUncertainty)
    } else {
        None
    }
}

/// Decodes a hot-tier row (columns in schema order) into a reading.
pub fn parse_row_to_reading(columns: Vec<Option<CqlCell>>) -> (r: Result<RadiationReading, RowError>)
    ensures
        row_error(columns@) matches Some(e) ==> (r matches Err(e2) && e2 == e),
        row_error(columns@) is None ==> (r matches Ok(reading) && {
            &&& Some(reading.sensor_id) == cell_uuid(columns@[0])
            &&& Some(reading.bucket) == cell_bigint(columns@[1])
            &&& Some(reading.timestamp) == cell_bigint(columns@[2])
            &&& Some(reading.latitude) == cell_double(columns@[3])
            &&& Some(reading.longitude) == cell_double(columns@[4])
            &&& Some(reading.dose_rate_microsieverts) == cell_double(columns@[5])
            &&& Some(reading.uncertainty) == cell_uncertainty(columns@[6])
            &&& reading.quality_flag == cell_quality(columns@[7])
            &&& reading.source@ == cell_text(columns@[8])
            &&& reading.cell_id@ == cell_text(columns@[9])
        }),
{
    if columns.len() < ROW_COLUMNS {
        return Err(RowError::InsufficientColumns(columns.len()));
    }
    let sensor_id = match &columns[0] {
        Some(CqlCell::Uuid(u)) => *u,
        _ => return Err(RowError::InvalidSensorId),
    };
    let bucket = match &columns[1] {
        Some(CqlCell::BigInt(b)) => *b,
        _ => return Err(RowError::InvalidBucket),
    };
    let timestamp = match &columns[2] {
        Some(CqlCell::BigInt(t)) => *t,
        _ => return Err(RowError::InvalidTimestamp),
    };
    let latitude = match &columns[3] {
        Some(CqlCell::Double(l)) => *l,
        _ => return Err(RowError::InvalidLatitude),
    };
    let longitude = match &columns[4] {
        Some(CqlCell::Double(l)) => *l,
        _ => return Err(RowError::InvalidLongitude),
    };
    let dose_rate_microsieverts = match &columns[5] {
        Some(CqlCell::Double(d)) => *d,
        _ => return Err(RowError::InvalidDoseRate),
    };
    let uncertainty = match &columns[6] {
        Some(CqlCell::Float(u)) => Uncertainty::Single(*u),
        Some(CqlCell::Double(u)) => Uncertainty::Double(*u),
        _ => return Err(RowError::InvalidUncertainty),
    };
    let quality_flag = match &columns[7] {
        Some(CqlCell::Text(q)) => {
            if str_eq(q.as_str(), "Valid") {
                proof { reveal_strlit("Valid"); }
                QualityFlag::Valid
            } else if str_eq(q.as_str(), "Suspect") {
                proof { reveal_strlit("Suspect"); }
                QualityFlag::Suspect
            } else {
                QualityFlag::Invalid
            }
        },
        _ => QualityFlag::Invalid,
    };
    let source = match &columns[8] {
        Some(CqlCell::Text(s)) => s.clone(),
        _ => String::new(),
    };
    let cell_id = match &columns[9] {
        Some(CqlCell::Text(c)) => c.clone(),
        _ => String::new(),
    };
    Ok(RadiationReading {
        sensor_id,
        bucket,
        timestamp,
        latitude,
        longitude,
        dose_rate_microsieverts,
        uncertainty,
        quality_flag,
        source,
        cell_id,
    })
}

// ---------------------------------------------------------------------------
// Aggregated queries on the warm store
// ---------------------------------------------------------------------------

/// The SQL expression that buckets timestamps for an interval: by minute,
/// hour or day, else the timestamp itself.
pub open spec fn bucket_expr(interval: Seq<char>) -> Seq<char> {
    if interval == "minute"@ {
        "strftime('%Y-%m-%d %H:%M:00', timestamp)"@
    } else if interval == "hour"@ {
        "strftime('%Y-%m-%d %H:00:00', timestamp)"@
    } else if interval == "day"@ {
        "strftime('%Y-%m-%d 00:00:00', timestamp)"@
    } else {
        "timestamp"@
    }
}

/// `n` bind placeholders joined by `, `.
pub open spec fn placeholders(n: nat) -> Seq<char>
    decreases n,
{
    if n == 0 {
        Seq::empty()
    } else if n == 1 {
        "?"@
    } else {
        placeholders((n - 1) as nat) + ", ?"@
    }
}

/// The statement that aggregates the readings of `n` sensors between two
/// times by the buckets of `interval`: mean, least and greatest dose and the
/// count per bucket, oldest bucket first.
pub open spec fn aggregated_sql(interval: Seq<char>, n: nat) -> Seq<char> {
    "\n            SELECT \n                datetime("@ + bucket_expr(interval)
        + ") as time_bucket,\n                AVG(dose_rate) as avg_dose,\n                MIN(dose_rate) as min_dose,\n                MAX(dose_rate) as max_dose,\n                COUNT(*) as reading_count\n            FROM radiation_readings_warm\n            WHERE timestamp >= ? AND timestamp <= ?\n            AND sensor_id IN ("@
        + placeholders(n) + ")\n            GROUP BY time_bucket\n            ORDER BY time_bucket ASC\n            "@
}

/// The bucket expression for an interval.
pub fn time_bucket_expr(interval: &str) -> (e: &'static str)
    ensures
        e@ == bucket_expr(interval@),
{
    if str_eq(interval, "minute") {
        "strftime('%Y-%m-%d %H:%M:00', timestamp)"
    } else if str_eq(interval, "hour") {
        "strftime('%Y-%m-%d %H:00:00', timestamp)"
    } else if str_eq(interval, "day") {
        "strftime('%Y-%m-%d 00:00:00', timestamp)"
    } else {
        "timestamp"
    }
}

/// The aggregation statement for `sensor_count` sensors; its binds are the
/// start, the end, then each sensor id.
pub fn aggregated_query_sql(interval: &str, sensor_count: usize) -> (q: String)
    ensures
        q@ == aggregated_sql(interval@, sensor_count as nat),
{
    let mut marks = String::new();
    let mut i: usize = 0;
    while i < sensor_count
        invariant
            i <= sensor_count,
            marks@ == placeholders(i as nat),
        decreases sensor_count - i,
    {
        if i == 0 {
            marks = String::from_str("?");
        } else {
            marks = concat_strs(marks.as_str(), ", ?");
        }
        i = i + 1;
    }
    let a = concat_strs("\n            SELECT \n                datetime(", time_bucket_expr(interval));
    let b = concat_strs(a.as_str(), ") as time_bucket,\n                AVG(dose_rate) as avg_dose,\n                MIN(dose_rate) as min_dose,\n                MAX(dose_rate) as max_dose,\n                COUNT(*) as reading_count\n            FROM radiation_readings_warm\n            WHERE timestamp >= ? AND timestamp <= ?\n            AND sensor_id IN (");
    let c = concat_strs(b.as_str(), marks.as_str());
    concat_strs(c.as_str(), ")\n            GROUP BY time_bucket\n            ORDER BY time_bucket ASC\n            ")
}

} // verus!
