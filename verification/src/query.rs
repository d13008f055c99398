//! Database query descriptions and the wide-column store's settings.
use vstd::prelude::*;
use crate::storage::F64Bits;

verus! {

/// How readings are aggregated over time.
#[derive(PartialEq, Eq, Structural, Clone, Copy, Debug)]
pub enum Aggregation {
    Raw,
    Minute,
    Hour,
    Day,
}

/// Readings of some sensors over a time range. Ids are UUIDs as integers,
/// times seconds since the Unix epoch.
pub struct TimeRangeQuery {
    pub sensor_ids: Vec<u128>,
    pub from_timestamp: i64,
    pub to_timestamp: i64,
    pub aggregation: Aggregation,
}

impl TimeRangeQuery {
    /// Raw readings of these sensors from `from` to `to`.
    pub fn new(sensor_ids: Vec<u128>, from: i64, to: i64) -> (q: TimeRangeQuery)
        ensures
            q.sensor_ids == sensor_ids && q.from_timestamp == from && q.to_timestamp == to,
            q.aggregation == Aggregation::Raw,
    {
        TimeRangeQuery { sensor_ids, from_timestamp: from, to_timestamp: to, aggregation: Aggregation::Raw }
    }

    /// The same query, aggregated.
    pub fn with_aggregation(self, agg: Aggregation) -> (q: TimeRangeQuery)
        ensures
            q == (TimeRangeQuery { aggregation: agg, ..self }),
    {
        TimeRangeQuery { aggregation: agg, ..self }
    }
}

/// Sensors within a bounding box; the bounds are the bits of `f64` degrees.
pub struct SpatialQuery {
    pub min_lat: F64Bits,
    pub max_lat: F64Bits,
    pub min_lon: F64Bits,
    pub max_lon: F64Bits,
    pub active_only: bool,
}

impl SpatialQuery {
    /// Active sensors within the box.
    pub fn bounding_box(min_lat: F64Bits, max_lat: F64Bits, min_lon: F64Bits, max_lon: F64Bits) -> (q: SpatialQuery)
        ensures
            q.min_lat == min_lat && q.max_lat == max_lat && q.min_lon == min_lon && q.max_lon == max_lon,
            q.active_only,
    {
        SpatialQuery { min_lat, max_lat, min_lon, max_lon, active_only: true }
    }
}

/// Anomalies since a time, optionally of some severities only.
pub struct AnomalyQuery {
    pub severity: Option<Vec<String>>,
    pub since: i64,
    pub limit: usize,
}

/// How many replicas must answer a read or acknowledge a write.
#[derive(PartialEq, Eq, Structural, Clone, Copy, Debug)]
pub enum Consistency {
    Any,
    One,
    Two,
    Three,
    Quorum,
    All,
    LocalQuorum,
    EachQuorum,
    LocalOne,
    Serial,
    LocalSerial,
}

/// Settings of the wide-column store.
pub struct ScyllaConfig {
    pub nodes: Vec<String>,
    pub keyspace: String,
    pub local_dc: String,
    pub write_consistency: Consistency,
    pub read_consistency: Consistency,
    pub max_concurrent_writes: usize,
    pub max_concurrent_reads: usize,
    /// Seconds.
    pub connection_timeout: u64,
}

impl ScyllaConfig {
    /// One local node, keyspace `cherenkov` in `datacenter1`, local-quorum
    /// writes and local-one reads, 1000 concurrent writes and 500 reads, a
    /// 5-second connection timeout.
    pub fn default() -> (c: ScyllaConfig)
        ensures
            c.nodes@.len() == 1 && c.nodes@[0]@ == "127.0.0.1:9042"@,
            c.keyspace@ == "cherenkov"@ && c.local_dc@ == "datacenter1"@,
            c.write_consistency == Consistency::LocalQuorum,
            c.read_consistency == Consistency::LocalOne,
            c.max_concurrent_writes == 1000 && c.max_concurrent_reads == 500,
            c.connection_timeout == 5,
    {
        let mut nodes: Vec<String> = Vec::new();
        nodes.push(String::from_str("127.0.0.1:9042"));
        ScyllaConfig {
            nodes,
            keyspace: String::from_str("cherenkov"),
            local_dc: String::from_str("datacenter1"),
            write_consistency: Consistency::LocalQuorum,
            read_consistency: Consistency::LocalOne,
            max_concurrent_writes: 1000,
            max_concurrent_reads: 500,
            connection_timeout: 5,
        }
    }
}

} // verus!
