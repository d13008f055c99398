//! Shared configuration and the events that services exchange.
//!
//! Floating-point settings and measurements are held as the bit patterns of
//! their `f64` values; identifiers are UUIDs as integers and times are
//! milliseconds since the Unix epoch.
use vstd::prelude::*;
use crate::storage::F64Bits;
use crate::text::{chars_of, parse_i64, parse_i64_spec};

verus! {

/// Main configuration for the services.
pub struct Config {
    pub database: DatabaseConfig,
    pub sources: SourcesConfig,
    pub api: ApiConfig,
    pub stream: StreamConfig,
    pub ingest: IngestConfig,
    pub observability: ObservabilityConfig,
}

/// Database connection settings.
pub struct DatabaseConfig {
    pub scylla_uri: String,
    pub sqlite_path: String,
    pub redis_uri: String,
    pub cold_storage_bucket: Option<String>,
    pub pool_size: usize,
}

/// Data source settings.
pub struct SourcesConfig {
    pub safecast: SourceSettings,
    pub uradmonitor: SourceSettings,
    pub epa_radnet: Option<SourceSettings>,
    pub openaq: Option<SourceSettings>,
    pub openmeteo: Option<SourceSettings>,
}

/// One source's settings.
pub struct SourceSettings {
    pub enabled: bool,
    /// Poll interval in seconds.
    pub interval_sec: u64,
    pub api_key: Option<String>,
    /// Additional parameters, each key once.
    pub params: Vec<(String, String)>,
}

/// API server settings.
pub struct ApiConfig {
    pub bind_addr: String,
    pub port: u16,
    pub jwt_secret: String,
    pub rate_limit_per_minute: u32,
    pub enable_playground: bool,
}

/// Stream processing settings.
pub struct StreamConfig {
    /// z-score threshold.
    pub anomaly_threshold: F64Bits,
    pub window_size_sec: u64,
    pub enable_correlation: bool,
    pub correlation_radius_km: F64Bits,
}

/// Ingestion pipeline settings.
pub struct IngestConfig {
    pub batch_size: usize,
    pub batch_timeout_ms: u64,
    pub circuit_breaker_threshold: u32,
    pub dlq_retry_interval_sec: u64,
    pub max_concurrent_fetches: usize,
}

/// Observability settings.
pub struct ObservabilityConfig {
    pub log_level: String,
    pub json_logs: bool,
    pub metrics_port: u16,
    pub tracing_endpoint: Option<String>,
}

/// Bits of the `f64` value 3.0.
pub const THREE_F64_BITS: u64 = 0x4008_0000_0000_0000;
/// Bits of the `f64` value 50.0.
pub const FIFTY_F64_BITS: u64 = 0x4049_0000_0000_0000;

/// What `str::parse::<u16>` gives: an optional `+`, then at least one decimal
/// digit and nothing else, with the value in range.
pub open spec fn parse_u16_spec(s: Seq<char>) -> Option<u16> {
    if s.len() > 0 && s[0] == '-' {
        None
    } else {
        match parse_i64_spec(s) {
            Some(v) => if 0 <= v <= 65535 { Some(v as u16) } else { None },
            None => None,
        }
    }
}

/// Parses a port number the way `str::parse::<u16>` does.
pub fn parse_u16(s: &str) -> (r: Option<u16>)
    ensures
        r == parse_u16_spec(s@),
{
    let cs = chars_of(s);
    if cs.len() > 0 && cs[0] == '-' {
        return None;
    }
    match parse_i64(&cs) {
        Some(v) => if 0 <= v && v <= 65535 { Some(v as u16) } else { None },
        None => None,
    }
}

impl Config {
    /// Local development settings.
    pub fn default() -> (c: Config)
        ensures
            c.database.scylla_uri@ == "127.0.0.1:9042"@,
            c.database.sqlite_path@ == "./data/cherenkov.db"@,
            c.database.redis_uri@ == "redis://127.0.0.1:6379"@,
            c.database.cold_storage_bucket is None,
            c.database.pool_size == 10,
            c.sources.safecast.enabled && c.sources.safecast.interval_sec == 60,
            c.sources.safecast.api_key is None && c.sources.safecast.params@.len() == 0,
            c.sources.uradmonitor.enabled && c.sources.uradmonitor.interval_sec == 30,
            c.sources.uradmonitor.api_key is None && c.sources.uradmonitor.params@.len() == 0,
            c.sources.epa_radnet is None && c.sources.openaq is None && c.sources.openmeteo is None,
            c.api.bind_addr@ == "0.0.0.0"@,
            c.api.port == 8080,
            c.api.jwt_secret@ == "cherenkov-dev-secret"@,
            c.api.rate_limit_per_minute == 60,
            c.api.enable_playground,
            c.stream.anomaly_threshold == F64Bits(THREE_F64_BITS),
            c.stream.window_size_sec == 300,
            c.stream.enable_correlation,
            c.stream.correlation_radius_km == F64Bits(FIFTY_F64_BITS),
            c.ingest.batch_size == 100,
            c.ingest.batch_timeout_ms == 5000,
            c.ingest.circuit_breaker_threshold == 5,
            c.ingest.dlq_retry_interval_sec == 60,
            c.ingest.max_concurrent_fetches == 10,
            c.observability.log_level@ == "info"@,
            c.observability.json_logs,
            c.observability.metrics_port == 9090,
            c.observability.tracing_endpoint is None,
    {
        Config {
            database: DatabaseConfig {
                scylla_uri: String::from_str("127.0.0.1:9042"),
                sqlite_path: String::from_str("./data/cherenkov.db"),
                redis_uri: String::from_str("redis://127.0.0.1:6379"),
                cold_storage_bucket: None,
                pool_size: 10,
            },
            sources: SourcesConfig {
                safecast: SourceSettings { enabled: true, interval_sec: 60, api_key: None, params: Vec::new() },
                uradmonitor: SourceSettings { enabled: true, interval_sec: 30, api_key: None, params: Vec::new() },
                epa_radnet: None,
                openaq: None,
                openmeteo: None,
            },
            api: ApiConfig {
                bind_addr: String::from_str("0.0.0.0"),
                port: 8080,
                jwt_secret: String::from_str("cherenkov-dev-secret"),
                rate_limit_per_minute: 60,
                enable_playground: true,
            },
            stream: StreamConfig {
                anomaly_threshold: F64Bits(THREE_F64_BITS),
                window_size_sec: 300,
                enable_correlation: true,
                correlation_radius_km: F64Bits(FIFTY_F64_BITS),
            },
            ingest: IngestConfig {
                batch_size: 100,
                batch_timeout_ms: 5000,
                circuit_breaker_threshold: 5,
                dlq_retry_interval_sec: 60,
                max_concurrent_fetches: 10,
            },
            observability: ObservabilityConfig {
                log_level: String::from_str("info"),
                json_logs: true,
                metrics_port: 9090,
                tracing_endpoint: None,
            },
        }
    }

    /// Applies the environment's overrides, each given where its variable is
    /// set: `SCYLLA_URI`, `SQLITE_PATH`, `JWT_SECRET`, and `API_PORT`, which
    /// is used only when it parses as a port number.
    pub fn with_env_overrides(
        self,
        scylla_uri: Option<String>,
        sqlite_path: Option<String>,
        jwt_secret: Option<String>,
        api_port: Option<String>,
    ) -> (c: Config)
        ensures
            c.database.scylla_uri == (match scylla_uri { Some(u) => u, None => self.database.scylla_uri }),
            c.database.sqlite_path == (match sqlite_path { Some(p) => p, None => self.database.sqlite_path }),
            c.api.jwt_secret == (match jwt_secret { Some(s) => s, None => self.api.jwt_secret }),
            c.api.port == (match api_port {
                Some(p) => match parse_u16_spec(p@) { Some(n) => n, None => self.api.port },
                None => self.api.port,
            }),
            c.database.redis_uri == self.database.redis_uri,
            c.database.cold_storage_bucket == self.database.cold_storage_bucket,
            c.database.pool_size == self.database.pool_size,
            c.sources == self.sources && c.stream == self.stream && c.ingest == self.ingest,
            c.observability == self.observability,
            c.api.bind_addr == self.api.bind_addr,
            c.api.rate_limit_per_minute == self.api.rate_limit_per_minute,
            c.api.enable_playground == self.api.enable_playground,
    {
        let mut c = self;
        match scylla_uri {
            Some(u) => c.database.scylla_uri = u,
            None => {},
        }
        match sqlite_path {
            Some(p) => c.database.sqlite_path = p,
            None => {},
        }
        match jwt_secret {
            Some(s) => c.api.jwt_secret = s,
            None => {},
        }
        match api_port {
            Some(p) => match parse_u16(p.as_str()) {
                Some(n) => c.api.port = n,
                None => {},
            },
            None => {},
        }
        c
    }

    /// Applies the overrides that a loaded configuration file takes from the
    /// environment: `SCYLLA_URI` and `JWT_SECRET`.
    pub fn with_file_overrides(self, scylla_uri: Option<String>, jwt_secret: Option<String>) -> (c: Config)
        ensures
            c.database.scylla_uri == (match scylla_uri { Some(u) => u, None => self.database.scylla_uri }),
            c.api.jwt_secret == (match jwt_secret { Some(s) => s, None => self.api.jwt_secret }),
            c.database.sqlite_path == self.database.sqlite_path,
            c.database.redis_uri == self.database.redis_uri,
            c.database.cold_storage_bucket == self.database.cold_storage_bucket,
            c.database.pool_size == self.database.pool_size,
            c.sources == self.sources && c.stream == self.stream && c.ingest == self.ingest,
            c.observability == self.observability,
            c.api.bind_addr == self.api.bind_addr && c.api.port == self.api.port,
            c.api.rate_limit_per_minute == self.api.rate_limit_per_minute,
            c.api.enable_playground == self.api.enable_playground,
    {
        let mut c = self;
        match scylla_uri {
            Some(u) => c.database.scylla_uri = u,
            None => {},
        }
        match jwt_secret {
            Some(s) => c.api.jwt_secret = s,
            None => {},
        }
        c
    }
}

// ---------------------------------------------------------------------------
// Events
// ---------------------------------------------------------------------------

/// Quality classification for readings.
#[derive(PartialEq, Eq, Structural, Clone, Copy, Debug)]
pub enum QualityFlag {
    Valid,
    Suspect,
    Invalid,
}

/// Severity levels for anomalies.
#[derive(PartialEq, Eq, Structural, Clone, Copy, Debug)]
pub enum Severity {
    Critical,
    Warning,
    Info,
}

/// Sensor operational status.
#[derive(PartialEq, Eq, Structural, Clone, Copy, Debug)]
pub enum SensorStatus {
    Online,
    Offline,
    Degraded,
    Maintenance,
}

/// Algorithm types for ML processing.
#[derive(PartialEq, Eq, Structural, Clone, Copy, Debug)]
pub enum Algorithm {
    IsolationForest,
    LSTM,
    Autoencoder,
    Statistical,
    Ensemble,
}

/// A radiation reading from any source, normalized.
pub struct NormalizedReading {
    pub sensor_id: u128,
    pub timestamp: i64,
    pub latitude: F64Bits,
    pub longitude: F64Bits,
    pub dose_rate_microsieverts: F64Bits,
    pub uncertainty: F64Bits,
    pub source: String,
    pub quality_flag: QualityFlag,
}

/// An anomaly detection result.
pub struct Anomaly {
    pub anomaly_id: String,
    pub sensor_id: u128,
    pub severity: Severity,
    pub z_score: F64Bits,
    pub detected_at: i64,
    pub dose_rate: F64Bits,
    pub baseline: F64Bits,
    pub algorithm: String,
}

/// An alert for a significant radiation event.
pub struct Alert {
    pub alert_id: String,
    pub anomaly_ids: Vec<String>,
    pub message: String,
    pub severity: Severity,
    pub created_at: i64,
    pub acknowledged: bool,
}

/// Events that services exchange.
pub enum CherenkovEvent {
    /// A new reading from ingestion.
    NewReading(NormalizedReading),
    /// An anomaly found by the stream processor.
    AnomalyDetected(Anomaly),
    /// An alert raised for a significant event.
    AlertTriggered(Alert),
    /// A sensor changed status.
    SensorStatusChange { sensor_id: u128, status: SensorStatus, timestamp: i64 },
    /// A component's health.
    HealthUpdate { component: String, healthy: bool, message: Option<String> },
    /// Anomalies that occurred together.
    CorrelatedEventDetected { primary: Anomaly, correlated_count: usize, correlation_score: F64Bits },
}

// ---------------------------------------------------------------------------
// Event bus
// ---------------------------------------------------------------------------

/// `tokio::sync::broadcast::Sender`, the sending half of a broadcast channel.
#[verifier::external_type_specification]
#[verifier::external_body]
#[verifier::reject_recursive_types(T)]
pub struct ExBroadcastSender<T>(tokio::sync::broadcast::Sender<T>);

/// `tokio::sync::broadcast::Receiver`, a receiving half of a broadcast channel.
#[verifier::external_type_specification]
#[verifier::external_body]
#[verifier::reject_recursive_types(T)]
pub struct ExBroadcastReceiver<T>(tokio::sync::broadcast::Receiver<T>);

/// A broadcast sender with room for `capacity` messages and no receiver, from
/// `tokio::sync::broadcast::Sender::new`, which panics on a capacity of zero or
/// above `usize::MAX / 2`.
#[verifier::external_body]
pub(crate) fn broadcast_sender<T>(capacity: usize) -> (tx: tokio::sync::broadcast::Sender<T>)
    requires
        0 < capacity <= usize::MAX / 2,
{
    tokio::sync::broadcast::Sender::new(capacity)
}

/// Sends to every receiver, from `tokio::sync::broadcast::Sender::send`: the
/// number of receivers on success, which is at least one; `None` when there is
/// no receiver. Which of the two happens depends on the receivers alive at the
/// time, which nothing here tracks.
#[verifier::external_body]
pub(crate) fn broadcast_send<T>(tx: &tokio::sync::broadcast::Sender<T>, value: T) -> (r: Option<usize>)
    ensures
        r matches Some(n) ==> n >= 1,
{
    tx.send(value).ok()
}

/// A new receiver of what is sent from now on, from `Sender::subscribe`.
#[verifier::external_body]
pub(crate) fn broadcast_subscribe<T>(tx: &tokio::sync::broadcast::Sender<T>) -> (rx: tokio::sync::broadcast::Receiver<T>) {
    tx.subscribe()
}

/// The number of live receivers, from `Sender::receiver_count`; it changes as
/// receivers come and go, so nothing is claimed of it.
#[verifier::external_body]
fn broadcast_receiver_count<T>(tx: &tokio::sync::broadcast::Sender<T>) -> (n: usize) {
    tx.receiver_count()
}

/// Why an event could not be published.
#[derive(PartialEq, Eq, Structural, Clone, Copy, Debug)]
pub enum BusError {
    /// "No active subscribers"
    NoActiveSubscribers,
}

/// Publish/subscribe messaging between the services.
pub struct EventBus {
    tx: tokio::sync::broadcast::Sender<CherenkovEvent>,
    capacity: Ghost<nat>,
}

impl EventBus {
    /// The capacity the bus's channel was created with: how many events it
    /// buffers per subscriber.
    pub closed spec fn capacity(&self) -> nat {
        self.capacity@
    }

    /// A bus that buffers up to `capacity` events per subscriber.
    pub fn new(capacity: usize) -> (b: EventBus)
        requires
            0 < capacity <= usize::MAX / 2,
        ensures
            b.capacity() == capacity,
    {
        EventBus { tx: broadcast_sender(capacity), capacity: Ghost(capacity as nat) }
    }

    /// A bus buffering 1000 events.
    pub fn default() -> (b: EventBus)
        ensures
            b.capacity() == 1000,
    {
        EventBus::new(1000)
    }

    /// Publishes an event to every subscriber; refused when there is none.
    pub fn publish(&self, event: CherenkovEvent) -> (r: Result<(), BusError>)
        ensures
            r matches Err(e) ==> e == BusError::NoActiveSubscribers,
    {
        match broadcast_send(&self.tx, event) {
            Some(_) => Ok(()),
            None => Err(BusError::NoActiveSubscribers),
        }
    }

    /// A receiver of the events published from now on.
    pub fn subscribe(&self) -> tokio::sync::broadcast::Receiver<CherenkovEvent> {
        broadcast_subscribe(&self.tx)
    }

    /// The number of active subscribers.
    pub fn subscriber_count(&self) -> usize {
        broadcast_receiver_count(&self.tx)
    }
}

} // verus!
