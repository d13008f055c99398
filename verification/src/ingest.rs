//! Data sources and the normalization of what they report.
//!
//! Readings carry floating-point coordinates and dose rates; their range
//! checks and unit conversions are arithmetic on floats and stay with the
//! caller. Which unit a reading is in, and what is done about it, is decided here.
use vstd::prelude::*;
use crate::storage::F64Bits;
use crate::text::{has_infix, has_prefix, str_eq};

verus! {

/// Configuration of a data source.
pub struct SourceConfig {
    pub name: String,
    pub url: String,
    pub poll_interval_secs: u64,
    /// Request timeout, in seconds.
    pub timeout: u64,
    pub retries: u32,
}

impl SourceConfig {
    /// No name or address, polled every minute, 30-second timeout, 3 retries.
    pub fn default() -> (c: SourceConfig)
        ensures
            c.name@.len() == 0 && c.url@.len() == 0,
            c.poll_interval_secs == 60 && c.timeout == 30 && c.retries == 3,
    {
        SourceConfig { name: String::new(), url: String::new(), poll_interval_secs: 60, timeout: 30, retries: 3 }
    }
}

/// A reading from a data source before normalization; coordinates and dose
/// rate are the bits of `f64` values, the time is seconds since the Unix epoch.
pub struct RawReading {
    pub sensor_id: String,
    pub timestamp: i64,
    pub latitude: F64Bits,
    pub longitude: F64Bits,
    pub dose_rate: F64Bits,
    pub unit: String,
    pub source: String,
}

/// Why a reading could not be normalized.
pub enum NormalizeError {
    /// "Invalid coordinates"
    InvalidCoordinates,
    /// "Invalid dose rate"
    InvalidDoseRate,
    /// "Unknown unit: " and the unit.
    UnknownUnit(String),
}

/// Quality classification of a normalized reading.
#[derive(PartialEq, Eq, Structural, Clone, Copy, Debug)]
pub enum QualityFlag {
    Valid,
    Suspect,
    Invalid,
}

/// The dose-rate units a reading may come in, and how each converts to
/// microsieverts per hour.
#[derive(PartialEq, Eq, Structural, Clone, Copy, Debug)]
pub enum DoseUnit {
    /// `uSv/h` or `microsieverts/hour`: as is.
    MicrosievertsPerHour,
    /// `mSv/h`: times 1000.
    MillisievertsPerHour,
    /// `Sv/h`: times 1000000.
    SievertsPerHour,
    /// `cpm`: times 0.0057.
    CountsPerMinute,
}

/// The unit a unit string names.
pub open spec fn unit_of(u: Seq<char>) -> Option<DoseUnit> {
    if u == "uSv/h"@ || u == "microsieverts/hour"@ {
        Some(DoseUnit::MicrosievertsPerHour)
    } else if u == "mSv/h"@ {
        Some(DoseUnit::MillisievertsPerHour)
    } else if u == "Sv/h"@ {
        Some(DoseUnit::SievertsPerHour)
    } else if u == "cpm"@ {
        Some(DoseUnit::CountsPerMinute)
    } else {
        None
    }
}

/// How many microsieverts per hour one unit of a sievert-based unit is.
pub open spec fn microsieverts_in(d: DoseUnit) -> int {
    match d {
        DoseUnit::MicrosievertsPerHour => 1,
        DoseUnit::MillisievertsPerHour => 1000,
        DoseUnit::SievertsPerHour => 1000000,
        DoseUnit::CountsPerMinute => 0,
    }
}

/// The scale, in microsieverts, that a unit's SI prefix names: `micro` or
/// `u` one, `m` (milli) a thousand, none (`S`) a million.
pub open spec fn prefix_scale(u: Seq<char>) -> int {
    if has_prefix(u, "micro"@) || has_prefix(u, "u"@) {
        1
    } else if has_prefix(u, "m"@) {
        1000
    } else if has_prefix(u, "S"@) {
        1000000
    } else {
        0
    }
}

/// Whether a unit string speaks of sieverts.
pub open spec fn names_sieverts(u: Seq<char>) -> bool {
    has_infix(u, "Sv"@) || has_infix(u, "sievert"@)
}

/// A recognised unit string is read by its meaning: a sievert-based unit
/// scales by what its SI prefix names (milli a thousand microsieverts, none a
/// million), and only a unit that names no sievert counts detector pulses.
pub proof fn law_unit_scale_follows_prefix(u: Seq<char>)
    ensures
        unit_of(u) matches Some(d) ==> (d == DoseUnit::CountsPerMinute) == !names_sieverts(u),
        unit_of(u) matches Some(d) ==> d != DoseUnit::CountsPerMinute ==> microsieverts_in(d) == prefix_scale(u),
{
    reveal_strlit("uSv/h");
    reveal_strlit("microsieverts/hour");
    reveal_strlit("mSv/h");
    reveal_strlit("Sv/h");
    reveal_strlit("cpm");
    reveal_strlit("micro");
    reveal_strlit("u");
    reveal_strlit("m");
    reveal_strlit("S");
    reveal_strlit("Sv");
    reveal_strlit("sievert");
    if u == "uSv/h"@ {
        assert(u.subrange(1int, 1int + "Sv"@.len()) =~= "Sv"@);
        assert(names_sieverts(u));
        assert(u.subrange(0, 1) =~= "u"@);
        assert(u.subrange(0, 5)[0] != "micro"@[0]);
    } else if u == "microsieverts/hour"@ {
        assert(u.subrange(5int, 5int + "sievert"@.len()) =~= "sievert"@);
        assert(names_sieverts(u));
        assert(u.subrange(0, 5) =~= "micro"@);
    } else if u == "mSv/h"@ {
        assert(u.subrange(1int, 1int + "Sv"@.len()) =~= "Sv"@);
        assert(names_sieverts(u));
        assert(u.subrange(0, 1) =~= "m"@);
        assert(u.subrange(0, 1)[0] != "u"@[0]);
        assert(u.subrange(0, 5)[1] != "micro"@[1]);
    } else if u == "Sv/h"@ {
        assert(u.subrange(0int, 0int + "Sv"@.len()) =~= "Sv"@);
        assert(names_sieverts(u));
        assert(u.subrange(0, 1) =~= "S"@);
        assert(u.subrange(0, 1)[0] != "u"@[0]);
        assert(u.subrange(0, 1)[0] != "m"@[0]);
    } else if u == "cpm"@ {
        assert forall|i: int| 0 <= i && i + 2 <= u.len() implies #[trigger] u.subrange(i, i + 2) != "Sv"@ by {
            assert(u.subrange(i, i + 2)[1] == u[i + 1]);
            assert(u.subrange(i, i + 2)[1] != "Sv"@[1]);
        }
        assert(!has_infix(u, "sievert"@));
        assert(!has_infix(u, "Sv"@));
    }
}

/// Normalizes readings from every source to microsieverts per hour.
pub struct Normalizer;

impl Normalizer {
    /// The normalizer.
    pub fn new() -> (n: Normalizer) {
        Normalizer
    }

    /// The unit a reading's unit string names; an unknown unit is refused
    /// with its name.
    pub fn dose_unit(&self, unit: &String) -> (r: Result<DoseUnit, NormalizeError>)
        ensures
            match unit_of(unit@) {
                Some(d) => r matches Ok(x) && x == d,
                None => r matches Err(e) && (e matches NormalizeError::UnknownUnit(u) && u@ == unit@),
            },
    {
        let u = unit.as_str();
        if str_eq(u, "uSv/h") || str_eq(u, "microsieverts/hour") {
            Ok(DoseUnit::MicrosievertsPerHour)
        } else if str_eq(u, "mSv/h") {
            Ok(DoseUnit::MillisievertsPerHour)
        } else if str_eq(u, "Sv/h") {
            Ok(DoseUnit::SievertsPerHour)
        } else if str_eq(u, "cpm") {
            Ok(DoseUnit::CountsPerMinute)
        } else {
            Err(NormalizeError::UnknownUnit(unit.clone()))
        }
    }
}

// ---------------------------------------------------------------------------
// Built-in sources
// ---------------------------------------------------------------------------

/// A built-in source's name, address and polling interval.
pub struct SourceSettings {
    pub name: &'static str,
    pub url: &'static str,
    pub poll_interval_secs: u64,
}

/// How a built-in source's data is fetched and read.
#[derive(PartialEq, Eq, Structural, Clone, Copy, Debug)]
pub enum Fetcher {
    Safecast,
    Uradmonitor,
    EpaRadnet,
    Eurdep,
    IaeaPris,
    UsgsSeismic,
    NasaFirms,
    NoaaGfs,
    /// Nothing is fetched.
    Nothing,
}

/// The fetcher for a source name.
pub open spec fn fetcher_of(name: Seq<char>) -> Fetcher {
    if name == "safecast"@ { Fetcher::Safecast }
    else if name == "uradmonitor"@ { Fetcher::Uradmonitor }
    else if name == "epa_radnet"@ { Fetcher::EpaRadnet }
    else if name == "eurdep"@ { Fetcher::Eurdep }
    else if name == "iaea_pris"@ { Fetcher::IaeaPris }
    else if name == "usgs_seismic"@ { Fetcher::UsgsSeismic }
    else if name == "nasa_firms"@ { Fetcher::NasaFirms }
    else if name == "noaa_gfs"@ { Fetcher::NoaaGfs }
    else { Fetcher::Nothing }
}

/// A built-in data source; the HTTP client that fetches from it belongs to the caller.
pub struct DataSource {
    pub config: SourceSettings,
}

impl DataSource {
    /// Safecast, every minute.
    pub fn safecast() -> (s: DataSource)
        ensures
            s.config.name@ == "safecast"@,
            s.config.url@ == "https://api.safecast.org/measurements.json"@,
            s.config.poll_interval_secs == 60,
    {
        DataSource { config: SourceSettings { name: "safecast", url: "https://api.safecast.org/measurements.json", poll_interval_secs: 60 } }
    }

    /// uRADMonitor, every 30 seconds.
    pub fn uradmonitor() -> (s: DataSource)
        ensures
            s.config.name@ == "uradmonitor"@,
            s.config.url@ == "https://data.uradmonitor.com/api/v1/devices"@,
            s.config.poll_interval_secs == 30,
    {
        DataSource { config: SourceSettings { name: "uradmonitor", url: "https://data.uradmonitor.com/api/v1/devices", poll_interval_secs: 30 } }
    }

    /// EPA RadNet, every 5 minutes.
    pub fn epa_radnet() -> (s: DataSource)
        ensures
            s.config.name@ == "epa_radnet"@,
            s.config.url@ == "https://www.epa.gov/radnet"@,
            s.config.poll_interval_secs == 300,
    {
        DataSource { config: SourceSettings { name: "epa_radnet", url: "https://www.epa.gov/radnet", poll_interval_secs: 300 } }
    }

    /// EURDEP, every 10 minutes.
    pub fn eurdep() -> (s: DataSource)
        ensures
            s.config.name@ == "eurdep"@,
            s.config.url@ == "https://eurdep.jrc.ec.europa.eu/eurdep/services/getLastMeasurements"@,
            s.config.poll_interval_secs == 600,
    {
        DataSource { config: SourceSettings { name: "eurdep", url: "https://eurdep.jrc.ec.europa.eu/eurdep/services/getLastMeasurements", poll_interval_secs: 600 } }
    }

    /// IAEA PRIS, daily.
    pub fn iaea_pris() -> (s: DataSource)
        ensures
            s.config.name@ == "iaea_pris"@,
            s.config.url@ == "https://pris.iaea.org/PRIS/home.aspx"@,
            s.config.poll_interval_secs == 86400,
    {
        DataSource { config: SourceSettings { name: "iaea_pris", url: "https://pris.iaea.org/PRIS/home.aspx", poll_interval_secs: 86400 } }
    }

    /// USGS earthquakes, every minute.
    pub fn usgs_seismic() -> (s: DataSource)
        ensures
            s.config.name@ == "usgs_seismic"@,
            s.config.url@ == "https://earthquake.usgs.gov/fdsnws/event/1/query"@,
            s.config.poll_interval_secs == 60,
    {
        DataSource { config: SourceSettings { name: "usgs_seismic", url: "https://earthquake.usgs.gov/fdsnws/event/1/query", poll_interval_secs: 60 } }
    }

    /// NASA FIRMS fire detections, every 5 minutes.
    pub fn nasa_firms() -> (s: DataSource)
        ensures
            s.config.name@ == "nasa_firms"@,
            s.config.url@ == "https://firms.modaps.eosdis.nasa.gov/api/area/csv/VIIRS_NOAA20_NRT"@,
            s.config.poll_interval_secs == 300,
    {
        DataSource { config: SourceSettings { name: "nasa_firms", url: "https://firms.modaps.eosdis.nasa.gov/api/area/csv/VIIRS_NOAA20_NRT", poll_interval_secs: 300 } }
    }

    /// NOAA GFS weather, every 6 hours.
    pub fn noaa_gfs() -> (s: DataSource)
        ensures
            s.config.name@ == "noaa_gfs"@,
            s.config.url@ == "https://nomads.ncep.noaa.gov/cgi-bin/filter_gfs_0p25.pl"@,
            s.config.poll_interval_secs == 21600,
    {
        DataSource { config: SourceSettings { name: "noaa_gfs", url: "https://nomads.ncep.noaa.gov/cgi-bin/filter_gfs_0p25.pl", poll_interval_secs: 21600 } }
    }

    /// How this source's data is fetched, by its name; an unknown name
    /// fetches nothing.
    pub fn fetcher(&self) -> (f: Fetcher)
        ensures
            f == fetcher_of(self.config.name@),
    {
        let n = self.config.name;
        if str_eq(n, "safecast") { Fetcher::Safecast }
        else if str_eq(n, "uradmonitor") { Fetcher::Uradmonitor }
        else if str_eq(n, "epa_radnet") { Fetcher::EpaRadnet }
        else if str_eq(n, "eurdep") { Fetcher::Eurdep }
        else if str_eq(n, "iaea_pris") { Fetcher::IaeaPris }
        else if str_eq(n, "usgs_seismic") { Fetcher::UsgsSeismic }
        else if str_eq(n, "nasa_firms") { Fetcher::NasaFirms }
        else if str_eq(n, "noaa_gfs") { Fetcher::NoaaGfs }
        else { Fetcher::Nothing }
    }
}

} // verus!
