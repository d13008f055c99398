use cherenkov::common::{parse_u16, BusError, Config, EventBus, CherenkovEvent};
use cherenkov::facilities::{facility_coordinates, reactors_from_matches, IaeaPrisSource, ReactorInfo};
use cherenkov::ingest::{DataSource, DoseUnit, Fetcher, NormalizeError, Normalizer, SourceConfig};
use cherenkov::storage::F64Bits;

fn s(x: &str) -> String {
    x.to_string()
}

#[test]
fn config_defaults() {
    let c = Config::default();
    assert_eq!(c.database.scylla_uri, "127.0.0.1:9042");
    assert_eq!(c.database.pool_size, 10);
    assert_eq!(c.sources.uradmonitor.interval_sec, 30);
    assert!(c.sources.openaq.is_none());
    assert_eq!(c.api.port, 8080);
    assert_eq!(c.api.jwt_secret, "cherenkov-dev-secret");
    assert_eq!(c.stream.anomaly_threshold, F64Bits(3.0f64.to_bits()));
    assert_eq!(c.stream.correlation_radius_km, F64Bits(50.0f64.to_bits()));
    assert_eq!(c.ingest.batch_timeout_ms, 5000);
    assert_eq!(c.observability.metrics_port, 9090);
}

#[test]
fn environment_overrides() {
    let c = Config::default().with_env_overrides(Some(s("db:9042")), None, Some(s("s3cret")), Some(s("9000")));
    assert_eq!(c.database.scylla_uri, "db:9042");
    assert_eq!(c.database.sqlite_path, "./data/cherenkov.db");
    assert_eq!(c.api.jwt_secret, "s3cret");
    assert_eq!(c.api.port, 9000);
    let kept = Config::default().with_env_overrides(None, None, None, Some(s("not-a-port")));
    assert_eq!(kept.api.port, 8080);
    let too_big = Config::default().with_env_overrides(None, None, None, Some(s("70000")));
    assert_eq!(too_big.api.port, 8080);
    let f = Config::default().with_file_overrides(None, Some(s("x")));
    assert_eq!(f.api.jwt_secret, "x");
    assert_eq!(f.database.scylla_uri, "127.0.0.1:9042");
}

#[test]
fn port_parsing_matches_std() {
    for t in ["0", "8080", "+80", "65535", "65536", "-1", "-0", "", "8o", " 80"] {
        assert_eq!(parse_u16(t), t.parse::<u16>().ok(), "input {:?}", t);
    }
}

#[test]
fn publishing_needs_a_subscriber() {
    let bus = EventBus::new(16);
    let event = || CherenkovEvent::HealthUpdate { component: s("ingest"), healthy: true, message: None };
    assert_eq!(bus.publish(event()).err(), Some(BusError::NoActiveSubscribers));
    let _rx = bus.subscribe();
    assert_eq!(bus.subscriber_count(), 1);
    assert!(bus.publish(event()).is_ok());
}

#[test]
fn facility_coordinates_by_name() {
    assert_eq!(facility_coordinates("chernobyl", "ukraine"), (512763, 302219));
    assert_eq!(facility_coordinates("atucha", "argentina"), (-339667, -592000));
    assert_eq!(facility_coordinates("chernobyl", "russia"), (0, 0));
    let source = IaeaPrisSource::new();
    assert_eq!(source.get_facility_coordinates("Fukushima Daiichi", "JAPAN"), (374211, 1410328));
    assert_eq!(source.get_facility_coordinates("Maanshan", "Taiwan"), (219500, 1207500));
    assert_eq!(source.get_facility_coordinates("Nowhere", "Atlantis"), (0, 0));
    // The integers are exact ten-thousandths of the table's degrees.
    assert_eq!(374211f64 / 10000.0, 37.4211);
    assert_eq!(-592000f64 / 10000.0, -59.2);
}

#[test]
fn units_and_sources() {
    let n = Normalizer::new();
    assert!(matches!(n.dose_unit(&s("uSv/h")), Ok(DoseUnit::MicrosievertsPerHour)));
    assert!(matches!(n.dose_unit(&s("microsieverts/hour")), Ok(DoseUnit::MicrosievertsPerHour)));
    assert!(matches!(n.dose_unit(&s("Sv/h")), Ok(DoseUnit::SievertsPerHour)));
    assert!(matches!(n.dose_unit(&s("cpm")), Ok(DoseUnit::CountsPerMinute)));
    match n.dose_unit(&s("rem")) {
        Err(NormalizeError::UnknownUnit(u)) => assert_eq!(u, "rem"),
        _ => panic!("expected an unknown unit"),
    }
    let c = SourceConfig::default();
    assert_eq!((c.poll_interval_secs, c.timeout, c.retries), (60, 30, 3));
    let pris = DataSource::iaea_pris();
    assert_eq!(pris.config.poll_interval_secs, 86400);
    assert_eq!(pris.fetcher(), Fetcher::IaeaPris);
    assert_eq!(DataSource::noaa_gfs().fetcher(), Fetcher::NoaaGfs);
    assert_eq!(DataSource::safecast().config.url, "https://api.safecast.org/measurements.json");
}

const PRIS_PAGE: &str = "<table><tr><th>heading</th></tr>\n\
<tr class=\"h\"><td>Reactor Name</td><td>Country</td><td>Type</td><td>Status</td></tr>\n\
<tr><td> Chernobyl </td><td>Ukraine</td><td>RBMK</td><td>Shutdown</td></tr>\n\
<tr><td>Zaporizhzhia</td><td>Ukraine</td><td>PWR</td><td>Operational</td></tr>\n\
</table>";

#[test]
fn pris_page_rows() {
    let source = IaeaPrisSource::new();
    let rs = source.parse_pris_html(PRIS_PAGE);
    assert_eq!(rs.len(), 2);
    assert_eq!(rs[0].name, "Chernobyl");
    assert_eq!(rs[0].country, "Ukraine");
    assert_eq!(rs[0].reactor_type, "RBMK");
    assert_eq!(rs[0].status, "Shutdown");
    assert_eq!(rs[1].name, "Zaporizhzhia");
    assert_eq!(rs[1].status, "Operational");
    assert!(source.parse_pris_html("no table here").is_empty());
}

#[test]
fn pris_matches_to_reactors() {
    let ms = vec![
        vec![Some(" Name ".to_string()), Some("x".to_string()), None, None],
        vec![Some(" Kola ".to_string()), Some(" Russia".to_string()), None],
    ];
    let rs = reactors_from_matches(&ms);
    assert_eq!(rs.len(), 1);
    assert_eq!(rs[0].name, "Kola");
    assert_eq!(rs[0].country, "Russia");
    assert_eq!(rs[0].reactor_type, "Unknown");
    assert_eq!(rs[0].status, "Unknown");
}

fn reactor(name: &str, country: &str, status: &str) -> ReactorInfo {
    ReactorInfo {
        name: name.to_string(),
        country: country.to_string(),
        reactor_type: "PWR".to_string(),
        status: status.to_string(),
    }
}

#[test]
fn pris_markers() {
    let source = IaeaPrisSource::new();
    let m = source.reactor_marker(&reactor("Chernobyl", "Ukraine", "Shutdown")).unwrap();
    assert_eq!(m.coordinates, (512763, 302219));
    assert_eq!(m.sensor_key, "iaea-pris-ukraine-chernobyl");
    assert_eq!(m.sensor_id, uuid::Uuid::new_v5(&uuid::Uuid::NAMESPACE_DNS, b"iaea-pris-ukraine-chernobyl").as_u128());
    assert_eq!(m.status_value, 0);
    let z = source.reactor_marker(&reactor("Fukushima Daiichi", "Japan", "Decommissioning")).unwrap();
    assert_eq!(z.sensor_key, "iaea-pris-japan-fukushima-daiichi");
    assert_eq!(z.status_value, 10);
    let o = source.reactor_marker(&reactor("Zaporizhzhia", "UKRAINE", "OPERATIONAL")).unwrap();
    assert_eq!(o.status_value, 100);
    let u = source.reactor_marker(&reactor("Zaporizhzhia", "Ukraine", "Under Construction")).unwrap();
    assert_eq!(u.status_value, 50);
    assert!(source.reactor_marker(&reactor("Nowhere", "Atlantis", "Operational")).is_none());
}

#[test]
fn facility_lookup_needs_the_country_too() {
    let source = IaeaPrisSource::new();
    assert_eq!(source.get_facility_coordinates("Chernobyl", "Japan"), (0, 0));
    assert_eq!(source.get_facility_coordinates("CHERNOBYL", "Ukraine"), (512763, 302219));
    assert_eq!(source.get_facility_coordinates("chernobyl", "ukraine"), (512763, 302219));
}
