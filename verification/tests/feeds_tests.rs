use cherenkov::feeds::{parse_i32, EpaRadnetSource, NasaFirmsSource};
use cherenkov::storage::QualityFlag;

fn chars(s: &str) -> Vec<char> {
    s.chars().collect()
}

fn v5(name: &str) -> u128 {
    uuid::Uuid::new_v5(&uuid::Uuid::NAMESPACE_DNS, name.as_bytes()).as_u128()
}

#[test]
fn parse_i32_follows_str_parse() {
    assert_eq!(parse_i32(&chars("42")), Some(42));
    assert_eq!(parse_i32(&chars("-7")), Some(-7));
    assert_eq!(parse_i32(&chars("+9")), Some(9));
    assert_eq!(parse_i32(&chars("2147483647")), Some(i32::MAX));
    assert_eq!(parse_i32(&chars("2147483648")), None);
    assert_eq!(parse_i32(&chars("")), None);
    assert_eq!(parse_i32(&chars("4a")), None);
}

const FIRMS: &str = "latitude,longitude,brightness,scan,track,acq_date,acq_time,satellite,confidence,version,bright_t31,frp,daynight\n\
10.5,20.25,330.1,1.0,1.0,2024-01-02,0130,Aqua,85,6.1,290.0,1200.5,D\n\
11.0,21.0,310.0,1.0,1.0,2024-01-02,0131,Terra,60,6.1,290.0,15.0,N\n\
12.0,22.0,300.0,1.0,1.0,2024-01-02,0132,Terra,20,6.1,290.0,15.0,N\n\
\n\
13.0,23.0,300.0,1.0,1.0,2024-01-02,0133,Terra,x,6.1\n\
14.0,24.0,300.0\n";

#[test]
fn firms_keeps_confident_rows_in_order() {
    let src = NasaFirmsSource::new("key".to_string());
    let rows = src.parse_firms_csv(FIRMS, 99);
    assert_eq!(rows.len(), 2);
    assert_eq!(rows[0].latitude, "10.5");
    assert_eq!(rows[0].longitude, "20.25");
    assert_eq!(rows[0].brightness, "330.1");
    assert_eq!(rows[0].date, "2024-01-02");
    assert_eq!(rows[0].time, "0130");
    assert_eq!(rows[0].satellite, "Aqua");
    assert_eq!(rows[0].frp.as_deref(), Some("1200.5"));
    assert_eq!(rows[0].confidence, 85);
    assert_eq!(rows[0].quality, QualityFlag::Valid);
    assert_eq!(rows[0].timestamp, 1704159000);
    assert_eq!(rows[1].timestamp, 1704159060);
    assert_eq!(rows[1].satellite, "Terra");
    assert_eq!(rows[1].confidence, 60);
    assert_eq!(rows[1].quality, QualityFlag::Suspect);
}

#[test]
fn firms_without_data_lines_is_empty() {
    let src = NasaFirmsSource::new("key".to_string());
    assert!(src.parse_firms_csv("", 99).is_empty());
    assert!(src.parse_firms_csv("latitude,longitude\n", 99).is_empty());
}

#[test]
fn firms_row_without_frp_field() {
    let src = NasaFirmsSource::new("key".to_string());
    let rows = src.parse_firms_csv("h\n1,2,3,4,5,d,t,s,95,v\n", 99);
    assert_eq!(rows.len(), 1);
    assert_eq!(rows[0].frp, None);
    assert_eq!(rows[0].quality, QualityFlag::Valid);
    assert_eq!(rows[0].timestamp, 99);
}

#[test]
fn radnet_known_and_unknown_cities() {
    let src = EpaRadnetSource::new();
    assert_eq!(src.approximate_coordinates("Seattle", "WA"), (476062, -1223321));
    assert_eq!(src.approximate_coordinates("new york", "ny"), (407128, -740060));
    assert_eq!(src.approximate_coordinates("Nowhere", "XX"), (398283, -985795));
}

#[test]
fn radnet_columns_from_header() {
    let src = EpaRadnetSource::new();
    let c = src.radnet_columns(&chars(" LOCATION , city,State,Date,Time,Gamma Count Rate (CPM)"));
    assert_eq!(c.location, Some(0));
    assert_eq!(c.city, Some(1));
    assert_eq!(c.state, Some(2));
    assert_eq!(c.date, Some(3));
    assert_eq!(c.time, Some(4));
    assert_eq!(c.gamma, Some(5));
    let d = src.radnet_columns(&chars("a,b"));
    assert_eq!(d.location, None);
    assert_eq!(d.gamma, None);
}

#[test]
fn radnet_rows_and_keys() {
    let src = EpaRadnetSource::new();
    let csv = "Location,City,State,Date,Time,Gamma CPM\n\
               Station One, Seattle ,WA,2024-01-02,10:00,35.5\n\
               \n\
               a,b\n\
               Far Away,Nowhere,XX,,,\n";
    let rows = src.parse_radnet_csv(csv, 77).unwrap();
    assert_eq!(rows.len(), 2);
    assert_eq!(rows[0].location, "Station One");
    assert_eq!(rows[0].city, "Seattle");
    assert_eq!(rows[0].state, "WA");
    assert_eq!(rows[0].date, "2024-01-02");
    assert_eq!(rows[0].time, "10:00");
    assert_eq!(rows[0].gamma.as_deref(), Some("35.5"));
    assert_eq!(rows[0].coordinates, (476062, -1223321));
    assert_eq!(rows[0].sensor_key, "epa-radnet-station-one-seattle-wa");
    assert_eq!(rows[0].sensor_id, v5("epa-radnet-station-one-seattle-wa"));
    assert_eq!((rows[0].sensor_id >> 76) & 0xf, 5);
    assert_eq!(rows[0].timestamp, 1704189600);
    assert_eq!(rows[1].timestamp, 77);
    assert_ne!(rows[0].sensor_id, rows[1].sensor_id);
    assert_eq!(rows[1].coordinates, (398283, -985795));
    assert_eq!(rows[1].gamma.as_deref(), Some(""));
    assert_eq!(rows[1].sensor_key, "epa-radnet-far-away-nowhere-xx");
}

#[test]
fn radnet_missing_columns_use_defaults() {
    let src = EpaRadnetSource::new();
    let rows = src.parse_radnet_csv("x,y,z\n1,2,3\n", 77).unwrap();
    assert_eq!(rows.len(), 1);
    assert_eq!(rows[0].location, "Unknown");
    assert_eq!(rows[0].city, "");
    assert_eq!(rows[0].gamma, None);
    assert_eq!(rows[0].sensor_key, "epa-radnet-unknown--");
}

#[test]
fn radnet_empty_csv_is_an_error() {
    let src = EpaRadnetSource::new();
    assert_eq!(src.parse_radnet_csv("", 77).err().as_deref(), Some("Empty CSV"));
}

#[test]
fn radnet_us_date_format() {
    let src = EpaRadnetSource::new();
    let rows = src.parse_radnet_csv("Location,City,State,Date,Time,CPM\nA,Austin,TX,01/02/2024,10:00,5\nB,Austin,TX,bad,10:00,5\n", 0).unwrap();
    assert_eq!(rows.len(), 2);
    assert_eq!(rows[0].timestamp, 1704189600);
    assert_eq!(rows[0].coordinates, (302672, -977431));
    assert_eq!(rows[1].timestamp, 0);
}

#[test]
fn epa_radnet_source_config() {
    let src = EpaRadnetSource::new();
    assert_eq!(src.config.name, "epa_radnet");
    assert_eq!(src.config.url, "https://www.epa.gov/radnet/radnet-data");
    assert_eq!((src.config.poll_interval_secs, src.config.timeout, src.config.retries), (900, 30, 3));
    assert_eq!(src.name(), "epa_radnet");
    assert_eq!(src.poll_interval(), 900);
}

#[test]
fn radnet_row_station_key_and_fallback_location() {
    let src = EpaRadnetSource::new();
    let (key, id) = src.station_key("  Los Angeles Station ");
    assert_eq!(key, "epa:los_angeles_station");
    assert_eq!(id, uuid::Uuid::new_v5(&uuid::Uuid::NAMESPACE_DNS, b"epa:los_angeles_station").as_u128());
    let (city, state, place) = src.fallback_location(" Chicago ,  IL, extra");
    assert_eq!((city.as_str(), state.as_str()), ("Chicago", "IL, extra"));
    assert_eq!(place, (398283, -985795));
    let (city, state, place) = src.fallback_location("Chicago, IL");
    assert_eq!((city.as_str(), state.as_str(), place), ("Chicago", "IL", (418781, -876298)));
    let (city, state, place) = src.fallback_location("no comma here");
    assert_eq!((city.as_str(), state.as_str(), place), ("Unknown", "US", (398283, -985795)));
}
