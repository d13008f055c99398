use cherenkov::gfs::{parse_u64, NoaaGfsSource};

fn chars(s: &str) -> Vec<char> {
    s.chars().collect()
}

#[test]
fn u64_parse_follows_str_parse() {
    assert_eq!(parse_u64(&chars("0")), Some(0));
    assert_eq!(parse_u64(&chars("+17")), Some(17));
    assert_eq!(parse_u64(&chars("18446744073709551615")), Some(u64::MAX));
    assert_eq!(parse_u64(&chars("18446744073709551616")), None);
    assert_eq!(parse_u64(&chars("-0")), None);
    assert_eq!(parse_u64(&chars("+")), None);
    assert_eq!(parse_u64(&chars("")), None);
    assert_eq!(parse_u64(&chars("1 2")), None);
}

#[test]
fn gfs_index_records() {
    let src = NoaaGfsSource::new();
    let index = "1|0|1024|UGRD|10 m above ground|anl\n\
                 2|1024|2048|VGRD|10 m above ground|anl\n\
                 3|x|5|TMP|2 m|anl\n\
                 4|5|6|HGT\n\
                 5|4096|+12|PRMSL|mean sea level|anl|extra\r\n";
    let r = src.parse_gfs_index(index);
    assert_eq!(r.len(), 3);
    assert_eq!(r[0], ("UGRD".to_string(), 0, 1024));
    assert_eq!(r[1], ("VGRD".to_string(), 1024, 2048));
    assert_eq!(r[2], ("PRMSL".to_string(), 4096, 12));
    assert!(src.parse_gfs_index("").is_empty());
}

#[test]
fn gfs_ascii_grid_rows() {
    let src = NoaaGfsSource::new();
    let grid = "title\n1,2,3\n  lat,lon,TMP\n 35.0,139.5,288.2 \n\n36.0,140.0\nx,y,z,w\n";
    let rows = src.parse_ascii_grid(grid);
    assert_eq!(rows.len(), 2);
    assert_eq!(rows[0], ("35.0".to_string(), "139.5".to_string(), "288.2".to_string()));
    assert_eq!(rows[1], ("x".to_string(), "y".to_string(), "z".to_string()));
    assert!(src.parse_ascii_grid("1,2,3\n").is_empty());
}

#[test]
fn noaa_gfs_source_config() {
    let src = NoaaGfsSource::new();
    assert_eq!(src.config.name, "noaa_gfs");
    assert_eq!(src.config.url, "https://nomads.ncep.noaa.gov/cgi-bin/filter_gfs_0p25.pl");
    assert_eq!((src.config.poll_interval_secs, src.config.timeout, src.config.retries), (21600, 30, 3));
    assert_eq!(src.name(), "noaa_gfs");
    assert_eq!(src.poll_interval(), 21600);
}
