use cherenkov::firms::NasaFirmsSource;

const FEED: &str = "latitude,longitude,brightness,scan,track,acq_date,acq_time,satellite,confidence,version,bright_t31,frp,daynight\n\
35.1,139.2,320.5,1.0,1.1,2024-03-04,1230,Terra,h,6.1NRT,295.0,1500.0,D\n\
\n\
1,2,3\n\
36.0,140.0,301.0,1.0,1.0,2024-03-04,1231,Aqua,l,6.1NRT,290.0,12.0,N\n";

#[test]
fn header_firms_fields_by_name() {
    let src = NasaFirmsSource::new("key".to_string());
    let fires = src.parse_firms_csv(FEED).unwrap();
    assert_eq!(fires.len(), 2);
    let f = &fires[0];
    assert_eq!(f.latitude.as_deref(), Some("35.1"));
    assert_eq!(f.longitude.as_deref(), Some("139.2"));
    assert_eq!(f.brightness.as_deref(), Some("320.5"));
    assert_eq!(f.scan.as_deref(), Some("1.0"));
    assert_eq!(f.track.as_deref(), Some("1.1"));
    assert_eq!(f.acq_date, "2024-03-04");
    assert_eq!(f.acq_time, "1230");
    assert_eq!(f.satellite, "Terra");
    assert_eq!(f.confidence, "h");
    assert_eq!(f.version, "6.1NRT");
    assert_eq!(f.bright_t31.as_deref(), Some("295.0"));
    assert_eq!(f.frp.as_deref(), Some("1500.0"));
    assert_eq!(f.daynight, "D");
    assert_eq!(fires[1].satellite, "Aqua");
    assert_eq!(fires[1].daynight, "N");
}

#[test]
fn header_firms_defaults_for_missing_columns() {
    let src = NasaFirmsSource::new(String::new());
    let fires = src.parse_firms_csv("a,b,c,d,e,f,g,h,i,j\n1,2,3,4,5,6,7,8,9,10\n").unwrap();
    assert_eq!(fires.len(), 1);
    let f = &fires[0];
    assert_eq!(f.latitude, None);
    assert_eq!(f.frp, None);
    assert_eq!(f.acq_date, "");
    assert_eq!(f.satellite, "Unknown");
    assert_eq!(f.confidence, "n");
    assert_eq!(f.daynight, "D");
}

#[test]
fn header_firms_empty_is_error() {
    let src = NasaFirmsSource::new(String::new());
    assert_eq!(src.parse_firms_csv("").err().as_deref(), Some("Empty CSV data"));
    assert!(src.parse_firms_csv("latitude\n").unwrap().is_empty());
}

#[test]
fn header_firms_confidence_and_time() {
    let src = NasaFirmsSource::new(String::new());
    let fires = src.parse_firms_csv(FEED).unwrap();
    assert_eq!(src.confidence_value(&fires[0]), 90);
    assert!(src.is_proxy_candidate(&fires[0]));
    assert_eq!(src.confidence_value(&fires[1]), 30);
    assert!(!src.is_proxy_candidate(&fires[1]));
    // 2024-03-04 12:30 UTC
    assert_eq!(src.detection_time(&fires[0], 5), 1709555400);
    let odd = src.parse_firms_csv("confidence,acq_date,acq_time,x,x,x,x,x,x,x\nnominal,bad,date,0,0,0,0,0,0,0\nzzz,2024-03-04,1230,0,0,0,0,0,0,0\n").unwrap();
    assert_eq!(src.confidence_value(&odd[0]), 60);
    assert_eq!(src.detection_time(&odd[0], 5), 5);
    assert_eq!(src.confidence_value(&odd[1]), 50);
    assert!(src.is_proxy_candidate(&odd[1]));
}
