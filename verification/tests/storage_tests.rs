use cherenkov::storage::{
    archive_filename, expired_archives, parse_archive_name, parse_row_to_reading, plan_query_range,
    route_reading, sort_archives, ArchiveInfo, ArchivePlan, ColdStorage, ColdStorageConfig, ColdStorageError,
    CompressionType, CqlCell, DatabaseConfig, DatabaseError, DatabaseHealth, F32Bits, F64Bits, QualityFlag, RowError,
    TierChoice, Uncertainty,
};
use cherenkov::query::{Aggregation, Consistency, ScyllaConfig, TimeRangeQuery};
use cherenkov::storage::ArchiveFile;

const DAY: i64 = 86400;

#[test]
fn readings_go_to_the_tier_their_age_selects() {
    let c = DatabaseConfig::default();
    let now = 1_700_000_000;
    assert!(matches!(route_reading(now - DAY, now, &c), Ok(TierChoice::Hot)));
    assert!(matches!(route_reading(now - 7 * DAY, now, &c), Ok(TierChoice::Hot)));
    assert!(matches!(route_reading(now - 7 * DAY - 1, now, &c), Ok(TierChoice::Warm)));
    assert!(matches!(route_reading(now - 31 * DAY, now, &c), Ok(TierChoice::Skip)));
    let mut archive = DatabaseConfig::default();
    archive.enable_cold_archive = true;
    assert!(matches!(route_reading(now - 31 * DAY, now, &archive), Ok(TierChoice::Cold)));
    match route_reading(i64::MAX, now, &c) {
        Err(DatabaseError::Query(m)) => assert_eq!(m, "Invalid timestamp"),
        _ => panic!("expected an invalid timestamp"),
    }
}

#[test]
fn queries_split_across_tiers() {
    let c = DatabaseConfig::default();
    let now_s: i64 = 1_700_000_000;
    let now_ms = now_s * 1000;
    let hot_cut = (now_ms - 7 * DAY * 1000) as i128;
    let warm_cut = (now_ms - 30 * DAY * 1000) as i128;
    let p = plan_query_range(now_s - 10 * DAY, now_s, now_ms, &c);
    assert_eq!(p.hot, Some((hot_cut, now_ms as i128)));
    assert_eq!(p.warm, Some((((now_s - 10 * DAY) * 1000) as i128, hot_cut)));
    let recent = plan_query_range(now_s - DAY, now_s, now_ms, &c);
    assert_eq!(recent.hot, Some((((now_s - DAY) * 1000) as i128, now_ms as i128)));
    assert_eq!(recent.warm, None);
    let old = plan_query_range(now_s - 60 * DAY, now_s - 40 * DAY, now_ms, &c);
    assert_eq!(old.hot, None);
    assert_eq!(old.warm, None);
    let long = plan_query_range(now_s - 60 * DAY, now_s - 20 * DAY, now_ms, &c);
    assert_eq!(long.warm, Some((warm_cut, ((now_s - 20 * DAY) * 1000) as i128)));
}

#[test]
fn health_needs_every_tier() {
    assert!(DatabaseHealth { hot: true, warm: true, cache: true }.is_healthy());
    assert!(!DatabaseHealth { hot: true, warm: false, cache: true }.is_healthy());
}

#[test]
fn cold_storage_archives() {
    let off = ColdStorage::disabled();
    assert!(!off.is_enabled());
    assert_eq!(off.archive_plan(&vec![1, 2]), Err(ColdStorageError::Disabled));
    let on = ColdStorage::enabled_at("/tmp/cold");
    assert!(on.is_enabled());
    assert_eq!(on.local_path(), "/tmp/cold");
    assert_eq!(on.archive_plan(&vec![]), Ok(ArchivePlan::Nothing));
    assert_eq!(on.archive_plan(&vec![50, -3, 70, 10]), Ok(ArchivePlan::Write { min_timestamp: -3, max_timestamp: 70 }));
    assert_eq!(archive_filename(-3, 70, "abc"), "readings_-3_70_abc.parquet");
}

#[test]
fn archive_names_and_expiry() {
    assert_eq!(parse_archive_name("readings_100_200_x.parquet"), Some(("readings_100_200_x".to_string(), 100, 200)));
    assert_eq!(parse_archive_name("readings_1_2.parquet"), Some(("readings_1_2".to_string(), 1, 2)));
    assert_eq!(parse_archive_name("readings_a_2_x.parquet"), None);
    assert_eq!(parse_archive_name("notes.txt"), None);
    let info = |name: &str, start: i64, end: i64| ArchiveInfo {
        filename: name.to_string(),
        start_timestamp: start,
        end_timestamp: end,
        size_bytes: 1,
        created: 0,
    };
    let sorted = sort_archives(vec![info("c", 30, 40), info("a", 10, 20), info("b", 10, 25)]);
    let names: Vec<&str> = sorted.iter().map(|a| a.filename.as_str()).collect();
    assert_eq!(names, vec!["a", "b", "c"]);
    assert_eq!(expired_archives(&sorted, 25), vec![0]);
    assert_eq!(expired_archives(&sorted, 100), vec![0, 1, 2]);
}

#[test]
fn compression_names() {
    assert_eq!(CompressionType::Snappy.as_str(), "SNAPPY");
    assert_eq!(CompressionType::Uncompressed.as_str(), "NONE");
    let c = ColdStorageConfig::default();
    assert_eq!(c.compression, CompressionType::Zstd);
    assert_eq!(c.retention_days, 365);
}

fn good_row() -> Vec<Option<CqlCell>> {
    vec![
        Some(CqlCell::Uuid(42)),
        Some(CqlCell::BigInt(472_222)),
        Some(CqlCell::BigInt(1_700_000_000)),
        Some(CqlCell::Double(F64Bits(35.0f64.to_bits()))),
        Some(CqlCell::Double(F64Bits(139.0f64.to_bits()))),
        Some(CqlCell::Double(F64Bits(0.12f64.to_bits()))),
        Some(CqlCell::Float(F32Bits(0.01f32.to_bits()))),
        Some(CqlCell::Text("Suspect".to_string())),
        Some(CqlCell::Text("safecast".to_string())),
        None,
    ]
}

#[test]
fn rows_decode_into_readings() {
    let r = parse_row_to_reading(good_row()).expect("row decodes");
    assert_eq!(r.sensor_id, 42);
    assert_eq!(r.bucket, 472_222);
    assert_eq!(r.latitude, F64Bits(35.0f64.to_bits()));
    assert_eq!(r.uncertainty, Uncertainty::Single(F32Bits(0.01f32.to_bits())));
    assert_eq!(r.quality_flag, QualityFlag::Suspect);
    assert_eq!(r.source, "safecast");
    assert_eq!(r.cell_id, "");
    assert_eq!(parse_row_to_reading(vec![None, None, None]).err(), Some(RowError::InsufficientColumns(3)));
    let mut bad = good_row();
    bad[4] = Some(CqlCell::BigInt(1));
    assert_eq!(parse_row_to_reading(bad).err(), Some(RowError::InvalidLongitude));
    let mut unknown_flag = good_row();
    unknown_flag[7] = Some(CqlCell::Text("weird".to_string()));
    assert_eq!(parse_row_to_reading(unknown_flag).expect("decodes").quality_flag, QualityFlag::Invalid);
}

#[test]
fn query_descriptions() {
    let q = TimeRangeQuery::new(vec![1, 2], 10, 20).with_aggregation(Aggregation::Hour);
    assert_eq!(q.aggregation, Aggregation::Hour);
    assert_eq!(q.sensor_ids, vec![1, 2]);
    let s = ScyllaConfig::default();
    assert_eq!(s.nodes, vec!["127.0.0.1:9042".to_string()]);
    assert_eq!(s.write_consistency, Consistency::LocalQuorum);
    assert_eq!(s.max_concurrent_reads, 500);
}

#[test]
fn aggregated_sql_text() {
    let q = cherenkov::storage::aggregated_query_sql("hour", 3);
    let expected = format!(
        r#"
            SELECT 
                datetime({}) as time_bucket,
                AVG(dose_rate) as avg_dose,
                MIN(dose_rate) as min_dose,
                MAX(dose_rate) as max_dose,
                COUNT(*) as reading_count
            FROM radiation_readings_warm
            WHERE timestamp >= ? AND timestamp <= ?
            AND sensor_id IN ({})
            GROUP BY time_bucket
            ORDER BY time_bucket ASC
            "#,
        "strftime('%Y-%m-%d %H:00:00', timestamp)",
        "?, ?, ?"
    );
    assert_eq!(q, expected);
    assert!(cherenkov::storage::aggregated_query_sql("week", 0).contains("datetime(timestamp)"));
    assert!(cherenkov::storage::aggregated_query_sql("week", 0).contains("IN ()"));
    assert!(cherenkov::storage::aggregated_query_sql("day", 1).contains("IN (?)"));
}

#[test]
fn bucket_expressions() {
    assert_eq!(cherenkov::storage::time_bucket_expr("minute"), "strftime('%Y-%m-%d %H:%M:00', timestamp)");
    assert_eq!(cherenkov::storage::time_bucket_expr("day"), "strftime('%Y-%m-%d 00:00:00', timestamp)");
    assert_eq!(cherenkov::storage::time_bucket_expr("Hour"), "timestamp");
}

fn file(name: &str, size: u64) -> ArchiveFile {
    ArchiveFile { name: name.to_string(), size_bytes: size, created: 7 }
}

#[test]
fn disabled_cold_storage_answers_empty() {
    let off = ColdStorage::disabled();
    assert!(off.query_range(&vec!["s1".to_string()], 0, 100).is_empty());
    assert!(off.list_archives(vec![file("readings_1_2.parquet", 5)]).is_empty());
    let archives = vec![ArchiveInfo { filename: "readings_1_2".to_string(), start_timestamp: 1, end_timestamp: 2, size_bytes: 5, created: 0 }];
    assert_eq!(off.delete_old_archives(&archives, 100).len(), 0);
}

#[test]
fn enabled_cold_storage_lists_and_picks_old_archives() {
    let on = ColdStorage::enabled_at("/tmp/cold");
    assert!(on.query_range(&vec![], 0, 100).is_empty());
    let listed = on.list_archives(vec![
        file("readings_300_400.parquet", 3),
        file("notes.txt", 1),
        file("readings_100_200.parquet", 2),
        file("readings_x_9.parquet", 4),
    ]);
    let spans: Vec<(&str, i64, i64, u64)> =
        listed.iter().map(|a| (a.filename.as_str(), a.start_timestamp, a.end_timestamp, a.size_bytes)).collect();
    assert_eq!(spans, vec![("readings_100_200", 100, 200, 2), ("readings_300_400", 300, 400, 3)]);
    assert_eq!(on.delete_old_archives(&listed, 250), vec![0]);
}
