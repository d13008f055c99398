use cherenkov::rest::{aggregation_level, readings_request, readings_request_for, ReadingsRequest, StatusCode};
use cherenkov::storage::AggregationLevel;
use cherenkov::access::{
    check_rate_limit, credentials_of, require_permission, tier_satisfies, ApiTier, AuthError, AuthService,
    Claims as ApiClaims, Credentials, PolicyEngine,
};
use cherenkov::auth::{
    default_request_tier, parse_authorization, request_tier, token_claims, AuthHeader, AuthState, RateLimitTier,
};
use cherenkov::graphql::{
    create_rate_limit_layer, quota_per_minute, rate_limit_key, ActiveModel, DataFormat, DataSourceType,
    FullQueryRoot, ModelMetadataGraphQL, ModelQueryRoot, ModelStatus, ModelType, RegisteredModel,
    TrainingJobStatus,
};
use cherenkov::ml::OnnxModelMetadata;
use cherenkov::websocket::{
    handle_client_command, socket_step, ClientCommand, CommandReply, ConnectionMeta, ConnectionTable,
    SocketAction, SocketEvent, UpdateBatcher, UpdateType, NANOS_PER_SECOND,
};
use cherenkov::websocket::{alert_update, broadcast_outcome, reading_update, RealTimeUpdate, UpdateChannel};

fn s(x: &str) -> String {
    x.to_string()
}

#[test]
fn test_model_status_enum() {
    let statuses = vec![
        ModelStatus::Active,
        ModelStatus::Inactive,
        ModelStatus::RollingOut,
        ModelStatus::RollingBack,
        ModelStatus::Failed,
    ];

    for status in statuses {
        let string_val = match status {
            ModelStatus::Active => "ACTIVE",
            ModelStatus::Inactive => "INACTIVE",
            ModelStatus::RollingOut => "ROLLING_OUT",
            ModelStatus::RollingBack => "ROLLING_BACK",
            ModelStatus::Failed => "FAILED",
        };
        assert!(!string_val.is_empty());
    }
}

#[test]
fn test_model_type_enum() {
    let types = vec![
        ModelType::IsotopeClassifier,
        ModelType::AnomalyDetector,
        ModelType::BackgroundSubtractor,
        ModelType::MultiClassClassifier,
    ];

    for model_type in types {
        let string_val = match model_type {
            ModelType::IsotopeClassifier => "ISOTOPE_CLASSIFIER",
            ModelType::AnomalyDetector => "ANOMALY_DETECTOR",
            ModelType::BackgroundSubtractor => "BACKGROUND_SUBTRACTOR",
            ModelType::MultiClassClassifier => "MULTI_CLASS_CLASSIFIER",
        };
        assert!(!string_val.is_empty());
    }
}

#[test]
fn test_data_source_type_enum() {
    let types = vec![
        DataSourceType::S3,
        DataSourceType::Http,
        DataSourceType::LocalFile,
        DataSourceType::Database,
        DataSourceType::Streaming,
    ];

    for ds_type in types {
        let string_val = match ds_type {
            DataSourceType::S3 => "S3",
            DataSourceType::Http => "HTTP",
            DataSourceType::LocalFile => "LOCAL_FILE",
            DataSourceType::Database => "DATABASE",
            DataSourceType::Streaming => "STREAMING",
        };
        assert!(!string_val.is_empty());
    }
}

#[test]
fn test_data_format_enum() {
    let formats = vec![DataFormat::Csv, DataFormat::Hdf5, DataFormat::Json, DataFormat::Parquet, DataFormat::Binary];

    for format in formats {
        let string_val = match format {
            DataFormat::Csv => "CSV",
            DataFormat::Hdf5 => "HDF5",
            DataFormat::Json => "JSON",
            DataFormat::Parquet => "PARQUET",
            DataFormat::Binary => "BINARY",
        };
        assert!(!string_val.is_empty());
    }
}

#[test]
fn test_training_job_status_enum() {
    let statuses = vec![
        TrainingJobStatus::Pending,
        TrainingJobStatus::Running,
        TrainingJobStatus::Completed,
        TrainingJobStatus::Failed,
        TrainingJobStatus::Cancelled,
    ];

    for status in statuses {
        let string_val = match status {
            TrainingJobStatus::Pending => "PENDING",
            TrainingJobStatus::Running => "RUNNING",
            TrainingJobStatus::Completed => "COMPLETED",
            TrainingJobStatus::Failed => "FAILED",
            TrainingJobStatus::Cancelled => "CANCELLED",
        };
        assert!(!string_val.is_empty());
    }
}

#[test]
fn model_kinds_follow_names() {
    assert_eq!(ModelQueryRoot::infer_model_type("isotope-v2"), ModelType::IsotopeClassifier);
    assert_eq!(ModelQueryRoot::infer_model_type("anomaly_isotope"), ModelType::IsotopeClassifier);
    assert_eq!(ModelQueryRoot::infer_model_type("fast-anomaly"), ModelType::AnomalyDetector);
    assert_eq!(ModelQueryRoot::infer_model_type("background"), ModelType::BackgroundSubtractor);
    assert_eq!(ModelQueryRoot::infer_model_type("classifier"), ModelType::MultiClassClassifier);
}

#[test]
fn model_listing() {
    let models = vec![
        RegisteredModel { name: s("isotope-net"), versions: vec![s("1.0"), s("1.1")] },
        RegisteredModel { name: s("anomaly-net"), versions: vec![s("0.9")] },
    ];
    let active = vec![ActiveModel { name: s("isotope-net"), version: s("1.1"), uptime_seconds: 30 }];
    let all = ModelQueryRoot::model_summaries(&models, &active, None);
    assert_eq!(all.len(), 2);
    assert_eq!(all[0].status, ModelStatus::Active);
    assert_eq!(all[0].current_version, "1.1");
    assert_eq!(all[0].versions, vec![(s("1.0"), false), (s("1.1"), true)]);
    assert_eq!(all[0].uptime_seconds, 30);
    assert_eq!(all[1].status, ModelStatus::Inactive);
    assert_eq!(all[1].current_version, "unknown");
    assert_eq!(all[1].model_type, ModelType::AnomalyDetector);
    let only = ModelQueryRoot::model_summaries(&models, &active, Some(ModelType::AnomalyDetector));
    assert_eq!(only.len(), 1);
    assert_eq!(only[0].name, "anomaly-net");
    let _roots = FullQueryRoot::default();
}

#[test]
fn metadata_view_narrows_counts() {
    let m = OnnxModelMetadata {
        ir_version: 8,
        opset_version: 17,
        producer_name: s("p"),
        producer_version: s("1"),
        domain: s("d"),
        model_version: 2,
        doc_string: s(""),
        graph_name: s("g"),
        num_inputs: 1,
        num_outputs: 2,
        num_nodes: (1usize << 32) + 5,
        num_initializers: 4,
    };
    let g = ModelMetadataGraphQL::from(&m);
    assert_eq!(g.num_outputs, 2);
    assert_eq!(g.num_nodes, 5);
    assert_eq!(g.graph_name, "g");
}

#[test]
fn rate_limit_keys_and_quotas() {
    assert_eq!(rate_limit_key(Some("10.0.0.1:5000"), RateLimitTier::ApiKey), "10.0.0.1:5000:ApiKey");
    assert_eq!(rate_limit_key(None, RateLimitTier::Anonymous), "unknown:Anonymous");
    assert_eq!(quota_per_minute(RateLimitTier::Premium), 6000);
    assert_eq!(quota_per_minute(RateLimitTier::Anonymous), 60);
    let _layer = create_rate_limit_layer();
}

#[test]
fn tiers_and_tokens() {
    assert_eq!(RateLimitTier::Anonymous.requests_per_minute(), 60);
    assert_eq!(RateLimitTier::Premium.requests_per_minute(), 6000);
    assert_eq!(RateLimitTier::ApiKey.websocket_connections(), 10);
    let c = token_claims("user-1", RateLimitTier::Premium, 1000);
    assert_eq!(c.exp, 1000 + 86400);
    assert_eq!(c.sub, "user-1");
    let state = AuthState::new(s("secret"));
    assert_eq!(state.jwt_secret(), "secret");
    assert_eq!(state.validate_api_key("test-api-key-001"), Some(RateLimitTier::ApiKey));
    assert_eq!(state.validate_api_key("nope"), None);
}

#[test]
fn request_tiers_from_headers() {
    let state = AuthState::new(s("secret"));
    assert!(matches!(parse_authorization(Some("Bearer abc")), AuthHeader::Bearer(ref t) if t == "abc"));
    assert!(matches!(parse_authorization(Some("ApiKey k")), AuthHeader::ApiKey(ref k) if k == "k"));
    assert!(matches!(parse_authorization(Some("Basic x")), AuthHeader::Other));
    assert!(matches!(parse_authorization(None), AuthHeader::Other));
    let h = parse_authorization(Some("ApiKey test-api-key-001"));
    assert_eq!(request_tier(&state, &h, None).ok(), Some(RateLimitTier::ApiKey));
    let bad = parse_authorization(Some("ApiKey other"));
    assert!(request_tier(&state, &bad, None).is_err());
    let bearer = parse_authorization(Some("Bearer t"));
    assert_eq!(request_tier(&state, &bearer, Some(RateLimitTier::Premium)).ok(), Some(RateLimitTier::Premium));
    assert!(request_tier(&state, &bearer, None).is_err());
    assert_eq!(request_tier(&state, &AuthHeader::Other, None).ok(), Some(RateLimitTier::Anonymous));
    assert_eq!(default_request_tier(None), RateLimitTier::Anonymous);
}

fn claims(perms: Vec<&str>, roles: Vec<&str>, tier: ApiTier) -> ApiClaims {
    ApiClaims {
        sub: s("u"),
        exp: 0,
        iat: 0,
        roles: roles.into_iter().map(s).collect(),
        permissions: perms.into_iter().map(s).collect(),
        org_id: None,
        tier,
    }
}

#[test]
fn policies_decide_access() {
    let engine = PolicyEngine::new();
    let reader = claims(vec!["readings:read"], vec![], ApiTier::Free);
    assert_eq!(engine.evaluate(&reader, "readings", "read", 12), Ok(true));
    assert_eq!(engine.evaluate(&reader, "readings", "write", 12), Ok(false));
    let writer = claims(vec!["readings:write"], vec![], ApiTier::Free);
    assert_eq!(engine.evaluate(&writer, "readings", "write", 12), Ok(false));
    let pro_writer = claims(vec!["readings:write"], vec![], ApiTier::Pro);
    assert_eq!(engine.evaluate(&pro_writer, "readings", "write", 12), Ok(true));
    // No policy for the resource: denied.
    assert_eq!(engine.evaluate(&pro_writer, "sensors", "delete", 12), Ok(false));
    assert!(tier_satisfies(ApiTier::Enterprise, ApiTier::Pro));
    assert!(!tier_satisfies(ApiTier::Free, ApiTier::Pro));
    assert!(require_permission(&reader, "readings:read").is_ok());
    assert_eq!(require_permission(&reader, "plume:simulate"), Err(AuthError::Unauthorized));
    let admin = claims(vec![], vec!["admin"], ApiTier::Free);
    assert!(require_permission(&admin, "plume:simulate").is_ok());
    let service = AuthService::new();
    assert_eq!(service.authenticate_api_key("k").err(), Some(AuthError::InvalidApiKey));
    assert_eq!(AuthError::InvalidApiKey.message(), "Invalid API key");
    let info = check_rate_limit(ApiTier::Pro, 1_000);
    assert_eq!(info.requests_remaining, 1000);
    assert_eq!(info.window_reset_ms, 61_000);
    assert!(matches!(credentials_of(AuthHeader::ApiKey(s("k"))), Ok(Credentials::ApiKey(ref k)) if k == "k"));
    assert_eq!(credentials_of(AuthHeader::Other).err(), Some(AuthError::Unauthorized));
}

fn command(action: &str) -> ClientCommand<u8> {
    ClientCommand { action: s(action), sensor_id: None, sensor_ids: None, region: None, regions: None, client_info: None }
}

fn text(r: CommandReply) -> String {
    match r {
        CommandReply::Text(t) => t,
        _ => panic!("expected a text reply"),
    }
}

#[test]
fn client_commands() {
    let mut conn: ConnectionMeta<u8> = ConnectionMeta::new(s("c1"), 0);
    let mut c = command("subscribe_sensor");
    c.sensor_id = Some(s("S1"));
    assert_eq!(text(handle_client_command(&mut conn, c, 3, 0)), "{\"type\":\"subscribed\",\"sensor_id\":\"S1\",\"status\":\"ok\"}");
    let mut c = command("subscribe_sensors");
    c.sensor_ids = Some(vec![s("S1"), s("S2"), s("S2")]);
    assert_eq!(text(handle_client_command(&mut conn, c, 3, 0)), "{\"type\":\"subscribed\",\"sensor_count\":3,\"status\":\"ok\"}");
    assert_eq!(conn.subscribed_sensors, vec![s("S1"), s("S2")]);
    let mut c = command("subscribe_region");
    c.region = Some(7);
    assert_eq!(text(handle_client_command(&mut conn, c, 3, 0)), "{\"type\":\"subscribed\",\"region\":\"active\",\"status\":\"ok\"}");
    let mut c = command("unsubscribe_sensor");
    c.sensor_id = Some(s("S1"));
    assert_eq!(text(handle_client_command(&mut conn, c, 3, 0)), "{\"type\":\"unsubscribed\",\"sensor_id\":\"S1\",\"status\":\"ok\"}");
    assert_eq!(conn.subscribed_sensors, vec![s("S2")]);
    match handle_client_command(&mut conn, command("get_subscriptions"), 3, 0) {
        CommandReply::Subscriptions { sensors, region_count } => {
            assert_eq!(sensors, vec![s("S2")]);
            assert_eq!(region_count, 1);
        }
        _ => panic!("expected the subscriptions"),
    }
    assert_eq!(text(handle_client_command(&mut conn, command("ping"), 3, 1_700_000_000_123)), "{\"type\":\"pong\",\"timestamp\":\"1700000000123\"}");
    assert!(matches!(handle_client_command(&mut conn, command("get_status"), 3, 0), CommandReply::Status { connections: 3 }));
    assert_eq!(text(handle_client_command(&mut conn, command("dance"), 3, 0)), "{\"type\":\"error\",\"message\":\"Unknown command: dance\"}");
    assert!(matches!(handle_client_command(&mut conn, command("subscribe_sensor"), 3, 0), CommandReply::Nothing));
}

#[test]
fn connection_rate_limit_and_timeout() {
    let mut conn: ConnectionMeta<u8> = ConnectionMeta::new(s("c"), 0);
    for _ in 0..100 {
        assert!(conn.check_rate_limit(10));
    }
    assert!(!conn.check_rate_limit(NANOS_PER_SECOND - 1));
    assert!(conn.check_rate_limit(NANOS_PER_SECOND));
    assert!(!conn.is_timed_out(120 * NANOS_PER_SECOND));
    assert!(conn.is_timed_out(120 * NANOS_PER_SECOND + 1));
    conn.touch(100 * NANOS_PER_SECOND);
    assert!(!conn.is_timed_out(200 * NANOS_PER_SECOND));
}

#[test]
fn socket_events() {
    let mut conn: ConnectionMeta<u8> = ConnectionMeta::new(s("c"), 0);
    conn.subscribe_sensor(s("S1"));
    conn.subscribed_regions.push(1);
    let a = socket_step(&mut conn, SocketEvent::Update { sensor_id: s("S9"), region_hits: vec![false] }, 5, 1, 0);
    assert!(matches!(a, SocketAction::Skip));
    let a = socket_step(&mut conn, SocketEvent::Update { sensor_id: s("S9"), region_hits: vec![true] }, 6, 1, 0);
    assert!(matches!(a, SocketAction::Forward));
    assert_eq!(conn.last_activity, 6);
    let a = socket_step(&mut conn, SocketEvent::Update { sensor_id: s("S1"), region_hits: vec![] }, 7, 1, 0);
    assert!(matches!(a, SocketAction::Forward));
    match socket_step(&mut conn, SocketEvent::Lagged(12), 8, 1, 0) {
        SocketAction::Reply(r) => assert_eq!(text(r), "{\"type\":\"lag_notification\",\"missed_messages\":12}"),
        _ => panic!("expected a lag notice"),
    }
    match socket_step(&mut conn, SocketEvent::ClientText(None), 9, 1, 0) {
        SocketAction::Reply(r) => assert_eq!(text(r), "{\"type\":\"error\",\"message\":\"Invalid command format\"}"),
        _ => panic!("expected an error reply"),
    }
    assert!(matches!(socket_step(&mut conn, SocketEvent::HeartbeatTick, 10, 1, 0), SocketAction::Ping { then_close: false }));
    assert!(matches!(
        socket_step(&mut conn, SocketEvent::HeartbeatTick, 9 + 121 * NANOS_PER_SECOND, 1, 0),
        SocketAction::Ping { then_close: true }
    ));
    assert!(matches!(socket_step(&mut conn, SocketEvent::ClientPing, 11, 1, 0), SocketAction::Pong));
    assert!(matches!(socket_step(&mut conn, SocketEvent::ClientClose, 12, 1, 0), SocketAction::Close));
    let _ = UpdateType::Reading;
}

#[test]
fn flooding_client_is_refused() {
    let mut conn: ConnectionMeta<u8> = ConnectionMeta::new(s("c"), 0);
    for i in 0..100u64 {
        let a = socket_step(&mut conn, SocketEvent::ClientText(Some(command("ping"))), i, 1, 0);
        assert!(matches!(a, SocketAction::Reply(CommandReply::Text(_))));
    }
    match socket_step(&mut conn, SocketEvent::ClientText(Some(command("ping"))), 100, 1, 0) {
        SocketAction::Reply(r) => assert_eq!(text(r), "{\"type\":\"error\",\"message\":\"Rate limit exceeded\"}"),
        _ => panic!("expected a refusal"),
    }
}

#[test]
fn connection_table() {
    let mut t: ConnectionTable<u8> = ConnectionTable::new();
    t.connection_opened();
    t.register_connection(s("a"), Some(s("browser")), 0);
    t.connection_opened();
    t.register_connection(s("b"), None, 0);
    assert_eq!(t.connection_count(), 2);
    t.update_subscriptions("a", vec![s("S1")], vec![], 5);
    assert!(t.should_send_to_connection("a", "S1", &vec![]));
    assert!(!t.should_send_to_connection("b", "S1", &vec![]));
    assert!(!t.should_send_to_connection("zzz", "S1", &vec![]));
    let mut m = t.take("a").expect("registered");
    assert_eq!(m.client_info.as_deref(), Some("browser"));
    assert!(t.take("a").is_none());
    m.touch(9);
    assert!(t.put(m));
    t.unregister_connection("b");
    t.connection_closed();
    assert_eq!(t.connection_count(), 1);
    assert!(!t.should_send_to_connection("b", "S1", &vec![true]));
}

#[test]
fn batches_of_updates() {
    let mut b: UpdateBatcher<u32> = UpdateBatcher::new();
    assert!(b.tick().is_none());
    assert!(b.receive((0..60).collect()).is_none());
    let full = b.receive((60..100).collect()).expect("a full batch");
    assert_eq!(full, (0..100).collect::<Vec<u32>>());
    assert!(b.receive(vec![7]).is_none());
    assert_eq!(b.tick(), Some(vec![7]));
}

#[test]
fn rest_aggregation_parameter() {
    assert_eq!(aggregation_level(Some("1m")), AggregationLevel::OneMinute);
    assert_eq!(aggregation_level(Some("5m")), AggregationLevel::FiveMinutes);
    assert_eq!(aggregation_level(Some("1h")), AggregationLevel::OneHour);
    assert_eq!(aggregation_level(Some("1d")), AggregationLevel::OneDay);
    assert_eq!(aggregation_level(Some("1w")), AggregationLevel::Raw);
    assert_eq!(aggregation_level(None), AggregationLevel::Raw);
}

#[test]
fn rest_readings_request() {
    let r = readings_request("67e55044-10b1-426f-9247-bb680e5fe0c8", 10, 20, Some("1h")).unwrap();
    assert_eq!(
        r,
        ReadingsRequest {
            sensor_id: 0x67e55044_10b1_426f_9247_bb680e5fe0c8,
            from: 10,
            to: 20,
            aggregation: AggregationLevel::OneHour
        }
    );
    assert_eq!(readings_request("not-a-uuid", 10, 20, None), Err(StatusCode::BadRequest));
    assert_eq!(StatusCode::BadRequest.as_u16(), 400);
    assert_eq!(StatusCode::NotFound.as_u16(), 404);
    assert_eq!(StatusCode::InternalServerError.as_u16(), 500);
    assert_eq!(readings_request_for(None, 0, 1, Some("1m")), Err(StatusCode::BadRequest));
    assert_eq!(readings_request_for(Some(7), 0, 1, None).unwrap().aggregation, AggregationLevel::Raw);
}

#[test]
fn global_status_levels() {
    use_global_status(0, 5, "NORMAL");
    use_global_status(1, 4, "NORMAL");
    use_global_status(5, 4, "NORMAL");
    use_global_status(6, 3, "ELEVATED");
    use_global_status(10, 3, "ELEVATED");
    use_global_status(11, 2, "ELEVATED");
}

fn use_global_status(count: u64, level: u8, status: &str) {
    let g = cherenkov::graphql::global_status(count);
    assert_eq!(g.defcon_level, level);
    assert_eq!(g.status, status);
    assert_eq!(g.active_anomalies, count);
}

#[test]
fn test_broadcast_outcome() {
    assert_eq!(broadcast_outcome(Some(3)), Ok(()));
    assert_eq!(broadcast_outcome(None), Err(s("Broadcast failed")));
}

#[test]
fn test_update_constructors() {
    let a = alert_update(7u32, 1_700_000_000_000);
    assert_eq!(a.update_type, UpdateType::Alert);
    assert_eq!(a.sensor_id, "all");
    assert_eq!(a.timestamp_ms, 1_700_000_000_000);
    assert_eq!(a.data, 7);
    let r = reading_update("sensor-9", s("payload"), 42);
    assert_eq!(r.update_type, UpdateType::Reading);
    assert_eq!(r.sensor_id, "sensor-9");
    assert_eq!(r.timestamp_ms, 42);
    assert_eq!(r.data, "payload");
}

#[test]
fn test_broadcast_without_listeners_fails() {
    let ch: UpdateChannel<u32> = UpdateChannel::new();
    assert_eq!(ch.broadcast_all(1), Err(s("Broadcast failed")));
    assert_eq!(ch.broadcast("s1", 2), Err(s("Broadcast failed")));
    let batch = vec![alert_update(3u32, 0)];
    assert_eq!(ch.broadcast_batch(batch), Ok(()));
}

#[test]
fn test_broadcast_reaches_listener() {
    let ch: UpdateChannel<u32> = UpdateChannel::new();
    let mut rx = ch.subscribe();
    assert_eq!(ch.broadcast_all_at(5, 100), Ok(()));
    assert_eq!(ch.broadcast_at("s1", 6, 200), Ok(()));
    let batch: Vec<RealTimeUpdate<u32>> = vec![reading_update("s2", 7, 300), alert_update(8, 400)];
    assert_eq!(ch.broadcast_batch(batch), Ok(()));
    let first = rx.try_recv().unwrap();
    assert_eq!(first.update_type, UpdateType::Alert);
    assert_eq!(first.sensor_id, "all");
    assert_eq!((first.timestamp_ms, first.data), (100, 5));
    let second = rx.try_recv().unwrap();
    assert_eq!(second.update_type, UpdateType::Reading);
    assert_eq!((second.sensor_id.as_str(), second.timestamp_ms, second.data), ("s1", 200, 6));
    let third = rx.try_recv().unwrap();
    assert_eq!((third.sensor_id.as_str(), third.data), ("s2", 7));
    let fourth = rx.try_recv().unwrap();
    assert_eq!((fourth.sensor_id.as_str(), fourth.data), ("all", 8));
    assert!(rx.try_recv().is_err());
}

#[test]
fn updates_for_all_reach_every_registered_connection() {
    let mut t: ConnectionTable<u8> = ConnectionTable::new();
    t.connection_opened();
    t.register_connection(s("quiet"), None, 0);
    assert!(t.should_send_to_connection("quiet", "all", &vec![]));
    assert!(!t.should_send_to_connection("quiet", "S1", &vec![]));
    assert!(!t.should_send_to_connection("nobody", "all", &vec![]));
    let mut conn: ConnectionMeta<u8> = ConnectionMeta::new(s("c"), 0);
    let a = socket_step(&mut conn, SocketEvent::Update { sensor_id: s("all"), region_hits: vec![] }, 4, 1, 0);
    assert!(matches!(a, SocketAction::Forward));
    assert_eq!(conn.last_activity, 4);
}

#[test]
fn socket_step_runs_client_commands() {
    let mut conn: ConnectionMeta<u8> = ConnectionMeta::new(s("c"), 0);
    let mut c = command("subscribe_sensor");
    c.sensor_id = Some(s("S7"));
    match socket_step(&mut conn, SocketEvent::ClientText(Some(c)), 50, 2, 0) {
        SocketAction::Reply(r) => assert_eq!(text(r), "{\"type\":\"subscribed\",\"sensor_id\":\"S7\",\"status\":\"ok\"}"),
        _ => panic!("expected a reply"),
    }
    assert_eq!(conn.subscribed_sensors, vec![s("S7")]);
    assert_eq!((conn.last_activity, conn.message_count), (50, 1));
    match socket_step(&mut conn, SocketEvent::ClientText(Some(command("get_status"))), 60, 2, 0) {
        SocketAction::Reply(r) => assert!(matches!(r, CommandReply::Status { connections: 2 })),
        _ => panic!("expected a reply"),
    }
    let mut u = command("unsubscribe_sensor");
    u.sensor_id = Some(s("S7"));
    assert!(matches!(socket_step(&mut conn, SocketEvent::ClientText(Some(u)), 70, 2, 0), SocketAction::Reply(_)));
    assert!(conn.subscribed_sensors.is_empty());
}

#[test]
fn session_leaves_table_as_found() {
    let mut t: ConnectionTable<u8> = ConnectionTable::new();
    t.connection_opened();
    t.register_connection(s("a"), None, 0);
    t.connection_opened();
    t.register_connection(s("b"), None, 1);
    t.update_subscriptions("b", vec![s("S1")], vec![3], 2);
    t.unregister_connection("b");
    t.connection_closed();
    assert_eq!(t.connection_count(), 1);
    assert!(t.should_send_to_connection("a", "all", &vec![]));
    assert!(!t.should_send_to_connection("b", "all", &vec![]));
}

#[test]
fn training_job_queries() {
    let q = cherenkov::graphql::TrainingJobQueryRoot::default();
    let now = 1_700_000_000i64;
    let all = q.training_jobs(now, None, None);
    assert_eq!(all.len(), 2);
    assert_eq!(all[0].job_id, "job-001");
    assert_eq!(all[0].progress_percent.0, 67.5f64.to_bits());
    assert_eq!(all[0].started_at, now - 7200);
    assert_eq!(all[0].estimated_completion, Some(now + 3600));
    assert_eq!(all[1].completed_at, Some(now - 43200));
    assert_eq!(all[1].output_model_path.as_deref(), Some("/models/anomaly-detector-v3.onnx"));
    let running = q.training_jobs(now, Some(TrainingJobStatus::Running), None);
    assert_eq!(running.len(), 1);
    assert_eq!(running[0].model_name, "isotope-classifier-v2");
    assert!(q.training_jobs(now, Some(TrainingJobStatus::Failed), None).is_empty());
    let by_name = q.training_jobs(now, None, Some("anomaly-detector-v3"));
    assert_eq!(by_name.len(), 1);
    assert_eq!(by_name[0].status, TrainingJobStatus::Completed);
    assert_eq!(q.training_job(now, "job-002").map(|j| j.model_name), Some("anomaly-detector-v3".to_string()));
    assert!(q.training_job(now, "job-404").is_none());
    assert_eq!(q.active_training_jobs_count(), 1);
    let cancelled = cherenkov::graphql::ModelMutationRoot::default().cancel_training_job("job-9".to_string(), now);
    assert_eq!(cancelled.status, TrainingJobStatus::Cancelled);
    assert_eq!(cancelled.error_message.as_deref(), Some("Cancelled by user"));
    assert_eq!(cancelled.completed_at, Some(now));
}
