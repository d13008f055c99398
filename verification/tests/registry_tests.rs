use cherenkov::ml::{ModelMetadata, OnnxModelMetadata, RegistryError};
use cherenkov::registry::{ModelRegistry, PerformanceMetrics};
use cherenkov::storage::F64Bits;

fn metadata(inputs: usize, outputs: usize) -> ModelMetadata {
    ModelMetadata {
        input_names: (0..inputs).map(|i| format!("in{}", i)).collect(),
        output_names: (0..outputs).map(|i| format!("out{}", i)).collect(),
        input_shapes: (0..inputs).map(|_| vec![1, 1024]).collect(),
        output_shapes: (0..outputs).map(|_| vec![1, 15]).collect(),
        opset_version: 13,
        producer_name: "test".to_string(),
        producer_version: "1.0".to_string(),
    }
}

fn onnx() -> OnnxModelMetadata {
    OnnxModelMetadata {
        ir_version: 8,
        opset_version: 13,
        producer_name: "test".to_string(),
        producer_version: "1.0".to_string(),
        domain: String::new(),
        model_version: 1,
        doc_string: String::new(),
        graph_name: "g".to_string(),
        num_inputs: 1,
        num_outputs: 1,
        num_nodes: 3,
        num_initializers: 2,
    }
}

fn registry_with(versions: &[(&str, i64)]) -> ModelRegistry {
    let mut r = ModelRegistry::new();
    for (v, t) in versions {
        r.register_version("iso", &format!("/models/iso-{}.onnx", v), v, metadata(1, 1), onnx(), *t).unwrap();
    }
    r
}

#[test]
fn registry_versions_newest_first() {
    let r = registry_with(&[("v1", 100), ("v3", 300), ("v2", 200), ("v2b", 200)]);
    let vs: Vec<&str> = r.versions("iso").unwrap().iter().map(|v| v.version.as_str()).collect();
    assert_eq!(vs, vec!["v3", "v2", "v2b", "v1"]);
    assert!(r.versions("other").is_none());
}

#[test]
fn registry_refuses_duplicate_version() {
    let mut r = registry_with(&[("v1", 100)]);
    match r.register_version("iso", "/x", "v1", metadata(1, 1), onnx(), 5) {
        Err(e) => assert_eq!(e.message(), "Hot swap failed: Version v1 already exists for model iso"),
        Ok(()) => panic!("duplicate accepted"),
    }
    assert_eq!(r.versions("iso").unwrap().len(), 1);
    assert_eq!(r.versions("iso").unwrap()[0].path, "/models/iso-v1.onnx");
}

#[test]
fn registry_hot_swap_and_rollback() {
    let mut r = registry_with(&[("v1", 100), ("v2", 200)]);
    assert!(r.get_active_info("iso").is_none());
    let path = r.begin_hot_swap("iso", "v1").unwrap();
    assert_eq!(path, "/models/iso-v1.onnx");
    r.finish_hot_swap("iso", "v1", &metadata(1, 1), 1_000).unwrap();
    assert_eq!(r.get_active_info("iso").unwrap().version, "v1");

    assert_eq!(r.begin_hot_swap("iso", "v2").unwrap(), "/models/iso-v2.onnx");
    r.finish_hot_swap("iso", "v2", &metadata(1, 1), 2_000).unwrap();
    assert_eq!(r.get_active_info("iso").unwrap().version, "v2");

    let (v, p) = r.begin_rollback("iso").unwrap();
    assert_eq!((v.as_str(), p.as_str()), ("v1", "/models/iso-v1.onnx"));
    r.finish_rollback("iso", &v, 3_000).unwrap();
    assert_eq!(r.get_active_info("iso").unwrap().version, "v1");

    match r.begin_rollback("iso") {
        Err(e) => assert_eq!(e.message(), "Rollback failed: No previous version available"),
        Ok(_) => panic!("second rollback accepted"),
    }
}

#[test]
fn registry_swap_errors() {
    let mut r = registry_with(&[("v1", 100), ("v2", 200)]);
    match r.begin_hot_swap("nope", "v1") {
        Err(RegistryError::ModelNotFound(n)) => assert_eq!(n, "nope"),
        _ => panic!("expected ModelNotFound"),
    }
    match r.begin_hot_swap("iso", "v9") {
        Err(e) => assert_eq!(e.message(), "Version not found: iso@v9"),
        _ => panic!("expected VersionNotFound"),
    }
    r.begin_hot_swap("iso", "v1").unwrap();
    r.finish_hot_swap("iso", "v1", &metadata(1, 1), 0).unwrap();
    r.begin_hot_swap("iso", "v2").unwrap();
    match r.finish_hot_swap("iso", "v2", &metadata(2, 1), 0) {
        Err(e) => assert_eq!(e.message(), "Hot swap failed: Input count mismatch"),
        _ => panic!("expected input mismatch"),
    }
    match r.finish_hot_swap("iso", "v2", &metadata(1, 3), 0) {
        Err(e) => assert_eq!(e.message(), "Hot swap failed: Output count mismatch"),
        _ => panic!("expected output mismatch"),
    }
    assert_eq!(r.get_active_info("iso").unwrap().version, "v1");
}

#[test]
fn registry_inference_counts_and_baseline() {
    let mut r = registry_with(&[("v1", 100)]);
    r.record_inference("iso", 10, true);
    assert_eq!(r.inference_counts("iso"), None);
    match r.set_performance_baseline("iso", metrics()) {
        Err(RegistryError::ModelNotFound(n)) => assert_eq!(n, "iso"),
        _ => panic!("expected ModelNotFound"),
    }
    r.begin_hot_swap("iso", "v1").unwrap();
    r.finish_hot_swap("iso", "v1", &metadata(1, 1), 0).unwrap();
    r.record_inference("iso", 10, true);
    r.record_inference("iso", 30, false);
    assert_eq!(r.inference_counts("iso"), Some((2, 1, 40)));
    r.set_performance_baseline("iso", metrics()).unwrap();
    let active = r.get_active_info("iso").unwrap();
    assert_eq!(active.performance_baseline.as_ref().unwrap().total_inferences, 2);
}

fn metrics() -> PerformanceMetrics {
    PerformanceMetrics {
        avg_latency_ms: F64Bits(20.0f64.to_bits()),
        p95_latency_ms: F64Bits(30.0f64.to_bits()),
        p99_latency_ms: F64Bits(40.0f64.to_bits()),
        throughput_per_sec: F64Bits(1.0f64.to_bits()),
        error_rate: F64Bits(0.5f64.to_bits()),
        total_inferences: 2,
        recorded_at: 0,
    }
}

#[test]
fn registry_version_comparison_lookup() {
    use_comparison();
}

fn use_comparison() {
    let r = registry_with(&[("v1", 100), ("v2", 200)]);
    let (a, b) = cherenkov::graphql::comparison_versions(&r, "iso", "v1", "v2").unwrap();
    assert_eq!((a.version.as_str(), b.version.as_str()), ("v1", "v2"));
    assert_eq!(a.created_at, 100);
    match cherenkov::graphql::comparison_versions(&r, "other", "v1", "v2") {
        Err(e) => assert_eq!(e.message(), "Model other not found"),
        Ok(_) => panic!("unknown model accepted"),
    }
    match cherenkov::graphql::comparison_versions(&r, "iso", "v1", "v7") {
        Err(e) => assert_eq!(e.message(), "Version v7 not found"),
        Ok(_) => panic!("unknown version accepted"),
    }
    match cherenkov::graphql::comparison_versions(&r, "iso", "v0", "v7") {
        Err(e) => assert_eq!(e.message(), "Version v0 not found"),
        Ok(_) => panic!("unknown version accepted"),
    }
}
