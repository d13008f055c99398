use cherenkov::conversion::{
    ConversionConfig, ConversionError, DType, ModelArchitecture, TensorEntry, TensorMetadata, VarMapConverter,
    parse_usize, sizes_text,
};
use cherenkov::ml::{
    action_severity, anomaly_algorithm, detect_anomaly_classes, extract_metadata, extract_shape, id_to_isotope,
    isotope_class, AnomalyClass, ModelCache, ModelMetadata, OnnxError, OnnxGraph, OnnxModel, OnnxModelInfo,
    OnnxModelMetadata, OnnxValueInfo, RecommendedAction, TrainingSchedule,
};
use cherenkov::common::Severity;
use cherenkov::onnx_export::{ExportConfig, ExportError, OnnxExporter};
use cherenkov::quality::{
    validate_quality, DataQualityConfig, ErrorType, QualityGateError, SampleQuality, SourceType,
};
use cherenkov::storage::F64Bits;

fn s(x: &str) -> String {
    x.to_string()
}

#[test]
fn test_conversion_config_default() {
    let config = ConversionConfig::default();
    assert!(config.validate_shapes);
    assert!(config.validate_dtypes);
    assert!(!config.strict_mode);
    assert!(!config.allow_partial_conversion);
}

#[test]
fn training_test_test_export_config_default() {
    let config = ExportConfig::default();
    assert_eq!(config.opset_version, 17);
}

#[test]
fn training_test_test_model_metadata_creation() {
    let metadata = cherenkov::onnx_export::ModelMetadata {
        name: "TestModel".to_string(),
        version: "1.0.0".to_string(),
        description: "Test model for radiation classification".to_string(),
        author: "Cherenkov ML Team".to_string(),
        domain: "radiation-spectroscopy".to_string(),
        model_version: 1,
        doc_string: "Trained model for classifying radiation spectra".to_string(),
    };
    assert_eq!(metadata.name, "TestModel");
    assert_eq!(metadata.model_version, 1);
}

#[test]
fn test_contrastive_learning() {
    let anchor = vec![1.0f64, 2.0, 3.0];
    let positive = vec![1.1f64, 2.1, 3.1];
    let negative = vec![5.0f64, 6.0, 7.0];

    // Euclidean distance
    let distance = |a: &[f64], b: &[f64]| -> f64 {
        a.iter().zip(b.iter()).map(|(x, y)| (x - y).powi(2)).sum::<f64>().sqrt()
    };

    let d_pos = distance(&anchor, &positive);
    let d_neg = distance(&anchor, &negative);

    // Positive should be closer than negative
    assert!(d_pos < d_neg);
}

#[test]
fn test_tensor_metadata_creation() {
    let meta = TensorMetadata {
        name: "test_tensor".to_string(),
        shape: vec![10, 20],
        dtype: DType::F32,
        description: Some("Test tensor".to_string()),
    };
    assert_eq!(meta.name, "test_tensor");
    assert_eq!(meta.shape, vec![10, 20]);
}

#[test]
fn test_converter_creation() {
    let converter = VarMapConverter::new();
    assert!(converter.architecture.is_none());
}

fn entry(name: &str, dims: Vec<usize>) -> TensorEntry {
    TensorEntry { name: s(name), dims, dtype: DType::F32 }
}

#[test]
fn test_architecture_detection() {
    let tensors = vec![
        entry("w0", vec![10, 20]),
        entry("b0", vec![20]),
        entry("w_out", vec![20, 5]),
        entry("b_out", vec![5]),
    ];
    let converter = VarMapConverter::new();
    let arch = match converter.detect_architecture(&tensors) {
        Ok(a) => a,
        Err(_) => panic!("architecture not detected"),
    };
    assert_eq!(arch.input_shape, vec![1, 10]);
    assert_eq!(arch.output_shape, vec![1, 5]);
    assert_eq!(arch.hidden_layers, vec![20]);
}

#[test]
fn architecture_orders_layers_and_lists_expected_tensors() {
    let tensors = vec![
        entry("w1", vec![20, 30]),
        entry("w0", vec![10, 20]),
        entry("w_out", vec![30, 4]),
        entry("bias", vec![4]),
    ];
    let arch = match VarMapConverter::new().detect_architecture(&tensors) {
        Ok(a) => a,
        Err(_) => panic!("architecture not detected"),
    };
    // The lowest-numbered layer gives the input size, layers are sorted by index.
    assert_eq!(arch.input_shape, vec![1, 10]);
    assert_eq!(arch.hidden_layers, vec![20, 30]);
    let names: Vec<&str> = arch.expected_tensors.iter().map(|t| t.name.as_str()).collect();
    assert_eq!(names, vec!["w0", "b0", "w1", "b1", "w_out", "b_out"]);
    assert_eq!(arch.expected_tensors[0].shape, vec![10, 20]);
    assert_eq!(arch.expected_tensors[2].shape, vec![20, 30]);
    assert_eq!(arch.expected_tensors[4].shape, vec![30, 4]);
    assert_eq!(arch.expected_tensors[1].description.as_deref(), Some("Bias vector for layer 0"));
}

#[test]
fn architecture_without_output_is_refused() {
    let tensors = vec![entry("w0", vec![10, 20])];
    match VarMapConverter::new().detect_architecture(&tensors) {
        Err(ConversionError::InvalidArchitecture(m)) => {
            assert_eq!(m, "Could not detect input/output dimensions from VarMap")
        }
        _ => panic!("expected an invalid architecture"),
    }
}

fn arch_with(expected: Vec<TensorMetadata>) -> ModelArchitecture {
    ModelArchitecture { input_shape: vec![1, 10], output_shape: vec![1, 5], hidden_layers: vec![], expected_tensors: expected }
}

fn meta(name: &str, shape: Vec<usize>, dtype: DType) -> TensorMetadata {
    TensorMetadata { name: s(name), shape, dtype, description: None }
}

#[test]
fn conversion_reports_mismatches_as_warnings() {
    let converter = VarMapConverter::new().with_architecture(arch_with(vec![
        meta("w0", vec![10, 20], DType::F32),
        meta("b0", vec![20], DType::F64),
        meta("w_out", vec![20, 5], DType::F32),
    ]));
    let tensors = vec![entry("w0", vec![1, 20]), entry("b0", vec![20]), entry("x", vec![3])];
    let report = match converter.conversion_report(&tensors) {
        Ok(r) => r,
        Err(_) => panic!("non-strict conversion failed"),
    };
    assert_eq!(report.tensors_converted, 3);
    assert_eq!(report.tensors_validated, 0);
    assert_eq!(report.missing_tensors, vec![s("w_out")]);
    assert_eq!(
        report.warnings,
        vec![
            s("w0: Shape mismatch: expected [10, 20], got [1, 20]"),
            s("b0: DType mismatch: expected F64, got F32"),
            s("Missing expected tensor: w_out"),
        ]
    );
    assert!(!report.success);
    assert_eq!(report.input_shape, vec![1, 10]);
    let converted = match converter.convert_varmap(tensors) {
        Ok(m) => m,
        Err(_) => panic!("non-strict conversion failed"),
    };
    let names: Vec<&str> = converted.iter().map(|t| t.name.as_str()).collect();
    assert_eq!(names, vec!["w0", "b0", "x"]);
    assert_eq!(converted[0].dims, vec![1, 20]);
}

#[test]
fn strict_conversion_fails_on_first_problem() {
    let mut config = ConversionConfig::default();
    config.strict_mode = true;
    let converter = VarMapConverter::with_config(config).with_architecture(arch_with(vec![
        meta("w0", vec![0, 20], DType::F32),
        meta("w_out", vec![20, 5], DType::F32),
    ]));
    // A flexible batch dimension passes; the missing output fails.
    match converter.convert_varmap(vec![entry("w0", vec![1, 20])]) {
        Err(ConversionError::MissingTensor(n)) => assert_eq!(n, "w_out"),
        _ => panic!("expected a missing tensor"),
    }
    match converter.convert_varmap(vec![entry("w0", vec![2, 20]), entry("w_out", vec![20, 5])]) {
        Err(ConversionError::ShapeMismatch { expected, actual }) => {
            assert_eq!(expected, vec![0, 20]);
            assert_eq!(actual, vec![2, 20]);
        }
        _ => panic!("expected a shape mismatch"),
    }
    let ok = converter.convert_varmap(vec![entry("w0", vec![1, 20]), entry("w_out", vec![20, 5])]);
    assert!(matches!(ok, Ok(ref m) if m.len() == 2 && m[1].name == "w_out"));
}

#[test]
fn conversion_error_messages() {
    let e = ConversionError::DTypeMismatch { expected: DType::F32, actual: DType::U8 };
    assert_eq!(e.message(), "DType mismatch: expected F32, got U8");
    assert_eq!(ConversionError::MissingTensor(s("w9")).message(), "Missing tensor: w9");
    assert_eq!(sizes_text(&vec![]), "[]");
    assert_eq!(sizes_text(&vec![7]), "[7]");
}

#[test]
fn usize_parsing_matches_std() {
    let chars = |t: &str| t.chars().collect::<Vec<char>>();
    assert_eq!(parse_usize(&chars("12")), Some(12));
    assert_eq!(parse_usize(&chars("+3")), Some(3));
    assert_eq!(parse_usize(&chars("")), None);
    assert_eq!(parse_usize(&chars("+")), None);
    assert_eq!(parse_usize(&chars("-1")), None);
    assert_eq!(parse_usize(&chars("1a")), None);
    assert_eq!(parse_usize(&chars("99999999999999999999999")), None);
    assert_eq!(parse_usize(&chars("18446744073709551615")), Some(usize::MAX));
}

#[test]
fn test_quality_config_default() {
    let config = DataQualityConfig::default();
    assert_eq!(config.min_energy_bins, 128);
    assert_eq!(config.max_energy_bins, 8192);
    assert!(config.duplicate_detection);
}

#[test]
fn training_test_test_data_quality_config() {
    let config = DataQualityConfig {
        min_counts: Some(F64Bits(100.0f64.to_bits())),
        max_counts: Some(F64Bits(1000000.0f64.to_bits())),
        min_energy_bins: 256,
        max_energy_bins: 4096,
        required_fields: vec!["counts".to_string()],
        outlier_threshold: Some(F64Bits(3.0f64.to_bits())),
        duplicate_detection: true,
    };
    assert_eq!(config.min_counts, Some(F64Bits(100.0f64.to_bits())));
    assert!(config.duplicate_detection);
}

fn sample(id: &str, bins: usize, counts: usize, tag: u32) -> SampleQuality<u32> {
    SampleQuality {
        id: s(id),
        energy_bins: bins,
        counts,
        below_min_counts: None,
        above_max_counts: None,
        outlier: None,
        sample: tag,
    }
}

#[test]
fn quality_gate_drops_bad_samples() {
    let config = DataQualityConfig::default();
    let mut outlier = sample("c", 128, 128, 3);
    outlier.outlier = Some(s("Outlier detected: max count 9 exceeds threshold"));
    let samples = vec![
        sample("a", 128, 128, 1),
        sample("a", 128, 128, 2),
        outlier,
        sample("", 64, 0, 4),
    ];
    let (valid, report) = match validate_quality(Some(&config), samples) {
        Ok(r) => r,
        Err(_) => panic!("quality gate refused"),
    };
    let tags: Vec<u32> = valid.iter().map(|q| q.sample).collect();
    assert_eq!(tags, vec![1]);
    assert_eq!(report.total_samples, 4);
    assert_eq!(report.valid_samples, 1);
    assert_eq!(report.invalid_samples, 3);
    assert_eq!(report.duplicates_removed, 1);
    assert_eq!(report.outliers_removed, 1);
    let kinds: Vec<ErrorType> = report.errors.iter().map(|e| e.error_type).collect();
    assert_eq!(
        kinds,
        vec![
            ErrorType::Duplicate,
            ErrorType::Outlier,
            ErrorType::MissingField,
            ErrorType::MissingField,
            ErrorType::WrongDimensions,
        ]
    );
    assert_eq!(report.errors[2].message, "Missing or empty field: id");
    assert_eq!(report.errors[3].message, "Missing or empty field: counts");
    assert_eq!(report.errors[4].message, "Energy bins count 64 out of range [128-8192]");
}

#[test]
fn quality_gate_needs_a_configuration() {
    match validate_quality::<u32>(None, vec![]) {
        Err((e, back)) => {
            assert_eq!(e, QualityGateError::NoQualityConfig);
            assert!(back.is_empty());
        }
        Ok(_) => panic!("expected a refusal"),
    }
    match validate_quality(None, vec![sample("a", 128, 128, 5), sample("b", 128, 128, 6)]) {
        Err((e, back)) => {
            assert_eq!(e, QualityGateError::NoQualityConfig);
            let tags: Vec<u32> = back.iter().map(|q| q.sample).collect();
            assert_eq!(tags, vec![5, 6]);
        }
        Ok(_) => panic!("expected a refusal"),
    }
    let _ = SourceType::Nuclear;
}

#[test]
fn test_onnx_error_display() {
    let err = OnnxError::MissingGraph;
    assert_eq!(err.message(), "Model has no graph");

    let err = OnnxError::UnsupportedOpset(5, "7-21".to_string());
    assert!(err.message().contains("Unsupported ONNX opset version: 5"));

    let err = OnnxError::InputShapeMismatch { expected: vec![1, 3, 224, 224], actual: vec![1, 3, 256, 256] };
    assert!(err.message().contains("Input shape mismatch"));
    assert_eq!(err.message(), "Input shape mismatch: expected [1, 3, 224, 224], got [1, 3, 256, 256]");
}

#[test]
fn inference_test_test_model_metadata_creation() {
    let metadata = ModelMetadata {
        input_names: vec!["input".to_string()],
        output_names: vec!["output".to_string()],
        input_shapes: vec![vec![1, 3, 224, 224]],
        output_shapes: vec![vec![1, 1000]],
        opset_version: 13,
        producer_name: "test".to_string(),
        producer_version: "1.0".to_string(),
    };

    assert_eq!(metadata.input_names.len(), 1);
    assert_eq!(metadata.output_names.len(), 1);
    assert_eq!(metadata.opset_version, 13);
}

#[test]
fn onnx_export_test_export_config_default() {
    let config = ExportConfig::default();
    assert_eq!(config.opset_version, 17);
    assert!(config.optimize);
    assert!(config.validate);
}

#[test]
fn test_exporter_creation() {
    let exporter = OnnxExporter::new();
    assert_eq!(exporter.config.opset_version, 17);
}

#[test]
fn test_shape_validation() {
    let exporter = OnnxExporter::new();
    assert!(exporter.validate_shapes(&vec![1, 10], &vec![1, 5]).is_ok());
    assert!(exporter.validate_shapes(&vec![32, 1024], &vec![32, 10]).is_ok());
    assert!(exporter.validate_shapes(&vec![], &vec![1, 5]).is_err());
    assert!(exporter.validate_shapes(&vec![1, 10], &vec![]).is_err());
}

fn value(name: &str, dims: Option<Vec<Option<i64>>>) -> OnnxValueInfo {
    OnnxValueInfo { name: s(name), shape: dims }
}

fn model(ir: i64, graph: Option<OnnxGraph>) -> OnnxModelInfo {
    OnnxModelInfo {
        ir_version: ir,
        opset_versions: vec![13, 1],
        producer_name: s("pytorch"),
        producer_version: s("2.1"),
        domain: s(""),
        model_version: 1,
        doc_string: s(""),
        graph,
    }
}

fn graph(inputs: Vec<OnnxValueInfo>, outputs: Vec<OnnxValueInfo>) -> OnnxGraph {
    OnnxGraph { name: s("main"), inputs, outputs, num_nodes: 7, num_initializers: 2 }
}

#[test]
fn exported_model_checks() {
    let exporter = OnnxExporter::new();
    match exporter.validate_export(&model(6, None)) {
        Err(ExportError::Validation(m)) => assert_eq!(m, "IR version 6 is too old"),
        _ => panic!("expected an old IR version"),
    }
    match exporter.validate_export(&model(8, None)) {
        Err(ExportError::Validation(m)) => assert_eq!(m, "Model has no graph"),
        _ => panic!("expected a missing graph"),
    }
    match exporter.validate_export(&model(8, Some(graph(vec![], vec![])))) {
        Err(ExportError::Validation(m)) => assert_eq!(m, "Model has no inputs"),
        _ => panic!("expected missing inputs"),
    }
    assert!(exporter.validate_export(&model(8, Some(graph(vec![value("x", None)], vec![value("y", None)])))).is_ok());
}

#[test]
fn shapes_keep_positive_fixed_dimensions() {
    assert_eq!(extract_shape(&None), Vec::<usize>::new());
    assert_eq!(extract_shape(&Some(vec![Some(0), Some(3), None, Some(-1), Some(5)])), vec![3, 5]);
}

#[test]
fn metadata_extraction() {
    match extract_metadata(&model(8, None)) {
        Err(OnnxError::MissingGraph) => {}
        _ => panic!("expected a missing graph"),
    }
    match extract_metadata(&model(8, Some(graph(vec![value("x", None)], vec![])))) {
        Err(OnnxError::MissingOutputs) => {}
        _ => panic!("expected missing outputs"),
    }
    let m = match extract_metadata(&model(
        8,
        Some(graph(vec![value("spectrum", Some(vec![None, Some(1024)]))], vec![value("probs", Some(vec![Some(1), Some(15)]))])),
    )) {
        Ok(m) => m,
        Err(_) => panic!("metadata not extracted"),
    };
    assert_eq!(m.input_names, vec![s("spectrum")]);
    assert_eq!(m.input_shapes, vec![vec![1024]]);
    assert_eq!(m.output_shapes, vec![vec![1, 15]]);
    assert_eq!(m.opset_version, 13);
    assert_eq!(m.producer_name, "pytorch");

    let summary = OnnxModelMetadata::from_model(&model(9, Some(graph(vec![value("a", None)], vec![]))));
    assert_eq!(summary.num_inputs, 1);
    assert_eq!(summary.num_nodes, 7);
    assert_eq!(summary.graph_name, "main");
    let bare = OnnxModelMetadata::from_model(&model(9, None));
    assert_eq!(bare.graph_name, "");
    assert_eq!(bare.num_initializers, 0);
}

fn onnx_model(first_input: Vec<usize>) -> OnnxModel {
    OnnxModel {
        input_name: s("input"),
        output_name: s("output"),
        metadata: ModelMetadata {
            input_names: vec![s("input")],
            output_names: vec![s("output")],
            input_shapes: vec![first_input],
            output_shapes: vec![vec![1, 15]],
            opset_version: 17,
            producer_name: s("t"),
            producer_version: s("1"),
        },
    }
}

#[test]
fn input_validation_and_batching() {
    let m = onnx_model(vec![0, 1024]);
    assert!(m.validate_input(&vec![8, 1024]).is_ok());
    match m.validate_input(&vec![8, 512]) {
        Err(OnnxError::InputShapeMismatch { expected, actual }) => {
            assert_eq!(expected, vec![0, 1024]);
            assert_eq!(actual, vec![8, 512]);
        }
        _ => panic!("expected a shape mismatch"),
    }
    assert!(m.validate_input(&vec![1024]).is_err());
    assert!(m.supports_batch());
    assert!(!onnx_model(vec![1, 1024]).supports_batch());
    assert!(onnx_model(vec![]).supports_batch());
}

#[test]
fn isotope_labels() {
    assert_eq!(id_to_isotope(0), "Cs-137");
    assert_eq!(id_to_isotope(9), "U-235");
    assert_eq!(id_to_isotope(14), "Po-210");
    assert_eq!(id_to_isotope(15), "Unknown-15");
    assert_eq!(id_to_isotope(1234), "Unknown-1234");
}

#[test]
fn anomaly_classes_from_predictions() {
    assert_eq!(isotope_class("Co-60"), AnomalyClass::IndustrialSource);
    assert_eq!(isotope_class("Tc-99m"), AnomalyClass::MedicalIsotope);
    assert_eq!(isotope_class("Pu-239"), AnomalyClass::NuclearMaterial);
    assert_eq!(isotope_class("K-40"), AnomalyClass::NaturalBackground);
    assert_eq!(isotope_class("Xe-133"), AnomalyClass::Unknown);
    let classes = detect_anomaly_classes(&vec![s("Cs-137"), s("I-131"), s("Co-60"), s("Xe-133")]);
    assert_eq!(
        classes,
        vec![AnomalyClass::IndustrialSource, AnomalyClass::MedicalIsotope, AnomalyClass::Unknown]
    );
    assert_eq!(detect_anomaly_classes(&vec![]), vec![AnomalyClass::Unknown]);
    assert_eq!(anomaly_algorithm(&classes), "ml_classifier:industrial_source,medical_isotope,unknown");
    assert_eq!(anomaly_algorithm(&vec![]), "ml_classifier:");
    assert_eq!(AnomalyClass::NuclearMaterial.as_str(), "nuclear_material");
    assert_eq!(AnomalyClass::NuclearMaterial.severity(), Severity::Critical);
    assert_eq!(AnomalyClass::CosmicRay.severity(), Severity::Info);
    assert_eq!(action_severity(RecommendedAction::Evacuate), Severity::Critical);
    assert_eq!(action_severity(RecommendedAction::Investigate), Severity::Warning);
    assert_eq!(action_severity(RecommendedAction::Monitor), Severity::Info);
}

#[test]
fn training_schedule() {
    let mut schedule = TrainingSchedule::new();
    assert!(!schedule.should_run(1_000_000));
    schedule.enable(2, true);
    assert!(schedule.should_run(1_000_000));
    schedule.record_run(1_000_000);
    assert!(!schedule.should_run(1_000_000 + 7200));
    assert!(schedule.should_run(1_000_000 + 7201));
    schedule.disable();
    assert!(!schedule.should_run(2_000_000));
}

#[test]
fn evaluation_confusion_matrix() {
    let outcomes = vec![(0usize, 0usize), (0, 1), (1, 1), (2, 0), (0, 0), (1, 1)];
    let m = cherenkov::evaluation::confusion_matrix(&outcomes, 3);
    assert_eq!(m, vec![vec![2, 1, 0], vec![0, 2, 0], vec![1, 0, 0]]);
    let (correct, total) = cherenkov::evaluation::class_tallies(&outcomes, 3);
    assert_eq!(correct, vec![2, 2, 0]);
    assert_eq!(total, vec![3, 2, 1]);
    assert_eq!(cherenkov::evaluation::confusion_matrix(&vec![], 2), vec![vec![0, 0], vec![0, 0]]);
}

#[test]
fn quality_source_labels_and_windows() {
    use_labels();
    assert_eq!(cherenkov::quality::smoothing_window(0, 5, 10), (0, 3));
    assert_eq!(cherenkov::quality::smoothing_window(5, 5, 10), (3, 8));
    assert_eq!(cherenkov::quality::smoothing_window(9, 5, 10), (7, 10));
    assert_eq!(cherenkov::quality::smoothing_window(2, 1, 3), (2, 3));
}

fn use_labels() {
    use_labels_of(
        vec![
            cherenkov::quality::SourceType::Background,
            cherenkov::quality::SourceType::Medical,
            cherenkov::quality::SourceType::Industrial,
            cherenkov::quality::SourceType::Nuclear,
            cherenkov::quality::SourceType::Unknown,
        ],
        vec![0, 1, 2, 3, 4],
    );
}

fn use_labels_of(types: Vec<cherenkov::quality::SourceType>, expected: Vec<u32>) {
    assert_eq!(cherenkov::quality::source_labels(&types), expected);
}

#[test]
fn quality_split_and_distribution() {
    assert_eq!(cherenkov::quality::split_bounds(10, 2, 1), (7, 8));
    assert_eq!(cherenkov::quality::split_bounds(5, 0, 0), (5, 5));
    assert_eq!(cherenkov::quality::split_bounds(3, 3, 0), (0, 0));
    let types = vec![
        cherenkov::quality::SourceType::Nuclear,
        cherenkov::quality::SourceType::Background,
        cherenkov::quality::SourceType::Nuclear,
    ];
    assert_eq!(
        cherenkov::quality::source_type_distribution(&types),
        vec![("Background".to_string(), 1), ("Nuclear".to_string(), 2)]
    );
    assert!(cherenkov::quality::source_type_distribution(&vec![]).is_empty());
}

#[test]
fn architecture_input_size_ignores_entry_order() {
    let orders: Vec<Vec<(&str, Vec<usize>)>> = vec![
        vec![("w_out", vec![20, 5]), ("b_out", vec![5]), ("b0", vec![20]), ("w0", vec![10, 20])],
        vec![("b0", vec![20]), ("w_out", vec![20, 5]), ("w0", vec![10, 20]), ("b_out", vec![5])],
    ];
    for order in orders {
        let tensors: Vec<_> = order.into_iter().map(|(n, d)| entry(n, d)).collect();
        let arch = match VarMapConverter::new().detect_architecture(&tensors) {
            Ok(a) => a,
            Err(_) => panic!("architecture not detected"),
        };
        assert_eq!(arch.input_shape, vec![1, 10]);
        assert_eq!(arch.output_shape, vec![1, 5]);
        assert_eq!(arch.hidden_layers, vec![20]);
    }
    let deep = vec![
        entry("w_out", vec![30, 5]),
        entry("w1", vec![20, 30]),
        entry("b1", vec![30]),
        entry("w0", vec![10, 20]),
        entry("b0", vec![20]),
        entry("b_out", vec![5]),
    ];
    let arch = match VarMapConverter::new().detect_architecture(&deep) {
        Ok(a) => a,
        Err(_) => panic!("architecture not detected"),
    };
    assert_eq!(arch.input_shape, vec![1, 10]);
    assert_eq!(arch.hidden_layers, vec![20, 30]);
    assert_eq!(arch.output_shape, vec![1, 5]);
}

#[test]
fn architecture_without_hidden_layers_uses_output_rows() {
    let tensors = vec![entry("w_out", vec![12, 3]), entry("b_out", vec![3])];
    let arch = match VarMapConverter::new().detect_architecture(&tensors) {
        Ok(a) => a,
        Err(_) => panic!("architecture not detected"),
    };
    assert_eq!(arch.input_shape, vec![1, 12]);
    assert_eq!(arch.hidden_layers, Vec::<usize>::new());
}

#[test]
fn quality_gate_rerun_on_survivors_finds_nothing() {
    let config = DataQualityConfig::default();
    let samples = vec![
        sample("a", 128, 128, 1),
        sample("b", 64, 128, 2),
        sample("a", 128, 128, 3),
        sample("c", 128, 128, 4),
    ];
    let (valid, first) = match validate_quality(Some(&config), samples) {
        Ok(r) => r,
        Err(_) => panic!("quality gate refused"),
    };
    assert_eq!(first.valid_samples, 2);
    let (again, second) = match validate_quality(Some(&config), valid) {
        Ok(r) => r,
        Err(_) => panic!("quality gate refused"),
    };
    assert_eq!(second.total_samples, 2);
    assert_eq!(second.invalid_samples, 0);
    assert!(second.errors.is_empty());
    let ids: Vec<&str> = again.iter().map(|q| q.id.as_str()).collect();
    assert_eq!(ids, vec!["a", "c"]);
}

#[test]
fn model_loading_checks_the_opset() {
    let g = || graph(vec![value("spectrum", None), value("aux", None)], vec![value("probs", None)]);
    let loaded = match OnnxModel::from_info(&model(8, Some(g()))) {
        Ok(m) => m,
        Err(_) => panic!("model not loaded"),
    };
    assert_eq!(loaded.input_name, "spectrum");
    assert_eq!(loaded.output_name, "probs");
    assert_eq!(loaded.metadata.opset_version, 13);
    for bad in [6i64, 22, 0] {
        let mut info = model(8, Some(g()));
        info.opset_versions = vec![bad];
        match OnnxModel::from_info(&info) {
            Err(OnnxError::UnsupportedOpset(v, range)) => {
                assert_eq!(v, bad);
                assert_eq!(range, "7-21");
            }
            _ => panic!("expected an unsupported opset"),
        }
    }
    let mut none = model(8, Some(g()));
    none.opset_versions = vec![];
    assert!(matches!(OnnxModel::from_info(&none), Err(OnnxError::UnsupportedOpset(0, _))));
    for ok in [7i64, 21] {
        let mut info = model(8, Some(g()));
        info.opset_versions = vec![ok];
        assert!(OnnxModel::from_info(&info).is_ok());
    }
    assert!(matches!(OnnxModel::from_info(&model(8, None)), Err(OnnxError::MissingGraph)));
}

fn loaded() -> OnnxModel {
    match OnnxModel::from_info(&model(8, Some(graph(vec![value("spectrum", None)], vec![value("probs", None)])))) {
        Ok(m) => m,
        Err(_) => panic!("model not loaded"),
    }
}

#[test]
fn model_cache_bookkeeping() {
    let mut cache = ModelCache::new();
    assert!(cache.isotope_classifier().is_none());
    cache.load_model(s("anomaly"), loaded(), s("1.0"), 10);
    cache.load_model(s("isotope_classifier"), loaded(), s("2.0"), 20);
    let iso = cache.isotope_classifier().expect("loaded");
    assert_eq!((iso.version.as_str(), iso.loaded_at_ms), ("2.0", 20));
    cache.hot_swap_model(s("isotope_classifier"), loaded(), s("2.1"), 30);
    assert_eq!(cache.isotope_classifier().map(|m| m.version.clone()), Some(s("2.1")));
    let mut versions = cache.model_versions();
    versions.sort();
    assert_eq!(versions, vec![(s("anomaly_version"), s("1.0")), (s("isotope_classifier_version"), s("2.1"))]);
}
