//! Exporting classifiers to ONNX: export settings, model metadata, and the
//! checks made before and after an export.
use vstd::prelude::*;
use crate::ml::OnnxModelInfo;
use crate::text::{concat_strs, signed_decimal, signed_decimal_string};

verus! {

/// Export errors; errors of other libraries are held as their messages.
pub enum ExportError {
    Io(String),
    Candle(String),
    InvalidArchitecture(String),
    UnsupportedOperation(String),
    Serialization(String),
    Validation(String),
}

/// Which dimensions of a named input or output may vary.
pub struct DynamicAxis {
    pub name: String,
    pub dimensions: Vec<Option<i64>>,
}

/// Model metadata written into an exported model.
pub struct ModelMetadata {
    pub name: String,
    pub version: String,
    pub description: String,
    pub author: String,
    pub domain: String,
    pub model_version: i64,
    pub doc_string: String,
}

impl ModelMetadata {
    /// The metadata of the radiation classifier.
    pub fn default() -> (m: ModelMetadata)
        ensures
            m.name@ == "CherenkovRadiationClassifier"@,
            m.version@ == "1.0.0"@,
            m.description@ == "Neural network for radiation isotope classification"@,
            m.author@ == "Cherenkov ML Team"@,
            m.domain@ == "radiation-spectroscopy"@,
            m.model_version == 1,
            m.doc_string@ == "Trained model for classifying radiation spectra into isotope categories"@,
    {
        ModelMetadata {
            name: String::from_str("CherenkovRadiationClassifier"),
            version: String::from_str("1.0.0"),
            description: String::from_str("Neural network for radiation isotope classification"),
            author: String::from_str("Cherenkov ML Team"),
            domain: String::from_str("radiation-spectroscopy"),
            model_version: 1,
            doc_string: String::from_str("Trained model for classifying radiation spectra into isotope categories"),
        }
    }
}

/// Export configuration.
pub struct ExportConfig {
    pub opset_version: i64,
    pub input_names: Vec<String>,
    pub output_names: Vec<String>,
    pub dynamic_axes: Option<Vec<DynamicAxis>>,
    pub metadata: Option<ModelMetadata>,
    pub optimize: bool,
    pub validate: bool,
}

impl ExportConfig {
    /// Opset 17, one input `input` and one output `output`, no dynamic axes or
    /// metadata, optimized and validated.
    pub fn default() -> (c: ExportConfig)
        ensures
            c.opset_version == 17,
            c.input_names@.len() == 1 && c.input_names@[0]@ == "input"@,
            c.output_names@.len() == 1 && c.output_names@[0]@ == "output"@,
            c.dynamic_axes is None && c.metadata is None,
            c.optimize && c.validate,
    {
        let mut input_names: Vec<String> = Vec::new();
        input_names.push(String::from_str("input"));
        let mut output_names: Vec<String> = Vec::new();
        output_names.push(String::from_str("output"));
        ExportConfig {
            opset_version: 17,
            input_names,
            output_names,
            dynamic_axes: None,
            metadata: None,
            optimize: true,
            validate: true,
        }
    }
}

/// What an export produced.
pub struct ExportReport {
    pub output_path: String,
    pub input_shape: Vec<usize>,
    pub output_shape: Vec<usize>,
    pub opset_version: i64,
    pub file_size_bytes: usize,
    pub exported_at: String,
}

/// Exports models with a configuration.
pub struct OnnxExporter {
    pub config: ExportConfig,
}

/// Whether an error is a validation error with this message.
pub open spec fn is_validation(e: ExportError, m: Seq<char>) -> bool {
    e matches ExportError::Validation(s) && s@ == m
}

impl OnnxExporter {
    /// An exporter with the default configuration.
    pub fn new() -> (e: OnnxExporter)
        ensures
            e.config.opset_version == 17 && e.config.optimize && e.config.validate,
            e.config.input_names@.len() == 1 && e.config.input_names@[0]@ == "input"@,
            e.config.output_names@.len() == 1 && e.config.output_names@[0]@ == "output"@,
            e.config.dynamic_axes is None && e.config.metadata is None,
    {
        OnnxExporter { config: ExportConfig::default() }
    }

    /// An exporter with this configuration.
    pub fn with_config(config: ExportConfig) -> (e: OnnxExporter)
        ensures
            e.config == config,
    {
        OnnxExporter { config }
    }

    /// Checks the shapes handed to an export: neither may be empty.
    pub fn validate_shapes(&self, input: &Vec<usize>, output: &Vec<usize>) -> (r: Result<(), ExportError>)
        ensures
            input@.len() == 0 ==> (r matches Err(e) && is_validation(e, "Input shape cannot be empty"@)),
            input@.len() > 0 && output@.len() == 0 ==> (r matches Err(e) && is_validation(e, "Output shape cannot be empty"@)),
            input@.len() > 0 && output@.len() > 0 ==> r is Ok,
    {
        if input.len() == 0 {
            return Err(ExportError::Validation(String::from_str("Input shape cannot be empty")));
        }
        if output.len() == 0 {
            return Err(ExportError::Validation(String::from_str("Output shape cannot be empty")));
        }
        Ok(())
    }

    /// Checks an exported model, read back: IR version 7 or later, a graph,
    /// at least one input and one output (checked in that order).
    pub fn validate_export(&self, model: &OnnxModelInfo) -> (r: Result<(), ExportError>)
        ensures
            model.ir_version < 7 ==> (r matches Err(e)
                && is_validation(e, "IR version "@ + signed_decimal(model.ir_version as int) + " is too old"@)),
            model.ir_version >= 7 ==> match model.graph {
                None => r matches Err(e) && is_validation(e, "Model has no graph"@),
                Some(g) => if g.inputs@.len() == 0 {
                    r matches Err(e) && is_validation(e, "Model has no inputs"@)
                } else if g.outputs@.len() == 0 {
                    r matches Err(e) && is_validation(e, "Model has no outputs"@)
                } else {
                    r is Ok
                },
            },
    {
        if model.ir_version < 7 {
            let v = signed_decimal_string(model.ir_version);
            let head = concat_strs("IR version ", v.as_str());
            return Err(ExportError::Validation(concat_strs(head.as_str(), " is too old")));
        }
        match &model.graph {
            Some(g) => {
                if g.inputs.len() == 0 {
                    return Err(ExportError::Validation(String::from_str("Model has no inputs")));
                }
                if g.outputs.len() == 0 {
                    return Err(ExportError::Validation(String::from_str("Model has no outputs")));
                }
                Ok(())
            },
            None => Err(ExportError::Validation(String::from_str("Model has no graph"))),
        }
    }
}

} // verus!
