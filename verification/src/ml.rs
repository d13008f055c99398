//! Isotope classification: model metadata and input validation, class
//! labels, anomaly classes and their severities, and the training schedule.
//!
//! An ONNX model is described by the plain values that the checks read
//! (`OnnxModelInfo`); confidences and other measurements stay with the caller.
use vstd::prelude::*;
use crate::common::Severity;
use crate::storage::F64Bits;
use crate::text::{has_prefix, concat_strs, decimal, decimal_string, signed_decimal, signed_decimal_string, str_eq, string_from_chars, chars_of};
use crate::conversion::{sizes_debug, sizes_text};

verus! {

// ---------------------------------------------------------------------------
// Models and their metadata
// ---------------------------------------------------------------------------

/// Model loading and inference errors; errors of other libraries are held as
/// their messages.
#[allow(inconsistent_fields)]
pub enum OnnxError {
    FileRead(String),
    ParseError(String),
    MissingGraph,
    MissingInputs,
    MissingOutputs,
    UnsupportedOpset(i64, String),
    InputShapeMismatch { expected: Vec<usize>, actual: Vec<usize> },
    InputNotFound(String),
    InferenceFailed(String),
    NoOutput,
    ValidationFailed(String),
}

/// What an error says, as its `Display` text.
pub open spec fn onnx_error_text(e: OnnxError) -> Seq<char> {
    match e {
        OnnxError::FileRead(m) => "Failed to read model file: "@ + m@,
        OnnxError::ParseError(m) => "Failed to parse ONNX model: "@ + m@,
        OnnxError::MissingGraph => "Model has no graph"@,
        OnnxError::MissingInputs => "Model has no inputs"@,
        OnnxError::MissingOutputs => "Model has no outputs"@,
        OnnxError::UnsupportedOpset(v, s) => "Unsupported ONNX opset version: "@ + signed_decimal(v as int) + ". Supported: "@ + s@,
        OnnxError::InputShapeMismatch { expected, actual } =>
            "Input shape mismatch: expected "@ + sizes_debug(expected@) + ", got "@ + sizes_debug(actual@),
        OnnxError::InputNotFound(m) => "Input name not found: "@ + m@,
        OnnxError::InferenceFailed(m) => "Inference failed: "@ + m@,
        OnnxError::NoOutput => "No output tensor found"@,
        OnnxError::ValidationFailed(m) => "Model validation failed: "@ + m@,
    }
}

impl OnnxError {
    /// The error's message.
    pub fn message(&self) -> (s: String)
        ensures
            s@ == onnx_error_text(*self),
    {
        match self {
            OnnxError::FileRead(m) => concat_strs("Failed to read model file: ", m.as_str()),
            OnnxError::ParseError(m) => concat_strs("Failed to parse ONNX model: ", m.as_str()),
            OnnxError::MissingGraph => String::from_str("Model has no graph"),
            OnnxError::MissingInputs => String::from_str("Model has no inputs"),
            OnnxError::MissingOutputs => String::from_str("Model has no outputs"),
            OnnxError::UnsupportedOpset(v, s) => {
                let a = concat_strs("Unsupported ONNX opset version: ", signed_decimal_string(*v).as_str());
                let b = concat_strs(a.as_str(), ". Supported: ");
                concat_strs(b.as_str(), s.as_str())
            },
            OnnxError::InputShapeMismatch { expected, actual } => {
                let a = concat_strs("Input shape mismatch: expected ", sizes_text(expected).as_str());
                let b = concat_strs(a.as_str(), ", got ");
                concat_strs(b.as_str(), sizes_text(actual).as_str())
            },
            OnnxError::InputNotFound(m) => concat_strs("Input name not found: ", m.as_str()),
            OnnxError::InferenceFailed(m) => concat_strs("Inference failed: ", m.as_str()),
            OnnxError::NoOutput => String::from_str("No output tensor found"),
            OnnxError::ValidationFailed(m) => concat_strs("Model validation failed: ", m.as_str()),
        }
    }
}

/// Model metadata for validation.
pub struct ModelMetadata {
    pub input_names: Vec<String>,
    pub output_names: Vec<String>,
    pub input_shapes: Vec<Vec<usize>>,
    pub output_shapes: Vec<Vec<usize>>,
    pub opset_version: i64,
    pub producer_name: String,
    pub producer_version: String,
}

/// A graph input or output: its name and, when it is a tensor with a known
/// shape, each dimension's fixed size (`None` for a symbolic or missing one).
pub struct OnnxValueInfo {
    pub name: String,
    pub shape: Option<Vec<Option<i64>>>,
}

/// The parts of a model graph that are checked.
pub struct OnnxGraph {
    pub name: String,
    pub inputs: Vec<OnnxValueInfo>,
    pub outputs: Vec<OnnxValueInfo>,
    pub num_nodes: usize,
    pub num_initializers: usize,
}

/// The parts of an ONNX model that are checked.
pub struct OnnxModelInfo {
    pub ir_version: i64,
    /// Versions of the imported operator sets, in order.
    pub opset_versions: Vec<i64>,
    pub producer_name: String,
    pub producer_version: String,
    pub domain: String,
    pub model_version: i64,
    pub doc_string: String,
    pub graph: Option<OnnxGraph>,
}

/// The fixed dimensions of a shape, in order: positive sizes only.
pub open spec fn fixed_dims(dims: Seq<Option<i64>>) -> Seq<usize>
    decreases dims.len(),
{
    if dims.len() == 0 {
        Seq::empty()
    } else {
        let rest = fixed_dims(dims.drop_last());
        match dims.last() {
            Some(v) => if v > 0 { rest.push(v as usize) } else { rest },
            None => rest,
        }
    }
}

/// The shape of a tensor: its fixed dimensions, or nothing when unknown.
pub open spec fn shape_of(shape: Option<Seq<Option<i64>>>) -> Seq<usize> {
    match shape {
        Some(d) => fixed_dims(d),
        None => Seq::empty(),
    }
}

/// The opset version a model declares first, 0 when it declares none.
pub open spec fn first_opset(v: Seq<i64>) -> i64 {
    if v.len() > 0 { v[0] } else { 0 }
}

/// The view of an optional list of dimensions.
pub open spec fn dims_view(shape: Option<Vec<Option<i64>>>) -> Option<Seq<Option<i64>>> {
    match shape {
        Some(d) => Some(d@),
        None => None,
    }
}

/// Extracts a tensor shape, keeping the positive fixed dimensions.
pub fn extract_shape(shape: &Option<Vec<Option<i64>>>) -> (dims: Vec<usize>)
    ensures
        dims@ == shape_of(dims_view(*shape)),
{
    match shape {
        None => Vec::new(),
        Some(d) => {
            let mut out: Vec<usize> = Vec::new();
            let mut i: usize = 0;
            while i < d.len()
                invariant
                    i <= d@.len(),
                    out@ == fixed_dims(d@.take(i as int)),
                decreases d.len() - i,
            {
                proof {
                    assert(d@.take(i + 1).drop_last() =~= d@.take(i as int));
                }
                match d[i] {
                    Some(v) => if v > 0 {
                        out.push(v as usize);
                    },
                    None => {},
                }
                i = i + 1;
            }
            assert(d@.take(d@.len() as int) =~= d@);
            out
        },
    }
}

/// The names of a list of inputs or outputs.
pub open spec fn info_names(v: Seq<OnnxValueInfo>) -> Seq<Seq<char>> {
    v.map_values(|i: OnnxValueInfo| i.name@)
}

/// The shapes of a list of inputs or outputs.
pub open spec fn info_shapes(v: Seq<OnnxValueInfo>) -> Seq<Seq<usize>> {
    v.map_values(|i: OnnxValueInfo| shape_of(dims_view(i.shape)))
}

fn names_and_shapes(v: &Vec<OnnxValueInfo>) -> (r: (Vec<String>, Vec<Vec<usize>>))
    ensures
        r.0@.map_values(|s: String| s@) == info_names(v@),
        r.1@.map_values(|d: Vec<usize>| d@) == info_shapes(v@),
{
    let mut names: Vec<String> = Vec::new();
    let mut shapes: Vec<Vec<usize>> = Vec::new();
    let mut i: usize = 0;
    while i < v.len()
        invariant
            i <= v@.len(),
            names@.map_values(|s: String| s@) == info_names(v@).take(i as int),
            shapes@.map_values(|d: Vec<usize>| d@) == info_shapes(v@).take(i as int),
        decreases v.len() - i,
    {
        let ghost n0 = names@;
        let ghost s0 = shapes@;
        let name = v[i].name.clone();
        let dims = extract_shape(&v[i].shape);
        assert(name@ == info_names(v@)[i as int]);
        assert(dims@ == info_shapes(v@)[i as int]);
        names.push(name);
        shapes.push(dims);
        proof {
            assert(names@.map_values(|s: String| s@) =~= n0.map_values(|s: String| s@).push(info_names(v@)[i as int]));
            assert(info_names(v@).take(i + 1) =~= info_names(v@).take(i as int).push(info_names(v@)[i as int]));
            assert(shapes@.map_values(|d: Vec<usize>| d@) =~= s0.map_values(|d: Vec<usize>| d@).push(info_shapes(v@)[i as int]));
            assert(info_shapes(v@).take(i + 1) =~= info_shapes(v@).take(i as int).push(info_shapes(v@)[i as int]));
        }
        i = i + 1;
    }
    assert(info_names(v@).take(v@.len() as int) =~= info_names(v@));
    assert(info_shapes(v@).take(v@.len() as int) =~= info_shapes(v@));
    (names, shapes)
}

/// Reads a model's metadata: the model must have a graph, with at least one
/// input and one output (checked in that order).
pub fn extract_metadata(model: &OnnxModelInfo) -> (r: Result<ModelMetadata, OnnxError>)
    ensures
        match model.graph {
            None => r matches Err(e) && e is MissingGraph,
            Some(g) => if g.inputs@.len() == 0 {
                r matches Err(e) && e is MissingInputs
            } else if g.outputs@.len() == 0 {
                r matches Err(e) && e is MissingOutputs
            } else {
                r matches Ok(m) && {
                    &&& m.input_names@.map_values(|s: String| s@) == info_names(g.inputs@)
                    &&& m.output_names@.map_values(|s: String| s@) == info_names(g.outputs@)
                    &&& m.input_shapes@.map_values(|d: Vec<usize>| d@) == info_shapes(g.inputs@)
                    &&& m.output_shapes@.map_values(|d: Vec<usize>| d@) == info_shapes(g.outputs@)
                    &&& m.opset_version == first_opset(model.opset_versions@)
                    &&& m.producer_name@ == model.producer_name@
                    &&& m.producer_version@ == model.producer_version@
                }
            },
        },
{
    let opset_version = if model.opset_versions.len() > 0 { model.opset_versions[0] } else { 0 };
    let graph = match &model.graph {
        Some(g) => g,
        None => return Err(OnnxError::MissingGraph),
    };
    if graph.inputs.len() == 0 {
        return Err(OnnxError::MissingInputs);
    }
    if graph.outputs.len() == 0 {
        return Err(OnnxError::MissingOutputs);
    }
    let (input_names, input_shapes) = names_and_shapes(&graph.inputs);
    let (output_names, output_shapes) = names_and_shapes(&graph.outputs);
    Ok(ModelMetadata {
        input_names,
        output_names,
        input_shapes,
        output_shapes,
        opset_version,
        producer_name: model.producer_name.clone(),
        producer_version: model.producer_version.clone(),
    })
}

/// A loaded model's names and metadata; the model itself and the device it
/// runs on stay with the inference runtime.
pub struct OnnxModel {
    pub input_name: String,
    pub output_name: String,
    pub metadata: ModelMetadata,
}

/// Whether `actual` has `expected`'s rank and agrees with it on every fixed
/// (non-zero) dimension.
pub open spec fn shape_accepts(expected: Seq<usize>, actual: Seq<usize>) -> bool {
    actual.len() == expected.len()
        && forall|i: int| 0 <= i < expected.len() && expected[i] > 0 ==> #[trigger] actual[i] == expected[i]
}

/// Whether the model's operator set version is one the runtime supports: 7 to 21.
pub open spec fn opset_supported(v: i64) -> bool {
    7 <= v <= 21
}

impl OnnxModel {
    /// A model with checked metadata: refused when its operator set version is
    /// outside 7 to 21; otherwise it runs on its first input and first output.
    pub fn from_metadata(metadata: ModelMetadata) -> (r: Result<OnnxModel, OnnxError>)
        requires
            metadata.input_names@.len() > 0,
            metadata.output_names@.len() > 0,
        ensures
            !opset_supported(metadata.opset_version) ==> (r matches Err(OnnxError::UnsupportedOpset(v, s))
                && v == metadata.opset_version && s@ == "7-21"@),
            opset_supported(metadata.opset_version) ==> (r matches Ok(m) && m.metadata == metadata
                && m.input_name@ == metadata.input_names@[0]@ && m.output_name@ == metadata.output_names@[0]@),
    {
        if metadata.opset_version < 7 || metadata.opset_version > 21 {
            return Err(OnnxError::UnsupportedOpset(metadata.opset_version, String::from_str("7-21")));
        }
        let input_name = metadata.input_names[0].clone();
        let output_name = metadata.output_names[0].clone();
        Ok(OnnxModel { input_name, output_name, metadata })
    }

    /// Loads a decoded model: its metadata (`extract_metadata`), then the
    /// operator set check of `from_metadata`.
    pub fn from_info(model: &OnnxModelInfo) -> (r: Result<OnnxModel, OnnxError>)
        ensures
            match model.graph {
                None => r matches Err(e) && e is MissingGraph,
                Some(g) => if g.inputs@.len() == 0 {
                    r matches Err(e) && e is MissingInputs
                } else if g.outputs@.len() == 0 {
                    r matches Err(e) && e is MissingOutputs
                } else if !opset_supported(first_opset(model.opset_versions@)) {
                    r matches Err(OnnxError::UnsupportedOpset(v, s)) && v == first_opset(model.opset_versions@) && s@ == "7-21"@
                } else {
                    r matches Ok(m) && {
                        &&& m.metadata.input_names@.map_values(|s: String| s@) == info_names(g.inputs@)
                        &&& m.metadata.output_names@.map_values(|s: String| s@) == info_names(g.outputs@)
                        &&& m.metadata.input_shapes@.map_values(|d: Vec<usize>| d@) == info_shapes(g.inputs@)
                        &&& m.metadata.output_shapes@.map_values(|d: Vec<usize>| d@) == info_shapes(g.outputs@)
                        &&& m.metadata.opset_version == first_opset(model.opset_versions@)
                        &&& m.metadata.producer_name@ == model.producer_name@
                        &&& m.metadata.producer_version@ == model.producer_version@
                        &&& m.input_name@ == g.inputs@[0].name@
                        &&& m.output_name@ == g.outputs@[0].name@
                    }
                },
            },
    {
        let metadata = match extract_metadata(model) {
            Ok(m) => m,
            Err(e) => return Err(e),
        };
        proof {
            let g = model.graph->0;
            assert(metadata.input_names@.map_values(|s: String| s@).len() == metadata.input_names@.len());
            assert(metadata.output_names@.map_values(|s: String| s@).len() == metadata.output_names@.len());
            assert(metadata.input_names@.map_values(|s: String| s@)[0] == metadata.input_names@[0]@);
            assert(metadata.output_names@.map_values(|s: String| s@)[0] == metadata.output_names@[0]@);
            assert(info_names(g.inputs@)[0] == g.inputs@[0].name@);
            assert(info_names(g.outputs@)[0] == g.outputs@[0].name@);
        }
        OnnxModel::from_metadata(metadata)
    }

    /// The model's metadata.
    pub fn metadata(&self) -> (m: &ModelMetadata)
        ensures
            *m == self.metadata,
    {
        &self.metadata
    }

    /// Checks an input's dimensions against the first input's shape, where a
    /// zero dimension accepts any size.
    pub fn validate_input(&self, actual_shape: &Vec<usize>) -> (r: Result<(), OnnxError>)
        requires
            self.metadata.input_shapes@.len() > 0,
        ensures
            r is Ok <==> shape_accepts(self.metadata.input_shapes@[0]@, actual_shape@),
            r matches Err(e) ==> (e matches OnnxError::InputShapeMismatch { expected, actual }
                && expected@ == self.metadata.input_shapes@[0]@ && actual@ == actual_shape@),
    {
        let expected = &self.metadata.input_shapes[0];
        if actual_shape.len() != expected.len() {
            return Err(OnnxError::InputShapeMismatch { expected: expected.clone(), actual: actual_shape.clone() });
        }
        let mut i: usize = 0;
        while i < expected.len()
            invariant
                actual_shape@.len() == expected@.len(),
                self.metadata.input_shapes@.len() > 0,
                *expected == self.metadata.input_shapes@[0],
                i <= expected@.len(),
                forall|k: int| 0 <= k < i && expected@[k] > 0 ==> #[trigger] actual_shape@[k] == expected@[k],
            decreases expected.len() - i,
        {
            if expected[i] > 0 && actual_shape[i] != expected[i] {
                return Err(OnnxError::InputShapeMismatch { expected: expected.clone(), actual: actual_shape.clone() });
            }
            i = i + 1;
        }
        Ok(())
    }

    /// Whether the model takes batches: its first input's shape is empty or
    /// starts with a dynamic (zero) dimension.
    pub fn supports_batch(&self) -> (r: bool)
        ensures
            r == (self.metadata.input_shapes@.len() > 0 && {
                let s = self.metadata.input_shapes@[0]@;
                s.len() == 0 || s[0] == 0
            }),
    {
        if self.metadata.input_shapes.len() == 0 {
            return false;
        }
        let s = &self.metadata.input_shapes[0];
        s.len() == 0 || s[0] == 0
    }
}

/// A model the inference service has loaded: its name, the model, its
/// version and when it was loaded (milliseconds).
pub struct LoadedModel {
    pub name: String,
    pub model: OnnxModel,
    pub version: String,
    pub loaded_at_ms: u64,
}

/// The loaded models by name, as plain values: version and load time.
pub open spec fn loaded_map(ms: Seq<LoadedModel>) -> Map<Seq<char>, (Seq<char>, u64)>
    decreases ms.len(),
{
    if ms.len() == 0 {
        Map::empty()
    } else {
        loaded_map(ms.drop_last()).insert(ms.last().name@, (ms.last().version@, ms.last().loaded_at_ms))
    }
}

/// No model name occurs twice.
pub open spec fn loaded_names_distinct(ms: Seq<LoadedModel>) -> bool {
    forall|i: int, j: int| 0 <= i < j < ms.len() ==> #[trigger] ms[i].name@ != #[trigger] ms[j].name@
}

/// The name under which the isotope classifier is loaded.
pub open spec fn isotope_classifier_name() -> Seq<char> {
    "isotope_classifier"@
}

/// `e` is the version entry of one of the loaded models: `<name>_version`
/// and its version.
pub open spec fn version_of_loaded(models: Map<Seq<char>, (Seq<char>, u64)>, e: (String, String)) -> bool {
    exists|n: Seq<char>| models.dom().contains(n) && e.0@ == n + "_version"@ && e.1@ == models[n].0
}

/// Some entry of `r` gives `version` under `<name>_version`.
pub open spec fn lists_version(r: Seq<(String, String)>, name: Seq<char>, version: Seq<char>) -> bool {
    exists|i: int| 0 <= i < r.len() && r[i].0@ == name + "_version"@ && r[i].1@ == version
}

/// The inference service's models, one per name; the isotope classifier is
/// the one loaded as `isotope_classifier`.
pub struct ModelCache {
    models: Vec<LoadedModel>,
}

proof fn lemma_loaded_map_entries(ms: Seq<LoadedModel>)
    requires
        loaded_names_distinct(ms),
    ensures
        forall|i: int| 0 <= i < ms.len() ==> #[trigger] loaded_map(ms).dom().contains(ms[i].name@)
            && loaded_map(ms)[ms[i].name@] == (ms[i].version@, ms[i].loaded_at_ms),
        forall|n: Seq<char>| #[trigger] loaded_map(ms).dom().contains(n) ==> exists|i: int| 0 <= i < ms.len() && ms[i].name@ == n,
    decreases ms.len(),
{
    if ms.len() > 0 {
        let t = ms.drop_last();
        assert forall|i: int, j: int| 0 <= i < j < t.len() implies #[trigger] t[i].name@ != #[trigger] t[j].name@ by {
            assert(t[i] == ms[i] && t[j] == ms[j]);
        }
        lemma_loaded_map_entries(t);
        assert forall|i: int| 0 <= i < ms.len() implies #[trigger] loaded_map(ms).dom().contains(ms[i].name@)
            && loaded_map(ms)[ms[i].name@] == (ms[i].version@, ms[i].loaded_at_ms) by {
            if i < ms.len() - 1 {
                assert(ms[i] == t[i]);
                assert(ms[i].name@ != ms[ms.len() - 1].name@);
                assert(loaded_map(t).dom().contains(t[i].name@));
                assert(loaded_map(t)[t[i].name@] == (t[i].version@, t[i].loaded_at_ms));
            } else {
                assert(ms[i] == ms.last());
            }
        }
        assert forall|n: Seq<char>| #[trigger] loaded_map(ms).dom().contains(n) implies exists|i: int| 0 <= i < ms.len() && ms[i].name@ == n by {
            if n != ms.last().name@ {
                assert(loaded_map(t).dom().contains(n));
                let k = choose|k: int| 0 <= k < t.len() && t[k].name@ == n;
                assert(ms[k] == t[k]);
            } else {
                assert(ms[ms.len() - 1].name@ == n);
            }
        }
    }
}

impl ModelCache {
    /// The loaded models by name: version and load time.
    pub closed spec fn models(&self) -> Map<Seq<char>, (Seq<char>, u64)> {
        loaded_map(self.models@)
    }

    /// Each name is loaded once.
    pub closed spec fn well_formed(&self) -> bool {
        loaded_names_distinct(self.models@)
    }

    /// No model loaded.
    pub fn new() -> (c: ModelCache)
        ensures
            c.well_formed(),
            c.models() == Map::<Seq<char>, (Seq<char>, u64)>::empty(),
    {
        ModelCache { models: Vec::new() }
    }

    /// Loads `model` under `name` as `version` at `now_ms`, replacing any model
    /// loaded under that name; loading `isotope_classifier` also makes it the
    /// isotope classifier.
    pub fn load_model(&mut self, name: String, model: OnnxModel, version: String, now_ms: u64)
        requires
            old(self).well_formed(),
        ensures
            final(self).well_formed(),
            final(self).models() == old(self).models().insert(name@, (version@, now_ms)),
    {
        let ghost m0 = self.models@;
        proof { lemma_loaded_map_entries(m0); }
        let mut i: usize = 0;
        while i < self.models.len() && !str_eq(self.models[i].name.as_str(), name.as_str())
            invariant
                self.models@ == m0,
                i <= m0.len(),
                forall|k: int| 0 <= k < i ==> m0[k].name@ != name@,
            decreases self.models.len() - i,
        {
            i = i + 1;
        }
        let ghost n = name@;
        let entry = LoadedModel { name, model, version, loaded_at_ms: now_ms };
        let ghost ev = entry.version@;
        if i < self.models.len() {
            self.models.set(i, entry);
        } else {
            self.models.push(entry);
        }
        proof {
            let m1 = self.models@;
            assert forall|a: int, b: int| 0 <= a < b < m1.len() implies #[trigger] m1[a].name@ != #[trigger] m1[b].name@ by {
                if a < m0.len() && b < m0.len() && a != i && b != i {
                    assert(m1[a] == m0[a] && m1[b] == m0[b]);
                }
            }
            lemma_loaded_map_entries(m1);
            let target = loaded_map(m0).insert(n, (ev, now_ms));
            assert forall|k: Seq<char>| #[trigger] loaded_map(m1).dom().contains(k) <==> target.dom().contains(k) by {
                if loaded_map(m1).dom().contains(k) {
                    let j = choose|j: int| 0 <= j < m1.len() && m1[j].name@ == k;
                    if j < m0.len() && j != i {
                        assert(m1[j] == m0[j]);
                    }
                }
                if loaded_map(m0).dom().contains(k) && k != n {
                    let j = choose|j: int| 0 <= j < m0.len() && m0[j].name@ == k;
                    assert(j != i);
                    assert(m1[j] == m0[j]);
                }
                if k == n {
                    assert(m1[i as int].name@ == n);
                }
            }
            assert forall|k: Seq<char>| #[trigger] loaded_map(m1).dom().contains(k) implies loaded_map(m1)[k] == target[k] by {
                let j = choose|j: int| 0 <= j < m1.len() && m1[j].name@ == k;
                if j != i {
                    assert(m1[j] == m0[j]);
                } else {
                    assert(m1[j].version@ == ev);
                }
            }
            assert(loaded_map(m1) =~= target);
        }
    }

    /// Swaps in a new version of a model: the same as loading it.
    pub fn hot_swap_model(&mut self, name: String, model: OnnxModel, version: String, now_ms: u64)
        requires
            old(self).well_formed(),
        ensures
            final(self).well_formed(),
            final(self).models() == old(self).models().insert(name@, (version@, now_ms)),
    {
        self.load_model(name, model, version, now_ms);
    }

    fn find(&self, name: &str) -> (r: Option<usize>)
        requires
            self.well_formed(),
        ensures
            match r {
                Some(i) => i < self.models@.len() && self.models@[i as int].name@ == name@,
                None => !self.models().dom().contains(name@),
            },
    {
        proof { lemma_loaded_map_entries(self.models@); }
        let mut i: usize = 0;
        while i < self.models.len()
            invariant
                i <= self.models@.len(),
                forall|k: int| 0 <= k < i ==> self.models@[k].name@ != name@,
            decreases self.models.len() - i,
        {
            if str_eq(self.models[i].name.as_str(), name) {
                return Some(i);
            }
            i = i + 1;
        }
        None
    }

    /// The isotope classifier: the model loaded as `isotope_classifier`, if any.
    pub fn isotope_classifier(&self) -> (r: Option<&LoadedModel>)
        requires
            self.well_formed(),
        ensures
            match r {
                Some(m) => m.name@ == isotope_classifier_name()
                    && self.models().dom().contains(isotope_classifier_name())
                    && self.models()[isotope_classifier_name()] == (m.version@, m.loaded_at_ms),
                None => !self.models().dom().contains(isotope_classifier_name()),
            },
    {
        proof {
            reveal_strlit("isotope_classifier");
            lemma_loaded_map_entries(self.models@);
        }
        match self.find("isotope_classifier") {
            Some(i) => Some(&self.models[i]),
            None => None,
        }
    }

    /// Each loaded model's version, under the key `<name>_version`.
    pub fn model_versions(&self) -> (r: Vec<(String, String)>)
        requires
            self.well_formed(),
        ensures
            forall|i: int| 0 <= i < r@.len() ==> version_of_loaded(self.models(), #[trigger] r@[i]),
            forall|n: Seq<char>| #[trigger] self.models().dom().contains(n) ==> lists_version(r@, n, self.models()[n].0),
            r@.len() == self.models().dom().len(),
    {
        proof { lemma_loaded_map_entries(self.models@); }
        let ghost ms = self.models@;
        let mut out: Vec<(String, String)> = Vec::new();
        let mut i: usize = 0;
        while i < self.models.len()
            invariant
                ms == self.models@,
                i <= ms.len(),
                out@.len() == i,
                forall|k: int| 0 <= k < i ==> (#[trigger] out@[k]).0@ == ms[k].name@ + "_version"@ && out@[k].1@ == ms[k].version@,
            decreases self.models.len() - i,
        {
            let key = concat_strs(self.models[i].name.as_str(), "_version");
            let v = String::from_str(self.models[i].version.as_str());
            out.push((key, v));
            i = i + 1;
        }
        proof {
            assert forall|k: int| 0 <= k < out@.len() implies version_of_loaded(self.models(), #[trigger] out@[k]) by {
                let n = ms[k].name@;
                assert(self.models().dom().contains(n));
                assert(self.models()[n] == (ms[k].version@, ms[k].loaded_at_ms));
            }
            assert forall|n: Seq<char>| #[trigger] self.models().dom().contains(n) implies lists_version(out@, n, self.models()[n].0) by {
                let k = choose|k: int| 0 <= k < ms.len() && ms[k].name@ == n;
                assert(out@[k].0@ == ms[k].name@ + "_version"@);
            }
            lemma_loaded_map_len(ms);
        }
        out
    }
}

proof fn lemma_loaded_map_len(ms: Seq<LoadedModel>)
    requires
        loaded_names_distinct(ms),
    ensures
        loaded_map(ms).dom().len() == ms.len(),
        loaded_map(ms).dom().finite(),
    decreases ms.len(),
{
    if ms.len() > 0 {
        let t = ms.drop_last();
        assert forall|i: int, j: int| 0 <= i < j < t.len() implies #[trigger] t[i].name@ != #[trigger] t[j].name@ by {
            assert(t[i] == ms[i] && t[j] == ms[j]);
        }
        lemma_loaded_map_len(t);
        lemma_loaded_map_entries(t);
        if loaded_map(t).dom().contains(ms.last().name@) {
            let k = choose|k: int| 0 <= k < t.len() && t[k].name@ == ms.last().name@;
            assert(ms[k] == t[k]);
            assert(ms[k].name@ != ms[ms.len() - 1].name@);
        }
    }
}

/// Model registry errors.
#[derive(Debug)]
pub enum RegistryError {
    ModelNotFound(String),
    VersionNotFound(String, String),
    HotSwapFailed(String),
    RollbackFailed(String),
    PerformanceValidationFailed(String),
}

/// The message of a registry error.
pub open spec fn registry_error_text(e: RegistryError) -> Seq<char> {
    match e {
        RegistryError::ModelNotFound(n) => "Model not found: "@ + n@,
        RegistryError::VersionNotFound(n, v) => "Version not found: "@ + n@ + "@"@ + v@,
        RegistryError::HotSwapFailed(m) => "Hot swap failed: "@ + m@,
        RegistryError::RollbackFailed(m) => "Rollback failed: "@ + m@,
        RegistryError::PerformanceValidationFailed(m) => "Performance validation failed: "@ + m@,
    }
}

impl RegistryError {
    /// The error's message.
    pub fn message(&self) -> (s: String)
        ensures
            s@ == registry_error_text(*self),
    {
        match self {
            RegistryError::ModelNotFound(n) => concat_strs("Model not found: ", n.as_str()),
            RegistryError::VersionNotFound(n, v) => {
                let a = concat_strs("Version not found: ", n.as_str());
                let b = concat_strs(a.as_str(), "@");
                concat_strs(b.as_str(), v.as_str())
            },
            RegistryError::HotSwapFailed(m) => concat_strs("Hot swap failed: ", m.as_str()),
            RegistryError::RollbackFailed(m) => concat_strs("Rollback failed: ", m.as_str()),
            RegistryError::PerformanceValidationFailed(m) => concat_strs("Performance validation failed: ", m.as_str()),
        }
    }
}

/// ONNX-specific metadata of a model.
pub struct OnnxModelMetadata {
    pub ir_version: i64,
    pub opset_version: i64,
    pub producer_name: String,
    pub producer_version: String,
    pub domain: String,
    pub model_version: i64,
    pub doc_string: String,
    pub graph_name: String,
    pub num_inputs: usize,
    pub num_outputs: usize,
    pub num_nodes: usize,
    pub num_initializers: usize,
}

impl OnnxModelMetadata {
    /// Summarizes a model; a model without a graph counts no inputs, outputs,
    /// nodes or initializers and has an empty graph name.
    pub fn from_model(model: &OnnxModelInfo) -> (m: OnnxModelMetadata)
        ensures
            m.ir_version == model.ir_version,
            m.opset_version == first_opset(model.opset_versions@),
            m.producer_name@ == model.producer_name@ && m.producer_version@ == model.producer_version@,
            m.domain@ == model.domain@ && m.doc_string@ == model.doc_string@,
            m.model_version == model.model_version,
            match model.graph {
                Some(g) => m.graph_name@ == g.name@ && m.num_inputs == g.inputs@.len()
                    && m.num_outputs == g.outputs@.len() && m.num_nodes == g.num_nodes
                    && m.num_initializers == g.num_initializers,
                None => m.graph_name@.len() == 0 && m.num_inputs == 0 && m.num_outputs == 0
                    && m.num_nodes == 0 && m.num_initializers == 0,
            },
    {
        let opset_version = if model.opset_versions.len() > 0 { model.opset_versions[0] } else { 0 };
        let (graph_name, num_inputs, num_outputs, num_nodes, num_initializers) = match &model.graph {
            Some(g) => (g.name.clone(), g.inputs.len(), g.outputs.len(), g.num_nodes, g.num_initializers),
            None => (String::new(), 0, 0, 0, 0),
        };
        OnnxModelMetadata {
            ir_version: model.ir_version,
            opset_version,
            producer_name: model.producer_name.clone(),
            producer_version: model.producer_version.clone(),
            domain: model.domain.clone(),
            model_version: model.model_version,
            doc_string: model.doc_string.clone(),
            graph_name,
            num_inputs,
            num_outputs,
            num_nodes,
            num_initializers,
        }
    }
}

// ---------------------------------------------------------------------------
// Isotope labels
// ---------------------------------------------------------------------------

/// The isotopes the classifier knows, by class index.
pub open spec fn isotope_table() -> Seq<Seq<char>> {
    seq![
        "Cs-137"@, "Co-60"@, "Am-241"@, "Sr-90"@, "I-131"@,
        "Xe-133"@, "Ba-133"@, "Eu-152"@, "Pu-239"@, "U-235"@,
        "Th-232"@, "Ra-226"@, "K-40"@, "Rn-222"@, "Po-210"@,
    ]
}

/// The label of class `id`: the isotope's symbol, or `Unknown-` and the index.
pub open spec fn isotope_label(id: nat) -> Seq<char> {
    if id < 15 { isotope_table()[id as int] } else { "Unknown-"@ + decimal(id) }
}

/// The label of class `id`.
pub fn id_to_isotope(id: usize) -> (s: String)
    ensures
        s@ == isotope_label(id as nat),
{
    let symbol = match id {
        0 => "Cs-137",
        1 => "Co-60",
        2 => "Am-241",
        3 => "Sr-90",
        4 => "I-131",
        5 => "Xe-133",
        6 => "Ba-133",
        7 => "Eu-152",
        8 => "Pu-239",
        9 => "U-235",
        10 => "Th-232",
        11 => "Ra-226",
        12 => "K-40",
        13 => "Rn-222",
        14 => "Po-210",
        _ => {
            let digits = decimal_string(id as u64);
            let mut out = String::from_str("Unknown-");
            out.append(digits.as_str());
            return out;
        },
    };
    String::from_str(symbol)
}

/// How an isotope decays.
#[derive(PartialEq, Eq, Structural, Clone, Copy, Debug)]
pub enum DecayMode {
    Alpha,
    Beta,
    Gamma,
    ElectronCapture,
    IsomericTransition,
}

// ---------------------------------------------------------------------------
// Anomaly classes
// ---------------------------------------------------------------------------

/// Kinds of radiation anomaly.
#[derive(PartialEq, Eq, Structural, Clone, Copy, Debug, Hash)]
pub enum AnomalyClass {
    NaturalBackground,
    MedicalIsotope,
    IndustrialSource,
    NuclearMaterial,
    CosmicRay,
    Unknown,
}

/// The name of a class.
pub open spec fn class_name(c: AnomalyClass) -> Seq<char> {
    match c {
        AnomalyClass::NaturalBackground => "natural_background"@,
        AnomalyClass::MedicalIsotope => "medical_isotope"@,
        AnomalyClass::IndustrialSource => "industrial_source"@,
        AnomalyClass::NuclearMaterial => "nuclear_material"@,
        AnomalyClass::CosmicRay => "cosmic_ray"@,
        AnomalyClass::Unknown => "unknown"@,
    }
}

/// How severe an anomaly of a class is.
pub open spec fn class_severity(c: AnomalyClass) -> Severity {
    match c {
        AnomalyClass::NaturalBackground => Severity::Info,
        AnomalyClass::MedicalIsotope => Severity::Warning,
        AnomalyClass::IndustrialSource => Severity::Warning,
        AnomalyClass::NuclearMaterial => Severity::Critical,
        AnomalyClass::CosmicRay => Severity::Info,
        AnomalyClass::Unknown => Severity::Warning,
    }
}

impl AnomalyClass {
    /// The class's name.
    pub fn as_str(&self) -> (s: &'static str)
        ensures
            s@ == class_name(*self),
    {
        match self {
            AnomalyClass::NaturalBackground => "natural_background",
            AnomalyClass::MedicalIsotope => "medical_isotope",
            AnomalyClass::IndustrialSource => "industrial_source",
            AnomalyClass::NuclearMaterial => "nuclear_material",
            AnomalyClass::CosmicRay => "cosmic_ray",
            AnomalyClass::Unknown => "unknown",
        }
    }

    /// How severe an anomaly of this class is.
    pub fn severity(&self) -> (s: Severity)
        ensures
            s == class_severity(*self),
    {
        match self {
            AnomalyClass::NaturalBackground => Severity::Info,
            AnomalyClass::MedicalIsotope => Severity::Warning,
            AnomalyClass::IndustrialSource => Severity::Warning,
            AnomalyClass::NuclearMaterial => Severity::Critical,
            AnomalyClass::CosmicRay => Severity::Info,
            AnomalyClass::Unknown => Severity::Warning,
        }
    }
}

/// The class an isotope symbol points to.
pub open spec fn isotope_class_spec(symbol: Seq<char>) -> AnomalyClass {
    if symbol == "Cs-137"@ || symbol == "Co-60"@ || symbol == "Ir-192"@ {
        AnomalyClass::IndustrialSource
    } else if symbol == "Tc-99m"@ || symbol == "I-131"@ || symbol == "F-18"@ {
        AnomalyClass::MedicalIsotope
    } else if symbol == "U-235"@ || symbol == "Pu-239"@ || symbol == "Am-241"@ {
        AnomalyClass::NuclearMaterial
    } else if symbol == "K-40"@ || symbol == "Th-232"@ || symbol == "U-238"@ {
        AnomalyClass::NaturalBackground
    } else {
        AnomalyClass::Unknown
    }
}

/// The class an isotope symbol points to.
pub fn isotope_class(symbol: &str) -> (c: AnomalyClass)
    ensures
        c == isotope_class_spec(symbol@),
{
    if str_eq(symbol, "Cs-137") || str_eq(symbol, "Co-60") || str_eq(symbol, "Ir-192") {
        AnomalyClass::IndustrialSource
    } else if str_eq(symbol, "Tc-99m") || str_eq(symbol, "I-131") || str_eq(symbol, "F-18") {
        AnomalyClass::MedicalIsotope
    } else if str_eq(symbol, "U-235") || str_eq(symbol, "Pu-239") || str_eq(symbol, "Am-241") {
        AnomalyClass::NuclearMaterial
    } else if str_eq(symbol, "K-40") || str_eq(symbol, "Th-232") || str_eq(symbol, "U-238") {
        AnomalyClass::NaturalBackground
    } else {
        AnomalyClass::Unknown
    }
}

/// The classes of a list of predicted isotopes, each once, in order of first
/// appearance.
pub open spec fn classes_of(symbols: Seq<Seq<char>>) -> Seq<AnomalyClass>
    decreases symbols.len(),
{
    if symbols.len() == 0 {
        Seq::empty()
    } else {
        let rest = classes_of(symbols.drop_last());
        let c = isotope_class_spec(symbols.last());
        if rest.contains(c) { rest } else { rest.push(c) }
    }
}

/// The anomaly classes of a classification: the classes of its predicted
/// isotopes, each once in order of first appearance; `Unknown` alone when
/// nothing was predicted.
pub open spec fn anomaly_classes_spec(symbols: Seq<Seq<char>>) -> Seq<AnomalyClass> {
    if symbols.len() == 0 { seq![AnomalyClass::Unknown] } else { classes_of(symbols) }
}

/// The anomaly classes of a classification, from its predicted isotope symbols.
pub fn detect_anomaly_classes(symbols: &Vec<String>) -> (classes: Vec<AnomalyClass>)
    ensures
        classes@ == anomaly_classes_spec(symbols@.map_values(|s: String| s@)),
{
    let ghost syms = symbols@.map_values(|s: String| s@);
    let mut classes: Vec<AnomalyClass> = Vec::new();
    let mut i: usize = 0;
    while i < symbols.len()
        invariant
            i <= symbols@.len(),
            syms == symbols@.map_values(|s: String| s@),
            classes@ == classes_of(syms.take(i as int)),
        decreases symbols.len() - i,
    {
        let c = isotope_class(symbols[i].as_str());
        proof {
            assert(syms.take(i + 1).drop_last() =~= syms.take(i as int));
            assert(syms.take(i + 1).last() == symbols@[i as int]@);
        }
        let mut seen = false;
        let mut k: usize = 0;
        while k < classes.len()
            invariant
                k <= classes@.len(),
                seen == (exists|j: int| 0 <= j < k && classes@[j] == c),
            decreases classes.len() - k,
        {
            if classes[k] == c {
                seen = true;
            }
            k = k + 1;
        }
        proof {
            if classes@.contains(c) {
                let j = choose|j: int| 0 <= j < classes@.len() && classes@[j] == c;
                assert(seen);
            }
        }
        if !seen {
            classes.push(c);
        }
        i = i + 1;
    }
    assert(syms.take(symbols@.len() as int) =~= syms);
    if classes.len() == 0 {
        classes.push(AnomalyClass::Unknown);
        proof {
            if syms.len() > 0 {
                lemma_classes_nonempty(syms);
            }
        }
    }
    classes
}

proof fn lemma_classes_nonempty(symbols: Seq<Seq<char>>)
    requires
        symbols.len() > 0,
    ensures
        classes_of(symbols).len() > 0,
    decreases symbols.len(),
{
    if symbols.drop_last().len() > 0 {
        lemma_classes_nonempty(symbols.drop_last());
    }
}

proof fn lemma_classes_distinct(symbols: Seq<Seq<char>>)
    ensures
        forall|i: int, j: int| 0 <= i < j < classes_of(symbols).len() ==> classes_of(symbols)[i] != classes_of(symbols)[j],
        forall|k: int| 0 <= k < symbols.len() ==> classes_of(symbols).contains(#[trigger] isotope_class_spec(symbols[k])),
        forall|i: int| #![trigger classes_of(symbols)[i]] 0 <= i < classes_of(symbols).len() ==> exists|k: int| 0 <= k < symbols.len()
            && classes_of(symbols)[i] == #[trigger] isotope_class_spec(symbols[k]),
    decreases symbols.len(),
{
    if symbols.len() > 0 {
        let rest = symbols.drop_last();
        lemma_classes_distinct(rest);
        let c = isotope_class_spec(symbols.last());
        let out = classes_of(symbols);
        assert forall|k: int| 0 <= k < symbols.len() implies out.contains(#[trigger] isotope_class_spec(symbols[k])) by {
            if k < symbols.len() - 1 {
                assert(symbols[k] == rest[k]);
                let j = choose|j: int| 0 <= j < classes_of(rest).len() && classes_of(rest)[j] == isotope_class_spec(rest[k]);
                assert(out[j] == classes_of(rest)[j]);
            } else if !classes_of(rest).contains(c) {
                assert(out[out.len() - 1] == c);
            }
        }
        assert forall|i: int| #![trigger out[i]] 0 <= i < out.len() implies exists|k: int| 0 <= k < symbols.len()
            && out[i] == #[trigger] isotope_class_spec(symbols[k]) by {
            if i < classes_of(rest).len() {
                let k = choose|k: int| 0 <= k < rest.len() && classes_of(rest)[i] == #[trigger] isotope_class_spec(rest[k]);
                assert(symbols[k] == rest[k]);
            } else {
                assert(out[i] == isotope_class_spec(symbols[symbols.len() - 1]));
            }
        }
    }
}

/// The mass number written at the end of an isotope symbol is odd.
pub open spec fn odd_mass(s: Seq<char>) -> bool {
    s.len() > 0 && (s.last() == '1' || s.last() == '3' || s.last() == '5' || s.last() == '7' || s.last() == '9')
}

/// The mass number written at the end of an isotope symbol is even.
pub open spec fn even_mass(s: Seq<char>) -> bool {
    s.len() > 0 && (s.last() == '0' || s.last() == '2' || s.last() == '4' || s.last() == '6' || s.last() == '8')
}

/// The symbol names an isotope of an actinide (actinium to curium).
pub open spec fn actinide(s: Seq<char>) -> bool {
    has_prefix(s, "Ac-"@) || has_prefix(s, "Th-"@) || has_prefix(s, "Pa-"@) || has_prefix(s, "U-"@)
        || has_prefix(s, "Np-"@) || has_prefix(s, "Pu-"@) || has_prefix(s, "Am-"@) || has_prefix(s, "Cm-"@)
}

/// The half-life, in hours and rounded, of the isotopes the classifier names.
pub open spec fn half_life_hours(symbol: Seq<char>) -> Option<int> {
    if symbol == "Cs-137"@ { Some(263_700) }
    else if symbol == "Co-60"@ { Some(46_200) }
    else if symbol == "Ir-192"@ { Some(1_771) }
    else if symbol == "Tc-99m"@ { Some(6) }
    else if symbol == "I-131"@ { Some(192) }
    else if symbol == "F-18"@ { Some(2) }
    else if symbol == "U-235"@ { Some(6_171_000_000_000) }
    else if symbol == "Pu-239"@ { Some(211_350_000) }
    else if symbol == "Am-241"@ { Some(3_787_000) }
    else if symbol == "K-40"@ { Some(10_960_000_000_000) }
    else if symbol == "Th-232"@ { Some(122_700_000_000_000) }
    else if symbol == "U-238"@ { Some(39_180_000_000_000) }
    else { None }
}

/// Medical isotopes are the short-lived ones (under ten days), industrial
/// sources live from weeks to a century, and natural background nuclides are
/// primordial (over a hundred million years): each class is told by how long
/// its isotopes last.
pub proof fn law_classes_follow_half_life(symbol: Seq<char>)
    ensures
        isotope_class_spec(symbol) == AnomalyClass::MedicalIsotope ==> (half_life_hours(symbol) matches Some(h) && h < 240),
        isotope_class_spec(symbol) == AnomalyClass::IndustrialSource ==> (half_life_hours(symbol) matches Some(h)
            && 720 <= h <= 876_600),
        isotope_class_spec(symbol) == AnomalyClass::NaturalBackground ==> (half_life_hours(symbol) matches Some(h)
            && h > 876_000_000_000),
{
    reveal_strlit("Cs-137");
    reveal_strlit("Co-60");
    reveal_strlit("Ir-192");
    reveal_strlit("Tc-99m");
    reveal_strlit("I-131");
    reveal_strlit("F-18");
    reveal_strlit("U-235");
    reveal_strlit("Pu-239");
    reveal_strlit("Am-241");
    reveal_strlit("K-40");
    reveal_strlit("Th-232");
    reveal_strlit("U-238");
}

/// Nuclear material is the fissile actinides, whose mass numbers are odd;
/// the natural background nuclides (potassium-40, thorium-232, uranium-238)
/// have even mass numbers. So no isotope of one kind is ever taken for the
/// other, uranium-235 in particular never for background.
pub proof fn law_nuclear_material_is_fissile(symbol: Seq<char>)
    ensures
        isotope_class_spec(symbol) == AnomalyClass::NuclearMaterial ==> actinide(symbol) && odd_mass(symbol),
        isotope_class_spec(symbol) == AnomalyClass::NaturalBackground ==> even_mass(symbol),
{
    reveal_strlit("Cs-137");
    reveal_strlit("Co-60");
    reveal_strlit("Ir-192");
    reveal_strlit("Tc-99m");
    reveal_strlit("I-131");
    reveal_strlit("F-18");
    reveal_strlit("U-235");
    reveal_strlit("Pu-239");
    reveal_strlit("Am-241");
    reveal_strlit("K-40");
    reveal_strlit("Th-232");
    reveal_strlit("U-238");
    reveal_strlit("U-");
    reveal_strlit("Pu-");
    reveal_strlit("Am-");
    let c = isotope_class_spec(symbol);
    if c == AnomalyClass::NuclearMaterial {
        if symbol == "U-235"@ {
            assert(symbol.subrange(0, 2) =~= "U-"@);
        } else if symbol == "Pu-239"@ {
            assert(symbol.subrange(0, 3) =~= "Pu-"@);
        } else {
            assert(symbol == "Am-241"@);
            assert(symbol.subrange(0, 3) =~= "Am-"@);
        }
    }
}

/// The anomaly classes of a classification are never empty, never repeat a
/// class, hold the class of every predicted isotope, and hold nothing else but
/// `Unknown` when nothing was predicted.
pub proof fn law_anomaly_classes(symbols: Seq<Seq<char>>)
    ensures
        anomaly_classes_spec(symbols).len() > 0,
        forall|i: int, j: int| 0 <= i < j < anomaly_classes_spec(symbols).len()
            ==> anomaly_classes_spec(symbols)[i] != anomaly_classes_spec(symbols)[j],
        forall|k: int| 0 <= k < symbols.len() ==> anomaly_classes_spec(symbols).contains(#[trigger] isotope_class_spec(symbols[k])),
        symbols.len() > 0 ==> forall|i: int| #![trigger anomaly_classes_spec(symbols)[i]] 0 <= i < anomaly_classes_spec(symbols).len() ==> exists|k: int| 0 <= k < symbols.len()
            && anomaly_classes_spec(symbols)[i] == #[trigger] isotope_class_spec(symbols[k]),
{
    lemma_classes_distinct(symbols);
    if symbols.len() > 0 {
        lemma_classes_nonempty(symbols);
    }
}

/// What to do about an anomaly.
#[derive(PartialEq, Eq, Structural, Clone, Copy, Debug)]
pub enum RecommendedAction {
    Monitor,
    Investigate,
    Alert,
    Evacuate,
    Critical,
}

/// The severity an anomaly event gets from the recommended action.
pub open spec fn action_severity_spec(a: RecommendedAction) -> Severity {
    match a {
        RecommendedAction::Critical => Severity::Critical,
        RecommendedAction::Evacuate => Severity::Critical,
        RecommendedAction::Alert => Severity::Warning,
        RecommendedAction::Investigate => Severity::Warning,
        RecommendedAction::Monitor => Severity::Info,
    }
}

/// How far an action escalates, from monitoring (0) to the critical
/// response (4), in the order the anomaly thresholds raise them.
pub open spec fn action_rank(a: RecommendedAction) -> int {
    match a {
        RecommendedAction::Monitor => 0,
        RecommendedAction::Investigate => 1,
        RecommendedAction::Alert => 2,
        RecommendedAction::Evacuate => 3,
        RecommendedAction::Critical => 4,
    }
}

/// How severe an event is, from information (0) to critical (2).
pub open spec fn severity_rank(s: Severity) -> int {
    match s {
        Severity::Info => 0,
        Severity::Warning => 1,
        Severity::Critical => 2,
    }
}

/// A more drastic action never gets a milder event: severity grows with the
/// action, the critical response gets the most severe event there is, and
/// mere monitoring the mildest.
pub proof fn law_severity_follows_action(a: RecommendedAction, b: RecommendedAction)
    ensures
        action_rank(a) <= action_rank(b) ==> severity_rank(action_severity_spec(a)) <= severity_rank(action_severity_spec(b)),
        severity_rank(action_severity_spec(RecommendedAction::Critical)) == 2,
        severity_rank(action_severity_spec(RecommendedAction::Monitor)) == 0,
{
}

/// The severity an anomaly event gets from the recommended action.
pub fn action_severity(a: RecommendedAction) -> (s: Severity)
    ensures
        s == action_severity_spec(a),
{
    match a {
        RecommendedAction::Critical => Severity::Critical,
        RecommendedAction::Evacuate => Severity::Critical,
        RecommendedAction::Alert => Severity::Warning,
        RecommendedAction::Investigate => Severity::Warning,
        RecommendedAction::Monitor => Severity::Info,
    }
}

/// The class names joined by commas.
pub open spec fn joined_names(classes: Seq<AnomalyClass>) -> Seq<char>
    decreases classes.len(),
{
    if classes.len() == 0 {
        Seq::empty()
    } else if classes.len() == 1 {
        class_name(classes[0])
    } else {
        joined_names(classes.drop_last()) + seq![','] + class_name(classes.last())
    }
}

/// The algorithm label of an anomaly event: `ml_classifier:` and the class
/// names joined by commas.
pub fn anomaly_algorithm(classes: &Vec<AnomalyClass>) -> (s: String)
    ensures
        s@ == "ml_classifier:"@ + joined_names(classes@),
{
    let mut out = chars_of("ml_classifier:");
    let ghost head = out@;
    let mut i: usize = 0;
    while i < classes.len()
        invariant
            i <= classes@.len(),
            out@ == head + joined_names(classes@.take(i as int)),
        decreases classes.len() - i,
    {
        let ghost before = out@;
        if i > 0 {
            out.push(',');
        }
        let name = chars_of(classes[i].as_str());
        let mut k: usize = 0;
        let ghost mid = out@;
        while k < name.len()
            invariant
                k <= name@.len(),
                out@ == mid + name@.take(k as int),
            decreases name.len() - k,
        {
            out.push(name[k]);
            k = k + 1;
            assert(out@ =~= mid + name@.take(k as int));
        }
        proof {
            assert(name@.take(name@.len() as int) =~= name@);
            let t = classes@.take(i + 1);
            assert(t.drop_last() =~= classes@.take(i as int));
            if i == 0 {
                assert(joined_names(t) == class_name(t[0]));
                assert(out@ =~= head + joined_names(t));
            } else {
                assert(out@ =~= head + joined_names(t));
            }
        }
        i = i + 1;
    }
    assert(classes@.take(classes@.len() as int) =~= classes@);
    string_from_chars(&out)
}

// ---------------------------------------------------------------------------
// Training schedule
// ---------------------------------------------------------------------------

/// When scheduled training runs. Times are seconds since the Unix epoch.
pub struct TrainingSchedule {
    pub enabled: bool,
    pub interval_hours: u64,
    pub last_run: Option<u64>,
    pub auto_deploy: bool,
    pub min_improvement_threshold: F64Bits,
}

/// Bits of the `f64` value 0.05.
pub const FIVE_HUNDREDTHS_F64_BITS: u64 = 0x3FA9_9999_9999_999A;

impl TrainingSchedule {
    /// Disabled, daily, never run, no automatic deployment, 0.05 improvement threshold.
    pub fn new() -> (s: TrainingSchedule)
        ensures
            !s.enabled && s.interval_hours == 24 && s.last_run is None && !s.auto_deploy,
            s.min_improvement_threshold == F64Bits(FIVE_HUNDREDTHS_F64_BITS),
    {
        TrainingSchedule {
            enabled: false,
            interval_hours: 24,
            last_run: None,
            auto_deploy: false,
            min_improvement_threshold: F64Bits(FIVE_HUNDREDTHS_F64_BITS),
        }
    }

    /// Enables the schedule with this interval.
    pub fn enable(&mut self, interval_hours: u64, auto_deploy: bool)
        ensures
            *final(self) == (TrainingSchedule { enabled: true, interval_hours, auto_deploy, ..*old(self) }),
    {
        self.enabled = true;
        self.interval_hours = interval_hours;
        self.auto_deploy = auto_deploy;
    }

    /// Disables the schedule.
    pub fn disable(&mut self)
        ensures
            *final(self) == (TrainingSchedule { enabled: false, ..*old(self) }),
    {
        self.enabled = false;
    }

    /// Whether training is due at `now`: enabled, and never run or more than
    /// the interval since the last run.
    pub fn should_run(&self, now: u64) -> (r: bool)
        requires
            self.interval_hours * 3600 <= u64::MAX,
            self.last_run matches Some(last) ==> last <= now,
        ensures
            r == (self.enabled && match self.last_run {
                None => true,
                Some(last) => now - last > self.interval_hours * 3600,
            }),
    {
        if !self.enabled {
            return false;
        }
        match self.last_run {
            None => true,
            Some(last) => now - last > self.interval_hours * 3600,
        }
    }

    /// Records a run at `now`.
    pub fn record_run(&mut self, now: u64)
        ensures
            *final(self) == (TrainingSchedule { last_run: Some(now), ..*old(self) }),
    {
        self.last_run = Some(now);
    }
}

} // verus!
