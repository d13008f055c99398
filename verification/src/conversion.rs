//! Checking trained weights before export: architecture detection from the
//! weight tensors' names and shapes, per-tensor validation, and the
//! conversion report.
//!
//! A weight map is described by its entries' names, shapes and element types,
//! in the order in which the caller walks it.
use vstd::prelude::*;
use crate::ordering::{SortKey, law_stable_sorted_ascending, sort_by_key_stable, stable_sorted};
use crate::text::{all_digits, chars_of, concat_strs, decimal, decimal_string, digits_value, is_digit,
    lemma_digits_value_grows, str_eq};

verus! {

/// Element types of tensors.
#[derive(PartialEq, Eq, Structural, Clone, Copy, Debug)]
pub enum DType {
    U8,
    U32,
    I64,
    BF16,
    F16,
    F32,
    F64,
}

/// Errors of model conversion; errors of the tensor library are held as their messages.
#[allow(inconsistent_fields)]
pub enum ConversionError {
    TensorConversion(String),
    ShapeMismatch { expected: Vec<usize>, actual: Vec<usize> },
    DTypeMismatch { expected: DType, actual: DType },
    MissingTensor(String),
    InvalidArchitecture(String),
    Validation(String),
    Candle(String),
}

/// Tensor metadata for validation.
pub struct TensorMetadata {
    pub name: String,
    pub shape: Vec<usize>,
    pub dtype: DType,
    pub description: Option<String>,
}

/// Model architecture specification.
pub struct ModelArchitecture {
    pub input_shape: Vec<usize>,
    pub output_shape: Vec<usize>,
    pub hidden_layers: Vec<usize>,
    pub expected_tensors: Vec<TensorMetadata>,
}

/// Conversion configuration.
pub struct ConversionConfig {
    pub validate_shapes: bool,
    pub validate_dtypes: bool,
    pub strict_mode: bool,
    pub allow_partial_conversion: bool,
}

impl ConversionConfig {
    /// Validate shapes and element types, report problems instead of failing,
    /// and treat a missing tensor as a failed conversion.
    pub fn default() -> (c: ConversionConfig)
        ensures
            c.validate_shapes && c.validate_dtypes && !c.strict_mode && !c.allow_partial_conversion,
    {
        ConversionConfig { validate_shapes: true, validate_dtypes: true, strict_mode: false, allow_partial_conversion: false }
    }
}

/// What a conversion found.
pub struct ConversionReport {
    pub success: bool,
    pub tensors_converted: usize,
    pub tensors_validated: usize,
    pub shape_mismatches: Vec<String>,
    pub dtype_mismatches: Vec<String>,
    pub missing_tensors: Vec<String>,
    pub warnings: Vec<String>,
    pub input_shape: Vec<usize>,
    pub output_shape: Vec<usize>,
}

/// One entry of a weight map: its name, shape and element type.
pub struct TensorEntry {
    pub name: String,
    pub dims: Vec<usize>,
    pub dtype: DType,
}

/// Checks weight maps, optionally against an expected architecture.
pub struct VarMapConverter {
    pub config: ConversionConfig,
    pub architecture: Option<ModelArchitecture>,
}

// ---------------------------------------------------------------------------
// Parsing layer indices
// ---------------------------------------------------------------------------

/// What `str::parse::<usize>` gives: an optional `+`, then at least one decimal
/// digit and nothing else, with the value in range.
pub open spec fn parse_usize_spec(s: Seq<char>) -> Option<usize> {
    let body = if s.len() > 0 && s[0] == '+' { s.drop_first() } else { s };
    if body.len() > 0 && all_digits(body) && digits_value(body) <= usize::MAX {
        Some(digits_value(body) as usize)
    } else {
        None
    }
}

/// Parses a decimal `usize` the way `str::parse::<usize>` does.
pub fn parse_usize(s: &Vec<char>) -> (r: Option<usize>)
    ensures
        r == parse_usize_spec(s@),
{
    let start: usize = if s.len() > 0 && s[0] == '+' { 1 } else { 0 };
    let ghost body = if s@.len() > 0 && s@[0] == '+' { s@.drop_first() } else { s@ };
    assert(body =~= s@.subrange(start as int, s@.len() as int));
    if start >= s.len() {
        return None;
    }
    let mut acc: usize = 0;
    let mut i: usize = start;
    while i < s.len()
        invariant
            start <= i <= s@.len(),
            body == s@.subrange(start as int, s@.len() as int),
            body == (if s@.len() > 0 && s@[0] == '+' { s@.drop_first() } else { s@ }),
            body.len() > 0,
            all_digits(body.take(i - start)),
            acc == digits_value(body.take(i - start)),
        decreases s.len() - i,
    {
        let c = s[i];
        if !('0' <= c && c <= '9') {
            assert(!is_digit(body[i - start]));
            assert(!all_digits(body));
            assert(parse_usize_spec(s@) is None);
            return None;
        }
        let d = (c as u32 - 48) as usize;
        proof {
            assert(body.take(i - start + 1).drop_last() =~= body.take(i - start));
            assert(body.take(i - start + 1).last() == c);
        }
        let next = match acc.checked_mul(10) {
            Some(m) => m.checked_add(d),
            None => None,
        };
        match next {
            Some(n) => {
                acc = n;
            },
            None => {
                proof {
                    let t = body.take(i - start + 1);
                    assert(digits_value(t) > usize::MAX);
                    if all_digits(body) {
                        assert(body.subrange(0, i - start + 1) =~= t);
                        lemma_digits_value_grows(body, i - start + 1);
                        assert(digits_value(body) > usize::MAX);
                    }
                    assert(parse_usize_spec(s@) is None);
                }
                return None;
            },
        }
        i = i + 1;
    }
    assert(body.take(i - start) =~= body);
    Some(acc)
}

// ---------------------------------------------------------------------------
// Architecture detection
// ---------------------------------------------------------------------------

/// A hidden layer's index, width and input rows, ordered by index.
#[derive(PartialEq, Eq, Structural, Clone, Copy, Debug)]
pub struct LayerWidth {
    pub index: usize,
    pub width: usize,
    /// The first dimension of the layer's weight.
    pub rows: usize,
}

impl SortKey for LayerWidth {
    open spec fn sort_key(&self) -> int {
        self.index as int
    }

    fn key(&self) -> (k: i128) {
        self.index as i128
    }
}

/// The scan state: hidden layers found so far, the output weight's rows and
/// the output size.
pub type ArchScan = (Seq<LayerWidth>, nat, nat);

/// Reads one weight-map entry: a weight `w<n>` names hidden layer `n`, whose
/// width is its second dimension and whose rows its first; `w_out` gives the
/// output size (second dimension) and its own rows.
pub open spec fn scan_step(st: ArchScan, name: Seq<char>, dims: Seq<usize>) -> ArchScan {
    let (h, orows, out) = st;
    if name.len() > 0 && name[0] == 'w' && name != "w_out"@ {
        match parse_usize_spec(name.drop_first()) {
            Some(idx) => if dims.len() >= 2 {
                (h.push(LayerWidth { index: idx, width: dims[1], rows: dims[0] }), orows, out)
            } else {
                st
            },
            None => st,
        }
    } else if name == "w_out"@ {
        if dims.len() >= 2 {
            (h, dims[0] as nat, dims[1] as nat)
        } else {
            st
        }
    } else {
        st
    }
}

/// The rows of the first layer in `s` that has any.
pub open spec fn first_rows(s: Seq<LayerWidth>) -> nat
    decreases s.len(),
{
    if s.len() == 0 {
        0
    } else if s[0].rows != 0 {
        s[0].rows as nat
    } else {
        first_rows(s.drop_first())
    }
}

/// The input size: the rows of the lowest-numbered hidden layer's weight
/// (`w0` in a complete network), whatever order the entries come in; the
/// output weight's rows when no hidden weight has any.
pub open spec fn input_size_of(ts: Seq<TensorEntry>) -> nat {
    let (h, orows, _) = scan_all(ts);
    let r = first_rows(stable_sorted(h));
    if r != 0 { r } else { orows }
}

/// The scan state after reading all entries, in order.
pub open spec fn scan_all(ts: Seq<TensorEntry>) -> ArchScan
    decreases ts.len(),
{
    if ts.len() == 0 {
        (Seq::empty(), 0, 0)
    } else {
        scan_step(scan_all(ts.drop_last()), ts.last().name@, ts.last().dims@)
    }
}

/// The widths of the hidden layers, by layer index.
pub open spec fn layer_widths(ts: Seq<TensorEntry>) -> Seq<usize> {
    stable_sorted(scan_all(ts).0).map_values(|l: LayerWidth| l.width)
}

/// A tensor's metadata as plain values.
pub open spec fn meta_view(t: TensorMetadata) -> (Seq<char>, Seq<usize>, DType, Option<Seq<char>>) {
    (t.name@, t.shape@, t.dtype, match t.description { Some(d) => Some(d@), None => None })
}

/// The tensors of the first `n` hidden layers: weight and bias of each.
pub open spec fn hidden_tensors(sizes: Seq<usize>, input: usize, n: nat) -> Seq<(Seq<char>, Seq<usize>, DType, Option<Seq<char>>)>
    decreases n,
{
    if n == 0 {
        Seq::empty()
    } else {
        let i = (n - 1) as nat;
        let prev = if i == 0 { input } else { sizes[i - 1] };
        hidden_tensors(sizes, input, i)
            .push(("w"@ + decimal(i), seq![prev, sizes[i as int]], DType::F32, Some("Weight matrix for layer "@ + decimal(i))))
            .push(("b"@ + decimal(i), seq![sizes[i as int]], DType::F32, Some("Bias vector for layer "@ + decimal(i))))
    }
}

/// Every tensor a detected architecture expects.
pub open spec fn expected_tensors_spec(sizes: Seq<usize>, input: usize, output: usize) -> Seq<(Seq<char>, Seq<usize>, DType, Option<Seq<char>>)> {
    let last = if sizes.len() > 0 { sizes.last() } else { input };
    hidden_tensors(sizes, input, sizes.len())
        .push(("w_out"@, seq![last, output], DType::F32, Some("Output layer weight matrix"@)))
        .push(("b_out"@, seq![output], DType::F32, Some("Output layer bias vector"@)))
}

/// The input size is the rows of the lowest-numbered hidden layer's weight,
/// wherever in the entries that weight stands.
pub proof fn law_input_from_lowest_layer(ts: Seq<TensorEntry>, w: LayerWidth)
    requires
        scan_all(ts).0.contains(w),
        w.rows != 0,
        forall|x: LayerWidth| #[trigger] scan_all(ts).0.contains(x) ==> x.index > w.index || x == w,
    ensures
        input_size_of(ts) == w.rows,
{
    let h = scan_all(ts).0;
    let s = stable_sorted(h);
    law_stable_sorted_ascending(h);
    h.to_multiset_ensures();
    s.to_multiset_ensures();
    assert(h.to_multiset().count(w) > 0);
    assert(s.to_multiset().count(w) > 0);
    assert(s.contains(w));
    let k = choose|k: int| 0 <= k < s.len() && s[k] == w;
    assert(s[0].sort_key() <= s[k].sort_key());
    assert(s.contains(s[0]));
    assert(s.to_multiset().count(s[0]) > 0);
    assert(h.to_multiset().count(s[0]) > 0);
    assert(h.contains(s[0]));
    assert(s[0] == w);
}

fn scan_entry(h: &mut Vec<LayerWidth>, orows: &mut usize, out: &mut usize, e: &TensorEntry)
    ensures
        (final(h)@, *final(orows) as nat, *final(out) as nat) == scan_step((old(h)@, *old(orows) as nat, *old(out) as nat), e.name@, e.dims@),
{
    proof {
        reveal_strlit("w_out");
    }
    let name = chars_of(e.name.as_str());
    let is_out = str_eq(e.name.as_str(), "w_out");
    if name.len() > 0 && name[0] == 'w' && !is_out {
        let mut rest: Vec<char> = Vec::new();
        let mut k: usize = 1;
        while k < name.len()
            invariant
                1 <= k <= name@.len(),
                rest@ == name@.subrange(1, k as int),
            decreases name.len() - k,
        {
            rest.push(name[k]);
            k = k + 1;
            assert(rest@ =~= name@.subrange(1, k as int));
        }
        assert(rest@ =~= name@.drop_first());
        match parse_usize(&rest) {
            Some(idx) => {
                if e.dims.len() >= 2 {
                    h.push(LayerWidth { index: idx, width: e.dims[1], rows: e.dims[0] });
                }
            },
            None => {},
        }
    } else if is_out {
        if e.dims.len() >= 2 {
            *out = e.dims[1];
            *orows = e.dims[0];
        }
    }
}

fn tensor_meta(name: String, shape: Vec<usize>, description: String) -> (t: TensorMetadata)
    ensures
        meta_view(t) == (name@, shape@, DType::F32, Some(description@)),
{
    TensorMetadata { name, shape, dtype: DType::F32, description: Some(description) }
}

impl VarMapConverter {
    /// A converter with the default configuration and no expected architecture.
    pub fn new() -> (c: VarMapConverter)
        ensures
            c.config.validate_shapes && c.config.validate_dtypes && !c.config.strict_mode
                && !c.config.allow_partial_conversion,
            c.architecture is None,
    {
        VarMapConverter { config: ConversionConfig::default(), architecture: None }
    }

    /// A converter with this configuration and no expected architecture.
    pub fn with_config(config: ConversionConfig) -> (c: VarMapConverter)
        ensures
            c.config == config && c.architecture is None,
    {
        VarMapConverter { config, architecture: None }
    }

    /// Sets the expected architecture.
    pub fn with_architecture(self, architecture: ModelArchitecture) -> (c: VarMapConverter)
        ensures
            c.config == self.config && c.architecture == Some(architecture),
    {
        VarMapConverter { config: self.config, architecture: Some(architecture) }
    }

    /// Works out a layered network's architecture from its weights: hidden
    /// layers `w0`, `w1`, ... by index, the input size from the rows of the
    /// lowest-numbered one, the output layer `w_out`; fails when the input or
    /// output size cannot be found. The result does not depend on the order
    /// of the entries beyond ties between equal layer indices.
    pub fn detect_architecture(&self, tensors: &Vec<TensorEntry>) -> (r: Result<ModelArchitecture, ConversionError>)
        ensures
            ({
                let inp = input_size_of(tensors@);
                let out = scan_all(tensors@).2;
                &&& (inp == 0 || out == 0) ==> (r matches Err(e) && e matches ConversionError::InvalidArchitecture(m)
                    && m@ == "Could not detect input/output dimensions from VarMap"@)
                &&& (inp != 0 && out != 0) ==> (r matches Ok(a) && {
                    &&& a.input_shape@ == seq![1usize, inp as usize]
                    &&& a.output_shape@ == seq![1usize, out as usize]
                    &&& a.hidden_layers@ == layer_widths(tensors@)
                    &&& a.expected_tensors@.map_values(|t: TensorMetadata| meta_view(t))
                        == expected_tensors_spec(layer_widths(tensors@), inp as usize, out as usize)
                })
            }),
    {
        let mut hidden: Vec<LayerWidth> = Vec::new();
        let mut out_rows: usize = 0;
        let mut output_size: usize = 0;
        let mut i: usize = 0;
        while i < tensors.len()
            invariant
                i <= tensors@.len(),
                (hidden@, out_rows as nat, output_size as nat) == scan_all(tensors@.take(i as int)),
            decreases tensors.len() - i,
        {
            proof {
                assert(tensors@.take(i + 1).drop_last() =~= tensors@.take(i as int));
            }
            scan_entry(&mut hidden, &mut out_rows, &mut output_size, &tensors[i]);
            i = i + 1;
        }
        assert(tensors@.take(tensors@.len() as int) =~= tensors@);
        let sorted = sort_by_key_stable(hidden);
        let mut sizes: Vec<usize> = Vec::new();
        let mut k: usize = 0;
        while k < sorted.len()
            invariant
                k <= sorted@.len(),
                sizes@ == sorted@.take(k as int).map_values(|l: LayerWidth| l.width),
            decreases sorted.len() - k,
        {
            sizes.push(sorted[k].width);
            k = k + 1;
            assert(sizes@ =~= sorted@.take(k as int).map_values(|l: LayerWidth| l.width));
        }
        assert(sorted@.take(sorted@.len() as int) =~= sorted@);
        let mut input_size: usize = 0;
        let mut j: usize = 0;
        while j < sorted.len() && input_size == 0
            invariant
                j <= sorted@.len(),
                input_size == 0 ==> first_rows(sorted@) == first_rows(sorted@.skip(j as int)),
                input_size != 0 ==> input_size == first_rows(sorted@),
            decreases sorted.len() - j,
        {
            proof {
                assert(sorted@.skip(j as int)[0] == sorted@[j as int]);
                assert(sorted@.skip(j as int).drop_first() =~= sorted@.skip(j + 1));
            }
            if sorted[j].rows != 0 {
                input_size = sorted[j].rows;
            }
            j = j + 1;
        }
        if input_size == 0 {
            assert(sorted@.skip(j as int) =~= Seq::<LayerWidth>::empty());
            input_size = out_rows;
        }
        if input_size == 0 || output_size == 0 {
            return Err(ConversionError::InvalidArchitecture(String::from_str("Could not detect input/output dimensions from VarMap")));
        }
        let ghost widths = sizes@;
        let mut expected: Vec<TensorMetadata> = Vec::new();
        let mut idx: usize = 0;
        while idx < sizes.len()
            invariant
                idx <= sizes@.len(),
                widths == sizes@,
                expected@.map_values(|t: TensorMetadata| meta_view(t)) == hidden_tensors(widths, input_size, idx as nat),
            decreases sizes.len() - idx,
        {
            let prev = if idx == 0 { input_size } else { sizes[idx - 1] };
            let n = decimal_string(idx as u64);
            let ghost e0 = expected@;
            let mut wshape: Vec<usize> = Vec::new();
            wshape.push(prev);
            wshape.push(sizes[idx]);
            let mut bshape: Vec<usize> = Vec::new();
            bshape.push(sizes[idx]);
            let w = tensor_meta(concat_strs("w", n.as_str()), wshape, concat_strs("Weight matrix for layer ", n.as_str()));
            let b = tensor_meta(concat_strs("b", n.as_str()), bshape, concat_strs("Bias vector for layer ", n.as_str()));
            expected.push(w);
            expected.push(b);
            proof {
                assert(wshape@ =~= seq![prev, widths[idx as int]]);
                assert(bshape@ =~= seq![widths[idx as int]]);
                assert(expected@.map_values(|t: TensorMetadata| meta_view(t)) =~= e0.map_values(|t: TensorMetadata| meta_view(t)).push(meta_view(w)).push(meta_view(b)));
            }
            idx = idx + 1;
        }
        let last = if sizes.len() > 0 { sizes[sizes.len() - 1] } else { input_size };
        let ghost e1 = expected@;
        let mut oshape: Vec<usize> = Vec::new();
        oshape.push(last);
        oshape.push(output_size);
        let mut obshape: Vec<usize> = Vec::new();
        obshape.push(output_size);
        let wo = tensor_meta(String::from_str("w_out"), oshape, String::from_str("Output layer weight matrix"));
        let bo = tensor_meta(String::from_str("b_out"), obshape, String::from_str("Output layer bias vector"));
        expected.push(wo);
        expected.push(bo);
        proof {
            assert(oshape@ =~= seq![last, output_size]);
            assert(obshape@ =~= seq![output_size]);
            assert(expected@.map_values(|t: TensorMetadata| meta_view(t)) =~= e1.map_values(|t: TensorMetadata| meta_view(t)).push(meta_view(wo)).push(meta_view(bo)));
        }
        let mut input_shape: Vec<usize> = Vec::new();
        input_shape.push(1);
        input_shape.push(input_size);
        let mut output_shape: Vec<usize> = Vec::new();
        output_shape.push(1);
        output_shape.push(output_size);
        assert(input_shape@ =~= seq![1usize, input_size]);
        assert(output_shape@ =~= seq![1usize, output_size]);
        Ok(ModelArchitecture { input_shape, output_shape, hidden_layers: sizes, expected_tensors: expected })
    }
}

// ---------------------------------------------------------------------------
// Messages
// ---------------------------------------------------------------------------

/// The name of an element type.
pub open spec fn dtype_name(d: DType) -> Seq<char> {
    match d {
        DType::U8 => "U8"@,
        DType::U32 => "U32"@,
        DType::I64 => "I64"@,
        DType::BF16 => "BF16"@,
        DType::F16 => "F16"@,
        DType::F32 => "F32"@,
        DType::F64 => "F64"@,
    }
}

fn dtype_str(d: DType) -> (s: &'static str)
    ensures
        s@ == dtype_name(d),
{
    match d {
        DType::U8 => "U8",
        DType::U32 => "U32",
        DType::I64 => "I64",
        DType::BF16 => "BF16",
        DType::F16 => "F16",
        DType::F32 => "F32",
        DType::F64 => "F64",
    }
}

/// The items of a list of sizes, separated by `, `.
pub open spec fn joined_sizes(s: Seq<usize>) -> Seq<char>
    decreases s.len(),
{
    if s.len() == 0 {
        Seq::empty()
    } else if s.len() == 1 {
        decimal(s[0] as nat)
    } else {
        joined_sizes(s.drop_last()) + ", "@ + decimal(s.last() as nat)
    }
}

/// A list of sizes as `Debug` prints it: `[1, 2]`.
pub open spec fn sizes_debug(s: Seq<usize>) -> Seq<char> {
    "["@ + joined_sizes(s) + "]"@
}

/// A list of sizes as `Debug` prints it.
pub fn sizes_text(v: &Vec<usize>) -> (s: String)
    ensures
        s@ == sizes_debug(v@),
{
    proof {
        reveal_strlit(", ");
    }
    let mut acc = String::new();
    let mut i: usize = 0;
    while i < v.len()
        invariant
            i <= v@.len(),
            acc@ == joined_sizes(v@.take(i as int)),
        decreases v.len() - i,
    {
        let d = decimal_string(v[i] as u64);
        let ghost a0 = acc@;
        if i == 0 {
            acc = d;
        } else {
            let with_sep = concat_strs(acc.as_str(), ", ");
            acc = concat_strs(with_sep.as_str(), d.as_str());
        }
        proof {
            let t = v@.take(i + 1);
            assert(t.drop_last() =~= v@.take(i as int));
            assert(t.last() == v@[i as int]);
            if i == 0 {
                assert(t.len() == 1);
                assert(t[0] == v@[0]);
            }
        }
        i = i + 1;
    }
    assert(v@.take(v@.len() as int) =~= v@);
    let open = concat_strs("[", acc.as_str());
    concat_strs(open.as_str(), "]")
}

/// What an error says, as its `Display` text.
pub open spec fn error_text(e: ConversionError) -> Seq<char> {
    match e {
        ConversionError::TensorConversion(m) => "Tensor conversion error: "@ + m@,
        ConversionError::ShapeMismatch { expected, actual } =>
            "Shape mismatch: expected "@ + sizes_debug(expected@) + ", got "@ + sizes_debug(actual@),
        ConversionError::DTypeMismatch { expected, actual } =>
            "DType mismatch: expected "@ + dtype_name(expected) + ", got "@ + dtype_name(actual),
        ConversionError::MissingTensor(m) => "Missing tensor: "@ + m@,
        ConversionError::InvalidArchitecture(m) => "Invalid architecture: "@ + m@,
        ConversionError::Validation(m) => "Validation error: "@ + m@,
        ConversionError::Candle(m) => "Candle error: "@ + m@,
    }
}

impl ConversionError {
    /// The error's message.
    pub fn message(&self) -> (s: String)
        ensures
            s@ == error_text(*self),
    {
        match self {
            ConversionError::TensorConversion(m) => concat_strs("Tensor conversion error: ", m.as_str()),
            ConversionError::ShapeMismatch { expected, actual } => {
                let a = concat_strs("Shape mismatch: expected ", sizes_text(expected).as_str());
                let b = concat_strs(a.as_str(), ", got ");
                concat_strs(b.as_str(), sizes_text(actual).as_str())
            },
            ConversionError::DTypeMismatch { expected, actual } => {
                let a = concat_strs("DType mismatch: expected ", dtype_str(*expected));
                let b = concat_strs(a.as_str(), ", got ");
                concat_strs(b.as_str(), dtype_str(*actual))
            },
            ConversionError::MissingTensor(m) => concat_strs("Missing tensor: ", m.as_str()),
            ConversionError::InvalidArchitecture(m) => concat_strs("Invalid architecture: ", m.as_str()),
            ConversionError::Validation(m) => concat_strs("Validation error: ", m.as_str()),
            ConversionError::Candle(m) => concat_strs("Candle error: ", m.as_str()),
        }
    }
}

// ---------------------------------------------------------------------------
// Validation and the conversion report
// ---------------------------------------------------------------------------

/// Whether `actual` matches `expected`, a batch size of 0 or 1 in front
/// matching either.
pub open spec fn shapes_agree(expected: Seq<usize>, actual: Seq<usize>) -> bool {
    actual.len() == expected.len() && forall|i: int| 0 <= i < actual.len() ==>
        ((i == 0 && (actual[i] == 0 || actual[i] == 1) && (expected[i] == 0 || expected[i] == 1))
            || #[trigger] actual[i] == expected[i])
}

/// How checking a tensor turns out.
#[derive(PartialEq, Eq, Structural, Clone, Copy, Debug)]
pub enum TensorCheck {
    Passes,
    WrongShape,
    WrongDType,
}

/// How validating a tensor turns out, the shape being checked first.
pub open spec fn validation_outcome(config: ConversionConfig, actual_shape: Seq<usize>, actual_dtype: DType, expected: TensorMetadata) -> TensorCheck {
    if config.validate_shapes && !shapes_agree(expected.shape@, actual_shape) {
        TensorCheck::WrongShape
    } else if config.validate_dtypes && actual_dtype != expected.dtype {
        TensorCheck::WrongDType
    } else {
        TensorCheck::Passes
    }
}

/// The position of the first expected tensor named `name`.
pub open spec fn first_named(ts: Seq<TensorMetadata>, name: Seq<char>) -> Option<int> {
    if exists|i: int| 0 <= i < ts.len() && #[trigger] ts[i].name@ == name {
        Some(choose|i: int| 0 <= i < ts.len() && #[trigger] ts[i].name@ == name
            && forall|j: int| 0 <= j < i ==> ts[j].name@ != name)
    } else {
        None
    }
}

impl VarMapConverter {
    /// Checks one tensor against its expected metadata, as configured: the
    /// shape first, then the element type.
    pub fn validate_tensor(&self, name: &str, actual_shape: &Vec<usize>, actual_dtype: DType, expected: &TensorMetadata) -> (r: Result<(), ConversionError>)
        ensures
            match validation_outcome(self.config, actual_shape@, actual_dtype, *expected) {
                TensorCheck::Passes => r is Ok,
                TensorCheck::WrongShape => r matches Err(e) && (e matches ConversionError::ShapeMismatch { expected: x, actual: a }
                    && x@ == expected.shape@ && a@ == actual_shape@),
                TensorCheck::WrongDType => r matches Err(e) && (e matches ConversionError::DTypeMismatch { expected: x, actual: a }
                    && x == expected.dtype && a == actual_dtype),
            },
    {
        if self.config.validate_shapes {
            let exp = &expected.shape;
            let mut agree = actual_shape.len() == exp.len();
            if agree {
                let mut i: usize = 0;
                while i < actual_shape.len()
                    invariant
                        actual_shape@.len() == exp@.len(),
                        i <= actual_shape@.len(),
                        agree == forall|k: int| 0 <= k < i ==>
                            ((k == 0 && (actual_shape@[k] == 0 || actual_shape@[k] == 1) && (exp@[k] == 0 || exp@[k] == 1))
                                || #[trigger] actual_shape@[k] == exp@[k]),
                    decreases actual_shape.len() - i,
                {
                    let a = actual_shape[i];
                    let e = exp[i];
                    let ok = (i == 0 && (a == 0 || a == 1) && (e == 0 || e == 1)) || a == e;
                    if !ok {
                        agree = false;
                    }
                    i = i + 1;
                }
            }
            if !agree {
                return Err(ConversionError::ShapeMismatch { expected: expected.shape.clone(), actual: actual_shape.clone() });
            }
        }
        if self.config.validate_dtypes && actual_dtype != expected.dtype {
            return Err(ConversionError::DTypeMismatch { expected: expected.dtype, actual: actual_dtype });
        }
        Ok(())
    }
}

/// What checking entry `e` against the expected architecture gives: nothing
/// when there is no architecture or it expects no tensor of that name, else
/// the verdict and the first expected tensor of that name.
pub open spec fn entry_check(c: VarMapConverter, e: TensorEntry) -> Option<(TensorCheck, TensorMetadata)> {
    match c.architecture {
        None => None,
        Some(a) => match first_named(a.expected_tensors@, e.name@) {
            None => None,
            Some(k) => Some((validation_outcome(c.config, e.dims@, e.dtype, a.expected_tensors@[k]), a.expected_tensors@[k])),
        },
    }
}

/// The message of a failed check.
pub open spec fn check_text(out: TensorCheck, exp: TensorMetadata, e: TensorEntry) -> Seq<char> {
    if out == TensorCheck::WrongShape {
        "Shape mismatch: expected "@ + sizes_debug(exp.shape@) + ", got "@ + sizes_debug(e.dims@)
    } else {
        "DType mismatch: expected "@ + dtype_name(exp.dtype) + ", got "@ + dtype_name(e.dtype)
    }
}

/// Whether `err` is the error of a failed check.
pub open spec fn is_check_error(err: ConversionError, out: TensorCheck, exp: TensorMetadata, e: TensorEntry) -> bool {
    if out == TensorCheck::WrongShape {
        err matches ConversionError::ShapeMismatch { expected: x, actual: a } && x@ == exp.shape@ && a@ == e.dims@
    } else {
        err matches ConversionError::DTypeMismatch { expected: x, actual: a } && x == exp.dtype && a == e.dtype
    }
}

/// Whether entry `e` fails its check.
pub open spec fn fails_check(c: VarMapConverter, e: TensorEntry) -> bool {
    entry_check(c, e) matches Some((o, _)) && o != TensorCheck::Passes
}

/// How many entries pass their check.
pub open spec fn validated_count(c: VarMapConverter, ts: Seq<TensorEntry>) -> nat
    decreases ts.len(),
{
    if ts.len() == 0 {
        0
    } else {
        validated_count(c, ts.drop_last()) + if entry_check(c, ts.last()) matches Some((o, _)) && o == TensorCheck::Passes { 1nat } else { 0nat }
    }
}

/// The warnings of the entries that fail their check, in order.
pub open spec fn entry_warnings(c: VarMapConverter, ts: Seq<TensorEntry>) -> Seq<Seq<char>>
    decreases ts.len(),
{
    if ts.len() == 0 {
        Seq::empty()
    } else {
        let rest = entry_warnings(c, ts.drop_last());
        match entry_check(c, ts.last()) {
            Some((o, x)) => if o != TensorCheck::Passes {
                rest.push(ts.last().name@ + ": "@ + check_text(o, x, ts.last()))
            } else {
                rest
            },
            None => rest,
        }
    }
}

/// The names of the expected tensors that no entry has, in order.
pub open spec fn missing_names(expected: Seq<TensorMetadata>, ts: Seq<TensorEntry>) -> Seq<Seq<char>>
    decreases expected.len(),
{
    if expected.len() == 0 {
        Seq::empty()
    } else {
        let rest = missing_names(expected.drop_last(), ts);
        let n = expected.last().name@;
        if exists|i: int| 0 <= i < ts.len() && #[trigger] ts[i].name@ == n { rest } else { rest.push(n) }
    }
}

/// The expected tensors, when there is an expected architecture.
pub open spec fn expected_of(c: VarMapConverter) -> Seq<TensorMetadata> {
    match c.architecture {
        Some(a) => a.expected_tensors@,
        None => Seq::empty(),
    }
}

/// The views of a list of strings.
pub open spec fn texts(v: Seq<String>) -> Seq<Seq<char>> {
    v.map_values(|s: String| s@)
}

proof fn lemma_first_named(ts: Seq<TensorMetadata>, name: Seq<char>, i: int)
    requires
        0 <= i < ts.len(),
        ts[i].name@ == name,
        forall|j: int| 0 <= j < i ==> ts[j].name@ != name,
    ensures
        first_named(ts, name) == Some(i),
{
    assert(exists|k: int| 0 <= k < ts.len() && #[trigger] ts[k].name@ == name);
    let c = choose|k: int| 0 <= k < ts.len() && #[trigger] ts[k].name@ == name
        && forall|j: int| 0 <= j < k ==> ts[j].name@ != name;
    assert(ts[i].name@ == name && forall|j: int| 0 <= j < i ==> ts[j].name@ != name);
    if c < i {
        assert(ts[c].name@ != name);
    } else if c > i {
        assert(ts[i].name@ != name);
    }
}

fn find_named(ts: &Vec<TensorMetadata>, name: &str) -> (r: Option<usize>)
    ensures
        match r {
            Some(k) => k < ts@.len() && first_named(ts@, name@) == Some(k as int),
            None => first_named(ts@, name@) is None,
        },
{
    let mut k: usize = 0;
    while k < ts.len()
        invariant
            k <= ts@.len(),
            forall|j: int| 0 <= j < k ==> ts@[j].name@ != name@,
        decreases ts.len() - k,
    {
        if str_eq(ts[k].name.as_str(), name) {
            proof {
                lemma_first_named(ts@, name@, k as int);
            }
            return Some(k);
        }
        k = k + 1;
    }
    None
}

/// How one entry's check went, when it did not fail the conversion.
pub enum EntryOutcome {
    /// Nothing was expected of it.
    Unchecked,
    /// It passed.
    Passed,
    /// It failed, with this warning.
    Warned(String),
}

/// The names of the expected tensors that no entry has, in order.
fn missing_of(expected: &Vec<TensorMetadata>, tensors: &Vec<TensorEntry>) -> (m: Vec<String>)
    ensures
        texts(m@) == missing_names(expected@, tensors@),
{
    let mut missing: Vec<String> = Vec::new();
    let mut k: usize = 0;
    while k < expected.len()
        invariant
            k <= expected@.len(),
            texts(missing@) == missing_names(expected@.take(k as int), tensors@),
        decreases expected.len() - k,
    {
        let name = &expected[k].name;
        proof {
            let t = expected@.take(k + 1);
            assert(t.drop_last() =~= expected@.take(k as int));
        }
        let mut present = false;
        let mut j: usize = 0;
        while j < tensors.len()
            invariant
                j <= tensors@.len(),
                present == exists|q: int| 0 <= q < j && #[trigger] tensors@[q].name@ == name@,
            decreases tensors.len() - j,
        {
            if str_eq(tensors[j].name.as_str(), name.as_str()) {
                present = true;
            }
            j = j + 1;
        }
        if !present {
            let ghost m0 = missing@;
            missing.push(name.clone());
            assert(texts(missing@) =~= texts(m0).push(name@));
        }
        k = k + 1;
    }
    assert(expected@.take(expected@.len() as int) =~= expected@);
    missing
}

/// The warnings for missing tensors.
fn missing_warnings(missing: &Vec<String>) -> (w: Vec<String>)
    ensures
        texts(w@) == texts(missing@).map_values(|n: Seq<char>| "Missing expected tensor: "@ + n),
{
    let mut w: Vec<String> = Vec::new();
    let mut k: usize = 0;
    while k < missing.len()
        invariant
            k <= missing@.len(),
            texts(w@) == texts(missing@.take(k as int)).map_values(|n: Seq<char>| "Missing expected tensor: "@ + n),
        decreases missing.len() - k,
    {
        let ghost w0 = w@;
        let line = concat_strs("Missing expected tensor: ", missing[k].as_str());
        proof {
            assert(texts(missing@.take(k + 1)) =~= texts(missing@.take(k as int)).push(missing@[k as int]@));
        }
        w.push(line);
        proof {
            assert(texts(w@) =~= texts(w0).push(line@));
        }
        k = k + 1;
        assert(texts(w@) =~= texts(missing@.take(k as int)).map_values(|n: Seq<char>| "Missing expected tensor: "@ + n));
    }
    assert(missing@.take(missing@.len() as int) =~= missing@);
    w
}

impl VarMapConverter {
    /// Checks one entry; in strict mode a failed check fails.
    pub fn check_entry(&self, e: &TensorEntry) -> (r: Result<EntryOutcome, ConversionError>)
        ensures
            match entry_check(*self, *e) {
                None => r matches Ok(o) && o is Unchecked,
                Some((o, x)) => if o == TensorCheck::Passes {
                    r matches Ok(v) && v is Passed
                } else if self.config.strict_mode {
                    r matches Err(err) && is_check_error(err, o, x, *e)
                } else {
                    r matches Ok(v) && (v matches EntryOutcome::Warned(w) && w@ == e.name@ + ": "@ + check_text(o, x, *e))
                },
            },
    {
        let a = match &self.architecture {
            Some(a) => a,
            None => return Ok(EntryOutcome::Unchecked),
        };
        let k = match find_named(&a.expected_tensors, e.name.as_str()) {
            Some(k) => k,
            None => return Ok(EntryOutcome::Unchecked),
        };
        let x = &a.expected_tensors[k];
        match self.validate_tensor(e.name.as_str(), &e.dims, e.dtype, x) {
            Ok(()) => Ok(EntryOutcome::Passed),
            Err(err) => {
                if self.config.strict_mode {
                    return Err(err);
                }
                let head = concat_strs(e.name.as_str(), ": ");
                let msg = err.message();
                Ok(EntryOutcome::Warned(concat_strs(head.as_str(), msg.as_str())))
            },
        }
    }

    /// Checks every entry, in order: the number that passed and the warnings;
    /// in strict mode the first failed check fails.
    pub fn check_entries(&self, tensors: &Vec<TensorEntry>) -> (r: Result<(usize, Vec<String>), ConversionError>)
        ensures
            ({
                let ts = tensors@;
                &&& self.config.strict_mode && (exists|i: int| 0 <= i < ts.len() && fails_check(*self, #[trigger] ts[i])) ==>
                    exists|i: int| 0 <= i < ts.len() && #[trigger] fails_check(*self, ts[i])
                        && (forall|j: int| 0 <= j < i ==> !fails_check(*self, ts[j]))
                        && (entry_check(*self, ts[i]) matches Some((o, x))
                            && (r matches Err(e) && is_check_error(e, o, x, ts[i])))
                &&& !(self.config.strict_mode && (exists|i: int| 0 <= i < ts.len() && fails_check(*self, #[trigger] ts[i]))) ==>
                    (r matches Ok((v, w)) && v == validated_count(*self, ts) && texts(w@) == entry_warnings(*self, ts))
            }),
    {
        let mut warnings: Vec<String> = Vec::new();
        let mut validated: usize = 0;
        let mut i: usize = 0;
        while i < tensors.len()
            invariant
                i <= tensors@.len(),
                validated <= i,
                validated == validated_count(*self, tensors@.take(i as int)),
                texts(warnings@) == entry_warnings(*self, tensors@.take(i as int)),
                self.config.strict_mode ==> forall|j: int| 0 <= j < i ==> !fails_check(*self, #[trigger] tensors@[j]),
            decreases tensors.len() - i,
        {
            proof {
                let t = tensors@.take(i + 1);
                assert(t.drop_last() =~= tensors@.take(i as int));
                assert(t.last() == tensors@[i as int]);
            }
            match self.check_entry(&tensors[i]) {
                Err(err) => {
                    proof {
                        assert(fails_check(*self, tensors@[i as int]));
                    }
                    return Err(err);
                },
                Ok(EntryOutcome::Unchecked) => {},
                Ok(EntryOutcome::Passed) => {
                    validated = validated + 1;
                },
                Ok(EntryOutcome::Warned(w)) => {
                    let ghost w0 = warnings@;
                    warnings.push(w);
                    assert(texts(warnings@) =~= texts(w0).push(warnings@.last()@));
                },
            }
            i = i + 1;
        }
        assert(tensors@.take(tensors@.len() as int) =~= tensors@);
        Ok((validated, warnings))
    }

    /// Checks a weight map against the expected architecture and reports on
    /// it. In strict mode the first failed check, then the first missing
    /// tensor, fails the conversion; otherwise each is reported as a warning.
    /// The report's `success` holds when nothing is missing or partial
    /// conversion is allowed.
    pub fn conversion_report(&self, tensors: &Vec<TensorEntry>) -> (r: Result<ConversionReport, ConversionError>)
        ensures
            ({
                let ts = tensors@;
                let missing = missing_names(expected_of(*self), ts);
                let failing = exists|i: int| 0 <= i < ts.len() && fails_check(*self, #[trigger] ts[i]);
                &&& self.config.strict_mode && failing ==>
                    exists|i: int| 0 <= i < ts.len() && #[trigger] fails_check(*self, ts[i])
                        && (forall|j: int| 0 <= j < i ==> !fails_check(*self, ts[j]))
                        && (entry_check(*self, ts[i]) matches Some((o, x))
                            && (r matches Err(e) && is_check_error(e, o, x, ts[i])))
                &&& self.config.strict_mode && !failing && missing.len() > 0 ==>
                    (r matches Err(e) && e matches ConversionError::MissingTensor(m) && m@ == missing[0])
                &&& (!self.config.strict_mode || (!failing && missing.len() == 0)) ==> (r matches Ok(rep) && {
                    &&& rep.tensors_converted == ts.len()
                    &&& rep.tensors_validated == validated_count(*self, ts)
                    &&& texts(rep.warnings@) == entry_warnings(*self, ts)
                        + missing.map_values(|n: Seq<char>| "Missing expected tensor: "@ + n)
                    &&& texts(rep.missing_tensors@) == missing
                    &&& rep.shape_mismatches@.len() == 0 && rep.dtype_mismatches@.len() == 0
                    &&& rep.success == (missing.len() == 0 || self.config.allow_partial_conversion)
                    &&& match self.architecture {
                        Some(a) => rep.input_shape@ == a.input_shape@ && rep.output_shape@ == a.output_shape@,
                        None => rep.input_shape@.len() == 0 && rep.output_shape@.len() == 0,
                    }
                })
            }),
    {
        let (validated, mut warnings) = match self.check_entries(tensors) {
            Ok(p) => p,
            Err(e) => return Err(e),
        };
        let (missing, input_shape, output_shape) = match &self.architecture {
            None => (Vec::new(), Vec::new(), Vec::new()),
            Some(a) => (missing_of(&a.expected_tensors, tensors), a.input_shape.clone(), a.output_shape.clone()),
        };
        assert(texts(missing@) == missing_names(expected_of(*self), tensors@));
        if self.config.strict_mode && missing.len() > 0 {
            return Err(ConversionError::MissingTensor(missing[0].clone()));
        }
        let mut extra = missing_warnings(&missing);
        let ghost w0 = warnings@;
        let ghost x0 = extra@;
        warnings.append(&mut extra);
        assert(texts(warnings@) =~= texts(w0) + texts(x0));
        let success = missing.len() == 0 || self.config.allow_partial_conversion;
        Ok(ConversionReport {
            success,
            tensors_converted: tensors.len(),
            tensors_validated: validated,
            shape_mismatches: Vec::new(),
            dtype_mismatches: Vec::new(),
            missing_tensors: missing,
            warnings,
            input_shape,
            output_shape,
        })
    }

    /// Converts a weight map: the tensors come back as they are, in order,
    /// once `conversion_report` has checked them. Refused in strict mode on
    /// the first failed check, then on the first missing expected tensor;
    /// otherwise the conversion succeeds whatever the checks found.
    pub fn convert_varmap(&self, tensors: Vec<TensorEntry>) -> (r: Result<Vec<TensorEntry>, ConversionError>)
        ensures
            ({
                let ts = tensors@;
                let missing = missing_names(expected_of(*self), ts);
                let failing = exists|i: int| 0 <= i < ts.len() && fails_check(*self, #[trigger] ts[i]);
                &&& self.config.strict_mode && failing ==>
                    exists|i: int| 0 <= i < ts.len() && #[trigger] fails_check(*self, ts[i])
                        && (forall|j: int| 0 <= j < i ==> !fails_check(*self, ts[j]))
                        && (entry_check(*self, ts[i]) matches Some((o, x))
                            && (r matches Err(e) && is_check_error(e, o, x, ts[i])))
                &&& self.config.strict_mode && !failing && missing.len() > 0 ==>
                    (r matches Err(e) && e matches ConversionError::MissingTensor(m) && m@ == missing[0])
                &&& (!self.config.strict_mode || (!failing && missing.len() == 0)) ==> (r matches Ok(m) && m@ == ts)
            }),
    {
        match self.conversion_report(&tensors) {
            Ok(_) => Ok(tensors),
            Err(e) => Err(e),
        }
    }
}

} // verus!
