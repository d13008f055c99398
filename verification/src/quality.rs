//! Training data: its descriptive types, and the quality gate that drops
//! samples with missing fields, the wrong number of energy bins, duplicate
//! ids, or counts out of range or with outliers.
//!
//! The count checks work on floating-point sums and statistics; the caller
//! makes them and hands each failed one in as its message. Everything else is
//! decided here.
use vstd::prelude::*;
use crate::storage::F64Bits;
use crate::text::{concat_strs, decimal, decimal_string, str_eq};

verus! {

/// Where a spectrum comes from.
#[derive(PartialEq, Eq, Structural, Clone, Copy, Debug)]
pub enum SourceType {
    Background,
    Medical,
    Industrial,
    Nuclear,
    Unknown,
}

/// How a dataset is stored.
pub enum DataFormat {
    Csv,
    Json,
    Hdf5,
    Npy,
    Custom(String),
}

/// Smoothing methods.
#[derive(PartialEq, Eq, Structural, Clone, Copy, Debug)]
pub enum SmoothingMethod {
    MovingAverage,
    SavitzkyGolay,
    Gaussian,
}

/// Smoothing settings.
pub struct SmoothingConfig {
    pub method: SmoothingMethod,
    pub window_size: usize,
    pub iterations: usize,
}

/// Noise reduction methods.
#[derive(PartialEq, Eq, Structural, Clone, Copy, Debug)]
pub enum NoiseMethod {
    Wavelet,
    Median,
    LowPass,
}

/// Kinds of data quality problem.
#[derive(PartialEq, Eq, Structural, Clone, Copy, Debug)]
pub enum ErrorType {
    MissingField,
    InvalidRange,
    WrongDimensions,
    Duplicate,
    Outlier,
    ParseError,
}

/// One data quality problem.
pub struct QualityError {
    pub sample_id: String,
    pub error_type: ErrorType,
    pub message: String,
}

/// What the quality gate found.
pub struct QualityReport {
    pub total_samples: usize,
    pub valid_samples: usize,
    pub invalid_samples: usize,
    pub duplicates_removed: usize,
    pub outliers_removed: usize,
    pub errors: Vec<QualityError>,
}

/// Data quality settings; the count limits and outlier threshold are the bits
/// of `f64` values.
pub struct DataQualityConfig {
    pub min_counts: Option<F64Bits>,
    pub max_counts: Option<F64Bits>,
    pub min_energy_bins: usize,
    pub max_energy_bins: usize,
    pub required_fields: Vec<String>,
    pub outlier_threshold: Option<F64Bits>,
    pub duplicate_detection: bool,
}

/// Bits of the `f64` value 0.0.
pub const ZERO_F64_BITS: u64 = 0;
/// Bits of the `f64` value 3.0.
pub const THREE_F64_BITS: u64 = 0x4008_0000_0000_0000;

impl DataQualityConfig {
    /// At least zero counts, 128 to 8192 energy bins, `id`, `energy_bins` and
    /// `counts` required, outliers beyond three standard deviations, duplicates detected.
    pub fn default() -> (c: DataQualityConfig)
        ensures
            c.min_counts == Some(F64Bits(ZERO_F64_BITS)),
            c.max_counts is None,
            c.min_energy_bins == 128 && c.max_energy_bins == 8192,
            c.required_fields@.map_values(|s: String| s@) == seq!["id"@, "energy_bins"@, "counts"@],
            c.outlier_threshold == Some(F64Bits(THREE_F64_BITS)),
            c.duplicate_detection,
    {
        let mut fields: Vec<String> = Vec::new();
        fields.push(String::from_str("id"));
        fields.push(String::from_str("energy_bins"));
        fields.push(String::from_str("counts"));
        assert(fields@.map_values(|s: String| s@) =~= seq!["id"@, "energy_bins"@, "counts"@]);
        DataQualityConfig {
            min_counts: Some(F64Bits(ZERO_F64_BITS)),
            max_counts: None,
            min_energy_bins: 128,
            max_energy_bins: 8192,
            required_fields: fields,
            outlier_threshold: Some(F64Bits(THREE_F64_BITS)),
            duplicate_detection: true,
        }
    }
}

/// A sample as the quality gate sees it: its id, how many energy bins and
/// counts it has, and the messages of the count checks it failed.
pub struct SampleQuality<T> {
    pub id: String,
    pub energy_bins: usize,
    pub counts: usize,
    pub below_min_counts: Option<String>,
    pub above_max_counts: Option<String>,
    pub outlier: Option<String>,
    pub sample: T,
}

/// A quality error as plain values.
pub type ErrorView = (Seq<char>, ErrorType, Seq<char>);

/// The view of a quality error.
pub open spec fn error_view(e: QualityError) -> ErrorView {
    (e.sample_id@, e.error_type, e.message@)
}

/// Whether a sample has a required field: `id` must be non-empty, as must
/// `energy_bins` and `counts`; other names are always present.
pub open spec fn field_present<T>(field: Seq<char>, s: SampleQuality<T>) -> bool {
    if field == "id"@ {
        s.id@.len() > 0
    } else if field == "energy_bins"@ {
        s.energy_bins > 0
    } else if field == "counts"@ {
        s.counts > 0
    } else {
        true
    }
}

/// The missing-field errors of a sample, in the order of the required fields.
pub open spec fn field_errors<T>(fields: Seq<Seq<char>>, s: SampleQuality<T>) -> Seq<ErrorView>
    decreases fields.len(),
{
    if fields.len() == 0 {
        Seq::empty()
    } else {
        let rest = field_errors(fields.drop_last(), s);
        if field_present(fields.last(), s) {
            rest
        } else {
            rest.push((s.id@, ErrorType::MissingField, "Missing or empty field: "@ + fields.last()))
        }
    }
}

/// The message of a sample with the wrong number of energy bins.
pub open spec fn bins_message(n: nat, min: nat, max: nat) -> Seq<char> {
    "Energy bins count "@ + decimal(n) + " out of range ["@ + decimal(min) + "-"@ + decimal(max) + "]"@
}

/// An error for a failed count check, if it failed.
pub open spec fn count_error(id: Seq<char>, kind: ErrorType, m: Option<String>) -> Seq<ErrorView> {
    match m {
        Some(t) => seq![(id, kind, t@)],
        None => Seq::empty(),
    }
}

/// Whether sample `i`'s id occurs among the samples before it.
pub open spec fn seen_before<T>(samples: Seq<SampleQuality<T>>, i: int) -> bool {
    exists|j: int| 0 <= j < i && #[trigger] samples[j].id@ == samples[i].id@
}

/// The errors of sample `i`, in the order the checks run: required fields,
/// energy bins, minimum and maximum counts, duplicate id, outlier.
pub open spec fn sample_errors<T>(c: DataQualityConfig, samples: Seq<SampleQuality<T>>, i: int) -> Seq<ErrorView> {
    let s = samples[i];
    let id = s.id@;
    field_errors(c.required_fields@.map_values(|f: String| f@), s)
        + (if s.energy_bins < c.min_energy_bins || s.energy_bins > c.max_energy_bins {
            seq![(id, ErrorType::WrongDimensions, bins_message(s.energy_bins as nat, c.min_energy_bins as nat, c.max_energy_bins as nat))]
        } else {
            Seq::empty()
        })
        + (if c.min_counts is Some { count_error(id, ErrorType::InvalidRange, s.below_min_counts) } else { Seq::empty() })
        + (if c.max_counts is Some { count_error(id, ErrorType::InvalidRange, s.above_max_counts) } else { Seq::empty() })
        + (if c.duplicate_detection && seen_before(samples, i) {
            seq![(id, ErrorType::Duplicate, "Duplicate sample ID"@)]
        } else {
            Seq::empty()
        })
        + (if c.outlier_threshold is Some { count_error(id, ErrorType::Outlier, s.outlier) } else { Seq::empty() })
}

/// The errors of the first `n` samples, sample by sample.
pub open spec fn all_errors<T>(c: DataQualityConfig, samples: Seq<SampleQuality<T>>, n: int) -> Seq<ErrorView>
    decreases n,
{
    if n <= 0 {
        Seq::empty()
    } else {
        all_errors(c, samples, n - 1) + sample_errors(c, samples, n - 1)
    }
}

/// The samples among the first `n` that pass every check, in order.
pub open spec fn kept<T>(c: DataQualityConfig, samples: Seq<SampleQuality<T>>, n: int) -> Seq<SampleQuality<T>>
    decreases n,
{
    if n <= 0 {
        Seq::empty()
    } else if sample_errors(c, samples, n - 1).len() == 0 {
        kept(c, samples, n - 1).push(samples[n - 1])
    } else {
        kept(c, samples, n - 1)
    }
}

/// How many of the first `n` samples are dropped as duplicates.
pub open spec fn duplicates<T>(c: DataQualityConfig, samples: Seq<SampleQuality<T>>, n: int) -> nat
    decreases n,
{
    if n <= 0 {
        0
    } else {
        duplicates(c, samples, n - 1) + if c.duplicate_detection && seen_before(samples, n - 1) { 1nat } else { 0nat }
    }
}

/// How many of the first `n` samples have outliers.
pub open spec fn outliers<T>(c: DataQualityConfig, samples: Seq<SampleQuality<T>>, n: int) -> nat
    decreases n,
{
    if n <= 0 {
        0
    } else {
        outliers(c, samples, n - 1) + if c.outlier_threshold is Some && samples[n - 1].outlier is Some { 1nat } else { 0nat }
    }
}

/// `x` is one of the first `n` samples and passed every check.
pub open spec fn passed_among<T>(c: DataQualityConfig, s: Seq<SampleQuality<T>>, n: int, x: SampleQuality<T>) -> bool {
    exists|i: int| 0 <= i < n && s[i] == x && #[trigger] sample_errors(c, s, i).len() == 0
}

/// Every survivor among the first `n` samples is one of them that passed every
/// check, and with duplicate detection on no two survivors share an id.
proof fn lemma_kept_facts<T>(c: DataQualityConfig, s: Seq<SampleQuality<T>>, n: int)
    requires
        0 <= n <= s.len(),
    ensures
        kept(c, s, n).len() <= n,
        forall|j: int| 0 <= j < kept(c, s, n).len() ==> passed_among(c, s, n, #[trigger] kept(c, s, n)[j]),
        c.duplicate_detection ==> forall|a: int, b: int|
            0 <= a < b < kept(c, s, n).len() ==> #[trigger] kept(c, s, n)[a].id@ != #[trigger] kept(c, s, n)[b].id@,
    decreases n,
{
    if n > 0 {
        lemma_kept_facts(c, s, n - 1);
        let k0 = kept(c, s, n - 1);
        if sample_errors(c, s, n - 1).len() == 0 {
            let k = kept(c, s, n);
            assert(k == k0.push(s[n - 1]));
            assert forall|j: int| 0 <= j < k.len() implies passed_among(c, s, n, #[trigger] k[j]) by {
                if j < k0.len() {
                    assert(k[j] == k0[j]);
                    assert(passed_among(c, s, n - 1, k0[j]));
                    let i = choose|i: int| 0 <= i < n - 1 && s[i] == k0[j] && #[trigger] sample_errors(c, s, i).len() == 0;
                    assert(0 <= i < n && s[i] == k[j] && sample_errors(c, s, i).len() == 0);
                } else {
                    assert(k[j] == s[n - 1]);
                    assert(sample_errors(c, s, n - 1).len() == 0);
                }
            }
            if c.duplicate_detection {
                assert(!seen_before(s, n - 1)) by {
                    let e = sample_errors(c, s, n - 1);
                    if seen_before(s, n - 1) {
                        assert(e.len() >= 1);
                    }
                }
                assert forall|a: int, b: int| 0 <= a < b < k.len() implies #[trigger] k[a].id@ != #[trigger] k[b].id@ by {
                    if b < k0.len() {
                        assert(k[a] == k0[a] && k[b] == k0[b]);
                    } else {
                        assert(k[a] == k0[a]);
                        assert(passed_among(c, s, n - 1, k0[a]));
                        let i = choose|i: int| 0 <= i < n - 1 && s[i] == k0[a] && #[trigger] sample_errors(c, s, i).len() == 0;
                        assert(k[b] == s[n - 1]);
                        if k[a].id@ == k[b].id@ {
                            assert(s[i].id@ == s[n - 1].id@);
                            assert(seen_before(s, n - 1));
                        }
                    }
                }
            }
        }
    }
}

/// A sample kept by the quality checks passes every check once more when only
/// the kept samples are checked.
proof fn lemma_survivor_passes<T>(c: DataQualityConfig, s: Seq<SampleQuality<T>>, k: Seq<SampleQuality<T>>, j: int, i: int)
    requires
        0 <= j < k.len(),
        0 <= i < s.len(),
        k[j] == s[i],
        sample_errors(c, s, i).len() == 0,
        c.duplicate_detection ==> forall|a: int, b: int| 0 <= a < b < k.len() ==> #[trigger] k[a].id@ != #[trigger] k[b].id@,
    ensures
        sample_errors(c, k, j).len() == 0,
{
    if c.duplicate_detection && seen_before(k, j) {
        let a = choose|a: int| 0 <= a < j && #[trigger] k[a].id@ == k[j].id@;
        assert(k[a].id@ != k[j].id@);
    }
}

/// Checking the first `m` kept samples finds nothing to remove.
proof fn lemma_rerun_prefix<T>(c: DataQualityConfig, samples: Seq<SampleQuality<T>>, k: Seq<SampleQuality<T>>, m: int)
    requires
        0 <= m <= k.len(),
        forall|j: int| 0 <= j < k.len() ==> passed_among(c, samples, samples.len() as int, #[trigger] k[j]),
        c.duplicate_detection ==> forall|a: int, b: int| 0 <= a < b < k.len() ==> #[trigger] k[a].id@ != #[trigger] k[b].id@,
    ensures
        all_errors(c, k, m) == Seq::<ErrorView>::empty(),
        kept(c, k, m) == k.take(m),
        duplicates(c, k, m) == 0,
        outliers(c, k, m) == 0,
    decreases m,
{
    if m > 0 {
        lemma_rerun_prefix(c, samples, k, m - 1);
        let j = m - 1;
        assert(passed_among(c, samples, samples.len() as int, k[j]));
        let i = choose|i: int| 0 <= i < samples.len() && samples[i] == k[j] && #[trigger] sample_errors(c, samples, i).len() == 0;
        lemma_survivor_passes(c, samples, k, j, i);
        let e = sample_errors(c, k, j);
        if c.duplicate_detection && seen_before(k, j) {
            assert(e.len() >= 1);
        }
        if c.outlier_threshold is Some && k[j].outlier is Some {
            assert(e.len() >= 1);
        }
        assert(all_errors(c, k, m) =~= Seq::<ErrorView>::empty());
        assert(kept(c, k, m) =~= k.take(m));
    }
}

/// Checking the kept samples once more finds nothing to remove: no
/// error, no duplicate, no outlier, and every survivor stays, in order; with
/// duplicate detection on, the survivors' ids are pairwise distinct.
pub proof fn law_gate_keeps_survivors<T>(c: DataQualityConfig, samples: Seq<SampleQuality<T>>)
    ensures
        ({
            let k = kept(c, samples, samples.len() as int);
            &&& all_errors(c, k, k.len() as int) == Seq::<ErrorView>::empty()
            &&& kept(c, k, k.len() as int) == k
            &&& duplicates(c, k, k.len() as int) == 0
            &&& outliers(c, k, k.len() as int) == 0
            &&& c.duplicate_detection ==> forall|a: int, b: int|
                0 <= a < b < k.len() ==> #[trigger] k[a].id@ != #[trigger] k[b].id@
        }),
{
    let n = samples.len() as int;
    let k = kept(c, samples, n);
    lemma_kept_facts(c, samples, n);
    lemma_rerun_prefix(c, samples, k, k.len() as int);
    assert(k.take(k.len() as int) =~= k);
}

/// Why the quality gate could not run.
#[derive(PartialEq, Eq, Structural, Clone, Copy, Debug)]
pub enum QualityGateError {
    /// "No quality configuration set"
    NoQualityConfig,
}

fn push_error(errors: &mut Vec<QualityError>, id: &String, kind: ErrorType, message: String)
    ensures
        views(final(errors)@) == views(old(errors)@).push((id@, kind, message@)),
{
    let ghost before = errors@;
    errors.push(QualityError { sample_id: id.clone(), error_type: kind, message });
    assert(views(errors@) =~= views(before).push((id@, kind, message@)));
}

fn field_present_exec<T>(field: &str, s: &SampleQuality<T>) -> (r: bool)
    ensures
        r == field_present(field@, *s),
{
    if str_eq(field, "id") {
        s.id.as_str().unicode_len() > 0
    } else if str_eq(field, "energy_bins") {
        s.energy_bins > 0
    } else if str_eq(field, "counts") {
        s.counts > 0
    } else {
        true
    }
}

/// The error of a sample with the wrong number of energy bins, if it has.
pub open spec fn bins_errors<T>(c: DataQualityConfig, s: SampleQuality<T>) -> Seq<ErrorView> {
    if s.energy_bins < c.min_energy_bins || s.energy_bins > c.max_energy_bins {
        seq![(s.id@, ErrorType::WrongDimensions, bins_message(s.energy_bins as nat, c.min_energy_bins as nat, c.max_energy_bins as nat))]
    } else {
        Seq::empty()
    }
}

/// The error of a duplicate sample, if it is one and duplicates are detected.
pub open spec fn dup_errors<T>(c: DataQualityConfig, samples: Seq<SampleQuality<T>>, i: int) -> Seq<ErrorView> {
    if c.duplicate_detection && seen_before(samples, i) {
        seq![(samples[i].id@, ErrorType::Duplicate, "Duplicate sample ID"@)]
    } else {
        Seq::empty()
    }
}

/// The errors of a failed count check that runs when `on`.
pub open spec fn gated(on: bool, id: Seq<char>, kind: ErrorType, m: Option<String>) -> Seq<ErrorView> {
    if on { count_error(id, kind, m) } else { Seq::empty() }
}

/// The views of a list of errors.
pub open spec fn views(v: Seq<QualityError>) -> Seq<ErrorView> {
    v.map_values(|e: QualityError| error_view(e))
}

fn append_field_errors<T>(c: &DataQualityConfig, s: &SampleQuality<T>, errors: &mut Vec<QualityError>)
    ensures
        views(final(errors)@) == views(old(errors)@) + field_errors(c.required_fields@.map_values(|f: String| f@), *s),
{
    let ghost e0 = views(errors@);
    let ghost fields = c.required_fields@.map_values(|f: String| f@);
    let mut k: usize = 0;
    while k < c.required_fields.len()
        invariant
            k <= c.required_fields@.len(),
            fields == c.required_fields@.map_values(|f: String| f@),
            views(errors@) == e0 + field_errors(fields.take(k as int), *s),
        decreases c.required_fields.len() - k,
    {
        proof {
            assert(fields.take(k + 1).drop_last() =~= fields.take(k as int));
            assert(fields.take(k + 1).last() == c.required_fields@[k as int]@);
        }
        let f = &c.required_fields[k];
        if !field_present_exec(f.as_str(), s) {
            let ghost before = views(errors@);
            push_error(errors, &s.id, ErrorType::MissingField, concat_strs("Missing or empty field: ", f.as_str()));
            assert(e0 + field_errors(fields.take(k + 1), *s) =~= before.push((s.id@, ErrorType::MissingField, "Missing or empty field: "@ + f@)));
        }
        k = k + 1;
    }
    assert(fields.take(fields.len() as int) =~= fields);
}

fn append_bins_error<T>(c: &DataQualityConfig, s: &SampleQuality<T>, errors: &mut Vec<QualityError>)
    ensures
        views(final(errors)@) == views(old(errors)@) + bins_errors(*c, *s),
{
    if s.energy_bins < c.min_energy_bins || s.energy_bins > c.max_energy_bins {
        let n = decimal_string(s.energy_bins as u64);
        let lo = decimal_string(c.min_energy_bins as u64);
        let hi = decimal_string(c.max_energy_bins as u64);
        let m1 = concat_strs("Energy bins count ", n.as_str());
        let m2 = concat_strs(m1.as_str(), " out of range [");
        let m3 = concat_strs(m2.as_str(), lo.as_str());
        let m4 = concat_strs(m3.as_str(), "-");
        let m5 = concat_strs(m4.as_str(), hi.as_str());
        let m6 = concat_strs(m5.as_str(), "]");
        push_error(errors, &s.id, ErrorType::WrongDimensions, m6);
    } else {
        assert(views(errors@) =~= views(errors@) + Seq::<ErrorView>::empty());
    }
}

fn append_gated(on: bool, id: &String, kind: ErrorType, m: &Option<String>, errors: &mut Vec<QualityError>)
    ensures
        views(final(errors)@) == views(old(errors)@) + gated(on, id@, kind, *m),
{
    if on {
        match m {
            Some(t) => {
                push_error(errors, id, kind, t.clone());
                assert(views(errors@) =~= views(old(errors)@) + gated(on, id@, kind, *m));
            },
            None => {
                assert(views(errors@) =~= views(errors@) + Seq::<ErrorView>::empty());
            },
        }
    } else {
        assert(views(errors@) =~= views(errors@) + Seq::<ErrorView>::empty());
    }
}

/// Whether sample `i`'s id occurs among the samples before it.
fn is_seen_before<T>(samples: &Vec<SampleQuality<T>>, i: usize) -> (r: bool)
    requires
        i < samples@.len(),
    ensures
        r == seen_before(samples@, i as int),
{
    let mut seen = false;
    let mut j: usize = 0;
    while j < i
        invariant
            j <= i,
            i < samples@.len(),
            seen == exists|q: int| 0 <= q < j && #[trigger] samples@[q].id@ == samples@[i as int].id@,
        decreases i - j,
    {
        if str_eq(samples[j].id.as_str(), samples[i].id.as_str()) {
            seen = true;
        }
        j = j + 1;
    }
    seen
}

fn append_dup_error<T>(c: &DataQualityConfig, samples: &Vec<SampleQuality<T>>, i: usize, errors: &mut Vec<QualityError>)
    requires
        i < samples@.len(),
    ensures
        views(final(errors)@) == views(old(errors)@) + dup_errors(*c, samples@, i as int),
{
    if c.duplicate_detection && is_seen_before(samples, i) {
        push_error(errors, &samples[i].id, ErrorType::Duplicate, String::from_str("Duplicate sample ID"));
    } else {
        assert(views(errors@) =~= views(errors@) + Seq::<ErrorView>::empty());
    }
}

/// Appends the errors of sample `i` and says whether it had none.
#[verifier::spinoff_prover]
#[verifier::rlimit(40)]
fn check_sample<T>(c: &DataQualityConfig, samples: &Vec<SampleQuality<T>>, i: usize, errors: &mut Vec<QualityError>) -> (ok: bool)
    requires
        i < samples@.len(),
    ensures
        views(final(errors)@) == views(old(errors)@) + sample_errors(*c, samples@, i as int),
        ok == (sample_errors(*c, samples@, i as int).len() == 0),
{
    let s = &samples[i];
    let start_len = errors.len();
    let ghost e0 = views(errors@);
    append_field_errors(c, s, errors);
    append_bins_error(c, s, errors);
    append_gated(c.min_counts.is_some(), &s.id, ErrorType::InvalidRange, &s.below_min_counts, errors);
    append_gated(c.max_counts.is_some(), &s.id, ErrorType::InvalidRange, &s.above_max_counts, errors);
    append_dup_error(c, samples, i, errors);
    append_gated(c.outlier_threshold.is_some(), &s.id, ErrorType::Outlier, &s.outlier, errors);
    proof {
        let fe = field_errors(c.required_fields@.map_values(|f: String| f@), *s);
        assert(sample_errors(*c, samples@, i as int) == fe + bins_errors(*c, *s)
            + gated(c.min_counts is Some, s.id@, ErrorType::InvalidRange, s.below_min_counts)
            + gated(c.max_counts is Some, s.id@, ErrorType::InvalidRange, s.above_max_counts)
            + dup_errors(*c, samples@, i as int)
            + gated(c.outlier_threshold is Some, s.id@, ErrorType::Outlier, s.outlier));
        assert(views(errors@) =~= e0 + sample_errors(*c, samples@, i as int));
    }
    errors.len() == start_len
}

/// Runs the quality gate over the samples: the samples that pass every check,
/// in order, and the report; refused when there is no configuration, with the
/// samples handed back unchanged.
pub fn validate_quality<T>(config: Option<&DataQualityConfig>, samples: Vec<SampleQuality<T>>) -> (r: Result<(Vec<SampleQuality<T>>, QualityReport), (QualityGateError, Vec<SampleQuality<T>>)>)
    ensures
        config is None ==> (r matches Err((e, back)) && e == QualityGateError::NoQualityConfig && back@ == samples@),
        config matches Some(c) ==> (r matches Ok((valid, report)) && {
            let n = samples@.len() as int;
            &&& valid@ == kept(*c, samples@, n)
            &&& report.total_samples == n
            &&& report.valid_samples == valid@.len()
            &&& report.invalid_samples == n - valid@.len()
            &&& report.duplicates_removed == duplicates(*c, samples@, n)
            &&& report.outliers_removed == outliers(*c, samples@, n)
            &&& views(report.errors@) == all_errors(*c, samples@, n)
        }),
{
    let c = match config {
        Some(c) => c,
        None => return Err((QualityGateError::NoQualityConfig, samples)),
    };
    let mut errors: Vec<QualityError> = Vec::new();
    let mut valid_flags: Vec<bool> = Vec::new();
    let mut dups: usize = 0;
    let mut outs: usize = 0;
    let mut i: usize = 0;
    while i < samples.len()
        invariant
            i <= samples@.len(),
            valid_flags@.len() == i,
            forall|k: int| 0 <= k < i ==> valid_flags@[k] == (sample_errors(*c, samples@, k).len() == 0),
            views(errors@) == all_errors(*c, samples@, i as int),
            dups == duplicates(*c, samples@, i as int),
            outs == outliers(*c, samples@, i as int),
            dups <= i && outs <= i,
        decreases samples.len() - i,
    {
        let ok = check_sample(c, &samples, i, &mut errors);
        valid_flags.push(ok);
        if c.duplicate_detection && is_seen_before(&samples, i) {
            dups = dups + 1;
        }
        if c.outlier_threshold.is_some() && samples[i].outlier.is_some() {
            outs = outs + 1;
        }
        i = i + 1;
    }
    let total = samples.len();
    let mut valid: Vec<SampleQuality<T>> = Vec::new();
    let mut rest = samples;
    let ghost all = rest@;
    let mut rev: Vec<SampleQuality<T>> = Vec::new();
    while rest.len() > 0
        invariant
            rest@ == all.subrange(0, rest@.len() as int),
            rest@.len() + rev@.len() == all.len(),
            forall|j: int| 0 <= j < rev@.len() ==> #[trigger] rev@[j] == all[all.len() - 1 - j],
        decreases rest.len(),
    {
        let s = rest.pop().unwrap();
        rev.push(s);
    }
    let mut k: usize = 0;
    while rev.len() > 0
        invariant
            k + rev@.len() == all.len(),
            total == all.len(),
            valid_flags@.len() == all.len(),
            forall|q: int| 0 <= q < all.len() ==> valid_flags@[q] == (sample_errors(*c, all, q).len() == 0),
            forall|j: int| 0 <= j < rev@.len() ==> #[trigger] rev@[j] == all[all.len() - 1 - j],
            valid@ == kept(*c, all, k as int),
            valid@.len() <= k,
        decreases rev.len(),
    {
        let s = rev.pop().unwrap();
        assert(s == all[k as int]);
        if valid_flags[k] {
            valid.push(s);
        }
        k = k + 1;
    }
    let valid_count = valid.len();
    let report = QualityReport {
        total_samples: total,
        valid_samples: valid_count,
        invalid_samples: total - valid_count,
        duplicates_removed: dups,
        outliers_removed: outs,
        errors,
    };
    Ok((valid, report))
}

/// The training label of a source type: background 0, medical 1,
/// industrial 2, nuclear 3, unknown 4.
pub open spec fn source_label_spec(t: SourceType) -> u32 {
    match t {
        SourceType::Background => 0,
        SourceType::Medical => 1,
        SourceType::Industrial => 2,
        SourceType::Nuclear => 3,
        SourceType::Unknown => 4,
    }
}

/// The training label of a sample's source type.
pub fn source_label(t: SourceType) -> (l: u32)
    ensures
        l == source_label_spec(t),
{
    match t {
        SourceType::Background => 0,
        SourceType::Medical => 1,
        SourceType::Industrial => 2,
        SourceType::Nuclear => 3,
        SourceType::Unknown => 4,
    }
}

/// The training labels of samples' source types, in order.
pub fn source_labels(types: &Vec<SourceType>) -> (ls: Vec<u32>)
    ensures
        ls@ == types@.map_values(|t: SourceType| source_label_spec(t)),
{
    let mut ls: Vec<u32> = Vec::new();
    let mut i: usize = 0;
    while i < types.len()
        invariant
            i <= types@.len(),
            ls@ == types@.take(i as int).map_values(|t: SourceType| source_label_spec(t)),
        decreases types.len() - i,
    {
        ls.push(source_label(types[i]));
        i = i + 1;
        assert(ls@ =~= types@.take(i as int).map_values(|t: SourceType| source_label_spec(t)));
    }
    assert(types@.take(types@.len() as int) =~= types@);
    ls
}

/// Where the moving-average window around position `i` lies in data of
/// length `len`: from `i - window / 2` (at least 0) up to `i + window / 2 + 1`
/// (at most `len`), end excluded.
pub fn smoothing_window(i: usize, window: usize, len: usize) -> (r: (usize, usize))
    requires
        i < len,
    ensures
        r.0 == (if i >= window / 2 { i - window / 2 } else { 0 }),
        r.1 == (if i + window / 2 + 1 <= len { i + window / 2 + 1 } else { len as int }),
        r.0 <= i < r.1 <= len,
{
    let half = window / 2;
    let start = if i >= half { i - half } else { 0 };
    let end = if half < len - i { i + half + 1 } else { len };
    (start, end)
}

/// Where the training, validation and test parts of `n` samples end: the
/// last `n_test` samples are for testing, the `n_val` before them for
/// validation, and the rest, first, for training.
pub fn split_bounds(n: usize, n_test: usize, n_val: usize) -> (r: (usize, usize))
    requires
        n_test + n_val <= n,
    ensures
        r.0 == n - n_test - n_val,
        r.1 == r.0 + n_val,
        r.1 + n_test == n,
{
    let n_train = n - n_test - n_val;
    (n_train, n_train + n_val)
}

/// The name of a source type.
pub open spec fn source_type_name(t: SourceType) -> Seq<char> {
    match t {
        SourceType::Background => "Background"@,
        SourceType::Medical => "Medical"@,
        SourceType::Industrial => "Industrial"@,
        SourceType::Nuclear => "Nuclear"@,
        SourceType::Unknown => "Unknown"@,
    }
}

/// How many samples are of type `t`.
pub open spec fn type_count(types: Seq<SourceType>, t: SourceType) -> nat
    decreases types.len(),
{
    if types.len() == 0 {
        0
    } else {
        type_count(types.drop_last(), t) + if types.last() == t { 1nat } else { 0nat }
    }
}

/// The source types in declaration order.
pub open spec fn all_source_types() -> Seq<SourceType> {
    seq![SourceType::Background, SourceType::Medical, SourceType::Industrial, SourceType::Nuclear, SourceType::Unknown]
}

/// The types among `ts` that occur in `types`, each with its name and count.
pub open spec fn distribution_of(types: Seq<SourceType>, ts: Seq<SourceType>) -> Seq<(Seq<char>, nat)>
    decreases ts.len(),
{
    if ts.len() == 0 {
        Seq::empty()
    } else {
        let rest = distribution_of(types, ts.drop_last());
        let t = ts.last();
        if type_count(types, t) > 0 { rest.push((source_type_name(t), type_count(types, t))) } else { rest }
    }
}

proof fn lemma_type_count_bounded(types: Seq<SourceType>, t: SourceType)
    ensures
        type_count(types, t) <= types.len(),
    decreases types.len(),
{
    if types.len() > 0 {
        lemma_type_count_bounded(types.drop_last(), t);
    }
}

fn count_type(types: &Vec<SourceType>, t: SourceType) -> (n: usize)
    ensures
        n == type_count(types@, t),
{
    let mut n: usize = 0;
    let mut i: usize = 0;
    while i < types.len()
        invariant
            i <= types@.len(),
            n == type_count(types@.take(i as int), t),
        decreases types.len() - i,
    {
        proof {
            assert(types@.take(i + 1).drop_last() =~= types@.take(i as int));
            lemma_type_count_bounded(types@.take(i as int), t);
        }
        if types[i] == t {
            n = n + 1;
        }
        i = i + 1;
    }
    assert(types@.take(types@.len() as int) =~= types@);
    n
}

fn source_name(t: SourceType) -> (s: String)
    ensures
        s@ == source_type_name(t),
{
    match t {
        SourceType::Background => String::from_str("Background"),
        SourceType::Medical => String::from_str("Medical"),
        SourceType::Industrial => String::from_str("Industrial"),
        SourceType::Nuclear => String::from_str("Nuclear"),
        SourceType::Unknown => String::from_str("Unknown"),
    }
}

/// How many samples there are of each source type that occurs, by the
/// type's name, in the types' declaration order.
pub fn source_type_distribution(types: &Vec<SourceType>) -> (d: Vec<(String, usize)>)
    ensures
        d@.map_values(|e: (String, usize)| (e.0@, e.1 as nat)) == distribution_of(types@, all_source_types()),
{
    let all = vec![SourceType::Background, SourceType::Medical, SourceType::Industrial, SourceType::Nuclear, SourceType::Unknown];
    assert(all@ =~= all_source_types());
    let mut d: Vec<(String, usize)> = Vec::new();
    let mut k: usize = 0;
    while k < all.len()
        invariant
            k <= all@.len(),
            all@ == all_source_types(),
            d@.map_values(|e: (String, usize)| (e.0@, e.1 as nat)) == distribution_of(types@, all@.take(k as int)),
        decreases all.len() - k,
    {
        proof {
            assert(all@.take(k + 1).drop_last() =~= all@.take(k as int));
        }
        let t = all[k];
        let n = count_type(types, t);
        let ghost before = d@;
        if n > 0 {
            d.push((source_name(t), n));
            assert(d@.map_values(|e: (String, usize)| (e.0@, e.1 as nat))
                =~= before.map_values(|e: (String, usize)| (e.0@, e.1 as nat)).push((source_type_name(t), n as nat)));
        }
        k = k + 1;
    }
    assert(all@.take(all@.len() as int) =~= all@);
    d
}

} // verus!
