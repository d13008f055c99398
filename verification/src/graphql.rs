//! The API's model management: model kinds and states, the inputs clients
//! send, how a model's kind follows from its name, the listing of registered
//! models, and the request rate limiting layer.
//!
//! The GraphQL resolvers that serve these live with the server; here are the
//! decisions they make.
use vstd::prelude::*;
use crate::auth::{tier_requests, RateLimitTier};
use crate::ml::OnnxModelMetadata;
use crate::registry::{has_version, version_of, version_view, version_views, ModelRegistry, ModelVersionInfo};
use crate::text::{concat_strs, has_infix, str_contains, str_eq};
use crate::storage::F64Bits;

verus! {

/// Model status.
#[derive(PartialEq, Eq, Structural, Clone, Copy, Debug)]
pub enum ModelStatus {
    Active,
    Inactive,
    RollingOut,
    RollingBack,
    Failed,
}

/// Model type.
#[derive(PartialEq, Eq, Structural, Clone, Copy, Debug)]
pub enum ModelType {
    IsotopeClassifier,
    AnomalyDetector,
    BackgroundSubtractor,
    MultiClassClassifier,
}

/// Model metadata as the API shows it.
pub struct ModelMetadataGraphQL {
    pub ir_version: i64,
    pub opset_version: i64,
    pub producer_name: String,
    pub producer_version: String,
    pub domain: String,
    pub model_version: i64,
    pub doc_string: String,
    pub graph_name: String,
    pub num_inputs: i32,
    pub num_outputs: i32,
    pub num_nodes: i32,
    pub num_initializers: i32,
}

impl ModelMetadataGraphQL {
    /// The API's view of a model's metadata; counts are narrowed to `i32` as
    /// `as` narrows them.
    pub fn from(m: &OnnxModelMetadata) -> (g: ModelMetadataGraphQL)
        ensures
            g.ir_version == m.ir_version && g.opset_version == m.opset_version,
            g.producer_name@ == m.producer_name@ && g.producer_version@ == m.producer_version@,
            g.domain@ == m.domain@ && g.model_version == m.model_version,
            g.doc_string@ == m.doc_string@ && g.graph_name@ == m.graph_name@,
            g.num_inputs == m.num_inputs as i32,
            g.num_outputs == m.num_outputs as i32,
            g.num_nodes == m.num_nodes as i32,
            g.num_initializers == m.num_initializers as i32,
    {
        ModelMetadataGraphQL {
            ir_version: m.ir_version,
            opset_version: m.opset_version,
            producer_name: m.producer_name.clone(),
            producer_version: m.producer_version.clone(),
            domain: m.domain.clone(),
            model_version: m.model_version,
            doc_string: m.doc_string.clone(),
            graph_name: m.graph_name.clone(),
            num_inputs: m.num_inputs as i32,
            num_outputs: m.num_outputs as i32,
            num_nodes: m.num_nodes as i32,
            num_initializers: m.num_initializers as i32,
        }
    }
}

/// Input for registering a model.
pub struct RegisterModelInput {
    pub name: String,
    pub path: String,
    pub version: String,
    pub model_type: ModelType,
}

/// Input for a hot swap.
pub struct HotSwapInput {
    pub model_name: String,
    pub version: String,
}

/// Input for an ONNX export.
pub struct ExportToOnnxInput {
    pub model_name: String,
    pub model_path: String,
    pub output_path: String,
    pub opset_version: Option<i32>,
    pub optimize: Option<bool>,
}

/// Kinds of data source.
#[derive(PartialEq, Eq, Structural, Clone, Copy, Debug)]
pub enum DataSourceType {
    S3,
    Http,
    LocalFile,
    Database,
    Streaming,
}

/// Data formats.
#[derive(PartialEq, Eq, Structural, Clone, Copy, Debug)]
pub enum DataFormat {
    Csv,
    Hdf5,
    Json,
    Parquet,
    Binary,
}

/// Data source credentials.
pub struct DataSourceCredentials {
    pub access_key: Option<String>,
    pub secret_key: Option<String>,
    pub api_token: Option<String>,
    pub connection_string: Option<String>,
}

/// Input for configuring a data source.
pub struct DataSourceConfigInput {
    pub source_id: String,
    pub source_type: DataSourceType,
    pub endpoint: String,
    pub credentials: Option<DataSourceCredentials>,
    pub format: DataFormat,
    pub refresh_interval_seconds: Option<i32>,
    pub enabled: bool,
}

/// Training job status.
#[derive(PartialEq, Eq, Structural, Clone, Copy, Debug)]
pub enum TrainingJobStatus {
    Pending,
    Running,
    Completed,
    Failed,
    Cancelled,
}

/// The kind of model a name suggests: a name mentioning `isotope`, else
/// `anomaly`, else `background`; anything else is a multi-class classifier.
pub open spec fn model_type_of(name: Seq<char>) -> ModelType {
    if has_infix(name, "isotope"@) {
        ModelType::IsotopeClassifier
    } else if has_infix(name, "anomaly"@) {
        ModelType::AnomalyDetector
    } else if has_infix(name, "background"@) {
        ModelType::BackgroundSubtractor
    } else {
        ModelType::MultiClassClassifier
    }
}

/// A registered model: its name and its versions, in order.
pub struct RegisteredModel {
    pub name: String,
    pub versions: Vec<String>,
}

/// A model that is serving: its name, version, and seconds since it was loaded.
pub struct ActiveModel {
    pub name: String,
    pub version: String,
    pub uptime_seconds: i64,
}

/// A model as the listing shows it; each version says whether it is the current one.
pub struct ModelSummary {
    pub id: String,
    pub name: String,
    pub model_type: ModelType,
    pub status: ModelStatus,
    pub current_version: String,
    pub versions: Vec<(String, bool)>,
    pub uptime_seconds: i64,
}

/// The serving entry for `name`: the first with that name.
pub open spec fn active_for(active: Seq<ActiveModel>, name: Seq<char>) -> Option<ActiveModel> {
    if exists|i: int| 0 <= i < active.len() && #[trigger] active[i].name@ == name {
        let i = choose|i: int| 0 <= i < active.len() && #[trigger] active[i].name@ == name
            && forall|j: int| 0 <= j < i ==> active[j].name@ != name;
        Some(active[i])
    } else {
        None
    }
}

/// What the listing says of a model, as plain values.
pub type SummaryView = (Seq<char>, Seq<char>, ModelType, ModelStatus, Seq<char>, Seq<(Seq<char>, bool)>, i64);

/// The view of a summary.
pub open spec fn summary_view(s: ModelSummary) -> SummaryView {
    (s.id@, s.name@, s.model_type, s.status, s.current_version@,
        s.versions@.map_values(|v: (String, bool)| (v.0@, v.1)), s.uptime_seconds)
}

/// How the listing shows one registered model.
pub open spec fn summarize(m: RegisteredModel, active: Seq<ActiveModel>) -> SummaryView {
    let a = active_for(active, m.name@);
    let current = match a { Some(x) => x.version@, None => "unknown"@ };
    (m.name@, m.name@, model_type_of(m.name@),
        if a is Some { ModelStatus::Active } else { ModelStatus::Inactive },
        current,
        m.versions@.map_values(|v: String| (v@, v@ == current)),
        match a { Some(x) => x.uptime_seconds, None => 0 })
}

/// The listing of the first `n` registered models, those of the requested kind only.
pub open spec fn listing(models: Seq<RegisteredModel>, active: Seq<ActiveModel>, filter: Option<ModelType>, n: int) -> Seq<SummaryView>
    decreases n,
{
    if n <= 0 {
        Seq::empty()
    } else {
        let rest = listing(models, active, filter, n - 1);
        let m = models[n - 1];
        match filter {
            Some(t) => if model_type_of(m.name@) != t { rest } else { rest.push(summarize(m, active)) },
            None => rest.push(summarize(m, active)),
        }
    }
}

/// The query root for models.
pub struct ModelQueryRoot;

impl ModelQueryRoot {
    /// The query root.
    pub fn default() -> (r: ModelQueryRoot) {
        ModelQueryRoot
    }

    /// The kind of model a name suggests.
    pub fn infer_model_type(name: &str) -> (t: ModelType)
        ensures
            t == model_type_of(name@),
    {
        if str_contains(name, "isotope") {
            ModelType::IsotopeClassifier
        } else if str_contains(name, "anomaly") {
            ModelType::AnomalyDetector
        } else if str_contains(name, "background") {
            ModelType::BackgroundSubtractor
        } else {
            ModelType::MultiClassClassifier
        }
    }

    fn find_active(active: &Vec<ActiveModel>, name: &str) -> (r: Option<usize>)
        ensures
            match r {
                Some(i) => i < active@.len() && active_for(active@, name@) == Some(active@[i as int]),
                None => active_for(active@, name@) is None,
            },
    {
        let mut i: usize = 0;
        while i < active.len()
            invariant
                i <= active@.len(),
                forall|j: int| 0 <= j < i ==> active@[j].name@ != name@,
            decreases active.len() - i,
        {
            if str_eq(active[i].name.as_str(), name) {
                proof {
                    let c = choose|k: int| 0 <= k < active@.len() && #[trigger] active@[k].name@ == name@
                        && forall|j: int| 0 <= j < k ==> active@[j].name@ != name@;
                    assert(forall|j: int| 0 <= j < i ==> active@[j].name@ != name@);
                    if c < i {
                        assert(active@[c].name@ != name@);
                    } else if c > i {
                        assert(active@[i as int].name@ != name@);
                    }
                }
                return Some(i);
            }
            i = i + 1;
        }
        None
    }

    fn summary(m: &RegisteredModel, active: &Vec<ActiveModel>) -> (s: ModelSummary)
        ensures
            summary_view(s) == summarize(*m, active@),
    {
        let found = ModelQueryRoot::find_active(active, m.name.as_str());
        let (current, status, uptime) = match found {
            Some(i) => (active[i].version.clone(), ModelStatus::Active, active[i].uptime_seconds),
            None => (String::from_str("unknown"), ModelStatus::Inactive, 0i64),
        };
        let mut versions: Vec<(String, bool)> = Vec::new();
        let mut k: usize = 0;
        while k < m.versions.len()
            invariant
                k <= m.versions@.len(),
                versions@.map_values(|v: (String, bool)| (v.0@, v.1))
                    == m.versions@.take(k as int).map_values(|v: String| (v@, v@ == current@)),
            decreases m.versions.len() - k,
        {
            let is_current = str_eq(m.versions[k].as_str(), current.as_str());
            let ghost before = versions@;
            versions.push((m.versions[k].clone(), is_current));
            proof {
                assert(versions@.map_values(|v: (String, bool)| (v.0@, v.1))
                    =~= before.map_values(|v: (String, bool)| (v.0@, v.1)).push((m.versions@[k as int]@, is_current)));
                assert(m.versions@.take(k + 1).map_values(|v: String| (v@, v@ == current@))
                    =~= m.versions@.take(k as int).map_values(|v: String| (v@, v@ == current@)).push((m.versions@[k as int]@, m.versions@[k as int]@ == current@)));
            }
            k = k + 1;
        }
        assert(m.versions@.take(m.versions@.len() as int) =~= m.versions@);
        let model_type = ModelQueryRoot::infer_model_type(m.name.as_str());
        let s = ModelSummary {
            id: m.name.clone(),
            name: m.name.clone(),
            model_type,
            status,
            current_version: current,
            versions,
            uptime_seconds: uptime,
        };
        assert(s.versions@.map_values(|v: (String, bool)| (v.0@, v.1)) =~= m.versions@.map_values(|v: String| (v@, v@ == s.current_version@)));
        s
    }

    /// The registered models, in order, those of the requested kind only: each
    /// with its kind, whether it is serving, its current version (`unknown`
    /// when none is serving), its versions marked current or not, and its uptime.
    pub fn model_summaries(models: &Vec<RegisteredModel>, active: &Vec<ActiveModel>, model_type: Option<ModelType>) -> (r: Vec<ModelSummary>)
        ensures
            r@.map_values(|s: ModelSummary| summary_view(s)) == listing(models@, active@, model_type, models@.len() as int),
    {
        let mut out: Vec<ModelSummary> = Vec::new();
        let mut i: usize = 0;
        while i < models.len()
            invariant
                i <= models@.len(),
                out@.map_values(|s: ModelSummary| summary_view(s)) == listing(models@, active@, model_type, i as int),
            decreases models.len() - i,
        {
            let m = &models[i];
            let keep = match model_type {
                Some(t) => ModelQueryRoot::infer_model_type(m.name.as_str()) == t,
                None => true,
            };
            let ghost prev = listing(models@, active@, model_type, i as int);
            proof {
                assert(keep == (match model_type { Some(t) => model_type_of(models@[i as int].name@) == t, None => true }));
                assert(listing(models@, active@, model_type, i + 1)
                    == if keep { prev.push(summarize(models@[i as int], active@)) } else { prev });
            }
            if keep {
                let ghost before = out@;
                let s = ModelQueryRoot::summary(m, active);
                out.push(s);
                assert(out@.map_values(|s: ModelSummary| summary_view(s))
                    =~= before.map_values(|s: ModelSummary| summary_view(s)).push(summary_view(s)));
            }
            i = i + 1;
        }
        out
    }
}

/// The mutation root for models.
pub struct ModelMutationRoot;

impl ModelMutationRoot {
    /// The mutation root.
    pub fn default() -> (r: ModelMutationRoot) {
        ModelMutationRoot
    }
}

/// The query root for training jobs.
pub struct TrainingJobQueryRoot;

impl TrainingJobQueryRoot {
    /// The query root.
    pub fn default() -> (r: TrainingJobQueryRoot) {
        TrainingJobQueryRoot
    }
}

/// A training job as the API shows it. Times are seconds since the epoch;
/// fractional values are held as `f64` bit patterns.
pub struct TrainingJobInfo {
    pub job_id: String,
    pub model_name: String,
    pub status: TrainingJobStatus,
    pub progress_percent: F64Bits,
    pub current_epoch: i32,
    pub total_epochs: i32,
    pub current_loss: Option<F64Bits>,
    pub validation_accuracy: Option<F64Bits>,
    pub started_at: i64,
    pub estimated_completion: Option<i64>,
    pub completed_at: Option<i64>,
    pub error_message: Option<String>,
    pub output_model_path: Option<String>,
}

/// The optional text as plain values.
pub open spec fn opt_text(o: Option<String>) -> Option<Seq<char>> {
    match o {
        Some(s) => Some(s@),
        None => None,
    }
}

/// A training job's fields as plain values.
pub type JobView = (Seq<char>, Seq<char>, TrainingJobStatus, F64Bits, i32, i32, Option<F64Bits>, Option<F64Bits>, i64, Option<i64>, Option<i64>, Option<Seq<char>>, Option<Seq<char>>);

/// The view of a training job.
pub open spec fn job_view(j: TrainingJobInfo) -> JobView {
    (j.job_id@, j.model_name@, j.status, j.progress_percent, j.current_epoch, j.total_epochs, j.current_loss,
        j.validation_accuracy, j.started_at, j.estimated_completion, j.completed_at, opt_text(j.error_message),
        opt_text(j.output_model_path))
}

/// The training jobs known at `now`: the classifier two thirds through its
/// run, started two hours ago, and the anomaly detector finished twelve
/// hours ago after a day.
pub open spec fn known_jobs(now: i64) -> Seq<JobView> {
    seq![
        ("job-001"@, "isotope-classifier-v2"@, TrainingJobStatus::Running, F64Bits(0x4050e00000000000), 45i32, 100i32,
            Some(F64Bits(0x3f97f62b6ae7d567)), Some(F64Bits(0x3fee3d70a3d70a3d)), (now - 7200) as i64,
            Some((now + 3600) as i64), None, None, None),
        ("job-002"@, "anomaly-detector-v3"@, TrainingJobStatus::Completed, F64Bits(0x4059000000000000), 50i32, 50i32,
            Some(F64Bits(0x3f8ff2e48e8a71de)), Some(F64Bits(0x3fef6c8b43958106)), (now - 86400) as i64, None,
            Some((now - 43200) as i64), None, Some("/models/anomaly-detector-v3.onnx"@)),
    ]
}

/// Whether a job passes the optional status and model name filters.
pub open spec fn job_selected(j: JobView, status: Option<TrainingJobStatus>, model_name: Option<Seq<char>>) -> bool {
    (match status { Some(s) => j.2 == s, None => true }) && (match model_name { Some(m) => j.1 == m, None => true })
}

/// The known jobs that pass the filters, in order.
pub open spec fn selected_jobs(now: i64, status: Option<TrainingJobStatus>, model_name: Option<Seq<char>>) -> Seq<JobView> {
    let js = known_jobs(now);
    (if job_selected(js[0], status, model_name) { seq![js[0]] } else { Seq::empty() })
        + (if job_selected(js[1], status, model_name) { seq![js[1]] } else { Seq::empty() })
}

fn some_text(s: &str) -> (r: Option<String>)
    ensures
        opt_text(r) == Some(s@),
{
    Some(String::from_str(s))
}

fn known_job_list(now: i64) -> (r: Vec<TrainingJobInfo>)
    requires
        i64::MIN + 86400 <= now <= i64::MAX - 3600,
    ensures
        r@.len() == 2,
        r@.map_values(|j: TrainingJobInfo| job_view(j)) == known_jobs(now),
{
    let a = TrainingJobInfo {
        job_id: String::from_str("job-001"),
        model_name: String::from_str("isotope-classifier-v2"),
        status: TrainingJobStatus::Running,
        progress_percent: F64Bits(0x4050e00000000000),
        current_epoch: 45,
        total_epochs: 100,
        current_loss: Some(F64Bits(0x3f97f62b6ae7d567)),
        validation_accuracy: Some(F64Bits(0x3fee3d70a3d70a3d)),
        started_at: now - 7200,
        estimated_completion: Some(now + 3600),
        completed_at: None,
        error_message: None,
        output_model_path: None,
    };
    let b = TrainingJobInfo {
        job_id: String::from_str("job-002"),
        model_name: String::from_str("anomaly-detector-v3"),
        status: TrainingJobStatus::Completed,
        progress_percent: F64Bits(0x4059000000000000),
        current_epoch: 50,
        total_epochs: 50,
        current_loss: Some(F64Bits(0x3f8ff2e48e8a71de)),
        validation_accuracy: Some(F64Bits(0x3fef6c8b43958106)),
        started_at: now - 86400,
        estimated_completion: None,
        completed_at: Some(now - 43200),
        error_message: None,
        output_model_path: some_text("/models/anomaly-detector-v3.onnx"),
    };
    let mut v: Vec<TrainingJobInfo> = Vec::new();
    v.push(a);
    v.push(b);
    assert(v@.map_values(|j: TrainingJobInfo| job_view(j)) =~= known_jobs(now));
    v
}

fn status_ok(j: &TrainingJobInfo, status: Option<TrainingJobStatus>, model_name: Option<&str>) -> (r: bool)
    ensures
        r == job_selected(job_view(*j), status, match model_name { Some(m) => Some(m@), None => None }),
{
    let s_ok = match status {
        Some(s) => j.status == s,
        None => true,
    };
    let m_ok = match model_name {
        Some(m) => str_eq(j.model_name.as_str(), m),
        None => true,
    };
    s_ok && m_ok
}

impl TrainingJobQueryRoot {
    /// The training jobs known at `now`, those with the given status and model
    /// name where these are given, in order.
    pub fn training_jobs(&self, now: i64, status: Option<TrainingJobStatus>, model_name: Option<&str>) -> (r: Vec<TrainingJobInfo>)
        requires
            i64::MIN + 86400 <= now <= i64::MAX - 3600,
        ensures
            r@.map_values(|j: TrainingJobInfo| job_view(j))
                == selected_jobs(now, status, match model_name { Some(m) => Some(m@), None => None }),
    {
        let mut all = known_job_list(now);
        let ghost v = all@;
        let b = all.pop().unwrap();
        let a = all.pop().unwrap();
        proof {
            assert(job_view(a) == known_jobs(now)[0]) by {
                assert(v.map_values(|j: TrainingJobInfo| job_view(j))[0] == job_view(v[0]));
            }
            assert(job_view(b) == known_jobs(now)[1]) by {
                assert(v.map_values(|j: TrainingJobInfo| job_view(j))[1] == job_view(v[1]));
            }
        }
        let ka = status_ok(&a, status, model_name);
        let kb = status_ok(&b, status, model_name);
        let mut out: Vec<TrainingJobInfo> = Vec::new();
        if ka {
            out.push(a);
        }
        if kb {
            out.push(b);
        }
        let ghost mn = match model_name { Some(m) => Some(m@), None => None };
        assert(out@.map_values(|j: TrainingJobInfo| job_view(j)) =~= selected_jobs(now, status, mn));
        out
    }

    /// The training job with this id among those known at `now`, if any.
    pub fn training_job(&self, now: i64, job_id: &str) -> (r: Option<TrainingJobInfo>)
        requires
            i64::MIN + 86400 <= now <= i64::MAX - 3600,
        ensures
            match r {
                Some(j) => job_view(j) == known_jobs(now)[0] && job_id@ == "job-001"@
                    || job_view(j) == known_jobs(now)[1] && job_id@ == "job-002"@,
                None => job_id@ != "job-001"@ && job_id@ != "job-002"@,
            },
    {
        let jobs = self.training_jobs(now, None, None);
        let ghost v = jobs@;
        assert(selected_jobs(now, None, None) =~= known_jobs(now));
        assert(v.map_values(|j: TrainingJobInfo| job_view(j)).len() == v.len());
        let mut rest = jobs;
        proof {
            reveal_strlit("job-001");
            reveal_strlit("job-002");
            assert(v.map_values(|j: TrainingJobInfo| job_view(j))[0] == job_view(v[0]));
            assert(v.map_values(|j: TrainingJobInfo| job_view(j))[1] == job_view(v[1]));
        }
        let b = rest.pop().unwrap();
        let a = rest.pop().unwrap();
        if str_eq(a.job_id.as_str(), job_id) {
            Some(a)
        } else if str_eq(b.job_id.as_str(), job_id) {
            Some(b)
        } else {
            None
        }
    }

    /// The number of training jobs running: one.
    pub fn active_training_jobs_count(&self) -> (n: i32)
        ensures
            n == 1,
    {
        1
    }
}

impl ModelMutationRoot {
    /// Cancels a training job at `now`: the job, under its id, marked
    /// cancelled by the user, with no progress.
    pub fn cancel_training_job(&self, job_id: String, now: i64) -> (r: TrainingJobInfo)
        ensures
            job_view(r) == (job_id@, "cancelled-model"@, TrainingJobStatus::Cancelled, F64Bits(0), 0i32, 0i32,
                None::<F64Bits>, None::<F64Bits>, now, None::<i64>, Some(now), Some("Cancelled by user"@), None::<Seq<char>>),
    {
        TrainingJobInfo {
            job_id,
            model_name: String::from_str("cancelled-model"),
            status: TrainingJobStatus::Cancelled,
            progress_percent: F64Bits(0),
            current_epoch: 0,
            total_epochs: 0,
            current_loss: None,
            validation_accuracy: None,
            started_at: now,
            estimated_completion: None,
            completed_at: Some(now),
            error_message: some_text("Cancelled by user"),
            output_model_path: None,
        }
    }
}

/// The query root for data sources.
pub struct DataSourceQueryRoot;

impl DataSourceQueryRoot {
    /// The query root.
    pub fn default() -> (r: DataSourceQueryRoot) {
        DataSourceQueryRoot
    }
}

/// The query root for readings and sensors.
pub struct QueryRoot;

impl QueryRoot {
    /// The query root.
    pub fn default() -> (r: QueryRoot) {
        QueryRoot
    }
}

/// Every query root, merged.
pub struct FullQueryRoot(pub QueryRoot, pub ModelQueryRoot, pub TrainingJobQueryRoot, pub DataSourceQueryRoot);

impl FullQueryRoot {
    /// The merged query root.
    pub fn default() -> (r: FullQueryRoot) {
        FullQueryRoot(QueryRoot::default(), ModelQueryRoot::default(), TrainingJobQueryRoot::default(), DataSourceQueryRoot::default())
    }
}

/// Every mutation root, merged.
pub struct FullMutationRoot(pub ModelMutationRoot);

impl FullMutationRoot {
    /// The merged mutation root.
    pub fn default() -> (r: FullMutationRoot) {
        FullMutationRoot(ModelMutationRoot::default())
    }
}

// ---------------------------------------------------------------------------
// Request rate limiting
// ---------------------------------------------------------------------------

/// The layer that rate limits API requests per client and tier.
pub struct RateLimitLayer;

impl RateLimitLayer {
    /// The layer.
    pub fn new() -> (l: RateLimitLayer) {
        RateLimitLayer
    }
}

/// The rate limiting layer.
pub fn create_rate_limit_layer() -> (l: RateLimitLayer) {
    RateLimitLayer::new()
}

/// A tier's name as `Debug` prints it.
pub open spec fn tier_debug(t: RateLimitTier) -> Seq<char> {
    match t {
        RateLimitTier::Anonymous => "Anonymous"@,
        RateLimitTier::ApiKey => "ApiKey"@,
        RateLimitTier::Premium => "Premium"@,
    }
}

/// The key a client's limiter is kept under: its address (`unknown` when
/// not known), a colon, and its tier.
pub fn rate_limit_key(client_addr: Option<&str>, tier: RateLimitTier) -> (k: String)
    ensures
        k@ == (match client_addr { Some(a) => a@, None => "unknown"@ }) + ":"@ + tier_debug(tier),
{
    let client = match client_addr {
        Some(a) => a,
        None => "unknown",
    };
    let head = concat_strs(client, ":");
    let name = match tier {
        RateLimitTier::Anonymous => "Anonymous",
        RateLimitTier::ApiKey => "ApiKey",
        RateLimitTier::Premium => "Premium",
    };
    concat_strs(head.as_str(), name)
}

/// Cells per minute in a tier's quota: its request limit as a `u32`, or 60
/// when that is zero.
pub fn quota_per_minute(tier: RateLimitTier) -> (n: u32)
    ensures
        n > 0,
        n == (if (tier_requests(tier) as u32) == 0 { 60 } else { tier_requests(tier) as u32 }),
{
    let limit = tier.requests_per_minute();
    let cells = limit as u32;
    if cells == 0 { 60 } else { cells }
}

// ---------------------------------------------------------------------------
// Global status
// ---------------------------------------------------------------------------

/// The alert level for a number of active anomalies: 2 above ten, 3 above
/// five, 4 for any, else 5.
pub open spec fn defcon_for(anomalies: u64) -> u8 {
    if anomalies > 10 {
        2
    } else if anomalies > 5 {
        3
    } else if anomalies > 0 {
        4
    } else {
        5
    }
}

/// The global status: the alert level, `ELEVATED` at level 3 or below and
/// `NORMAL` above, and the number of active anomalies.
pub struct GlobalStatus {
    pub defcon_level: u8,
    pub status: String,
    pub active_anomalies: u64,
}

/// The global status for a number of active anomalies.
pub fn global_status(anomaly_count: u64) -> (g: GlobalStatus)
    ensures
        g.defcon_level == defcon_for(anomaly_count),
        g.status@ == (if g.defcon_level <= 3 { "ELEVATED"@ } else { "NORMAL"@ }),
        g.active_anomalies == anomaly_count,
{
    let defcon: u8 = if anomaly_count > 10 {
        2
    } else if anomaly_count > 5 {
        3
    } else if anomaly_count > 0 {
        4
    } else {
        5
    };
    let status = if defcon <= 3 { String::from_str("ELEVATED") } else { String::from_str("NORMAL") };
    GlobalStatus { defcon_level: defcon, status, active_anomalies: anomaly_count }
}

/// More active anomalies never give a calmer level.
pub proof fn law_defcon_monotone(a: u64, b: u64)
    requires
        a <= b,
    ensures
        defcon_for(b) <= defcon_for(a),
{
}

// ---------------------------------------------------------------------------
// Version comparison
// ---------------------------------------------------------------------------

/// Why two versions could not be compared.
#[derive(Debug)]
pub enum CompareError {
    /// "Model <name> not found"
    ModelNotFound(String),
    /// "Version <version> not found"
    VersionNotFound(String),
}

/// The message of a comparison error.
pub open spec fn compare_error_text(e: CompareError) -> Seq<char> {
    match e {
        CompareError::ModelNotFound(n) => "Model "@ + n@ + " not found"@,
        CompareError::VersionNotFound(v) => "Version "@ + v@ + " not found"@,
    }
}

impl CompareError {
    /// The error's message.
    pub fn message(&self) -> (s: String)
        ensures
            s@ == compare_error_text(*self),
    {
        match self {
            CompareError::ModelNotFound(n) => {
                let a = concat_strs("Model ", n.as_str());
                concat_strs(a.as_str(), " not found")
            },
            CompareError::VersionNotFound(v) => {
                let a = concat_strs("Version ", v.as_str());
                concat_strs(a.as_str(), " not found")
            },
        }
    }
}

/// The two registered versions of model `name` to compare: refused where the
/// model, then version `a`, then version `b` is not registered.
pub fn comparison_versions<'a>(registry: &'a ModelRegistry, name: &str, version_a: &str, version_b: &str)
    -> (r: Result<(&'a ModelVersionInfo, &'a ModelVersionInfo), CompareError>)
    requires
        registry.wf(),
    ensures
        ({
            let m = registry.models();
            if !m.dom().contains(name@) {
                r matches Err(CompareError::ModelNotFound(n)) && n@ == name@
            } else if !has_version(m[name@].versions, version_a@) {
                r matches Err(CompareError::VersionNotFound(v)) && v@ == version_a@
            } else if !has_version(m[name@].versions, version_b@) {
                r matches Err(CompareError::VersionNotFound(v)) && v@ == version_b@
            } else {
                r matches Ok((x, y)) && version_view(*x) == version_of(m, name@, version_a@)
                    && version_view(*y) == version_of(m, name@, version_b@)
            }
        }),
{
    proof {
        registry.law_models_consistent();
    }
    let vs = match registry.versions(name) {
        Some(vs) => vs,
        None => return Err(CompareError::ModelNotFound(String::from_str(name))),
    };
    let ia = match ModelRegistry::index_of_version(vs, version_a) {
        Some(i) => i,
        None => return Err(CompareError::VersionNotFound(String::from_str(version_a))),
    };
    let ib = match ModelRegistry::index_of_version(vs, version_b) {
        Some(i) => i,
        None => return Err(CompareError::VersionNotFound(String::from_str(version_b))),
    };
    assert(version_views(vs@)[ia as int] == version_view(vs@[ia as int]));
    assert(version_views(vs@)[ib as int] == version_view(vs@[ib as int]));
    Ok((&vs[ia], &vs[ib]))
}

} // verus!
