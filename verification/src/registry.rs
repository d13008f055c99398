//! The model registry: the versions registered under each model name, newest
//! first; which version is active, with its inference counts; and the version
//! that was active before the last hot swap, for rollback.
//!
//! Loading a model file is the caller's: a hot swap or a rollback is begun
//! here, which names the file to load, and finished here with what was
//! loaded. Times are milliseconds read by the caller.
use vstd::prelude::*;
use crate::ml::{ModelMetadata, OnnxModelMetadata, RegistryError};
use crate::storage::F64Bits;
use crate::text::{concat_strs, str_eq};

verus! {

/// Performance figures recorded for a version, as bit patterns.
pub struct PerformanceMetrics {
    pub avg_latency_ms: F64Bits,
    pub p95_latency_ms: F64Bits,
    pub p99_latency_ms: F64Bits,
    pub throughput_per_sec: F64Bits,
    pub error_rate: F64Bits,
    pub total_inferences: u64,
    pub recorded_at: i64,
}

/// A registered model version.
pub struct ModelVersionInfo {
    pub version: String,
    pub path: String,
    pub metadata: ModelMetadata,
    /// When it was registered (milliseconds).
    pub created_at: i64,
    pub onnx_metadata: OnnxModelMetadata,
    pub performance_baseline: Option<PerformanceMetrics>,
}

/// The active version of a model and what it has served since it was loaded.
pub struct ActiveModel {
    pub version: String,
    pub loaded_at: i64,
    pub inference_count: u64,
    pub error_count: u64,
    pub total_latency_ms: u64,
}

/// Everything the registry holds for one model name.
pub struct ModelEntry {
    pub name: String,
    pub versions: Vec<ModelVersionInfo>,
    pub active: Option<ActiveModel>,
    pub previous: Option<String>,
}

/// The active version of a model as plain values.
pub struct ActiveState {
    pub version: Seq<char>,
    pub loaded_at: i64,
    pub inference_count: u64,
    pub error_count: u64,
    pub total_latency_ms: u64,
}

/// A registered version as plain values.
pub struct VersionView {
    pub version: Seq<char>,
    pub path: Seq<char>,
    pub metadata: ModelMetadata,
    pub created_at: i64,
    pub onnx_metadata: OnnxModelMetadata,
    pub performance_baseline: Option<PerformanceMetrics>,
}

/// The view of a registered version.
pub open spec fn version_view(v: ModelVersionInfo) -> VersionView {
    VersionView {
        version: v.version@,
        path: v.path@,
        metadata: v.metadata,
        created_at: v.created_at,
        onnx_metadata: v.onnx_metadata,
        performance_baseline: v.performance_baseline,
    }
}

/// The views of a list of versions.
pub open spec fn version_views(vs: Seq<ModelVersionInfo>) -> Seq<VersionView> {
    vs.map_values(|v: ModelVersionInfo| version_view(v))
}

/// A model's state as plain values: its versions, newest first, its active
/// version and the version to roll back to.
pub struct ModelState {
    pub versions: Seq<VersionView>,
    pub active: Option<ActiveState>,
    pub previous: Option<Seq<char>>,
}

/// The view of an active version.
pub open spec fn active_state(a: ActiveModel) -> ActiveState {
    ActiveState {
        version: a.version@,
        loaded_at: a.loaded_at,
        inference_count: a.inference_count,
        error_count: a.error_count,
        total_latency_ms: a.total_latency_ms,
    }
}

/// The view of an entry, all but its name: the name is the key under which
/// `models_of` files this state.
pub open spec fn state_of(e: ModelEntry) -> ModelState {
    ModelState {
        versions: version_views(e.versions@),
        active: match e.active {
            Some(a) => Some(active_state(a)),
            None => None,
        },
        previous: match e.previous {
            Some(p) => Some(p@),
            None => None,
        },
    }
}

/// The models of a list of entries, by name.
pub open spec fn models_of(s: Seq<ModelEntry>) -> Map<Seq<char>, ModelState>
    decreases s.len(),
{
    if s.len() == 0 {
        Map::empty()
    } else {
        models_of(s.drop_last()).insert(s.last().name@, state_of(s.last()))
    }
}

/// No name occurs twice.
pub open spec fn names_unique(s: Seq<ModelEntry>) -> bool {
    forall|i: int, j: int| 0 <= i < j < s.len() ==> #[trigger] s[i].name@ != #[trigger] s[j].name@
}

/// Versions are newest first.
pub open spec fn newest_first(vs: Seq<VersionView>) -> bool {
    forall|i: int, j: int| 0 <= i < j < vs.len() ==> #[trigger] vs[i].created_at >= #[trigger] vs[j].created_at
}

/// No version string occurs twice.
pub open spec fn versions_unique(vs: Seq<VersionView>) -> bool {
    forall|i: int, j: int| 0 <= i < j < vs.len() ==> #[trigger] vs[i].version != #[trigger] vs[j].version
}

/// Some version is called `v`.
pub open spec fn has_version(vs: Seq<VersionView>, v: Seq<char>) -> bool {
    exists|i: int| 0 <= i < vs.len() && #[trigger] vs[i].version == v
}

/// The position of the version called `v` (meaningful where there is one).
pub open spec fn version_index(vs: Seq<VersionView>, v: Seq<char>) -> int {
    choose|i: int| 0 <= i < vs.len() && #[trigger] vs[i].version == v
}

/// A model's state is consistent: versions unique and newest first, and the
/// active and previous versions among them.
pub open spec fn state_ok(m: ModelState) -> bool {
    &&& versions_unique(m.versions)
    &&& newest_first(m.versions)
    &&& (m.active matches Some(a) ==> has_version(m.versions, a.version))
    &&& (m.previous matches Some(p) ==> has_version(m.versions, p))
}

/// Where a version made at `t` goes among versions newest first: after every
/// version made at `t` or later.
pub open spec fn first_older(vs: Seq<VersionView>, t: i64) -> int
    decreases vs.len(),
{
    if vs.len() == 0 {
        0
    } else if vs[0].created_at < t {
        0
    } else {
        1 + first_older(vs.drop_first(), t)
    }
}

/// The versions after `info` is registered among `vs`: the order a stable
/// sort newest first gives.
pub open spec fn with_version(vs: Seq<VersionView>, info: VersionView) -> Seq<VersionView> {
    vs.insert(first_older(vs, info.created_at), info)
}

// ---------------------------------------------------------------------------
// Facts about the views
// ---------------------------------------------------------------------------

proof fn lemma_models_lookup(s: Seq<ModelEntry>)
    requires
        names_unique(s),
    ensures
        forall|i: int| 0 <= i < s.len() ==> #[trigger] models_of(s).dom().contains(s[i].name@)
            && models_of(s)[s[i].name@] == state_of(s[i]),
        forall|n: Seq<char>| #[trigger] models_of(s).dom().contains(n) ==> exists|i: int| 0 <= i < s.len() && s[i].name@ == n,
    decreases s.len(),
{
    if s.len() > 0 {
        let t = s.drop_last();
        assert(names_unique(t)) by {
            assert forall|i: int, j: int| 0 <= i < j < t.len() implies #[trigger] t[i].name@ != #[trigger] t[j].name@ by {
                assert(t[i] == s[i] && t[j] == s[j]);
            }
        }
        lemma_models_lookup(t);
        assert forall|i: int| 0 <= i < s.len() implies #[trigger] models_of(s).dom().contains(s[i].name@)
            && models_of(s)[s[i].name@] == state_of(s[i]) by {
            if i < s.len() - 1 {
                assert(t[i] == s[i]);
                assert(s[i].name@ != s[s.len() - 1].name@);
            }
        }
        assert forall|n: Seq<char>| #[trigger] models_of(s).dom().contains(n) implies exists|i: int| 0 <= i < s.len() && s[i].name@ == n by {
            if n == s.last().name@ {
                assert(s[s.len() - 1].name@ == n);
            } else {
                assert(models_of(t).dom().contains(n));
                let i = choose|i: int| 0 <= i < t.len() && t[i].name@ == n;
                assert(s[i] == t[i]);
            }
        }
    }
}

proof fn lemma_models_update(s: Seq<ModelEntry>, i: int, e: ModelEntry)
    requires
        names_unique(s),
        0 <= i < s.len(),
        e.name@ == s[i].name@,
    ensures
        models_of(s.update(i, e)) == models_of(s).insert(e.name@, state_of(e)),
        names_unique(s.update(i, e)),
    decreases s.len(),
{
    let u = s.update(i, e);
    assert(names_unique(u)) by {
        assert forall|a: int, b: int| 0 <= a < b < u.len() implies #[trigger] u[a].name@ != #[trigger] u[b].name@ by {
            assert(s[a].name@ != s[b].name@);
        }
    }
    let t = s.drop_last();
    if i == s.len() - 1 {
        assert(u.drop_last() =~= t);
        assert(u.last() == e);
        assert(models_of(u) =~= models_of(s).insert(e.name@, state_of(e)));
    } else {
        assert(names_unique(t)) by {
            assert forall|a: int, b: int| 0 <= a < b < t.len() implies #[trigger] t[a].name@ != #[trigger] t[b].name@ by {
                assert(t[a] == s[a] && t[b] == s[b]);
            }
        }
        lemma_models_update(t, i, e);
        assert(u.drop_last() =~= t.update(i, e));
        assert(u.last() == s.last());
        assert(s.last().name@ != e.name@) by {
            assert(s[i].name@ != s[s.len() - 1].name@);
        }
        assert(models_of(u) =~= models_of(s).insert(e.name@, state_of(e)));
    }
}

proof fn lemma_models_push(s: Seq<ModelEntry>, e: ModelEntry)
    requires
        names_unique(s),
        forall|j: int| 0 <= j < s.len() ==> #[trigger] s[j].name@ != e.name@,
    ensures
        models_of(s.push(e)) == models_of(s).insert(e.name@, state_of(e)),
        names_unique(s.push(e)),
        !models_of(s).dom().contains(e.name@),
{
    let u = s.push(e);
    assert(u.drop_last() =~= s);
    assert(names_unique(u)) by {
        assert forall|a: int, b: int| 0 <= a < b < u.len() implies #[trigger] u[a].name@ != #[trigger] u[b].name@ by {
            if b == s.len() {
                assert(u[a] == s[a]);
            } else {
                assert(u[a] == s[a] && u[b] == s[b]);
            }
        }
    }
    lemma_models_lookup(s);
}

proof fn lemma_first_older(vs: Seq<VersionView>, t: i64)
    ensures
        0 <= first_older(vs, t) <= vs.len(),
        forall|j: int| 0 <= j < first_older(vs, t) ==> #[trigger] vs[j].created_at >= t,
        first_older(vs, t) < vs.len() ==> vs[first_older(vs, t)].created_at < t,
    decreases vs.len(),
{
    if vs.len() > 0 && vs[0].created_at >= t {
        let r = vs.drop_first();
        lemma_first_older(r, t);
        assert forall|j: int| 0 <= j < first_older(vs, t) implies #[trigger] vs[j].created_at >= t by {
            if j > 0 {
                assert(vs[j] == r[j - 1]);
            }
        }
        if first_older(vs, t) < vs.len() {
            assert(vs[first_older(vs, t)] == r[first_older(r, t)]);
        }
    }
}

/// Registering a new version keeps a model's versions distinct and newest
/// first, and keeps every version it had.
pub proof fn law_registration_keeps_order(vs: Seq<VersionView>, info: VersionView)
    requires
        newest_first(vs),
        versions_unique(vs),
        !has_version(vs, info.version),
    ensures
        newest_first(with_version(vs, info)),
        versions_unique(with_version(vs, info)),
        forall|v: Seq<char>| has_version(vs, v) ==> has_version(#[trigger] with_version(vs, info), v),
        has_version(with_version(vs, info), info.version),
{
    lemma_first_older(vs, info.created_at);
    let k = first_older(vs, info.created_at);
    let w = with_version(vs, info);
    assert(w.len() == vs.len() + 1);
    assert forall|j: int| 0 <= j < w.len() implies #[trigger] w[j] == (if j < k { vs[j] } else if j == k { info } else { vs[j - 1] }) by {}
    assert forall|a: int, b: int| 0 <= a < b < w.len() implies #[trigger] w[a].created_at >= #[trigger] w[b].created_at by {
        if a < k && b < k {
        } else if a < k && b == k {
        } else if a < k {
            assert(vs[a].created_at >= vs[b - 1].created_at);
        } else if a == k {
            assert(vs[b - 1].created_at <= vs[k].created_at);
        } else {
            assert(vs[a - 1].created_at >= vs[b - 1].created_at);
        }
    }
    assert forall|a: int, b: int| 0 <= a < b < w.len() implies #[trigger] w[a].version != #[trigger] w[b].version by {
        if a == k {
            assert(vs[b - 1].version != info.version);
        } else if b == k {
            assert(vs[a].version != info.version);
        } else {
            let sa = if a < k { a } else { a - 1 };
            let sb = if b < k { b } else { b - 1 };
            assert(sa < sb);
            assert(vs[sa].version != vs[sb].version);
        }
    }
    assert forall|v: Seq<char>| has_version(vs, v) implies has_version(#[trigger] with_version(vs, info), v) by {
        let i = choose|i: int| 0 <= i < vs.len() && #[trigger] vs[i].version == v;
        if i < k {
            assert(w[i].version == v);
        } else {
            assert(w[i + 1].version == v);
        }
    }
    assert(w[k].version == info.version);
}

// ---------------------------------------------------------------------------
// Transitions
// ---------------------------------------------------------------------------

/// The models after `info` is registered under `name`.
pub open spec fn after_register(m: Map<Seq<char>, ModelState>, name: Seq<char>, info: VersionView) -> Map<Seq<char>, ModelState> {
    if m.dom().contains(name) {
        m.insert(name, ModelState { versions: with_version(m[name].versions, info), ..m[name] })
    } else {
        m.insert(name, ModelState { versions: seq![info], active: None, previous: None })
    }
}

/// The models after a hot swap of `name` begins: its active version, if
/// any, becomes the version to roll back to.
pub open spec fn after_swap_begins(m: Map<Seq<char>, ModelState>, name: Seq<char>) -> Map<Seq<char>, ModelState> {
    m.insert(name, ModelState {
        previous: match m[name].active {
            Some(a) => Some(a.version),
            None => m[name].previous,
        },
        ..m[name]
    })
}

/// The models after `version` of `name` is made active at `now`, with no
/// inference counted yet.
pub open spec fn after_activation(m: Map<Seq<char>, ModelState>, name: Seq<char>, version: Seq<char>, now: i64) -> Map<Seq<char>, ModelState> {
    m.insert(name, ModelState {
        active: Some(ActiveState { version, loaded_at: now, inference_count: 0, error_count: 0, total_latency_ms: 0 }),
        ..m[name]
    })
}

/// The models after the version to roll back to of `name` is taken.
pub open spec fn after_rollback_begins(m: Map<Seq<char>, ModelState>, name: Seq<char>) -> Map<Seq<char>, ModelState> {
    m.insert(name, ModelState { previous: None, ..m[name] })
}

/// The version active for `name`.
pub open spec fn active_version(m: Map<Seq<char>, ModelState>, name: Seq<char>) -> Option<Seq<char>> {
    if m.dom().contains(name) {
        match m[name].active {
            Some(a) => Some(a.version),
            None => None,
        }
    } else {
        None
    }
}

/// The registered version `version` of `name`.
pub open spec fn version_of(m: Map<Seq<char>, ModelState>, name: Seq<char>, version: Seq<char>) -> VersionView {
    m[name].versions[version_index(m[name].versions, version)]
}

/// A hot swap checks the new model against the active one: the same number
/// of inputs, then the same number of outputs.
pub open spec fn swap_mismatch(m: Map<Seq<char>, ModelState>, name: Seq<char>, loaded: ModelMetadata) -> Option<Seq<char>> {
    match m[name].active {
        Some(a) => {
            let current = version_of(m, name, a.version).metadata;
            if current.input_shapes@.len() != loaded.input_shapes@.len() {
                Some("Input count mismatch"@)
            } else if current.output_shapes@.len() != loaded.output_shapes@.len() {
                Some("Output count mismatch"@)
            } else {
                None
            }
        },
        None => None,
    }
}

/// The view of the version registered from these values.
pub open spec fn new_version(
    version: Seq<char>,
    path: Seq<char>,
    metadata: ModelMetadata,
    created_at: i64,
    onnx_metadata: OnnxModelMetadata,
) -> VersionView {
    VersionView { version, path, metadata, created_at, onnx_metadata, performance_baseline: None }
}

/// The models after an inference of `latency_ms` by the active version of
/// `name`, failed unless `success`; the counters wrap as atomic adds do.
pub open spec fn after_inference(m: Map<Seq<char>, ModelState>, name: Seq<char>, latency_ms: u64, success: bool) -> Map<Seq<char>, ModelState> {
    if m.dom().contains(name) && m[name].active is Some {
        let a = m[name].active->0;
        m.insert(name, ModelState {
            active: Some(ActiveState {
                inference_count: a.inference_count.wrapping_add(1),
                error_count: if success { a.error_count } else { a.error_count.wrapping_add(1) },
                total_latency_ms: a.total_latency_ms.wrapping_add(latency_ms),
                ..a
            }),
            ..m[name]
        })
    } else {
        m
    }
}

/// The models after `metrics` becomes the baseline of the active version of
/// `name`.
pub open spec fn after_baseline(m: Map<Seq<char>, ModelState>, name: Seq<char>, metrics: PerformanceMetrics) -> Map<Seq<char>, ModelState> {
    let vs = m[name].versions;
    let k = version_index(vs, m[name].active->0.version);
    m.insert(name, ModelState {
        versions: vs.update(k, VersionView { performance_baseline: Some(metrics), ..vs[k] }),
        ..m[name]
    })
}

/// A hot swap undone: after the versions active before and after a swap,
/// rolling back makes the earlier one active again.
pub proof fn law_rollback_restores(
    m: Map<Seq<char>, ModelState>,
    name: Seq<char>,
    to: Seq<char>,
    swapped_at: i64,
    rolled_at: i64,
)
    requires
        m.dom().contains(name),
        m[name].active is Some,
    ensures
        ({
            let before = active_version(m, name);
            let swapped = after_activation(after_swap_begins(m, name), name, to, swapped_at);
            &&& active_version(swapped, name) == Some(to)
            &&& swapped[name].previous == before
            &&& active_version(after_activation(after_rollback_begins(swapped, name), name, before->0, rolled_at), name)
                == before
        }),
{
}

// ---------------------------------------------------------------------------
// The registry
// ---------------------------------------------------------------------------

/// Model versions by name, with the active and previous version of each.
pub struct ModelRegistry {
    entries: Vec<ModelEntry>,
    performance_tolerance: F64Bits,
}

/// The error a version already registered gives.
pub open spec fn duplicate_message(name: Seq<char>, version: Seq<char>) -> Seq<char> {
    "Version "@ + version + " already exists for model "@ + name
}

impl ModelRegistry {
    /// The models, by name.
    pub closed spec fn models(&self) -> Map<Seq<char>, ModelState> {
        models_of(self.entries@)
    }

    /// Names are distinct and every model's state is consistent.
    pub closed spec fn wf(&self) -> bool {
        &&& names_unique(self.entries@)
        &&& forall|i: int| 0 <= i < self.entries@.len() ==> #[trigger] state_ok(state_of(self.entries@[i]))
    }

    /// The tolerance used when checking performance against a baseline.
    pub closed spec fn tolerance(&self) -> F64Bits {
        self.performance_tolerance
    }

    /// In a registry that its operations built, every model's versions are
    /// distinct and newest first, and its active and previous versions are
    /// among them.
    pub proof fn law_models_consistent(&self)
        requires
            self.wf(),
        ensures
            forall|n: Seq<char>| #[trigger] self.models().dom().contains(n) ==> state_ok(self.models()[n]),
    {
        lemma_models_lookup(self.entries@);
        assert forall|n: Seq<char>| #[trigger] self.models().dom().contains(n) implies state_ok(self.models()[n]) by {
            let i = choose|i: int| 0 <= i < self.entries@.len() && self.entries@[i].name@ == n;
            assert(state_ok(state_of(self.entries@[i])));
        }
    }

    /// An empty registry with a tolerance of 10 % (0.1).
    pub fn new() -> (r: ModelRegistry)
        ensures
            r.wf(),
            r.models() == Map::<Seq<char>, ModelState>::empty(),
            r.tolerance() == F64Bits(0x3FB999999999999Au64),
    {
        ModelRegistry { entries: Vec::new(), performance_tolerance: F64Bits(0x3FB999999999999A) }
    }

    fn find(&self, name: &str) -> (r: Option<usize>)
        requires
            self.wf(),
        ensures
            match r {
                Some(i) => i < self.entries@.len() && self.entries@[i as int].name@ == name@
                    && self.models().dom().contains(name@)
                    && self.models()[name@] == state_of(self.entries@[i as int]),
                None => !self.models().dom().contains(name@)
                    && forall|j: int| 0 <= j < self.entries@.len() ==> #[trigger] self.entries@[j].name@ != name@,
            },
    {
        proof {
            lemma_models_lookup(self.entries@);
        }
        let mut i: usize = 0;
        while i < self.entries.len()
            invariant
                self.wf(),
                i <= self.entries@.len(),
                forall|j: int| 0 <= j < i ==> #[trigger] self.entries@[j].name@ != name@,
            decreases self.entries.len() - i,
        {
            if str_eq(self.entries[i].name.as_str(), name) {
                proof {
                    lemma_models_lookup(self.entries@);
                }
                return Some(i);
            }
            i = i + 1;
        }
        proof {
            if self.models().dom().contains(name@) {
                let j = choose|j: int| 0 <= j < self.entries@.len() && self.entries@[j].name@ == name@;
                assert(self.entries@[j].name@ != name@);
            }
        }
        None
    }

    pub(crate) fn index_of_version(vs: &Vec<ModelVersionInfo>, version: &str) -> (r: Option<usize>)
        requires
            versions_unique(version_views(vs@)),
        ensures
            match r {
                Some(k) => k < vs@.len() && has_version(version_views(vs@), version@)
                    && k == version_index(version_views(vs@), version@)
                    && vs@[k as int].version@ == version@,
                None => !has_version(version_views(vs@), version@),
            },
    {
        let ghost views = version_views(vs@);
        let mut k: usize = 0;
        while k < vs.len()
            invariant
                k <= vs@.len(),
                views == version_views(vs@),
                versions_unique(views),
                forall|j: int| 0 <= j < k ==> #[trigger] views[j].version != version@,
            decreases vs.len() - k,
        {
            if str_eq(vs[k].version.as_str(), version) {
                proof {
                    assert(views[k as int].version == version@);
                    let c = version_index(views, version@);
                    if c != k {
                        if c < k {
                            assert(views[c].version != version@);
                        } else {
                            assert(views[k as int].version != views[c].version);
                        }
                    }
                }
                return Some(k);
            }
            k = k + 1;
        }
        proof {
            if has_version(views, version@) {
                let c = choose|i: int| 0 <= i < views.len() && #[trigger] views[i].version == version@;
                assert(views[c].version != version@);
            }
        }
        None
    }
    /// Puts back entry `i`, changed to `e`, into the entries `before` that
    /// it was taken from.
    fn put_back(&mut self, i: usize, e: ModelEntry, Ghost(before): Ghost<Seq<ModelEntry>>)
        requires
            names_unique(before),
            forall|j: int| 0 <= j < before.len() ==> #[trigger] state_ok(state_of(before[j])),
            i < before.len(),
            old(self).entries@ == before.remove(i as int),
            e.name@ == before[i as int].name@,
            state_ok(state_of(e)),
        ensures
            final(self).wf(),
            final(self).models() == models_of(before).insert(e.name@, state_of(e)),
            final(self).tolerance() == old(self).tolerance(),
    {
        proof {
            lemma_models_update(before, i as int, e);
        }
        self.entries.insert(i, e);
        assert(self.entries@ =~= before.update(i as int, e));
        assert forall|j: int| 0 <= j < self.entries@.len() implies #[trigger] state_ok(state_of(self.entries@[j])) by {
            if j != i {
                assert(self.entries@[j] == before[j]);
            }
        }
    }

    fn insertion_point(vs: &Vec<ModelVersionInfo>, t: i64) -> (k: usize)
        ensures
            k == first_older(version_views(vs@), t),
            k <= vs@.len(),
    {
        let ghost views = version_views(vs@);
        proof {
            lemma_first_older(views, t);
        }
        let mut k: usize = 0;
        while k < vs.len() && vs[k].created_at >= t
            invariant
                k <= vs@.len(),
                views == version_views(vs@),
                forall|j: int| 0 <= j < k ==> #[trigger] views[j].created_at >= t,
            decreases vs.len() - k,
        {
            k = k + 1;
        }
        proof {
            let f = first_older(views, t);
            if (k as int) < f {
                assert(views[k as int].created_at >= t);
            } else if (k as int) > f {
                assert(views[f].created_at >= t);
            }
        }
        k
    }

    /// Registers version `version` of model `name`, made at `created_at`
    /// from the file at `path` with the metadata read from it. Refused,
    /// changing nothing, where the model already has that version; else the
    /// version joins the model's versions, newest first.
    pub fn register_version(
        &mut self,
        name: &str,
        path: &str,
        version: &str,
        metadata: ModelMetadata,
        onnx_metadata: OnnxModelMetadata,
        created_at: i64,
    ) -> (r: Result<(), RegistryError>)
        requires
            old(self).wf(),
        ensures
            final(self).wf(),
            final(self).tolerance() == old(self).tolerance(),
            ({
                let m = old(self).models();
                if m.dom().contains(name@) && has_version(m[name@].versions, version@) {
                    &&& r matches Err(RegistryError::HotSwapFailed(msg)) && msg@ == duplicate_message(name@, version@)
                    &&& final(self).models() == m
                } else {
                    &&& r is Ok
                    &&& final(self).models() == after_register(m, name@, new_version(version@, path@, metadata, created_at, onnx_metadata))
                }
            }),
    {
        let info = ModelVersionInfo {
            version: String::from_str(version),
            path: String::from_str(path),
            metadata,
            created_at,
            onnx_metadata,
            performance_baseline: None,
        };
        let ghost view = version_view(info);
        assert(view == new_version(version@, path@, metadata, created_at, onnx_metadata));
        match self.find(name) {
            Some(i) => {
                assert(state_ok(state_of(self.entries@[i as int])));
                if Self::index_of_version(&self.entries[i].versions, version).is_some() {
                    let a = concat_strs("Version ", version);
                    let b = concat_strs(a.as_str(), " already exists for model ");
                    let msg = concat_strs(b.as_str(), name);
                    return Err(RegistryError::HotSwapFailed(msg));
                }
                let ghost before = self.entries@;
                let mut e = self.entries.remove(i);
                let ghost old_views = version_views(e.versions@);
                let k = Self::insertion_point(&e.versions, created_at);
                e.versions.insert(k, info);
                proof {
                    assert(version_views(e.versions@) =~= with_version(old_views, view));
                    law_registration_keeps_order(old_views, view);
                }
                self.put_back(i, e, Ghost(before));
                Ok(())
            },
            None => {
                let mut versions: Vec<ModelVersionInfo> = Vec::new();
                versions.push(info);
                let e = ModelEntry { name: String::from_str(name), versions, active: None, previous: None };
                proof {
                    lemma_models_push(self.entries@, e);
                    assert(version_views(e.versions@) =~= seq![view]);
                    assert(state_of(e).versions[0].version == version@);
                }
                let ghost before = self.entries@;
                self.entries.push(e);
                assert forall|j: int| 0 <= j < self.entries@.len() implies #[trigger] state_ok(state_of(self.entries@[j])) by {
                    if j < before.len() {
                        assert(self.entries@[j] == before[j]);
                    }
                }
                Ok(())
            },
        }
    }
    /// Begins a hot swap of model `name` to `version`: refused where the
    /// model or the version is not registered; else the active version, if
    /// any, becomes the one to roll back to, and the path of the file to load
    /// is returned.
    pub fn begin_hot_swap(&mut self, name: &str, version: &str) -> (r: Result<String, RegistryError>)
        requires
            old(self).wf(),
        ensures
            final(self).wf(),
            final(self).tolerance() == old(self).tolerance(),
            ({
                let m = old(self).models();
                if !m.dom().contains(name@) {
                    &&& r matches Err(RegistryError::ModelNotFound(n)) && n@ == name@
                    &&& final(self).models() == m
                } else if !has_version(m[name@].versions, version@) {
                    &&& r matches Err(RegistryError::VersionNotFound(n, v)) && n@ == name@ && v@ == version@
                    &&& final(self).models() == m
                } else {
                    &&& r matches Ok(p) && p@ == version_of(m, name@, version@).path
                    &&& final(self).models() == after_swap_begins(m, name@)
                }
            }),
    {
        let i = match self.find(name) {
            Some(i) => i,
            None => return Err(RegistryError::ModelNotFound(String::from_str(name))),
        };
        assert(state_ok(state_of(self.entries@[i as int])));
        let k = match Self::index_of_version(&self.entries[i].versions, version) {
            Some(k) => k,
            None => return Err(RegistryError::VersionNotFound(String::from_str(name), String::from_str(version))),
        };
        let path = self.entries[i].versions[k].path.clone();
        let ghost before = self.entries@;
        let mut e = self.entries.remove(i);
        let prev = match &e.active {
            Some(a) => Some(a.version.clone()),
            None => e.previous.clone(),
        };
        e.previous = prev;
        self.put_back(i, e, Ghost(before));
        Ok(path)
    }

    /// Finishes a hot swap of model `name` to `version`, whose file was
    /// loaded with metadata `loaded`, at `now`: refused where the model or
    /// version is not registered, or where the new model's inputs, then its
    /// outputs, do not match the active one's in number; else `version` is
    /// active, with nothing counted yet.
    pub fn finish_hot_swap(&mut self, name: &str, version: &str, loaded: &ModelMetadata, now: i64) -> (r: Result<(), RegistryError>)
        requires
            old(self).wf(),
        ensures
            final(self).wf(),
            final(self).tolerance() == old(self).tolerance(),
            ({
                let m = old(self).models();
                if !m.dom().contains(name@) {
                    &&& r matches Err(RegistryError::ModelNotFound(n)) && n@ == name@
                    &&& final(self).models() == m
                } else if !has_version(m[name@].versions, version@) {
                    &&& r matches Err(RegistryError::VersionNotFound(n, v)) && n@ == name@ && v@ == version@
                    &&& final(self).models() == m
                } else if swap_mismatch(m, name@, *loaded) is Some {
                    &&& r matches Err(RegistryError::HotSwapFailed(msg)) && msg@ == swap_mismatch(m, name@, *loaded)->0
                    &&& final(self).models() == m
                } else {
                    &&& r is Ok
                    &&& final(self).models() == after_activation(m, name@, version@, now)
                }
            }),
    {
        let i = match self.find(name) {
            Some(i) => i,
            None => return Err(RegistryError::ModelNotFound(String::from_str(name))),
        };
        assert(state_ok(state_of(self.entries@[i as int])));
        if Self::index_of_version(&self.entries[i].versions, version).is_none() {
            return Err(RegistryError::VersionNotFound(String::from_str(name), String::from_str(version)));
        }
        match &self.entries[i].active {
            Some(a) => {
                let ka = match Self::index_of_version(&self.entries[i].versions, a.version.as_str()) {
                    Some(ka) => ka,
                    None => {
                        assert(false);
                        return Err(RegistryError::ModelNotFound(String::from_str(name)));
                    },
                };
                let current = &self.entries[i].versions[ka].metadata;
                if current.input_shapes.len() != loaded.input_shapes.len() {
                    return Err(RegistryError::HotSwapFailed(String::from_str("Input count mismatch")));
                }
                if current.output_shapes.len() != loaded.output_shapes.len() {
                    return Err(RegistryError::HotSwapFailed(String::from_str("Output count mismatch")));
                }
            },
            None => {},
        }
        self.activate(i, version, now);
        Ok(())
    }

    fn activate(&mut self, i: usize, version: &str, now: i64)
        requires
            old(self).wf(),
            i < old(self).entries@.len(),
            has_version(state_of(old(self).entries@[i as int]).versions, version@),
        ensures
            final(self).wf(),
            final(self).tolerance() == old(self).tolerance(),
            final(self).models() == after_activation(
                old(self).models(),
                old(self).entries@[i as int].name@,
                version@,
                now,
            ),
    {
        proof {
            lemma_models_lookup(self.entries@);
        }
        let ghost before = self.entries@;
        let ghost m = self.models();
        let mut e = self.entries.remove(i);
        assert(e == before[i as int]);
        assert(models_of(before).dom().contains(before[i as int].name@));
        assert(m[e.name@] == state_of(before[i as int]));
        assert(state_ok(state_of(before[i as int])));
        e.active = Some(ActiveModel {
            version: String::from_str(version),
            loaded_at: now,
            inference_count: 0,
            error_count: 0,
            total_latency_ms: 0,
        });
        assert(state_of(e) == ModelState {
            active: Some(ActiveState { version: version@, loaded_at: now, inference_count: 0, error_count: 0, total_latency_ms: 0 }),
            ..m[e.name@]
        });
        self.put_back(i, e, Ghost(before));
    }

    /// Begins a rollback of model `name`: refused where there is no version
    /// to roll back to; else that version is taken (there is none left after
    /// it) and returned with the path of its file.
    pub fn begin_rollback(&mut self, name: &str) -> (r: Result<(String, String), RegistryError>)
        requires
            old(self).wf(),
        ensures
            final(self).wf(),
            final(self).tolerance() == old(self).tolerance(),
            ({
                let m = old(self).models();
                if m.dom().contains(name@) && m[name@].previous is Some {
                    let p = m[name@].previous->0;
                    &&& r matches Ok((v, path)) && v@ == p && path@ == version_of(m, name@, p).path
                    &&& final(self).models() == after_rollback_begins(m, name@)
                } else {
                    &&& r matches Err(RegistryError::RollbackFailed(msg)) && msg@ == "No previous version available"@
                    &&& final(self).models() == m
                }
            }),
    {
        let i = match self.find(name) {
            Some(i) => i,
            None => return Err(RegistryError::RollbackFailed(String::from_str("No previous version available"))),
        };
        assert(state_ok(state_of(self.entries@[i as int])));
        let ghost before = self.entries@;
        let mut e = self.entries.remove(i);
        let taken = e.previous.take();
        match taken {
            Some(v) => {
                let k = match Self::index_of_version(&e.versions, v.as_str()) {
                    Some(k) => k,
                    None => {
                        assert(false);
                        self.put_back(i, e, Ghost(before));
                        return Err(RegistryError::RollbackFailed(String::from_str("No previous version available")));
                    },
                };
                let path = e.versions[k].path.clone();
                self.put_back(i, e, Ghost(before));
                Ok((v, path))
            },
            None => {
                assert(e == before[i as int]);
                self.put_back(i, e, Ghost(before));
                proof {
                    lemma_models_lookup(before);
                    assert(models_of(before).insert(before[i as int].name@, state_of(before[i as int])) =~= models_of(before));
                }
                Err(RegistryError::RollbackFailed(String::from_str("No previous version available")))
            },
        }
    }

    /// Finishes a rollback of model `name` to `version`, whose file was
    /// loaded, at `now`: refused where the model or version is not
    /// registered; else `version` is active, with nothing counted yet.
    pub fn finish_rollback(&mut self, name: &str, version: &str, now: i64) -> (r: Result<(), RegistryError>)
        requires
            old(self).wf(),
        ensures
            final(self).wf(),
            final(self).tolerance() == old(self).tolerance(),
            ({
                let m = old(self).models();
                if !m.dom().contains(name@) {
                    &&& r matches Err(RegistryError::ModelNotFound(n)) && n@ == name@
                    &&& final(self).models() == m
                } else if !has_version(m[name@].versions, version@) {
                    &&& r matches Err(RegistryError::VersionNotFound(n, v)) && n@ == name@ && v@ == version@
                    &&& final(self).models() == m
                } else {
                    &&& r is Ok
                    &&& final(self).models() == after_activation(m, name@, version@, now)
                }
            }),
    {
        let i = match self.find(name) {
            Some(i) => i,
            None => return Err(RegistryError::ModelNotFound(String::from_str(name))),
        };
        assert(state_ok(state_of(self.entries@[i as int])));
        if Self::index_of_version(&self.entries[i].versions, version).is_none() {
            return Err(RegistryError::VersionNotFound(String::from_str(name), String::from_str(version)));
        }
        self.activate(i, version, now);
        Ok(())
    }
    /// Counts an inference of `latency_ms` by the active version of `name`,
    /// failed unless `success`; nothing where no version is active.
    pub fn record_inference(&mut self, name: &str, latency_ms: u64, success: bool)
        requires
            old(self).wf(),
        ensures
            final(self).wf(),
            final(self).tolerance() == old(self).tolerance(),
            final(self).models() == after_inference(old(self).models(), name@, latency_ms, success),
    {
        let i = match self.find(name) {
            Some(i) => i,
            None => return,
        };
        if self.entries[i].active.is_none() {
            return;
        }
        proof {
            lemma_models_lookup(self.entries@);
        }
        let ghost before = self.entries@;
        let ghost m = self.models();
        let mut e = self.entries.remove(i);
        assert(e == before[i as int]);
        assert(models_of(before).dom().contains(before[i as int].name@));
        assert(state_ok(state_of(before[i as int])));
        let mut a = e.active.take().unwrap();
        a.inference_count = a.inference_count.wrapping_add(1);
        a.total_latency_ms = a.total_latency_ms.wrapping_add(latency_ms);
        if !success {
            a.error_count = a.error_count.wrapping_add(1);
        }
        e.active = Some(a);
        self.put_back(i, e, Ghost(before));
    }

    /// Makes `metrics` the performance baseline of the active version of
    /// `name`: refused where the model is unknown or none of its versions is
    /// active.
    pub fn set_performance_baseline(&mut self, name: &str, metrics: PerformanceMetrics) -> (r: Result<(), RegistryError>)
        requires
            old(self).wf(),
        ensures
            final(self).wf(),
            final(self).tolerance() == old(self).tolerance(),
            ({
                let m = old(self).models();
                if m.dom().contains(name@) && m[name@].active is Some {
                    &&& r is Ok
                    &&& final(self).models() == after_baseline(m, name@, metrics)
                } else {
                    &&& r matches Err(RegistryError::ModelNotFound(n)) && n@ == name@
                    &&& final(self).models() == m
                }
            }),
    {
        let i = match self.find(name) {
            Some(i) => i,
            None => return Err(RegistryError::ModelNotFound(String::from_str(name))),
        };
        if self.entries[i].active.is_none() {
            return Err(RegistryError::ModelNotFound(String::from_str(name)));
        }
        proof {
            lemma_models_lookup(self.entries@);
        }
        assert(state_ok(state_of(self.entries@[i as int])));
        let ghost before = self.entries@;
        let ghost m = self.models();
        let mut e = self.entries.remove(i);
        assert(e == before[i as int]);
        assert(models_of(before).dom().contains(before[i as int].name@));
        let k = match &e.active {
            Some(a) => match Self::index_of_version(&e.versions, a.version.as_str()) {
                Some(k) => k,
                None => {
                    assert(false);
                    0
                },
            },
            None => {
                assert(false);
                0
            },
        };
        let ghost old_views = version_views(e.versions@);
        let mut v = e.versions.remove(k);
        v.performance_baseline = Some(metrics);
        e.versions.insert(k, v);
        proof {
            let nv = version_views(e.versions@);
            assert(nv =~= old_views.update(k as int, VersionView { performance_baseline: Some(metrics), ..old_views[k as int] }));
            assert forall|a: int, b: int| 0 <= a < b < nv.len() implies #[trigger] nv[a].version != #[trigger] nv[b].version by {
                assert(old_views[a].version != old_views[b].version);
            }
            assert forall|a: int, b: int| 0 <= a < b < nv.len() implies #[trigger] nv[a].created_at >= #[trigger] nv[b].created_at by {
                assert(old_views[a].created_at >= old_views[b].created_at);
            }
            assert forall|x: Seq<char>| has_version(old_views, x) implies has_version(nv, x) by {
                let j = choose|j: int| 0 <= j < old_views.len() && #[trigger] old_views[j].version == x;
                assert(nv[j].version == x);
            }
        }
        self.put_back(i, e, Ghost(before));
        Ok(())
    }

    /// The active version of `name`, if one is.
    pub fn get_active_info(&self, name: &str) -> (r: Option<&ModelVersionInfo>)
        requires
            self.wf(),
        ensures
            match r {
                Some(v) => active_version(self.models(), name@) == Some(v.version@)
                    && version_view(*v) == version_of(self.models(), name@, v.version@),
                None => active_version(self.models(), name@) is None,
            },
    {
        let i = match self.find(name) {
            Some(i) => i,
            None => return None,
        };
        assert(state_ok(state_of(self.entries@[i as int])));
        match &self.entries[i].active {
            Some(a) => match Self::index_of_version(&self.entries[i].versions, a.version.as_str()) {
                Some(k) => Some(&self.entries[i].versions[k]),
                None => None,
            },
            None => None,
        }
    }

    /// The registered versions of `name`, newest first.
    pub fn versions(&self, name: &str) -> (r: Option<&Vec<ModelVersionInfo>>)
        requires
            self.wf(),
        ensures
            match r {
                Some(vs) => self.models().dom().contains(name@) && version_views(vs@) == self.models()[name@].versions,
                None => !self.models().dom().contains(name@),
            },
    {
        match self.find(name) {
            Some(i) => Some(&self.entries[i].versions),
            None => None,
        }
    }

    /// What the active version of `name` has served: inferences, failures
    /// and their total latency.
    pub fn inference_counts(&self, name: &str) -> (r: Option<(u64, u64, u64)>)
        requires
            self.wf(),
        ensures
            match r {
                Some((n, errors, latency)) => self.models().dom().contains(name@) && (self.models()[name@].active matches Some(a)
                    && n == a.inference_count && errors == a.error_count && latency == a.total_latency_ms),
                None => active_version(self.models(), name@) is None,
            },
    {
        match self.find(name) {
            Some(i) => match &self.entries[i].active {
                Some(a) => Some((a.inference_count, a.error_count, a.total_latency_ms)),
                None => None,
            },
            None => None,
        }
    }
}

} // verus!
