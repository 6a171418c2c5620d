//! Deterministic, hardware-aware scheduling across registered workers.
//!
//! Two phases, always in this order: hard constraints filter out ineligible
//! (worker, model) placements with an explicit rejection reason each; then eligible
//! placements are scored with a fully itemized breakdown. Scheduling is a pure function
//! of its inputs, including tie-breaks (by worker id, then model id, in `String` order).
use vstd::prelude::*;
use crate::model::registry::{ModelEntry, ModelRegistry};
use crate::model::types::{
    accelerator_name, role_name, AcceleratorKind, ModelId, ModelRequest, ModelRole, ModelSelector,
    RoleView, WorkerId,
};
use crate::order::{key_of, stable_order, stable_sort_indices, SortKey};
use crate::text::{decimal, decimal_chars, push_all, push_str, string_of};

verus! {

#[derive(Debug, Clone, Copy, PartialEq, Eq, Structural)]
pub enum WorkerLocality {
    Local,
    Remote,
}

/// A point-in-time description of one worker's health and capacity. Measured
/// throughputs are in thousandths of a token per second.
#[derive(Debug, PartialEq)]
pub struct WorkerSnapshot {
    pub worker_id: WorkerId,
    pub healthy: bool,
    pub backend: String,
    pub backend_healthy: bool,
    pub accelerators: Vec<AcceleratorKind>,
    pub loaded_models: Vec<ModelId>,
    pub known_models: Vec<ModelId>,
    pub queue_depth: usize,
    pub active_jobs: usize,
    pub max_queued_jobs: usize,
    pub available_memory_bytes: Option<u64>,
    pub supports_streaming: bool,
    pub locality: WorkerLocality,
    pub measured_generation_millitokens_per_second: Option<i64>,
    pub measured_prompt_millitokens_per_second: Option<i64>,
    pub priority: i64,
}

/// Operator overrides applied on top of a request.
#[derive(Debug)]
pub struct SchedulingOverrides {
    pub force_worker: Option<WorkerId>,
    pub force_model: Option<ModelId>,
    pub force_backend: Option<String>,
    pub force_cpu: bool,
    pub prefer_accelerator: Option<AcceleratorKind>,
    pub disable_fallback: bool,
}

impl Default for SchedulingOverrides {
    /// No overrides.
    fn default() -> (r: Self)
        ensures
            r.force_worker is None,
            r.force_model is None,
            r.force_backend is None,
            !r.force_cpu,
            r.prefer_accelerator is None,
            !r.disable_fallback,
    {
        SchedulingOverrides {
            force_worker: None,
            force_model: None,
            force_backend: None,
            force_cpu: false,
            prefer_accelerator: None,
            disable_fallback: false,
        }
    }
}

/// One itemized contribution to a placement's score.
#[derive(Debug, PartialEq)]
pub struct ScoreComponent {
    pub label: String,
    pub value: i64,
}

/// An eligible (worker, model) placement with its score and breakdown.
#[derive(Debug, PartialEq)]
pub struct CandidatePlacement {
    pub worker_id: WorkerId,
    pub model_id: ModelId,
    pub backend: String,
    pub score: i64,
    pub score_breakdown: Vec<ScoreComponent>,
    pub used_cpu_fallback: bool,
}

/// A worker (and model, when one was considered) that was rejected, with every reason.
#[derive(Debug, PartialEq)]
pub struct RejectedCandidate {
    pub worker_id: WorkerId,
    pub model_id: Option<ModelId>,
    pub reasons: Vec<String>,
}

/// The full routing decision: the selection, every rejection, and every eligible
/// placement in ranking order.
#[derive(Debug, PartialEq)]
pub struct RoutingExplanation {
    pub selected: Option<CandidatePlacement>,
    pub rejected: Vec<RejectedCandidate>,
    pub all_candidates: Vec<CandidatePlacement>,
}

/// Mathematical value of a placement.
pub struct PlacementView {
    pub worker: Seq<char>,
    pub model: Seq<char>,
    pub backend: Seq<char>,
    pub score: int,
    pub breakdown: Seq<(Seq<char>, int)>,
    pub used_cpu_fallback: bool,
}

/// Mathematical value of a rejection.
pub struct RejectionView {
    pub worker: Seq<char>,
    pub model: Option<Seq<char>>,
    pub reasons: Seq<Seq<char>>,
}

/// Mathematical value of a routing decision.
pub struct ExplanationView {
    pub selected: Option<PlacementView>,
    pub rejected: Seq<RejectionView>,
    pub all_candidates: Seq<PlacementView>,
}

pub open spec fn texts(v: Seq<String>) -> Seq<Seq<char>> {
    v.map_values(|s: String| s@)
}

pub open spec fn components_view(v: Seq<ScoreComponent>) -> Seq<(Seq<char>, int)> {
    v.map_values(|c: ScoreComponent| (c.label@, c.value as int))
}

impl View for CandidatePlacement {
    type V = PlacementView;

    open spec fn view(&self) -> PlacementView {
        PlacementView {
            worker: self.worker_id@,
            model: self.model_id@,
            backend: self.backend@,
            score: self.score as int,
            breakdown: components_view(self.score_breakdown@),
            used_cpu_fallback: self.used_cpu_fallback,
        }
    }
}

impl View for RejectedCandidate {
    type V = RejectionView;

    open spec fn view(&self) -> RejectionView {
        RejectionView {
            worker: self.worker_id@,
            model: match self.model_id {
                Some(m) => Some(m@),
                None => None,
            },
            reasons: texts(self.reasons@),
        }
    }
}

impl View for RoutingExplanation {
    type V = ExplanationView;

    open spec fn view(&self) -> ExplanationView {
        ExplanationView {
            selected: match self.selected {
                Some(p) => Some(p@),
                None => None,
            },
            rejected: self.rejected@.map_values(|r: RejectedCandidate| r@),
            all_candidates: self.all_candidates@.map_values(|p: CandidatePlacement| p@),
        }
    }
}

// ---------------------------------------------------------------------------
// Hard constraints
// ---------------------------------------------------------------------------

/// Some element of `s` has id `m`.
pub open spec fn has_id(s: Seq<ModelId>, m: Seq<char>) -> bool {
    exists|i: int| 0 <= i < s.len() && (#[trigger] s[i])@ == m
}

/// Some accelerator other than the CPU is listed.
pub open spec fn has_real_accelerator(s: Seq<AcceleratorKind>) -> bool {
    exists|i: int| 0 <= i < s.len() && #[trigger] s[i] != AcceleratorKind::Cpu
}

/// Some role in `s` equals `r`.
pub open spec fn has_role(s: Seq<ModelRole>, r: RoleView) -> bool {
    exists|i: int| 0 <= i < s.len() && (#[trigger] s[i])@ == r
}

pub open spec fn when(c: bool, m: Seq<char>) -> Seq<Seq<char>> {
    if c {
        seq![m]
    } else {
        Seq::empty()
    }
}

/// Whether the worker counts as having a usable accelerator.
pub open spec fn accelerated(w: WorkerSnapshot, ov: SchedulingOverrides) -> bool {
    has_real_accelerator(w.accelerators@) && !ov.force_cpu
}

/// Whether the request demands an accelerator.
pub open spec fn needs_accelerator(req: ModelRequest, ov: SchedulingOverrides) -> bool {
    req.requirements.require_accelerator && !ov.force_cpu
}

/// Whether CPU fallback may be used.
pub open spec fn fallback_allowed(req: ModelRequest, ov: SchedulingOverrides) -> bool {
    req.requirements.allow_cpu_fallback && !ov.disable_fallback
}

/// Whether an eligible placement runs on the CPU as a fallback.
pub open spec fn uses_cpu_fallback(req: ModelRequest, w: WorkerSnapshot, ov: SchedulingOverrides) -> bool {
    !accelerated(w, ov) && !needs_accelerator(req, ov) && fallback_allowed(req, ov)
}

pub open spec fn registry_reasons(
    req: ModelRequest,
    entry: Option<ModelEntry>,
    w: WorkerSnapshot,
    m: Seq<char>,
) -> Seq<Seq<char>> {
    match entry {
        None => seq!["model '"@ + m + "' is not in the registry"@],
        Some(e) => {
            let ctx = match req.requirements.minimum_context_tokens {
                Some(rc) => {
                    let supported: nat = match e.context_tokens {
                        Some(c) => c as nat,
                        None => 0,
                    };
                    when(
                        supported < rc,
                        "model context "@ + decimal(supported) + " tokens is below the required "@
                            + decimal(rc as nat) + " tokens"@,
                    )
                },
                None => Seq::empty(),
            };
            let mem = match (e.estimated_memory_bytes, w.available_memory_bytes) {
                (Some(es), Some(av)) => when(
                    es > av,
                    "estimated memory "@ + decimal(es as nat) + " bytes exceeds available "@
                        + decimal(av as nat) + " bytes"@,
                ),
                _ => Seq::empty(),
            };
            ctx + mem
        },
    }
}

pub open spec fn accelerator_reasons(req: ModelRequest, w: WorkerSnapshot, ov: SchedulingOverrides) -> Seq<
    Seq<char>,
> {
    if needs_accelerator(req, ov) && !accelerated(w, ov) {
        seq!["an accelerator is required but this worker has none available"@]
    } else if !accelerated(w, ov) && !fallback_allowed(req, ov) {
        seq!["no accelerator is available and CPU fallback is not allowed"@]
    } else {
        Seq::empty()
    }
}

/// Every failed hard constraint of placing model `m` on worker `w`, in check order.
pub open spec fn constraint_reasons(
    req: ModelRequest,
    reg: ModelRegistry,
    w: WorkerSnapshot,
    m: Seq<char>,
    ov: SchedulingOverrides,
) -> Seq<Seq<char>> {
    when(!w.healthy, "worker is unhealthy"@) + when(!w.backend_healthy, "backend is unhealthy"@)
        + match ov.force_backend {
        Some(fb) => when(
            w.backend@ != fb@,
            "backend '"@ + w.backend@ + "' does not match forced backend '"@ + fb@ + "'"@,
        ),
        None => Seq::empty(),
    } + when(!has_id(w.known_models@, m), "model '"@ + m + "' is not known to this worker"@)
        + registry_reasons(req, reg.lookup(m), w, m) + accelerator_reasons(req, w, ov) + when(
        req.requirements.require_streaming && !w.supports_streaming,
        "streaming is required but this worker's backend does not support it"@,
    ) + when(
        w.queue_depth >= w.max_queued_jobs,
        "worker queue is full ("@ + decimal(w.queue_depth as nat) + "/"@ + decimal(
            w.max_queued_jobs as nat,
        ) + ")"@,
    )
}

// ---------------------------------------------------------------------------
// Scoring
// ---------------------------------------------------------------------------

/// `x / d` rounded to the nearest integer, halves away from zero (as `f64::round`).
pub open spec fn round_div(x: int, d: int) -> int {
    if x >= 0 {
        (x + d / 2) / d
    } else {
        -((-x + d / 2) / d)
    }
}

pub open spec fn item(c: bool, label: Seq<char>, value: int) -> Seq<(Seq<char>, int)> {
    if c {
        seq![(label, value)]
    } else {
        Seq::empty()
    }
}

/// The accelerator the placement should preferably use.
pub open spec fn preferred_accelerator(req: ModelRequest, ov: SchedulingOverrides) -> Option<
    AcceleratorKind,
> {
    match ov.prefer_accelerator {
        Some(a) => Some(a),
        None => req.requirements.preferred_accelerator,
    }
}

/// The itemized score of an eligible placement, in breakdown order: loading and
/// accelerator preference, registry fit, then measured load, locality and priority.
pub open spec fn score_components(
    req: ModelRequest,
    reg: ModelRegistry,
    w: WorkerSnapshot,
    m: Seq<char>,
    fallback: bool,
    ov: SchedulingOverrides,
) -> Seq<(Seq<char>, int)> {
    load_and_preference(req, w, m, fallback, ov) + entry_fit(req, reg.lookup(m), w)
        + load_and_locality(w)
}

/// Sum of component values.
pub open spec fn total(cs: Seq<(Seq<char>, int)>) -> int
    decreases cs.len(),
{
    if cs.len() == 0 {
        0
    } else {
        total(cs.drop_last()) + cs.last().1
    }
}

/// Every running total while summing `cs` fits in an `i64`.
pub open spec fn running_totals_fit(cs: Seq<(Seq<char>, int)>) -> bool {
    forall|k: int|
        0 <= k <= cs.len() ==> i64::MIN <= #[trigger] total(cs.subrange(0, k)) <= i64::MAX
}

/// Scoring an eligible placement stays within `i64`.
pub open spec fn score_fits(
    req: ModelRequest,
    reg: ModelRegistry,
    w: WorkerSnapshot,
    m: Seq<char>,
    ov: SchedulingOverrides,
) -> bool {
    constraint_reasons(req, reg, w, m, ov).len() == 0 ==> {
        &&& w.queue_depth * 5 <= i64::MAX
        &&& w.active_jobs * 3 <= i64::MAX
        &&& running_totals_fit(
            score_components(req, reg, w, m, uses_cpu_fallback(req, w, ov), ov),
        )
    }
}

// ---------------------------------------------------------------------------
// The full decision
// ---------------------------------------------------------------------------

/// The candidate model ids, in selection (not yet sorted) order.
pub open spec fn candidate_ids(req: ModelRequest, reg: ModelRegistry, ov: SchedulingOverrides) -> Seq<
    Seq<char>,
> {
    match ov.force_model {
        Some(m) => seq![m@],
        None => match req.model {
            Some(ModelSelector::Id(id)) => seq![id@],
            Some(ModelSelector::Alias(a)) => seq![a@],
            None => reg.role_candidates(req.role@),
        },
    }
}

pub open spec fn text_keys(ids: Seq<Seq<char>>) -> Seq<(int, Seq<char>, Seq<char>)> {
    ids.map_values(|s: Seq<char>| (0int, s, Seq::<char>::empty()))
}

/// Candidate model ids in `String` order (stable).
pub open spec fn sorted_models(ids: Seq<Seq<char>>) -> Seq<Seq<char>> {
    stable_order(ids.len(), text_keys(ids)).map_values(|i: int| ids[i])
}

/// Indices of the workers considered, in worker-id order, restricted to the forced
/// worker when one is forced.
pub open spec fn considered_workers(ws: Seq<WorkerSnapshot>, ov: SchedulingOverrides) -> Seq<int> {
    keep_forced(
        stable_order(ws.len(), text_keys(ws.map_values(|w: WorkerSnapshot| w.worker_id@))),
        ws,
        ov,
    )
}

pub open spec fn placement_of(
    req: ModelRequest,
    reg: ModelRegistry,
    w: WorkerSnapshot,
    m: Seq<char>,
    ov: SchedulingOverrides,
) -> PlacementView {
    let f = uses_cpu_fallback(req, w, ov);
    let cs = score_components(req, reg, w, m, f, ov);
    PlacementView {
        worker: w.worker_id@,
        model: m,
        backend: w.backend@,
        score: total(cs),
        breakdown: cs,
        used_cpu_fallback: f,
    }
}

/// Placements and rejections for one worker over the sorted models `ms`.
pub open spec fn model_pass(
    req: ModelRequest,
    reg: ModelRegistry,
    w: WorkerSnapshot,
    ms: Seq<Seq<char>>,
    ov: SchedulingOverrides,
) -> (Seq<PlacementView>, Seq<RejectionView>)
    decreases ms.len(),
{
    if ms.len() == 0 {
        (Seq::empty(), Seq::empty())
    } else {
        let (c, r) = model_pass(req, reg, w, ms.drop_last(), ov);
        let m = ms.last();
        let reasons = constraint_reasons(req, reg, w, m, ov);
        if reasons.len() == 0 {
            (c.push(placement_of(req, reg, w, m, ov)), r)
        } else {
            (c, r.push(RejectionView { worker: w.worker_id@, model: Some(m), reasons }))
        }
    }
}

/// Placements and rejections for one worker.
pub open spec fn worker_pass(
    req: ModelRequest,
    reg: ModelRegistry,
    w: WorkerSnapshot,
    ms: Seq<Seq<char>>,
    ov: SchedulingOverrides,
) -> (Seq<PlacementView>, Seq<RejectionView>) {
    if ms.len() == 0 {
        (
            Seq::empty(),
            seq![
                RejectionView {
                    worker: w.worker_id@,
                    model: None,
                    reasons: seq!["no candidate model for the requested role/selector"@],
                },
            ],
        )
    } else {
        model_pass(req, reg, w, ms, ov)
    }
}

/// Placements and rejections over the considered workers `order`.
pub open spec fn all_passes(
    req: ModelRequest,
    reg: ModelRegistry,
    ws: Seq<WorkerSnapshot>,
    order: Seq<int>,
    ms: Seq<Seq<char>>,
    ov: SchedulingOverrides,
) -> (Seq<PlacementView>, Seq<RejectionView>)
    decreases order.len(),
{
    if order.len() == 0 {
        (Seq::empty(), Seq::empty())
    } else {
        let (c, r) = all_passes(req, reg, ws, order.drop_last(), ms, ov);
        let (c2, r2) = worker_pass(req, reg, ws[order.last()], ms, ov);
        (c + c2, r + r2)
    }
}

pub open spec fn placement_keys(ps: Seq<PlacementView>) -> Seq<(int, Seq<char>, Seq<char>)> {
    ps.map_values(|p: PlacementView| (p.score, p.worker, p.model))
}

/// Placements ranked by score (highest first), then worker id, then model id.
pub open spec fn ranked(ps: Seq<PlacementView>) -> Seq<PlacementView> {
    stable_order(ps.len(), placement_keys(ps)).map_values(|i: int| ps[i])
}

/// The routing decision for a request.
pub open spec fn routing(
    req: ModelRequest,
    reg: ModelRegistry,
    ws: Seq<WorkerSnapshot>,
    ov: SchedulingOverrides,
) -> ExplanationView {
    let order = considered_workers(ws, ov);
    if ov.force_worker is Some && order.len() == 0 {
        ExplanationView {
            selected: None,
            rejected: seq![
                RejectionView {
                    worker: ov.force_worker->0@,
                    model: None,
                    reasons: seq!["forced worker is not registered"@],
                },
            ],
            all_candidates: Seq::empty(),
        }
    } else {
        let ms = sorted_models(candidate_ids(req, reg, ov));
        let (cands, rejs) = all_passes(req, reg, ws, order, ms, ov);
        let all = ranked(cands);
        ExplanationView {
            selected: if all.len() > 0 {
                Some(all[0])
            } else {
                None
            },
            rejected: rejs,
            all_candidates: all,
        }
    }
}

/// Scoring every placement that can be scored stays within `i64`.
pub open spec fn scores_fit(
    req: ModelRequest,
    reg: ModelRegistry,
    ws: Seq<WorkerSnapshot>,
    ov: SchedulingOverrides,
) -> bool {
    forall|wi: int, m: Seq<char>|
        0 <= wi < ws.len() && candidate_ids(req, reg, ov).contains(m) ==> #[trigger] score_fits(
            req,
            reg,
            ws[wi],
            m,
            ov,
        )
}

// ---------------------------------------------------------------------------
// Executable routing
// ---------------------------------------------------------------------------

fn ids_contain(v: &Vec<ModelId>, m: &ModelId) -> (r: bool)
    ensures
        r == has_id(v@, m@),
{
    let mut i: usize = 0;
    while i < v.len()
        invariant
            i <= v@.len(),
            forall|k: int| 0 <= k < i ==> (#[trigger] v@[k])@ != m@,
        decreases v@.len() - i,
    {
        if v[i].0 == m.0 {
            assert(v@[i as int]@ == m@);
            return true;
        }
        i = i + 1;
    }
    false
}

fn accelerators_contain(v: &Vec<AcceleratorKind>, a: AcceleratorKind) -> (r: bool)
    ensures
        r == v@.contains(a),
{
    let mut i: usize = 0;
    while i < v.len()
        invariant
            i <= v@.len(),
            forall|k: int| 0 <= k < i ==> v@[k] != a,
        decreases v@.len() - i,
    {
        if v[i] == a {
            assert(v@[i as int] == a);
            return true;
        }
        i = i + 1;
    }
    false
}

fn any_real_accelerator(v: &Vec<AcceleratorKind>) -> (r: bool)
    ensures
        r == has_real_accelerator(v@),
{
    let mut i: usize = 0;
    while i < v.len()
        invariant
            i <= v@.len(),
            forall|k: int| 0 <= k < i ==> #[trigger] v@[k] == AcceleratorKind::Cpu,
        decreases v@.len() - i,
    {
        if v[i] != AcceleratorKind::Cpu {
            assert(v@[i as int] != AcceleratorKind::Cpu);
            return true;
        }
        i = i + 1;
    }
    false
}

fn roles_contain(v: &Vec<ModelRole>, r: &ModelRole) -> (res: bool)
    ensures
        res == has_role(v@, r@),
{
    let mut i: usize = 0;
    while i < v.len()
        invariant
            i <= v@.len(),
            forall|k: int| 0 <= k < i ==> (#[trigger] v@[k])@ != r@,
        decreases v@.len() - i,
    {
        if v[i].same_as(r) {
            assert(v@[i as int]@ == r@);
            return true;
        }
        i = i + 1;
    }
    false
}

fn add_reason(reasons: &mut Vec<String>, msg: &Vec<char>)
    ensures
        texts(final(reasons)@) == texts(old(reasons)@).push(msg@),
{
    let ghost before = texts(reasons@);
    reasons.push(string_of(msg.as_slice()));
    assert(texts(reasons@) =~= before.push(msg@));
}

fn text_of(s: &str) -> (r: Vec<char>)
    ensures
        r@ == s@,
{
    crate::text::chars_of(s)
}

pub open spec fn worker_reasons(
    w: WorkerSnapshot,
    m: Seq<char>,
    ov: SchedulingOverrides,
) -> Seq<Seq<char>> {
    when(!w.healthy, "worker is unhealthy"@) + when(!w.backend_healthy, "backend is unhealthy"@)
        + match ov.force_backend {
        Some(fb) => when(
            w.backend@ != fb@,
            "backend '"@ + w.backend@ + "' does not match forced backend '"@ + fb@ + "'"@,
        ),
        None => Seq::empty(),
    } + when(!has_id(w.known_models@, m), "model '"@ + m + "' is not known to this worker"@)
}

pub open spec fn capacity_reasons(req: ModelRequest, w: WorkerSnapshot) -> Seq<Seq<char>> {
    when(
        req.requirements.require_streaming && !w.supports_streaming,
        "streaming is required but this worker's backend does not support it"@,
    ) + when(
        w.queue_depth >= w.max_queued_jobs,
        "worker queue is full ("@ + decimal(w.queue_depth as nat) + "/"@ + decimal(
            w.max_queued_jobs as nat,
        ) + ")"@,
    )
}

proof fn lemma_reasons_split(
    req: ModelRequest,
    reg: ModelRegistry,
    w: WorkerSnapshot,
    m: Seq<char>,
    ov: SchedulingOverrides,
)
    ensures
        constraint_reasons(req, reg, w, m, ov) == worker_reasons(w, m, ov) + registry_reasons(
            req,
            reg.lookup(m),
            w,
            m,
        ) + accelerator_reasons(req, w, ov) + capacity_reasons(req, w),
{
    assert(constraint_reasons(req, reg, w, m, ov) =~= worker_reasons(w, m, ov) + registry_reasons(
        req,
        reg.lookup(m),
        w,
        m,
    ) + accelerator_reasons(req, w, ov) + capacity_reasons(req, w));
}

fn push_worker_reasons(
    reasons: &mut Vec<String>,
    worker: &WorkerSnapshot,
    model_id: &ModelId,
    overrides: &SchedulingOverrides,
)
    ensures
        texts(final(reasons)@) == texts(old(reasons)@) + worker_reasons(
            *worker,
            model_id@,
            *overrides,
        ),
{
    let ghost w = *worker;
    let ghost ov = *overrides;
    let ghost m = model_id@;
    let ghost acc0 = texts(reasons@);
    if !worker.healthy {
        add_reason(reasons, &text_of("worker is unhealthy"));
    }
    if !worker.backend_healthy {
        add_reason(reasons, &text_of("backend is unhealthy"));
    }
    assert(texts(reasons@) =~= acc0 + when(!w.healthy, "worker is unhealthy"@) + when(
        !w.backend_healthy,
        "backend is unhealthy"@,
    ));
    let ghost acc1 = texts(reasons@);
    if let Some(force_backend) = &overrides.force_backend {
        if worker.backend != *force_backend {
            let mut msg = text_of("backend '");
            push_str(&mut msg, worker.backend.as_str());
            push_str(&mut msg, "' does not match forced backend '");
            push_str(&mut msg, force_backend.as_str());
            push_str(&mut msg, "'");
            add_reason(reasons, &msg);
        }
    }
    let ghost part2 = match ov.force_backend {
        Some(fb) => when(
            w.backend@ != fb@,
            "backend '"@ + w.backend@ + "' does not match forced backend '"@ + fb@ + "'"@,
        ),
        None => Seq::empty(),
    };
    assert(texts(reasons@) =~= acc1 + part2);
    let ghost acc2 = texts(reasons@);
    if !ids_contain(&worker.known_models, model_id) {
        let mut msg = text_of("model '");
        push_str(&mut msg, model_id.0.as_str());
        push_str(&mut msg, "' is not known to this worker");
        add_reason(reasons, &msg);
    }
    assert(texts(reasons@) =~= acc2 + when(
        !has_id(w.known_models@, m),
        "model '"@ + m + "' is not known to this worker"@,
    ));
    assert(texts(reasons@) =~= acc0 + worker_reasons(w, m, ov));
}

fn push_registry_reasons(
    reasons: &mut Vec<String>,
    request: &ModelRequest,
    registry: &ModelRegistry,
    worker: &WorkerSnapshot,
    model_id: &ModelId,
)
    ensures
        texts(final(reasons)@) == texts(old(reasons)@) + registry_reasons(
            *request,
            registry.lookup(model_id@),
            *worker,
            model_id@,
        ),
{
    let ghost acc = texts(reasons@);
    match registry.get(model_id) {
        None => {
            let mut msg = text_of("model '");
            push_str(&mut msg, model_id.0.as_str());
            push_str(&mut msg, "' is not in the registry");
            add_reason(reasons, &msg);
            assert(texts(reasons@) =~= acc + registry_reasons(
                *request,
                registry.lookup(model_id@),
                *worker,
                model_id@,
            ));
        },
        Some(entry) => {
            if let Some(required_ctx) = request.requirements.minimum_context_tokens {
                let supported: u32 = match entry.context_tokens {
                    Some(c) => c,
                    None => 0,
                };
                if supported < required_ctx {
                    let mut msg = text_of("model context ");
                    push_all(&mut msg, &decimal_chars(supported as u64));
                    push_str(&mut msg, " tokens is below the required ");
                    push_all(&mut msg, &decimal_chars(required_ctx as u64));
                    push_str(&mut msg, " tokens");
                    add_reason(reasons, &msg);
                }
            }
            let ghost mid = texts(reasons@);
            match (entry.estimated_memory_bytes, worker.available_memory_bytes) {
                (Some(estimated), Some(available)) => {
                    if estimated > available {
                        let mut msg = text_of("estimated memory ");
                        push_all(&mut msg, &decimal_chars(estimated));
                        push_str(&mut msg, " bytes exceeds available ");
                        push_all(&mut msg, &decimal_chars(available));
                        push_str(&mut msg, " bytes");
                        add_reason(reasons, &msg);
                    }
                },
                _ => {},
            }
            assert(texts(reasons@) =~= acc + registry_reasons(
                *request,
                registry.lookup(model_id@),
                *worker,
                model_id@,
            ));
        },
    }
}

fn push_accelerator_reasons(
    reasons: &mut Vec<String>,
    request: &ModelRequest,
    worker: &WorkerSnapshot,
    overrides: &SchedulingOverrides,
) -> (used_cpu_fallback: bool)
    ensures
        texts(final(reasons)@) == texts(old(reasons)@) + accelerator_reasons(
            *request,
            *worker,
            *overrides,
        ),
        used_cpu_fallback == uses_cpu_fallback(*request, *worker, *overrides),
{
    let ghost acc = texts(reasons@);
    let mut used_cpu_fallback = false;
    let has_real_accelerator = any_real_accelerator(&worker.accelerators) && !overrides.force_cpu;
    let require_accelerator = request.requirements.require_accelerator && !overrides.force_cpu;
    if require_accelerator && !has_real_accelerator {
        add_reason(
            reasons,
            &text_of("an accelerator is required but this worker has none available"),
        );
    } else if !has_real_accelerator {
        let allowed = request.requirements.allow_cpu_fallback && !overrides.disable_fallback;
        if !allowed {
            add_reason(
                reasons,
                &text_of("no accelerator is available and CPU fallback is not allowed"),
            );
        } else {
            used_cpu_fallback = true;
        }
    }
    assert(texts(reasons@) =~= acc + accelerator_reasons(*request, *worker, *overrides));
    used_cpu_fallback
}

fn push_capacity_reasons(reasons: &mut Vec<String>, request: &ModelRequest, worker: &WorkerSnapshot)
    ensures
        texts(final(reasons)@) == texts(old(reasons)@) + capacity_reasons(*request, *worker),
{
    let ghost acc = texts(reasons@);
    if request.requirements.require_streaming && !worker.supports_streaming {
        add_reason(
            reasons,
            &text_of("streaming is required but this worker's backend does not support it"),
        );
    }
    let ghost acc2 = texts(reasons@);
    if worker.queue_depth >= worker.max_queued_jobs {
        let mut msg = text_of("worker queue is full (");
        push_all(&mut msg, &decimal_chars(worker.queue_depth as u64));
        push_str(&mut msg, "/");
        push_all(&mut msg, &decimal_chars(worker.max_queued_jobs as u64));
        push_str(&mut msg, ")");
        add_reason(reasons, &msg);
    }
    assert(texts(reasons@) =~= acc + capacity_reasons(*request, *worker));
}

/// Hard constraints: `Ok(used_cpu_fallback)` when the placement is eligible, otherwise
/// every failed constraint (all are evaluated, none short-circuits).
fn check_hard_constraints(
    request: &ModelRequest,
    registry: &ModelRegistry,
    worker: &WorkerSnapshot,
    model_id: &ModelId,
    overrides: &SchedulingOverrides,
) -> (r: Result<bool, Vec<String>>)
    ensures
        r is Ok <==> constraint_reasons(*request, *registry, *worker, model_id@, *overrides).len()
            == 0,
        r matches Ok(f) ==> f == uses_cpu_fallback(*request, *worker, *overrides),
        r matches Err(rs) ==> texts(rs@) == constraint_reasons(
            *request,
            *registry,
            *worker,
            model_id@,
            *overrides,
        ),
{
    let mut reasons: Vec<String> = Vec::new();
    assert(texts(reasons@) =~= Seq::<Seq<char>>::empty());
    push_worker_reasons(&mut reasons, worker, model_id, overrides);
    push_registry_reasons(&mut reasons, request, registry, worker, model_id);
    let used_cpu_fallback = push_accelerator_reasons(&mut reasons, request, worker, overrides);
    push_capacity_reasons(&mut reasons, request, worker);
    proof {
        lemma_reasons_split(*request, *registry, *worker, model_id@, *overrides);
        assert(texts(reasons@) =~= constraint_reasons(
            *request,
            *registry,
            *worker,
            model_id@,
            *overrides,
        ));
    }
    if reasons.len() == 0 {
        Ok(used_cpu_fallback)
    } else {
        Err(reasons)
    }
}

fn push_component(cs: &mut Vec<ScoreComponent>, label: &Vec<char>, value: i64)
    ensures
        components_view(final(cs)@) == components_view(old(cs)@).push((label@, value as int)),
{
    let ghost before = components_view(cs@);
    cs.push(ScoreComponent { label: string_of(label.as_slice()), value });
    assert(components_view(cs@) =~= before.push((label@, value as int)));
}

/// `x / d` rounded half away from zero, for the positive even divisors used in scoring.
fn rounded_quotient(x: i64, d: i64) -> (r: i64)
    requires
        d == 10000 || d == 20000,
    ensures
        r == round_div(x as int, d as int),
{
    let y = x as i128;
    let dd = d as i128;
    if y >= 0 {
        let q = (y + dd / 2) / dd;
        q as i64
    } else {
        let q = (-y + dd / 2) / dd;
        (-q) as i64
    }
}

pub open spec fn load_and_preference(
    req: ModelRequest,
    w: WorkerSnapshot,
    m: Seq<char>,
    fallback: bool,
    ov: SchedulingOverrides,
) -> Seq<(Seq<char>, int)> {
    (if has_id(w.loaded_models@, m) {
        seq![("model already loaded"@, 100int)]
    } else {
        seq![("model requires loading"@, -10int)]
    }) + match preferred_accelerator(req, ov) {
        Some(p) => item(
            !fallback && w.accelerators@.contains(p),
            "preferred "@ + accelerator_name(p) + " accelerator"@,
            40,
        ),
        None => Seq::empty(),
    }
}

pub open spec fn entry_fit(req: ModelRequest, entry: Option<ModelEntry>, w: WorkerSnapshot) -> Seq<
    (Seq<char>, int),
> {
    match entry {
        Some(e) => (match (e.estimated_memory_bytes, w.available_memory_bytes) {
            (Some(es), Some(av)) => item(av > es, "memory headroom"@, 14),
            _ => Seq::empty(),
        }) + item(
            has_role(e.roles@, req.role@),
            "declared '"@ + role_name(req.role@) + "' role suitability"@,
            8,
        ),
        None => Seq::empty(),
    }
}

pub open spec fn load_and_locality(w: WorkerSnapshot) -> Seq<(Seq<char>, int)> {
    (match w.measured_generation_millitokens_per_second {
        Some(t) => seq![("measured generation throughput"@, round_div(t as int, 10000))],
        None => Seq::empty(),
    }) + match w.measured_prompt_millitokens_per_second {
        Some(t) => seq![("measured prompt-processing throughput"@, round_div(t as int, 20000))],
        None => Seq::empty(),
    } + item(
        w.queue_depth > 0,
        decimal(w.queue_depth as nat) + " active queued request(s)"@,
        -(w.queue_depth as int) * 5,
    ) + item(
        w.active_jobs > 0,
        decimal(w.active_jobs as nat) + " active job(s)"@,
        -(w.active_jobs as int) * 3,
    ) + (match w.locality {
        WorkerLocality::Local => seq![("local worker"@, 5int)],
        WorkerLocality::Remote => seq![("network transfer penalty"@, -15int)],
    }) + item(w.priority != 0, "configured priority"@, w.priority as int)
}

fn push_load_and_preference(
    cs: &mut Vec<ScoreComponent>,
    request: &ModelRequest,
    worker: &WorkerSnapshot,
    model_id: &ModelId,
    used_cpu_fallback: bool,
    overrides: &SchedulingOverrides,
)
    ensures
        components_view(final(cs)@) == components_view(old(cs)@) + load_and_preference(
            *request,
            *worker,
            model_id@,
            used_cpu_fallback,
            *overrides,
        ),
{
    let ghost acc = components_view(cs@);
    if ids_contain(&worker.loaded_models, model_id) {
        push_component(cs, &text_of("model already loaded"), 100);
    } else {
        push_component(cs, &text_of("model requires loading"), -10);
    }
    let preferred = match overrides.prefer_accelerator {
        Some(a) => Some(a),
        None => request.requirements.preferred_accelerator,
    };
    if let Some(p) = preferred {
        if !used_cpu_fallback && accelerators_contain(&worker.accelerators, p) {
            let mut label = text_of("preferred ");
            push_str(&mut label, p.name().as_str());
            push_str(&mut label, " accelerator");
            push_component(cs, &label, 40);
        }
    }
    assert(components_view(cs@) =~= acc + load_and_preference(
        *request,
        *worker,
        model_id@,
        used_cpu_fallback,
        *overrides,
    ));
}

fn push_entry_fit(
    cs: &mut Vec<ScoreComponent>,
    request: &ModelRequest,
    registry: &ModelRegistry,
    worker: &WorkerSnapshot,
    model_id: &ModelId,
)
    ensures
        components_view(final(cs)@) == components_view(old(cs)@) + entry_fit(
            *request,
            registry.lookup(model_id@),
            *worker,
        ),
{
    let ghost acc = components_view(cs@);
    if let Some(entry) = registry.get(model_id) {
        match (entry.estimated_memory_bytes, worker.available_memory_bytes) {
            (Some(estimated), Some(available)) => {
                if available > estimated {
                    push_component(cs, &text_of("memory headroom"), 14);
                }
            },
            _ => {},
        }
        if roles_contain(&entry.roles, &request.role) {
            let mut label = text_of("declared '");
            push_str(&mut label, request.role.name().as_str());
            push_str(&mut label, "' role suitability");
            push_component(cs, &label, 8);
        }
    }
    assert(components_view(cs@) =~= acc + entry_fit(
        *request,
        registry.lookup(model_id@),
        *worker,
    ));
}

fn push_load_and_locality(cs: &mut Vec<ScoreComponent>, worker: &WorkerSnapshot)
    requires
        worker.queue_depth * 5 <= i64::MAX,
        worker.active_jobs * 3 <= i64::MAX,
    ensures
        components_view(final(cs)@) == components_view(old(cs)@) + load_and_locality(*worker),
{
    let ghost acc = components_view(cs@);
    if let Some(tps) = worker.measured_generation_millitokens_per_second {
        push_component(cs, &text_of("measured generation throughput"), rounded_quotient(tps, 10000));
    }
    if let Some(tps) = worker.measured_prompt_millitokens_per_second {
        push_component(
            cs,
            &text_of("measured prompt-processing throughput"),
            rounded_quotient(tps, 20000),
        );
    }
    if worker.queue_depth > 0 {
        let mut label = decimal_chars(worker.queue_depth as u64);
        push_str(&mut label, " active queued request(s)");
        push_component(cs, &label, -(worker.queue_depth as i64) * 5);
    }
    if worker.active_jobs > 0 {
        let mut label = decimal_chars(worker.active_jobs as u64);
        push_str(&mut label, " active job(s)");
        push_component(cs, &label, -(worker.active_jobs as i64) * 3);
    }
    match worker.locality {
        WorkerLocality::Local => push_component(cs, &text_of("local worker"), 5),
        WorkerLocality::Remote => push_component(cs, &text_of("network transfer penalty"), -15),
    }
    if worker.priority != 0 {
        push_component(cs, &text_of("configured priority"), worker.priority);
    }
    assert(components_view(cs@) =~= acc + load_and_locality(*worker));
}

/// The itemized score of an eligible placement.
fn score_placement(
    request: &ModelRequest,
    registry: &ModelRegistry,
    worker: &WorkerSnapshot,
    model_id: &ModelId,
    used_cpu_fallback: bool,
    overrides: &SchedulingOverrides,
) -> (r: Vec<ScoreComponent>)
    requires
        worker.queue_depth * 5 <= i64::MAX,
        worker.active_jobs * 3 <= i64::MAX,
    ensures
        components_view(r@) == score_components(
            *request,
            *registry,
            *worker,
            model_id@,
            used_cpu_fallback,
            *overrides,
        ),
{
    let mut cs: Vec<ScoreComponent> = Vec::new();
    assert(components_view(cs@) =~= Seq::<(Seq<char>, int)>::empty());
    push_load_and_preference(&mut cs, request, worker, model_id, used_cpu_fallback, overrides);
    push_entry_fit(&mut cs, request, registry, worker, model_id);
    push_load_and_locality(&mut cs, worker);
    assert(components_view(cs@) =~= score_components(
        *request,
        *registry,
        *worker,
        model_id@,
        used_cpu_fallback,
        *overrides,
    ));
    cs
}

/// Sum of the component values, as `Iterator::sum` computes it.
fn sum_components(cs: &Vec<ScoreComponent>) -> (r: i64)
    requires
        running_totals_fit(components_view(cs@)),
    ensures
        r == total(components_view(cs@)),
{
    let ghost v = components_view(cs@);
    let mut acc: i64 = 0;
    let mut i: usize = 0;
    assert(v.subrange(0, 0) =~= Seq::<(Seq<char>, int)>::empty());
    while i < cs.len()
        invariant
            v == components_view(cs@),
            running_totals_fit(v),
            i <= cs@.len(),
            acc == total(v.subrange(0, i as int)),
        decreases cs@.len() - i,
    {
        assert(v.subrange(0, i + 1).drop_last() =~= v.subrange(0, i as int));
        assert(i64::MIN <= total(v.subrange(0, i + 1)) <= i64::MAX);
        acc = acc + cs[i].value;
        i = i + 1;
    }
    assert(v.subrange(0, cs@.len() as int) =~= v);
    acc
}

impl Clone for ScoreComponent {
    fn clone(&self) -> (r: Self)
        ensures
            r.label@ == self.label@,
            r.value == self.value,
    {
        ScoreComponent { label: self.label.clone(), value: self.value }
    }
}

impl Clone for CandidatePlacement {
    fn clone(&self) -> (r: Self)
        ensures
            r@ == self@,
    {
        let mut breakdown: Vec<ScoreComponent> = Vec::new();
        let mut i: usize = 0;
        while i < self.score_breakdown.len()
            invariant
                i <= self.score_breakdown@.len(),
                components_view(breakdown@) == components_view(self.score_breakdown@).subrange(
                    0,
                    i as int,
                ),
            decreases self.score_breakdown@.len() - i,
        {
            let c = self.score_breakdown[i].clone();
            let ghost before = components_view(breakdown@);
            let ghost cv = (c.label@, c.value as int);
            breakdown.push(c);
            assert(components_view(breakdown@) =~= before.push(cv));
            assert(components_view(self.score_breakdown@).subrange(0, i + 1) =~= components_view(
                self.score_breakdown@,
            ).subrange(0, i as int).push(components_view(self.score_breakdown@)[i as int]));
            i = i + 1;
        }
        assert(components_view(self.score_breakdown@).subrange(
            0,
            self.score_breakdown@.len() as int,
        ) =~= components_view(self.score_breakdown@));
        CandidatePlacement {
            worker_id: self.worker_id.clone(),
            model_id: self.model_id.clone(),
            backend: self.backend.clone(),
            score: self.score,
            score_breakdown: breakdown,
            used_cpu_fallback: self.used_cpu_fallback,
        }
    }
}

/// Candidate models: the forced model, else the request's explicit selector, else
/// the registry's candidates for the request's role (in configured order).
fn candidate_models(
    request: &ModelRequest,
    registry: &ModelRegistry,
    overrides: &SchedulingOverrides,
) -> (r: Vec<ModelId>)
    ensures
        r@.map_values(|m: ModelId| m@) == candidate_ids(*request, *registry, *overrides),
{
    if let Some(model) = &overrides.force_model {
        let mut v: Vec<ModelId> = Vec::new();
        v.push(model.clone());
        assert(v@.map_values(|m: ModelId| m@) =~= seq![model@]);
        return v;
    }
    match &request.model {
        Some(ModelSelector::Id(id)) => {
            let mut v: Vec<ModelId> = Vec::new();
            v.push(id.clone());
            assert(v@.map_values(|m: ModelId| m@) =~= seq![id@]);
            v
        },
        Some(ModelSelector::Alias(alias)) => {
            let mut v: Vec<ModelId> = Vec::new();
            v.push(ModelId(alias.clone()));
            assert(v@.map_values(|m: ModelId| m@) =~= seq![alias@]);
            v
        },
        None => registry.candidates_for_role(&request.role),
    }
}

/// Worker indices in `order` that the overrides allow.
pub open spec fn keep_forced(order: Seq<int>, ws: Seq<WorkerSnapshot>, ov: SchedulingOverrides) -> Seq<
    int,
>
    decreases order.len(),
{
    if order.len() == 0 {
        Seq::empty()
    } else {
        let rest = keep_forced(order.drop_last(), ws, ov);
        let i = order.last();
        if match ov.force_worker {
            Some(f) => ws[i].worker_id@ == f@,
            None => true,
        } {
            rest.push(i)
        } else {
            rest
        }
    }
}

fn ordered_workers(workers: &[WorkerSnapshot], overrides: &SchedulingOverrides) -> (r: Vec<usize>)
    ensures
        r@.map_values(|i: usize| i as int) == keep_forced(
            stable_order(
                workers@.len(),
                text_keys(workers@.map_values(|w: WorkerSnapshot| w.worker_id@)),
            ),
            workers@,
            *overrides,
        ),
        forall|k: int| 0 <= k < r@.len() ==> #[trigger] r@[k] < workers@.len(),
{
    let ghost ids = workers@.map_values(|w: WorkerSnapshot| w.worker_id@);
    let mut keys: Vec<SortKey> = Vec::new();
    let mut i: usize = 0;
    while i < workers.len()
        invariant
            i <= workers@.len(),
            ids == workers@.map_values(|w: WorkerSnapshot| w.worker_id@),
            keys@.map_values(|k: SortKey| key_of(k)) == text_keys(ids).subrange(0, i as int),
        decreases workers@.len() - i,
    {
        let ghost before = keys@.map_values(|k: SortKey| key_of(k));
        let key = SortKey {
            rank: 0,
            primary: crate::text::chars_of(workers[i].worker_id.0.as_str()),
            secondary: Vec::new(),
        };
        assert(key_of(key) == text_keys(ids)[i as int]);
        keys.push(key);
        assert(keys@.map_values(|k: SortKey| key_of(k)) =~= before.push(key_of(key)));
        assert(text_keys(ids).subrange(0, i + 1) =~= text_keys(ids).subrange(0, i as int).push(
            text_keys(ids)[i as int],
        ));
        i = i + 1;
    }
    assert(text_keys(ids).subrange(0, workers@.len() as int) =~= text_keys(ids));
    let order = stable_sort_indices(&keys);
    let ghost so = order@.map_values(|x: usize| x as int);
    proof {
        crate::order::lemma_stable_order_props(keys@.len(), text_keys(ids));
    }
    let mut kept: Vec<usize> = Vec::new();
    let mut j: usize = 0;
    assert(so.subrange(0, 0) =~= Seq::<int>::empty());
    while j < order.len()
        invariant
            j <= order@.len(),
            so == order@.map_values(|x: usize| x as int),
            so == stable_order(workers@.len(), text_keys(ids)),
            crate::order::is_permutation_of_range(so, workers@.len()),
            kept@.map_values(|x: usize| x as int) == keep_forced(
                so.subrange(0, j as int),
                workers@,
                *overrides,
            ),
            forall|k: int| 0 <= k < kept@.len() ==> #[trigger] kept@[k] < workers@.len(),
        decreases order@.len() - j,
    {
        let idx = order[j];
        assert(so[j as int] == idx as int);
        assert(0 <= so[j as int] < workers@.len());
        let keep = match &overrides.force_worker {
            Some(f) => workers[idx].worker_id.0 == f.0,
            None => true,
        };
        assert(so.subrange(0, j + 1).drop_last() =~= so.subrange(0, j as int));
        if keep {
            let ghost before = kept@.map_values(|x: usize| x as int);
            kept.push(idx);
            assert(kept@.map_values(|x: usize| x as int) =~= before.push(idx as int));
        }
        j = j + 1;
    }
    assert(so.subrange(0, order@.len() as int) =~= so);
    kept
}

fn sorted_model_list(models: &Vec<ModelId>) -> (r: Vec<ModelId>)
    ensures
        r@.map_values(|m: ModelId| m@) == sorted_models(models@.map_values(|m: ModelId| m@)),
{
    let ghost ids = models@.map_values(|m: ModelId| m@);
    let mut keys: Vec<SortKey> = Vec::new();
    let mut i: usize = 0;
    while i < models.len()
        invariant
            i <= models@.len(),
            ids == models@.map_values(|m: ModelId| m@),
            keys@.map_values(|k: SortKey| key_of(k)) == text_keys(ids).subrange(0, i as int),
        decreases models@.len() - i,
    {
        let ghost before = keys@.map_values(|k: SortKey| key_of(k));
        let key = SortKey {
            rank: 0,
            primary: crate::text::chars_of(models[i].0.as_str()),
            secondary: Vec::new(),
        };
        assert(key_of(key) == text_keys(ids)[i as int]);
        keys.push(key);
        assert(keys@.map_values(|k: SortKey| key_of(k)) =~= before.push(key_of(key)));
        assert(text_keys(ids).subrange(0, i + 1) =~= text_keys(ids).subrange(0, i as int).push(
            text_keys(ids)[i as int],
        ));
        i = i + 1;
    }
    assert(text_keys(ids).subrange(0, models@.len() as int) =~= text_keys(ids));
    let order = stable_sort_indices(&keys);
    let ghost so = order@.map_values(|x: usize| x as int);
    proof {
        crate::order::lemma_stable_order_props(keys@.len(), text_keys(ids));
    }
    let mut out: Vec<ModelId> = Vec::new();
    let mut j: usize = 0;
    while j < order.len()
        invariant
            j <= order@.len(),
            so == order@.map_values(|x: usize| x as int),
            so == stable_order(models@.len(), text_keys(ids)),
            crate::order::is_permutation_of_range(so, models@.len()),
            ids == models@.map_values(|m: ModelId| m@),
            out@.map_values(|m: ModelId| m@) == so.subrange(0, j as int).map_values(
                |x: int| ids[x],
            ),
        decreases order@.len() - j,
    {
        let idx = order[j];
        assert(so[j as int] == idx as int);
        assert(0 <= so[j as int] < models@.len());
        let ghost before = out@.map_values(|m: ModelId| m@);
        let c = models[idx].clone();
        assert(c@ == ids[idx as int]);
        out.push(c);
        assert(out@.map_values(|m: ModelId| m@) =~= before.push(ids[idx as int]));
        assert(so.subrange(0, j + 1).map_values(|x: int| ids[x]) =~= so.subrange(
            0,
            j as int,
        ).map_values(|x: int| ids[x]).push(ids[so[j as int]]));
        j = j + 1;
    }
    assert(so.subrange(0, order@.len() as int) =~= so);
    out
}

pub open spec fn placements_view(v: Seq<CandidatePlacement>) -> Seq<PlacementView> {
    v.map_values(|p: CandidatePlacement| p@)
}

pub open spec fn rejections_view(v: Seq<RejectedCandidate>) -> Seq<RejectionView> {
    v.map_values(|r: RejectedCandidate| r@)
}

fn run_worker_pass(
    request: &ModelRequest,
    registry: &ModelRegistry,
    worker: &WorkerSnapshot,
    models: &Vec<ModelId>,
    overrides: &SchedulingOverrides,
    cands: &mut Vec<CandidatePlacement>,
    rejected: &mut Vec<RejectedCandidate>,
)
    requires
        forall|j: int|
            0 <= j < models@.len() ==> score_fits(
                *request,
                *registry,
                *worker,
                #[trigger] models@[j]@,
                *overrides,
            ),
    ensures
        placements_view(final(cands)@) == placements_view(old(cands)@) + worker_pass(
            *request,
            *registry,
            *worker,
            models@.map_values(|m: ModelId| m@),
            *overrides,
        ).0,
        rejections_view(final(rejected)@) == rejections_view(old(rejected)@) + worker_pass(
            *request,
            *registry,
            *worker,
            models@.map_values(|m: ModelId| m@),
            *overrides,
        ).1,
{
    let ghost ms = models@.map_values(|m: ModelId| m@);
    let ghost c0 = placements_view(cands@);
    let ghost r0 = rejections_view(rejected@);
    if models.len() == 0 {
        let mut reasons: Vec<String> = Vec::new();
        reasons.push(string_of(text_of("no candidate model for the requested role/selector").as_slice()));
        let rej = RejectedCandidate { worker_id: worker.worker_id.clone(), model_id: None, reasons };
        assert(texts(rej.reasons@) =~= seq!["no candidate model for the requested role/selector"@]);
        rejected.push(rej);
        assert(rejections_view(rejected@) =~= r0.push(rej@));
        assert(placements_view(cands@) =~= c0 + Seq::<PlacementView>::empty());
        return ;
    }
    let mut j: usize = 0;
    assert(ms.subrange(0, 0) =~= Seq::<Seq<char>>::empty());
    assert(placements_view(cands@) =~= c0 + Seq::<PlacementView>::empty());
    assert(rejections_view(rejected@) =~= r0 + Seq::<RejectionView>::empty());
    while j < models.len()
        invariant
            j <= models@.len(),
            ms == models@.map_values(|m: ModelId| m@),
            forall|k: int|
                0 <= k < models@.len() ==> score_fits(
                    *request,
                    *registry,
                    *worker,
                    #[trigger] models@[k]@,
                    *overrides,
                ),
            placements_view(cands@) == c0 + model_pass(
                *request,
                *registry,
                *worker,
                ms.subrange(0, j as int),
                *overrides,
            ).0,
            rejections_view(rejected@) == r0 + model_pass(
                *request,
                *registry,
                *worker,
                ms.subrange(0, j as int),
                *overrides,
            ).1,
        decreases models@.len() - j,
    {
        let ghost prefix = ms.subrange(0, j as int);
        let ghost next = ms.subrange(0, j + 1);
        assert(next.drop_last() =~= prefix);
        assert(next.last() == models@[j as int]@);
        let ghost cp = placements_view(cands@);
        let ghost rp = rejections_view(rejected@);
        match check_hard_constraints(request, registry, worker, &models[j], overrides) {
            Ok(used_cpu_fallback) => {
                assert(score_fits(*request, *registry, *worker, models@[j as int]@, *overrides));
                let breakdown = score_placement(
                    request,
                    registry,
                    worker,
                    &models[j],
                    used_cpu_fallback,
                    overrides,
                );
                let score = sum_components(&breakdown);
                let p = CandidatePlacement {
                    worker_id: worker.worker_id.clone(),
                    model_id: models[j].clone(),
                    backend: worker.backend.clone(),
                    score,
                    score_breakdown: breakdown,
                    used_cpu_fallback,
                };
                assert(p@ == placement_of(
                    *request,
                    *registry,
                    *worker,
                    models@[j as int]@,
                    *overrides,
                ));
                cands.push(p);
                assert(placements_view(cands@) =~= cp.push(p@));
                assert(rejections_view(rejected@) =~= rp);
            },
            Err(reasons) => {
                let rej = RejectedCandidate {
                    worker_id: worker.worker_id.clone(),
                    model_id: Some(models[j].clone()),
                    reasons,
                };
                rejected.push(rej);
                assert(rejections_view(rejected@) =~= rp.push(rej@));
                assert(placements_view(cands@) =~= cp);
            },
        }
        j = j + 1;
    }
    assert(ms.subrange(0, models@.len() as int) =~= ms);
}

fn rank_candidates(cands: &Vec<CandidatePlacement>) -> (r: Vec<CandidatePlacement>)
    ensures
        placements_view(r@) == ranked(placements_view(cands@)),
{
    let ghost ps = placements_view(cands@);
    let mut keys: Vec<SortKey> = Vec::new();
    let mut i: usize = 0;
    while i < cands.len()
        invariant
            i <= cands@.len(),
            ps == placements_view(cands@),
            keys@.map_values(|k: SortKey| key_of(k)) == placement_keys(ps).subrange(0, i as int),
        decreases cands@.len() - i,
    {
        let ghost before = keys@.map_values(|k: SortKey| key_of(k));
        let key = SortKey {
            rank: cands[i].score,
            primary: crate::text::chars_of(cands[i].worker_id.0.as_str()),
            secondary: crate::text::chars_of(cands[i].model_id.0.as_str()),
        };
        assert(key_of(key) == placement_keys(ps)[i as int]);
        keys.push(key);
        assert(keys@.map_values(|k: SortKey| key_of(k)) =~= before.push(key_of(key)));
        assert(placement_keys(ps).subrange(0, i + 1) =~= placement_keys(ps).subrange(
            0,
            i as int,
        ).push(placement_keys(ps)[i as int]));
        i = i + 1;
    }
    assert(placement_keys(ps).subrange(0, cands@.len() as int) =~= placement_keys(ps));
    let order = stable_sort_indices(&keys);
    let ghost so = order@.map_values(|x: usize| x as int);
    proof {
        crate::order::lemma_stable_order_props(keys@.len(), placement_keys(ps));
    }
    let mut out: Vec<CandidatePlacement> = Vec::new();
    let mut j: usize = 0;
    while j < order.len()
        invariant
            j <= order@.len(),
            so == order@.map_values(|x: usize| x as int),
            so == stable_order(cands@.len(), placement_keys(ps)),
            crate::order::is_permutation_of_range(so, cands@.len()),
            ps == placements_view(cands@),
            placements_view(out@) == so.subrange(0, j as int).map_values(|x: int| ps[x]),
        decreases order@.len() - j,
    {
        let idx = order[j];
        assert(so[j as int] == idx as int);
        assert(0 <= so[j as int] < cands@.len());
        let ghost before = placements_view(out@);
        let c = cands[idx].clone();
        assert(c@ == ps[idx as int]);
        out.push(c);
        assert(placements_view(out@) =~= before.push(ps[idx as int]));
        assert(so.subrange(0, j + 1).map_values(|x: int| ps[x]) =~= so.subrange(
            0,
            j as int,
        ).map_values(|x: int| ps[x]).push(ps[so[j as int]]));
        j = j + 1;
    }
    assert(so.subrange(0, order@.len() as int) =~= so);
    out
}

/// Routes a request: filters every (worker, model) placement by the hard constraints,
/// scores the eligible ones, and ranks them. Identical inputs always give the
/// identical explanation.
pub fn schedule(
    request: &ModelRequest,
    registry: &ModelRegistry,
    workers: &[WorkerSnapshot],
    overrides: &SchedulingOverrides,
) -> (r: RoutingExplanation)
    requires
        scores_fit(*request, *registry, workers@, *overrides),
    ensures
        r@ == routing(*request, *registry, workers@, *overrides),
{
    let models = candidate_models(request, registry, overrides);
    let order = ordered_workers(workers, overrides);
    let ghost ids = candidate_ids(*request, *registry, *overrides);
    if let Some(forced) = &overrides.force_worker {
        if order.len() == 0 {
            let mut reasons: Vec<String> = Vec::new();
            reasons.push(string_of(text_of("forced worker is not registered").as_slice()));
            let rej = RejectedCandidate { worker_id: forced.clone(), model_id: None, reasons };
            assert(texts(rej.reasons@) =~= seq!["forced worker is not registered"@]);
            let mut rejected: Vec<RejectedCandidate> = Vec::new();
            rejected.push(rej);
            let r = RoutingExplanation { selected: None, rejected, all_candidates: Vec::new() };
            assert(r@.rejected =~= routing(*request, *registry, workers@, *overrides).rejected);
            assert(r@.all_candidates =~= Seq::<PlacementView>::empty());
            return r;
        }
    }
    let model_order = sorted_model_list(&models);
    let ghost ms = sorted_model_list_view(&model_order);
    proof {
        crate::order::lemma_stable_order_props(ids.len(), text_keys(ids));
        assert forall|k: int| 0 <= k < model_order@.len() implies ids.contains(
            #[trigger] model_order@[k]@,
        ) by {
            let so = stable_order(ids.len(), text_keys(ids));
            assert(models@.map_values(|m: ModelId| m@) == ids);
            assert(so.len() == ids.len());
            assert(model_order@.map_values(|m: ModelId| m@) == so.map_values(|i: int| ids[i]));
            assert(model_order@.map_values(|m: ModelId| m@)[k] == ids[so[k]]);
            assert(so.contains(so[k]));
            assert(0 <= so[k] < ids.len());
            assert(ids[so[k]] == model_order@[k]@);
        }
    }
    let ghost ov = considered_workers(workers@, *overrides);
    let mut cands: Vec<CandidatePlacement> = Vec::new();
    let mut rejected: Vec<RejectedCandidate> = Vec::new();
    let mut k: usize = 0;
    assert(ov.subrange(0, 0) =~= Seq::<int>::empty());
    assert(placements_view(cands@) =~= Seq::<PlacementView>::empty());
    assert(rejections_view(rejected@) =~= Seq::<RejectionView>::empty());
    while k < order.len()
        invariant
            k <= order@.len(),
            ov == order@.map_values(|i: usize| i as int),
            forall|x: int| 0 <= x < order@.len() ==> #[trigger] order@[x] < workers@.len(),
            scores_fit(*request, *registry, workers@, *overrides),
            ms == sorted_models(ids),
            ms == model_order@.map_values(|m: ModelId| m@),
            ids == candidate_ids(*request, *registry, *overrides),
            forall|j: int| 0 <= j < model_order@.len() ==> ids.contains(#[trigger] model_order@[j]@),
            (placements_view(cands@), rejections_view(rejected@)) == all_passes(
                *request,
                *registry,
                workers@,
                ov.subrange(0, k as int),
                ms,
                *overrides,
            ),
        decreases order@.len() - k,
    {
        let wi = order[k];
        assert(ov[k as int] == wi as int);
        assert(ov.subrange(0, k + 1).drop_last() =~= ov.subrange(0, k as int));
        let ghost cp = placements_view(cands@);
        let ghost rp = rejections_view(rejected@);
        proof {
            assert forall|j: int| 0 <= j < model_order@.len() implies score_fits(
                *request,
                *registry,
                workers@[wi as int],
                #[trigger] model_order@[j]@,
                *overrides,
            ) by {
                assert(ids.contains(model_order@[j]@));
            }
        }
        run_worker_pass(
            request,
            registry,
            &workers[wi],
            &model_order,
            overrides,
            &mut cands,
            &mut rejected,
        );
        k = k + 1;
    }
    assert(ov.subrange(0, order@.len() as int) =~= ov);
    let all_candidates = rank_candidates(&cands);
    let selected = if all_candidates.len() > 0 {
        Some(all_candidates[0].clone())
    } else {
        None
    };
    let r = RoutingExplanation { selected, rejected, all_candidates };
    proof {
        let spec_r = routing(*request, *registry, workers@, *overrides);
        assert(r@.all_candidates =~= spec_r.all_candidates);
        assert(r@.rejected =~= spec_r.rejected);
        if all_candidates@.len() > 0 {
            assert(r@.selected == spec_r.selected);
        }
    }
    r
}

spec fn sorted_model_list_view(v: &Vec<ModelId>) -> Seq<Seq<char>> {
    v@.map_values(|m: ModelId| m@)
}

// ---------------------------------------------------------------------------
// Laws of routing
// ---------------------------------------------------------------------------

/// `p` is the scored placement of some model on the worker at index `wi`, and that
/// placement passes every hard constraint.
pub open spec fn eligible_placement_of(
    req: ModelRequest,
    reg: ModelRegistry,
    ws: Seq<WorkerSnapshot>,
    wi: int,
    p: PlacementView,
    ov: SchedulingOverrides,
) -> bool {
    &&& 0 <= wi < ws.len()
    &&& constraint_reasons(req, reg, ws[wi], p.model, ov).len() == 0
    &&& p == placement_of(req, reg, ws[wi], p.model, ov)
}

proof fn lemma_model_pass_eligible(
    req: ModelRequest,
    reg: ModelRegistry,
    ws: Seq<WorkerSnapshot>,
    wi: int,
    ms: Seq<Seq<char>>,
    ov: SchedulingOverrides,
)
    requires
        0 <= wi < ws.len(),
    ensures
        forall|k: int|
            0 <= k < model_pass(req, reg, ws[wi], ms, ov).0.len() ==> eligible_placement_of(
                req,
                reg,
                ws,
                wi,
                #[trigger] model_pass(req, reg, ws[wi], ms, ov).0[k],
                ov,
            ),
    decreases ms.len(),
{
    if ms.len() > 0 {
        lemma_model_pass_eligible(req, reg, ws, wi, ms.drop_last(), ov);
        let (c, r) = model_pass(req, reg, ws[wi], ms.drop_last(), ov);
        let m = ms.last();
        if constraint_reasons(req, reg, ws[wi], m, ov).len() == 0 {
            let full = c.push(placement_of(req, reg, ws[wi], m, ov));
            assert(model_pass(req, reg, ws[wi], ms, ov).0 == full);
            assert forall|k: int| 0 <= k < full.len() implies eligible_placement_of(
                req,
                reg,
                ws,
                wi,
                #[trigger] full[k],
                ov,
            ) by {
                if k < c.len() {
                    assert(full[k] == c[k]);
                }
            }
        } else {
            assert(model_pass(req, reg, ws[wi], ms, ov).0 == c);
        }
    }
}

proof fn lemma_all_passes_eligible(
    req: ModelRequest,
    reg: ModelRegistry,
    ws: Seq<WorkerSnapshot>,
    order: Seq<int>,
    ms: Seq<Seq<char>>,
    ov: SchedulingOverrides,
)
    requires
        forall|k: int| 0 <= k < order.len() ==> 0 <= #[trigger] order[k] < ws.len(),
    ensures
        forall|k: int|
            0 <= k < all_passes(req, reg, ws, order, ms, ov).0.len() ==> exists|x: int|
                0 <= x < order.len() && eligible_placement_of(
                    req,
                    reg,
                    ws,
                    order[x],
                    #[trigger] all_passes(req, reg, ws, order, ms, ov).0[k],
                    ov,
                ),
    decreases order.len(),
{
    if order.len() > 0 {
        let p = order.drop_last();
        lemma_all_passes_eligible(req, reg, ws, p, ms, ov);
        let wi = order.last();
        lemma_model_pass_eligible(req, reg, ws, wi, ms, ov);
        let (c, r) = all_passes(req, reg, ws, p, ms, ov);
        let (c2, r2) = worker_pass(req, reg, ws[wi], ms, ov);
        assert forall|k: int| 0 <= k < (c + c2).len() implies exists|x: int|
            0 <= x < order.len() && eligible_placement_of(
                req,
                reg,
                ws,
                order[x],
                #[trigger] (c + c2)[k],
                ov,
            ) by {
            if k < c.len() {
                let x = choose|x: int|
                    0 <= x < p.len() && eligible_placement_of(req, reg, ws, p[x], c[k], ov);
                assert(order[x] == p[x]);
            } else {
                assert(order[order.len() - 1] == wi);
                assert(c2[k - c.len()] == (c + c2)[k]);
            }
        }
    }
}

proof fn lemma_keep_forced(order: Seq<int>, ws: Seq<WorkerSnapshot>, ov: SchedulingOverrides)
    ensures
        forall|k: int|
            0 <= k < keep_forced(order, ws, ov).len() ==> order.contains(
                #[trigger] keep_forced(order, ws, ov)[k],
            ) && match ov.force_worker {
                Some(f) => ws[keep_forced(order, ws, ov)[k]].worker_id@ == f@,
                None => true,
            },
    decreases order.len(),
{
    if order.len() > 0 {
        lemma_keep_forced(order.drop_last(), ws, ov);
        let rest = keep_forced(order.drop_last(), ws, ov);
        assert forall|k: int| 0 <= k < rest.len() implies order.contains(#[trigger] rest[k]) by {
            let m = choose|m: int| 0 <= m < order.drop_last().len() && order.drop_last()[m]
                == rest[k];
            assert(order[m] == rest[k]);
        }
        assert(order[order.len() - 1] == order.last());
    }
}

proof fn lemma_candidate_eligible(
    req: ModelRequest,
    reg: ModelRegistry,
    ws: Seq<WorkerSnapshot>,
    ov: SchedulingOverrides,
    k: int,
) -> (wi: int)
    requires
        0 <= k < routing(req, reg, ws, ov).all_candidates.len(),
    ensures
        eligible_placement_of(req, reg, ws, wi, routing(req, reg, ws, ov).all_candidates[k], ov),
        ov.force_worker matches Some(f) ==> ws[wi].worker_id@ == f@,
{
    let ids = ws.map_values(|w: WorkerSnapshot| w.worker_id@);
    let so = stable_order(ws.len(), text_keys(ids));
    crate::order::lemma_stable_order_props(ws.len(), text_keys(ids));
    let order = considered_workers(ws, ov);
    lemma_keep_forced(so, ws, ov);
    assert forall|x: int| 0 <= x < order.len() implies 0 <= #[trigger] order[x] < ws.len() by {
        assert(so.contains(order[x]));
    }
    let all = routing(req, reg, ws, ov).all_candidates;
    let ms = sorted_models(candidate_ids(req, reg, ov));
    let cands = all_passes(req, reg, ws, order, ms, ov).0;
    lemma_all_passes_eligible(req, reg, ws, order, ms, ov);
    let ro = stable_order(cands.len(), placement_keys(cands));
    crate::order::lemma_stable_order_props(cands.len(), placement_keys(cands));
    assert(ro.contains(ro[k]));
    assert(0 <= ro[k] < cands.len());
    assert(all[k] == cands[ro[k]]);
    let x = choose|x: int|
        0 <= x < order.len() && eligible_placement_of(req, reg, ws, order[x], cands[ro[k]], ov);
    assert(order[x] == keep_forced(so, ws, ov)[x]);
    order[x]
}

/// A considered worker on which the `k`-th ranked candidate is an eligible placement.
pub open spec fn source_worker(
    req: ModelRequest,
    reg: ModelRegistry,
    ws: Seq<WorkerSnapshot>,
    ov: SchedulingOverrides,
    k: int,
) -> int {
    choose|wi: int|
        eligible_placement_of(req, reg, ws, wi, routing(req, reg, ws, ov).all_candidates[k], ov)
            && (ov.force_worker matches Some(f) ==> ws[wi].worker_id@ == f@)
}

/// Every ranked candidate is an eligible placement (it passes every hard constraint) on
/// a considered worker, and when a worker is forced, on that worker.
pub proof fn lemma_candidates_are_eligible(
    req: ModelRequest,
    reg: ModelRegistry,
    ws: Seq<WorkerSnapshot>,
    ov: SchedulingOverrides,
)
    ensures
        forall|k: int|
            0 <= k < routing(req, reg, ws, ov).all_candidates.len() ==> eligible_placement_of(
                req,
                reg,
                ws,
                source_worker(req, reg, ws, ov, k),
                #[trigger] routing(req, reg, ws, ov).all_candidates[k],
                ov,
            ) && (ov.force_worker matches Some(f) ==> ws[source_worker(
                req,
                reg,
                ws,
                ov,
                k,
            )].worker_id@ == f@),
{
    assert forall|k: int| 0 <= k < routing(req, reg, ws, ov).all_candidates.len() implies eligible_placement_of(
        req,
        reg,
        ws,
        source_worker(req, reg, ws, ov, k),
        #[trigger] routing(req, reg, ws, ov).all_candidates[k],
        ov,
    ) && (ov.force_worker matches Some(f) ==> ws[source_worker(req, reg, ws, ov, k)].worker_id@
        == f@) by {
        let wi = lemma_candidate_eligible(req, reg, ws, ov, k);
        assert(eligible_placement_of(req, reg, ws, wi, routing(req, reg, ws, ov).all_candidates[k], ov)
            && (ov.force_worker matches Some(f) ==> ws[wi].worker_id@ == f@));
    }
}

/// The selected placement, when there is one, is the first ranked candidate and no
/// candidate scores higher; there is a selection exactly when some placement is eligible.
pub proof fn lemma_selection_is_best(
    req: ModelRequest,
    reg: ModelRegistry,
    ws: Seq<WorkerSnapshot>,
    ov: SchedulingOverrides,
)
    ensures
        routing(req, reg, ws, ov).selected is Some <==> routing(req, reg, ws, ov).all_candidates.len()
            > 0,
        routing(req, reg, ws, ov).selected matches Some(p) ==> p == routing(
            req,
            reg,
            ws,
            ov,
        ).all_candidates[0],
        routing(req, reg, ws, ov).selected matches Some(p) ==> forall|k: int|
            0 <= k < routing(req, reg, ws, ov).all_candidates.len() ==> (#[trigger] routing(
                req,
                reg,
                ws,
                ov,
            ).all_candidates[k]).score <= p.score,
{
    let order = considered_workers(ws, ov);
    if !(ov.force_worker is Some && order.len() == 0) {
        let ms = sorted_models(candidate_ids(req, reg, ov));
        let cands = all_passes(req, reg, ws, order, ms, ov).0;
        let keys = placement_keys(cands);
        let ro = stable_order(cands.len(), keys);
        crate::order::lemma_stable_order_props(cands.len(), keys);
        let all = routing(req, reg, ws, ov).all_candidates;
        assert forall|k: int| 0 <= k < all.len() implies (#[trigger] all[k]).score <= all[0].score by {
            assert(ro.contains(ro[k]));
            assert(ro.contains(ro[0]));
            if k > 0 {
                assert(keys[ro[0]].0 >= keys[ro[k]].0);
            }
        }
    }
}

// ---------------------------------------------------------------------------
// Rendering
// ---------------------------------------------------------------------------

/// The line for one score component: its sign, magnitude and label.
pub open spec fn component_line(c: (Seq<char>, int)) -> Seq<char> {
    (if c.1 >= 0 {
        "+"@
    } else {
        "-"@
    }) + " "@ + decimal((if c.1 >= 0 {
        c.1
    } else {
        -c.1
    }) as nat) + " "@ + c.0 + "\n"@
}

/// The lines of a breakdown, in order.
pub open spec fn component_lines(b: Seq<(Seq<char>, int)>) -> Seq<char>
    decreases b.len(),
{
    if b.len() == 0 {
        Seq::empty()
    } else {
        component_lines(b.drop_last()) + component_line(b.last())
    }
}

/// The lines listing reasons, each after `- `.
pub open spec fn reason_lines(rs: Seq<Seq<char>>) -> Seq<char>
    decreases rs.len(),
{
    if rs.len() == 0 {
        Seq::empty()
    } else {
        reason_lines(rs.drop_last()) + "- "@ + rs.last() + "\n"@
    }
}

/// The paragraph for one rejection.
pub open spec fn rejection_text(r: RejectionView) -> Seq<char> {
    "\nRejected "@ + r.worker + match r.model {
        Some(m) => " / "@ + m,
        None => Seq::empty(),
    } + ":\n"@ + reason_lines(r.reasons)
}

/// The paragraphs for the rejections, in order.
pub open spec fn rejections_text(rs: Seq<RejectionView>) -> Seq<char>
    decreases rs.len(),
{
    if rs.len() == 0 {
        Seq::empty()
    } else {
        rejections_text(rs.drop_last()) + rejection_text(rs.last())
    }
}

/// The text of a routing decision: the selection with its score breakdown (and a
/// note when it falls back to the CPU), or that no worker is eligible; then every
/// rejection with its reasons.
pub open spec fn explanation_text(e: ExplanationView) -> Seq<char> {
    (match e.selected {
        Some(p) => "Selected "@ + p.worker + " / "@ + p.model + ":\n"@ + component_lines(
            p.breakdown,
        ) + if p.used_cpu_fallback {
            "(CPU fallback used)\n"@
        } else {
            Seq::empty()
        },
        None => "No eligible worker\n"@,
    }) + rejections_text(e.rejected)
}

fn write_component(out: &mut Vec<char>, c: &ScoreComponent)
    requires
        c.value != i64::MIN,
    ensures
        final(out)@ == old(out)@ + component_line((c.label@, c.value as int)),
{
    if c.value >= 0 {
        push_str(out, "+ ");
        let d = decimal_chars(c.value as u64);
        push_all(out, &d);
    } else {
        push_str(out, "- ");
        let d = decimal_chars((-c.value) as u64);
        push_all(out, &d);
    }
    push_str(out, " ");
    push_str(out, c.label.as_str());
    push_str(out, "\n");
    proof {
        reveal_strlit("+ ");
        reveal_strlit("- ");
        reveal_strlit("+");
        reveal_strlit("-");
        reveal_strlit(" ");
        assert(final(out)@ =~= old(out)@ + component_line((c.label@, c.value as int)));
    }
}

fn write_rejection(out: &mut Vec<char>, r: &RejectedCandidate)
    ensures
        final(out)@ == old(out)@ + rejection_text(r@),
{
    let ghost start = out@;
    push_str(out, "\nRejected ");
    push_str(out, r.worker_id.0.as_str());
    match &r.model_id {
        Some(m) => {
            push_str(out, " / ");
            push_str(out, m.0.as_str());
        },
        None => {},
    }
    push_str(out, ":\n");
    let ghost head = out@;
    let mut i: usize = 0;
    while i < r.reasons.len()
        invariant
            i <= r.reasons@.len(),
            out@ == head + reason_lines(texts(r.reasons@).subrange(0, i as int)),
        decreases r.reasons@.len() - i,
    {
        assert(texts(r.reasons@).subrange(0, i + 1).drop_last() =~= texts(r.reasons@).subrange(
            0,
            i as int,
        ));
        push_str(out, "- ");
        push_str(out, r.reasons[i].as_str());
        push_str(out, "\n");
        i = i + 1;
        assert(out@ =~= head + reason_lines(texts(r.reasons@).subrange(0, i as int)));
    }
    assert(texts(r.reasons@).subrange(0, r.reasons@.len() as int) =~= texts(r.reasons@));
    assert(out@ =~= start + rejection_text(r@));
}

impl RoutingExplanation {
    /// The decision as text (see `explanation_text`).
    pub fn render(&self) -> (r: String)
        requires
            self.selected matches Some(p) ==> forall|k: int|
                0 <= k < p.score_breakdown@.len() ==> (#[trigger] p.score_breakdown@[k]).value
                    != i64::MIN,
        ensures
            r@ == explanation_text(self@),
    {
        let mut out: Vec<char> = Vec::new();
        match &self.selected {
            Some(p) => {
                push_str(&mut out, "Selected ");
                push_str(&mut out, p.worker_id.0.as_str());
                push_str(&mut out, " / ");
                push_str(&mut out, p.model_id.0.as_str());
                push_str(&mut out, ":\n");
                let ghost head = out@;
                let ghost b = components_view(p.score_breakdown@);
                let mut i: usize = 0;
                while i < p.score_breakdown.len()
                    invariant
                        i <= p.score_breakdown@.len(),
                        b == components_view(p.score_breakdown@),
                        forall|k: int|
                            0 <= k < p.score_breakdown@.len() ==> (#[trigger] p.score_breakdown@[k]).value
                                != i64::MIN,
                        out@ == head + component_lines(b.subrange(0, i as int)),
                    decreases p.score_breakdown@.len() - i,
                {
                    assert(b.subrange(0, i + 1).drop_last() =~= b.subrange(0, i as int));
                    assert(b.subrange(0, i + 1).last() == b[i as int]);
                    write_component(&mut out, &p.score_breakdown[i]);
                    i = i + 1;
                    assert(out@ =~= head + component_lines(b.subrange(0, i as int)));
                }
                assert(b.subrange(0, b.len() as int) =~= b);
                if p.used_cpu_fallback {
                    push_str(&mut out, "(CPU fallback used)\n");
                }
            },
            None => {
                push_str(&mut out, "No eligible worker\n");
            },
        }
        let ghost head = out@;
        let ghost rv = self.rejected@.map_values(|r: RejectedCandidate| r@);
        let mut j: usize = 0;
        while j < self.rejected.len()
            invariant
                j <= self.rejected@.len(),
                rv == self.rejected@.map_values(|r: RejectedCandidate| r@),
                out@ == head + rejections_text(rv.subrange(0, j as int)),
            decreases self.rejected@.len() - j,
        {
            assert(rv.subrange(0, j + 1).drop_last() =~= rv.subrange(0, j as int));
            assert(rv.subrange(0, j + 1).last() == self.rejected@[j as int]@);
            write_rejection(&mut out, &self.rejected[j]);
            j = j + 1;
            assert(out@ =~= head + rejections_text(rv.subrange(0, j as int)));
        }
        assert(rv.subrange(0, rv.len() as int) =~= rv);
        proof {
            let sel: Seq<char> = match self@.selected {
                Some(p) => "Selected "@ + p.worker + " / "@ + p.model + ":\n"@ + component_lines(
                    p.breakdown,
                ) + if p.used_cpu_fallback {
                    "(CPU fallback used)\n"@
                } else {
                    Seq::empty()
                },
                None => "No eligible worker\n"@,
            };
            assert(head =~= sel);
        }
        string_of(out.as_slice())
    }
}

proof fn lemma_total_concat(a: Seq<(Seq<char>, int)>, b: Seq<(Seq<char>, int)>)
    ensures
        total(a + b) == total(a) + total(b),
    decreases b.len(),
{
    if b.len() > 0 {
        lemma_total_concat(a, b.drop_last());
        assert((a + b).drop_last() =~= a + b.drop_last());
        assert((a + b).last() == b.last());
    } else {
        assert(a + b =~= a);
    }
}

/// Locality counts for a placement: of two workers that differ only in where they
/// run, the local one scores exactly 20 more than the remote one (a local worker earns
/// 5, a remote one loses 15 to network transfer), so it always ranks higher.
pub proof fn lemma_local_worker_outscores_remote(
    req: ModelRequest,
    reg: ModelRegistry,
    w: WorkerSnapshot,
    m: Seq<char>,
    fallback: bool,
    ov: SchedulingOverrides,
)
    requires
        w.locality == WorkerLocality::Local,
    ensures
        ({
            let remote = WorkerSnapshot { locality: WorkerLocality::Remote, ..w };
            &&& total(score_components(req, reg, w, m, fallback, ov)) == total(
                score_components(req, reg, remote, m, fallback, ov),
            ) + 20
            &&& total(score_components(req, reg, w, m, fallback, ov)) > total(
                score_components(req, reg, remote, m, fallback, ov),
            )
        }),
{
    let remote = WorkerSnapshot { locality: WorkerLocality::Remote, ..w };
    let a = load_and_preference(req, w, m, fallback, ov) + entry_fit(req, reg.lookup(m), w);
    assert(load_and_preference(req, remote, m, fallback, ov) == load_and_preference(req, w, m, fallback, ov));
    assert(entry_fit(req, reg.lookup(m), remote) == entry_fit(req, reg.lookup(m), w));
    let pre = (match w.measured_generation_millitokens_per_second {
        Some(t) => seq![("measured generation throughput"@, round_div(t as int, 10000))],
        None => Seq::empty(),
    }) + match w.measured_prompt_millitokens_per_second {
        Some(t) => seq![("measured prompt-processing throughput"@, round_div(t as int, 20000))],
        None => Seq::empty(),
    } + item(
        w.queue_depth > 0,
        decimal(w.queue_depth as nat) + " active queued request(s)"@,
        -(w.queue_depth as int) * 5,
    ) + item(
        w.active_jobs > 0,
        decimal(w.active_jobs as nat) + " active job(s)"@,
        -(w.active_jobs as int) * 3,
    );
    let post = item(w.priority != 0, "configured priority"@, w.priority as int);
    let here = seq![("local worker"@, 5int)];
    let there = seq![("network transfer penalty"@, -15int)];
    assert(load_and_locality(w) == pre + here + post);
    assert(load_and_locality(remote) == pre + there + post);
    lemma_total_concat(pre, here);
    lemma_total_concat(pre + here, post);
    lemma_total_concat(pre, there);
    lemma_total_concat(pre + there, post);
    lemma_total_concat(a, load_and_locality(w));
    lemma_total_concat(a, load_and_locality(remote));
    assert(total(here) == 5) by {
        assert(here.drop_last() =~= Seq::<(Seq<char>, int)>::empty());
    }
    assert(total(there) == -15) by {
        assert(there.drop_last() =~= Seq::<(Seq<char>, int)>::empty());
    }
    assert(score_components(req, reg, w, m, fallback, ov) == a + load_and_locality(w));
    assert(score_components(req, reg, remote, m, fallback, ov) == a + load_and_locality(remote));
}

} // verus!
