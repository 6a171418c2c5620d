//! Benchmark fingerprints: whether a past measurement was taken under the
//! conditions now being scored, and where measurements are kept.
//!
//! The model, backend and hardware identity are always compared; every other field
//! is compared only when both sides know it, so an unknown value never causes a
//! mismatch by itself.
use vstd::prelude::*;
use crate::model::types::{AcceleratorKind, ModelId, WorkerId};
use crate::text::{chars_of, push_str, str_eq, string_of};

verus! {

/// The conditions a benchmark was measured under.
#[derive(Debug, PartialEq)]
pub struct BenchmarkFingerprint {
    pub model_id: ModelId,
    pub model_file_size_bytes: Option<u64>,
    pub model_file_hash: Option<String>,
    pub backend: String,
    pub backend_version: Option<String>,
    pub worker_hardware_fingerprint: String,
    pub accelerator: Option<AcceleratorKind>,
    pub context_tokens: Option<u32>,
    pub gpu_layers: Option<i32>,
    pub cpu_threads: Option<u32>,
    pub batch_size: Option<u32>,
}

impl Clone for BenchmarkFingerprint {
    fn clone(&self) -> (r: Self)
        ensures
            r.model_id@ == self.model_id@,
            r.model_file_size_bytes == self.model_file_size_bytes,
            r.model_file_hash == self.model_file_hash,
            r.backend == self.backend,
            r.backend_version == self.backend_version,
            r.worker_hardware_fingerprint == self.worker_hardware_fingerprint,
            r.accelerator == self.accelerator,
            r.context_tokens == self.context_tokens,
            r.gpu_layers == self.gpu_layers,
            r.cpu_threads == self.cpu_threads,
            r.batch_size == self.batch_size,
    {
        BenchmarkFingerprint {
            model_id: self.model_id.clone(),
            model_file_size_bytes: self.model_file_size_bytes,
            model_file_hash: match &self.model_file_hash {
                Some(h) => Some(h.clone()),
                None => None,
            },
            backend: self.backend.clone(),
            backend_version: match &self.backend_version {
                Some(v) => Some(v.clone()),
                None => None,
            },
            worker_hardware_fingerprint: self.worker_hardware_fingerprint.clone(),
            accelerator: self.accelerator,
            context_tokens: self.context_tokens,
            gpu_layers: self.gpu_layers,
            cpu_threads: self.cpu_threads,
            batch_size: self.batch_size,
        }
    }
}

/// Two optional values agree unless both are known and differ.
pub open spec fn agree<T>(a: Option<T>, b: Option<T>) -> bool {
    match (a, b) {
        (Some(x), Some(y)) => x == y,
        _ => true,
    }
}

/// Two optional texts agree unless both are known and differ.
pub open spec fn agree_text(a: Option<String>, b: Option<String>) -> bool {
    match (a, b) {
        (Some(x), Some(y)) => x@ == y@,
        _ => true,
    }
}

/// A stored fingerprint is valid evidence for the current one.
pub open spec fn fingerprints_match(s: BenchmarkFingerprint, c: BenchmarkFingerprint) -> bool {
    &&& s.model_id@ == c.model_id@
    &&& s.backend@ == c.backend@
    &&& s.worker_hardware_fingerprint@ == c.worker_hardware_fingerprint@
    &&& agree(s.model_file_size_bytes, c.model_file_size_bytes)
    &&& agree_text(s.model_file_hash, c.model_file_hash)
    &&& agree_text(s.backend_version, c.backend_version)
    &&& agree(s.accelerator, c.accelerator)
    &&& agree(s.context_tokens, c.context_tokens)
    &&& agree(s.gpu_layers, c.gpu_layers)
    &&& agree(s.cpu_threads, c.cpu_threads)
    &&& agree(s.batch_size, c.batch_size)
}

fn text_agrees(a: &Option<String>, b: &Option<String>) -> (r: bool)
    ensures
        r == agree_text(*a, *b),
{
    match (a, b) {
        (Some(x), Some(y)) => str_eq(x.as_str(), y.as_str()),
        _ => true,
    }
}

fn accelerator_agrees(a: Option<AcceleratorKind>, b: Option<AcceleratorKind>) -> (r: bool)
    ensures
        r == agree(a, b),
{
    match (a, b) {
        (Some(x), Some(y)) => x == y,
        _ => true,
    }
}

fn u32_agrees(a: Option<u32>, b: Option<u32>) -> (r: bool)
    ensures
        r == agree(a, b),
{
    match (a, b) {
        (Some(x), Some(y)) => x == y,
        _ => true,
    }
}

impl BenchmarkFingerprint {
    /// Whether a benchmark recorded under `self` may be used for a placement with
    /// fingerprint `current`: same model, backend and hardware, and no field that
    /// both sides know differs.
    pub fn matches(&self, current: &BenchmarkFingerprint) -> (r: bool)
        ensures
            r == fingerprints_match(*self, *current),
    {
        str_eq(self.model_id.0.as_str(), current.model_id.0.as_str()) && str_eq(
            self.backend.as_str(),
            current.backend.as_str(),
        ) && str_eq(
            self.worker_hardware_fingerprint.as_str(),
            current.worker_hardware_fingerprint.as_str(),
        ) && match (self.model_file_size_bytes, current.model_file_size_bytes) {
            (Some(x), Some(y)) => x == y,
            _ => true,
        } && text_agrees(&self.model_file_hash, &current.model_file_hash) && text_agrees(
            &self.backend_version,
            &current.backend_version,
        ) && accelerator_agrees(self.accelerator, current.accelerator) && u32_agrees(
            self.context_tokens,
            current.context_tokens,
        ) && match (self.gpu_layers, current.gpu_layers) {
            (Some(x), Some(y)) => x == y,
            _ => true,
        } && u32_agrees(self.cpu_threads, current.cpu_threads) && u32_agrees(
            self.batch_size,
            current.batch_size,
        )
    }
}

/// Every fingerprint matches itself.
pub proof fn lemma_match_reflexive(f: BenchmarkFingerprint)
    ensures
        fingerprints_match(f, f),
{
}

/// Matching does not depend on which side is stored and which is current.
pub proof fn lemma_match_symmetric(a: BenchmarkFingerprint, b: BenchmarkFingerprint)
    ensures
        fingerprints_match(a, b) == fingerprints_match(b, a),
{
}

/// The hardware identity of a worker: `<os>-<arch>-<hostname>`.
pub fn worker_hardware_fingerprint(os: &str, arch: &str, hostname: &str) -> (r: String)
    ensures
        r@ == os@ + "-"@ + arch@ + "-"@ + hostname@,
{
    let mut m = chars_of(os);
    push_str(&mut m, "-");
    push_str(&mut m, arch);
    push_str(&mut m, "-");
    push_str(&mut m, hostname);
    string_of(m.as_slice())
}

/// The directory benchmark records are kept in.
pub fn benchmark_store_dir() -> (r: String)
    ensures
        r@ == ".pig_benchmarks"@,
{
    String::from_str(".pig_benchmarks")
}

/// A model id with `/` and spaces turned into `_`, fit for a file name.
pub open spec fn file_safe(id: Seq<char>) -> Seq<char> {
    id.map_values(|c: char| if c == '/' || c == ' ' {
        '_'
    } else {
        c
    })
}

/// The file that holds a model's benchmark records:
/// `.pig_benchmarks/<file-safe model id>.jsonl`.
pub fn benchmark_file_path(model_id: &ModelId) -> (r: String)
    ensures
        r@ == ".pig_benchmarks/"@ + file_safe(model_id@) + ".jsonl"@,
{
    let id = chars_of(model_id.0.as_str());
    let mut safe: Vec<char> = Vec::new();
    let mut i: usize = 0;
    while i < id.len()
        invariant
            i <= id@.len(),
            safe@ == file_safe(id@).subrange(0, i as int),
        decreases id@.len() - i,
    {
        let c = id[i];
        safe.push(
            if c == '/' || c == ' ' {
                '_'
            } else {
                c
            },
        );
        i = i + 1;
        assert(safe@ =~= file_safe(id@).subrange(0, i as int));
    }
    assert(file_safe(id@).subrange(0, id@.len() as int) =~= file_safe(id@));
    let mut m = chars_of(".pig_benchmarks/");
    crate::text::push_all(&mut m, &safe);
    push_str(&mut m, ".jsonl");
    string_of(m.as_slice())
}

/// What choosing among stored benchmark records reads of each: the conditions it was
/// measured under, the worker, when, and whether the run succeeded.
#[derive(Debug, Clone, PartialEq)]
pub struct BenchmarkStamp {
    pub fingerprint: BenchmarkFingerprint,
    pub worker_id: WorkerId,
    pub timestamp_unix_ms: u64,
    pub success: bool,
}

/// A record that is valid evidence for `worker` under `current`: measured on that
/// worker, successful, and with a fingerprint that matches.
pub open spec fn usable(r: BenchmarkStamp, worker: Seq<char>, current: BenchmarkFingerprint) -> bool {
    &&& r.worker_id.0@ == worker
    &&& r.success
    &&& fingerprints_match(r.fingerprint, current)
}

/// The position of the most recent record that is valid evidence for `worker_id` under
/// `current` (of several equally recent ones, the last); `None` when there is no
/// history or every record is stale.
pub fn latest_matching(records: &[BenchmarkStamp], worker_id: &WorkerId, current: &BenchmarkFingerprint) -> (r:
    Option<usize>)
    ensures
        match r {
            None => forall|i: int|
                0 <= i < records@.len() ==> !usable(#[trigger] records@[i], worker_id.0@, *current),
            Some(k) => {
                &&& k < records@.len()
                &&& usable(records@[k as int], worker_id.0@, *current)
                &&& forall|i: int|
                    0 <= i < records@.len() && usable(#[trigger] records@[i], worker_id.0@, *current)
                        ==> records@[i].timestamp_unix_ms <= records@[k as int].timestamp_unix_ms
                &&& forall|i: int|
                    k < i < records@.len() && usable(#[trigger] records@[i], worker_id.0@, *current)
                        ==> records@[i].timestamp_unix_ms < records@[k as int].timestamp_unix_ms
            },
        },
{
    let mut best: Option<usize> = None;
    let mut i: usize = 0;
    while i < records.len()
        invariant
            i <= records@.len(),
            match best {
                None => forall|j: int|
                    0 <= j < i ==> !usable(#[trigger] records@[j], worker_id.0@, *current),
                Some(k) => {
                    &&& k < i
                    &&& usable(records@[k as int], worker_id.0@, *current)
                    &&& forall|j: int|
                        0 <= j < i && usable(#[trigger] records@[j], worker_id.0@, *current)
                            ==> records@[j].timestamp_unix_ms <= records@[k as int].timestamp_unix_ms
                    &&& forall|j: int|
                        k < j < i && usable(#[trigger] records@[j], worker_id.0@, *current)
                            ==> records@[j].timestamp_unix_ms < records@[k as int].timestamp_unix_ms
                },
            },
        decreases records@.len() - i,
    {
        let r = &records[i];
        if str_eq(r.worker_id.0.as_str(), worker_id.0.as_str()) && r.success && r.fingerprint.matches(
            current,
        ) {
            let newer = match best {
                None => true,
                Some(k) => r.timestamp_unix_ms >= records[k].timestamp_unix_ms,
            };
            if newer {
                best = Some(i);
            }
        }
        i = i + 1;
    }
    best
}

} // verus!
