use lao_orchestrator_core::model::benchmark::{
    benchmark_file_path, benchmark_store_dir, latest_matching, worker_hardware_fingerprint,
    BenchmarkFingerprint, BenchmarkStamp,
};
use lao_orchestrator_core::model::metrics::BenchmarkFreshness;
use lao_orchestrator_core::model::types::{AcceleratorKind, ModelId, WorkerId};

fn base_fingerprint() -> BenchmarkFingerprint {
    BenchmarkFingerprint {
        model_id: ModelId::from("m1"),
        model_file_size_bytes: Some(1_000_000),
        model_file_hash: None,
        backend: "llama_cpp".to_string(),
        backend_version: Some("b9960".to_string()),
        worker_hardware_fingerprint: "macos-aarch64-host1".to_string(),
        accelerator: Some(AcceleratorKind::Metal),
        context_tokens: Some(2048),
        gpu_layers: Some(99),
        cpu_threads: Some(10),
        batch_size: Some(2048),
    }
}

#[test]
fn identical_fingerprints_match() {
    let f = base_fingerprint();
    assert!(f.matches(&f.clone()));
}

#[test]
fn different_model_id_does_not_match() {
    let stored = base_fingerprint();
    let mut current = base_fingerprint();
    current.model_id = ModelId::from("m2");
    assert!(!stored.matches(&current));
}

#[test]
fn different_file_size_does_not_match() {
    let stored = base_fingerprint();
    let mut current = base_fingerprint();
    current.model_file_size_bytes = Some(2_000_000);
    assert!(!stored.matches(&current));
}

#[test]
fn different_hash_does_not_match_even_if_size_agrees() {
    let mut stored = base_fingerprint();
    stored.model_file_hash = Some("aaa".to_string());
    let mut current = base_fingerprint();
    current.model_file_hash = Some("bbb".to_string());
    assert!(!stored.matches(&current));
}

#[test]
fn different_backend_does_not_match() {
    let stored = base_fingerprint();
    let mut current = base_fingerprint();
    current.backend = "fake".to_string();
    assert!(!stored.matches(&current));
}

#[test]
fn different_backend_version_does_not_match() {
    let stored = base_fingerprint();
    let mut current = base_fingerprint();
    current.backend_version = Some("b9999".to_string());
    assert!(!stored.matches(&current));
}

#[test]
fn different_worker_hardware_fingerprint_does_not_match() {
    let stored = base_fingerprint();
    let mut current = base_fingerprint();
    current.worker_hardware_fingerprint = "linux-x86_64-host2".to_string();
    assert!(!stored.matches(&current));
}

#[test]
fn different_accelerator_does_not_match() {
    let stored = base_fingerprint();
    let mut current = base_fingerprint();
    current.accelerator = Some(AcceleratorKind::Cuda);
    assert!(!stored.matches(&current));
}

#[test]
fn different_context_tokens_does_not_match() {
    let stored = base_fingerprint();
    let mut current = base_fingerprint();
    current.context_tokens = Some(4096);
    assert!(!stored.matches(&current));
}

#[test]
fn different_gpu_layers_does_not_match() {
    let stored = base_fingerprint();
    let mut current = base_fingerprint();
    current.gpu_layers = Some(0);
    assert!(!stored.matches(&current));
}

#[test]
fn different_cpu_threads_does_not_match() {
    let stored = base_fingerprint();
    let mut current = base_fingerprint();
    current.cpu_threads = Some(4);
    assert!(!stored.matches(&current));
}

#[test]
fn different_batch_size_does_not_match() {
    let stored = base_fingerprint();
    let mut current = base_fingerprint();
    current.batch_size = Some(512);
    assert!(!stored.matches(&current));
}

#[test]
fn unknown_current_side_field_does_not_block_a_match() {
    let stored = base_fingerprint();
    let mut current = base_fingerprint();
    current.gpu_layers = None;
    current.cpu_threads = None;
    current.batch_size = None;
    current.model_file_hash = None;
    assert!(stored.matches(&current));
}

#[test]
fn matching_is_symmetric_on_a_sample() {
    let a = base_fingerprint();
    let mut b = base_fingerprint();
    b.context_tokens = None;
    assert_eq!(a.matches(&b), b.matches(&a));
    b.backend = "x".to_string();
    assert_eq!(a.matches(&b), b.matches(&a));
}

#[test]
fn hardware_fingerprint_joins_os_arch_and_host() {
    assert_eq!(worker_hardware_fingerprint("linux", "x86_64", "box"), "linux-x86_64-box");
}

#[test]
fn benchmark_files_live_in_the_store_with_safe_names() {
    assert_eq!(benchmark_store_dir(), ".pig_benchmarks");
    assert_eq!(
        benchmark_file_path(&ModelId::from("org/model name")),
        ".pig_benchmarks/org_model_name.jsonl"
    );
}

#[test]
fn benchmark_freshness_distinguishes_no_history_from_stale_history() {
    let no_history = BenchmarkFreshness {
        worker_id: WorkerId::from("w"),
        model_id: ModelId::from("m"),
        age_seconds: None,
        fingerprint_valid: false,
    };
    let stale = BenchmarkFreshness {
        worker_id: WorkerId::from("w"),
        model_id: ModelId::from("m"),
        age_seconds: Some(9_999),
        fingerprint_valid: false,
    };
    assert_ne!(
        no_history, stale,
        "no history and stale history must not collapse to the same representation"
    );
}

fn stamp(worker: &str, ts: u64, success: bool, fingerprint: BenchmarkFingerprint) -> BenchmarkStamp {
    BenchmarkStamp {
        fingerprint,
        worker_id: WorkerId::from(worker),
        timestamp_unix_ms: ts,
        success,
    }
}

#[test]
fn latest_matching_picks_the_newest_valid_record_for_the_worker() {
    let mut stale = base_fingerprint();
    stale.backend_version = Some("b0001".to_string());
    let records = vec![
        stamp("w1", 100, true, base_fingerprint()),
        stamp("w2", 900, true, base_fingerprint()),
        stamp("w1", 800, false, base_fingerprint()),
        stamp("w1", 700, true, stale),
        stamp("w1", 300, true, base_fingerprint()),
        stamp("w1", 200, true, base_fingerprint()),
    ];
    assert_eq!(
        latest_matching(&records, &WorkerId::from("w1"), &base_fingerprint()),
        Some(4)
    );
}

#[test]
fn latest_matching_prefers_the_last_of_equally_recent_records() {
    let records = vec![
        stamp("w1", 500, true, base_fingerprint()),
        stamp("w1", 500, true, base_fingerprint()),
    ];
    assert_eq!(
        latest_matching(&records, &WorkerId::from("w1"), &base_fingerprint()),
        Some(1)
    );
}

#[test]
fn no_matching_history_yields_none() {
    assert_eq!(latest_matching(&[], &WorkerId::from("w1"), &base_fingerprint()), None);
    let records = vec![stamp("w2", 1, true, base_fingerprint())];
    assert_eq!(
        latest_matching(&records, &WorkerId::from("w1"), &base_fingerprint()),
        None
    );
}
