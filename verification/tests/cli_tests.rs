use lao_orchestrator_core::cli::model_commands::{
    format_coordinator_metrics, median_u64, remote_url, sort_u64,
};
use lao_orchestrator_core::model::metrics::{
    BenchmarkFreshness, CoordinatorMetricsSnapshot, METRICS_SCHEMA_VERSION,
};
use lao_orchestrator_core::model::types::{ModelId, WorkerId};
use lao_orchestrator_core::cli::profiles::Profile;
use lao_orchestrator_core::cli::worker_lifecycle::{
    generate_sysusers_conf, generate_unit_file, home_dirs_needing_acl, worker_logs_args,
};

#[test]
fn sysusers_conf_declares_a_nologin_system_account() {
    let conf = generate_sysusers_conf();
    assert_eq!(
        conf,
        "u lao-worker - \"LAO worker service account\" /var/lib/lao-worker /usr/sbin/nologin\n"
    );
}

#[test]
fn home_dir_detection_finds_the_owning_users_home_for_each_referenced_path() {
    let paths = vec![
        "/home/jakea/models/Qwen3-8B-Q4_K_M.gguf".to_string(),
        "/home/jakea/src/llama.cpp/build/bin/llama-server".to_string(),
    ];
    let dirs = home_dirs_needing_acl(&paths, "/home/jakea/src/llama.cpp/build/bin/llama-server");
    assert_eq!(dirs.len(), 1);
    assert!(dirs.contains(&"/home/jakea".to_string()));
}

#[test]
fn home_dir_detection_ignores_paths_outside_home() {
    let paths = vec!["/opt/lao-worker/models/model.gguf".to_string()];
    let dirs = home_dirs_needing_acl(&paths, "llama-server");
    assert!(dirs.is_empty(), "a bare command name and an /opt path need no ACL grant");
}

#[test]
fn home_dir_detection_dedupes_multiple_paths_under_the_same_home() {
    let paths = vec!["/home/jakea/models/a.gguf".to_string(), "/home/jakea/models/b.gguf".to_string()];
    let dirs = home_dirs_needing_acl(&paths, "llama-server");
    assert_eq!(dirs.len(), 1);
}

#[test]
fn home_dir_detection_handles_multiple_distinct_users() {
    let paths = vec!["/home/alice/models/a.gguf".to_string(), "/home/bob/models/b.gguf".to_string()];
    let dirs = home_dirs_needing_acl(&paths, "llama-server");
    assert_eq!(dirs.len(), 2);
    assert!(dirs.contains(&"/home/alice".to_string()));
    assert!(dirs.contains(&"/home/bob".to_string()));
}

#[test]
fn home_dirs_come_out_sorted() {
    let paths = vec!["/home/zed/a".to_string(), "/home/amy/b".to_string(), "/home".to_string()];
    let dirs = home_dirs_needing_acl(&paths, "/home/kim/bin/server");
    assert_eq!(dirs, vec!["/home/amy".to_string(), "/home/kim".to_string(), "/home/zed".to_string()]);
}

#[test]
fn worker_logs_arguments_follow_the_flags() {
    assert_eq!(worker_logs_args(false, None), vec!["-u", "lao-worker.service", "--no-pager"]);
    assert_eq!(
        worker_logs_args(true, Some(50)),
        vec!["-u", "lao-worker.service", "--no-pager", "-n", "50", "-f"]
    );
}

#[test]
fn remote_profile_exposes_url_and_token() {
    let profile = Profile::Remote {
        coordinator_url: "http://spectre:3001".to_string(),
        token_env: Some("PIG_TOKEN".to_string()),
    };
    assert_eq!(profile.remote(), Some(("http://spectre:3001", Some("PIG_TOKEN"))));
    assert_eq!(Profile::Embedded.remote(), None);
}

#[test]
fn remote_urls_join_with_one_slash() {
    let profile = Profile::Remote { coordinator_url: "http://h:1//".to_string(), token_env: None };
    assert_eq!(remote_url(&profile, "/v1/metrics").unwrap(), "http://h:1/v1/metrics");
    assert_eq!(remote_url(&Profile::Embedded, "x").unwrap_err(), "selected profile is not remote");
}

#[test]
fn medians_of_odd_and_even_samples() {
    assert_eq!(median_u64(vec![5, 1, 3]), 3);
    assert_eq!(median_u64(vec![4, 1, 3, 2]), 2);
    assert_eq!(median_u64(vec![7]), 7);
    assert_eq!(sort_u64(vec![3, 1, 2, 1]), vec![1, 1, 2, 3]);
}

#[test]
fn unit_file_uses_the_configured_worker_id() {
    let unit = generate_unit_file("fedora-worker", 20);
    assert!(unit.contains("Description=LAO model-inference worker (fedora-worker)"));
}

#[test]
fn unit_file_timeout_stop_sec_tracks_shutdown_grace_seconds_with_margin() {
    let unit = generate_unit_file("fedora-worker", 20);
    assert!(
        unit.contains("TimeoutStopSec=30"),
        "expected shutdown_grace_seconds (20) + 10 margin; got:\n{}",
        unit
    );
}

#[test]
fn unit_file_references_the_installed_binary_and_config_paths() {
    let unit = generate_unit_file("fedora-worker", 20);
    assert!(unit.contains(&format!(
        "ExecStart={} worker serve --config {}",
        "/opt/lao-worker/bin/lao-cli", "/etc/lao-worker/lao.toml"
    )));
}

#[test]
fn unit_file_environment_file_tolerates_a_missing_token_file() {
    let unit = generate_unit_file("fedora-worker", 20);
    assert!(unit.contains(&format!("EnvironmentFile=-{}", "/etc/lao-worker/worker.env")));
}

#[test]
fn unit_file_protects_home_read_only_not_hidden() {
    let unit = generate_unit_file("fedora-worker", 20);
    assert!(unit.contains("ProtectHome=read-only"));
    assert!(!unit.contains("ProtectHome=true"));
}

#[test]
fn unit_file_is_complete_and_in_section_order() {
    let unit = generate_unit_file("w1", 0);
    assert_eq!(
        unit,
        "[Unit]\nDescription=LAO model-inference worker (w1)\nAfter=network-online.target tailscaled.service\nWants=network-online.target\nStartLimitIntervalSec=60\nStartLimitBurst=5\n\n[Service]\nType=simple\nUser=lao-worker\nGroup=lao-worker\nEnvironmentFile=-/etc/lao-worker/worker.env\nExecStart=/opt/lao-worker/bin/lao-cli worker serve --config /etc/lao-worker/lao.toml\nRestart=on-failure\nRestartSec=5\nTimeoutStopSec=10\nNoNewPrivileges=true\nProtectSystem=strict\nProtectHome=read-only\nPrivateTmp=true\n\n[Install]\nWantedBy=multi-user.target\n"
    );
}

fn freshness(model: &str, age_seconds: Option<u64>, fingerprint_valid: bool) -> BenchmarkFreshness {
    BenchmarkFreshness {
        worker_id: WorkerId::from("fedora-worker"),
        model_id: ModelId::from(model),
        age_seconds,
        fingerprint_valid,
    }
}

fn coordinator_snapshot(benchmarks: Vec<BenchmarkFreshness>) -> CoordinatorMetricsSnapshot {
    CoordinatorMetricsSnapshot {
        schema_version: METRICS_SCHEMA_VERSION,
        timestamp_unix_ms: 0,
        known_workers: 2,
        connected_workers: 1,
        active_jobs: 1,
        queued_jobs: 0,
        successful_jobs: 42,
        failed_jobs: 1,
        scheduler_decision: None,
        benchmarks,
    }
}

#[test]
fn coordinator_metrics_distinguishes_no_history_from_stale_benchmarks() {
    let snapshot = coordinator_snapshot(vec![
        freshness("qwen2.5-8b-q4", Some(120), true),
        freshness("old-model", Some(999_999), false),
        freshness("never-benchmarked", None, false),
    ]);
    let out = format_coordinator_metrics(&snapshot);
    assert!(out.contains("Known workers: 2"));
    assert!(out.contains("Connected workers: 1"));
    assert!(out.contains("Jobs: 42 successful, 1 failed"));
    assert!(out.contains("qwen2.5-8b-q4: valid (120s ago)"));
    assert!(out.contains("old-model: stale (999999s ago)"));
    assert!(
        out.contains("never-benchmarked: stale (no history)"),
        "a model with no benchmark history at all must read distinctly from a stale one: {}",
        out
    );
}

#[test]
fn coordinator_metrics_with_no_benchmarks_says_so_explicitly() {
    let snapshot = CoordinatorMetricsSnapshot {
        schema_version: METRICS_SCHEMA_VERSION,
        timestamp_unix_ms: 0,
        known_workers: 1,
        connected_workers: 1,
        active_jobs: 0,
        queued_jobs: 0,
        successful_jobs: 0,
        failed_jobs: 0,
        scheduler_decision: None,
        benchmarks: vec![],
    };
    assert!(format_coordinator_metrics(&snapshot).contains("Benchmarks: none recorded"));
}

#[test]
fn coordinator_report_is_complete() {
    let snapshot = coordinator_snapshot(vec![freshness("m", Some(5), true)]);
    assert_eq!(
        format_coordinator_metrics(&snapshot),
        "Known workers: 2\nConnected workers: 1\n\nActive jobs: 1\nQueued jobs: 0\nJobs: 42 successful, 1 failed\n\nBenchmarks:\n- fedora-worker / m: valid (5s ago)\n"
    );
}
