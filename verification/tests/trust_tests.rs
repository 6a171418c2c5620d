use lao_orchestrator_core::trust::{endpoint_matches, shell_opt_in, CapabilityClass, TrustPolicy, TrustSection};
use lao_orchestrator_core::workflow_types::{Workflow, WorkflowStep};

fn step(run: &str) -> WorkflowStep {
    WorkflowStep {
        run: run.to_string(),
        params: String::new(),
        retries: None,
        retry_delay: None,
        cache_key: None,
        input_from: None,
        depends_on: None,
        condition: None,
        for_each: None,
    }
}

#[test]
fn default_denies_dangerous_capabilities() {
    let policy = TrustPolicy::default();
    assert!(!policy.allows_plugin("ShellCommandPlugin", CapabilityClass::Shell));
    assert!(!policy.allows_plugin("FileReadPlugin", CapabilityClass::FilesystemRead));
    assert!(!policy.allows_plugin("SummarizerPlugin", CapabilityClass::Network));
}

#[test]
fn explicit_roots_required_for_filesystem() {
    let mut policy = TrustPolicy::default();
    policy.allow_filesystem_read = true;
    policy.working_dir = Some("/work".to_string());
    assert!(policy
        .validate_filesystem_path("./foo.txt", CapabilityClass::FilesystemRead)
        .is_err());
    policy.filesystem_roots.push(".".to_string());
    policy.normalize_roots(&vec![Some("/work".to_string())]);
    assert!(policy
        .validate_filesystem_path("./foo.txt", CapabilityClass::FilesystemRead)
        .is_ok());
}

#[test]
fn allow_plugins_overrides_class() {
    let mut policy = TrustPolicy::default();
    policy.allow_plugins.push("ShellCommandPlugin".to_string());
    assert!(policy.allows_plugin("ShellCommandPlugin", CapabilityClass::Shell));
}

#[test]
fn path_outside_roots_is_rejected() {
    let mut policy = TrustPolicy::default();
    policy.allow_filesystem_read = true;
    policy.filesystem_roots.push("/tmp/allowed".to_string());
    policy.normalize_roots(&vec![]);
    let err = policy
        .validate_filesystem_path("/etc/passwd", CapabilityClass::FilesystemRead)
        .unwrap_err();
    assert!(err.contains("outside configured filesystem_roots"));
}

#[test]
fn parent_traversal_is_rejected_even_with_roots() {
    let mut policy = TrustPolicy::default();
    policy.allow_filesystem_read = true;
    policy.filesystem_roots.push("/tmp".to_string());
    policy.normalize_roots(&vec![]);
    assert!(policy
        .validate_filesystem_path("../../etc/passwd", CapabilityClass::FilesystemRead)
        .is_err());
}

#[test]
fn network_denied_without_trust() {
    let policy = TrustPolicy::default();
    assert!(policy.validate_network_endpoint("http://127.0.0.1:11434").is_err());
}

#[test]
fn network_allowed_with_open_flag() {
    let mut policy = TrustPolicy::default();
    policy.allow_network = true;
    assert!(policy.validate_network_endpoint("http://example.com").is_ok());
}

#[test]
fn network_endpoint_allowlist_enforced() {
    let mut policy = TrustPolicy::default();
    policy.allow_network = true;
    policy.network_endpoints.push("http://127.0.0.1:11434".to_string());
    assert!(policy.validate_network_endpoint("http://127.0.0.1:11434/api").is_ok());
    assert!(policy.validate_network_endpoint("http://evil.example.com").is_err());
}

#[test]
fn validate_step_input_blocks_untrusted_shell() {
    let policy = TrustPolicy::default();
    assert!(policy.validate_step_input("ShellCommandPlugin", "ls").is_err());
}

#[test]
fn validate_step_input_allows_trusted_shell() {
    let mut policy = TrustPolicy::default();
    policy.allow_shell = true;
    assert!(policy.validate_step_input("ShellCommandPlugin", "ls").is_ok());
}

#[test]
fn validate_step_input_enforces_file_roots() {
    let mut policy = TrustPolicy::default();
    policy.allow_filesystem_read = true;
    policy.filesystem_roots.push("/tmp/data".to_string());
    policy.normalize_roots(&vec![]);
    assert!(policy.validate_step_input("FileReadPlugin", "/etc/shadow").is_err());
    assert!(policy.validate_step_input("FileReadPlugin", "/tmp/data/notes.txt").is_ok());
}

#[test]
fn validate_step_input_ignores_unknown_plugins() {
    let policy = TrustPolicy::default();
    assert!(policy.validate_step_input("EchoPlugin", "anything").is_ok());
}

#[test]
fn manifest_capabilities_reconciled_with_policy() {
    let policy = TrustPolicy::default();
    let caps = vec!["shell".to_string()];
    assert!(policy.check_manifest_capabilities("ShellCommandPlugin", &caps).is_err());

    let mut trusted = TrustPolicy::default();
    trusted.allow_shell = true;
    assert!(trusted.check_manifest_capabilities("ShellCommandPlugin", &caps).is_ok());
}

#[test]
fn manifest_uses_declared_functional_names() {
    let caps = vec!["read-file".to_string()];

    let denied = TrustPolicy::default();
    assert!(denied.check_manifest_capabilities("FileReadPlugin", &caps).is_err());

    let mut trusted = TrustPolicy::default();
    trusted.allow_filesystem_read = true;
    trusted.filesystem_roots = vec!["/tmp".to_string()];
    assert!(trusted.check_manifest_capabilities("FileReadPlugin", &caps).is_ok());
}

#[test]
fn workflow_with_untrusted_plugin_is_rejected() {
    let workflow = Workflow { workflow: "wf".to_string(), steps: vec![step("ShellCommandPlugin")] };
    assert!(TrustPolicy::default().validate_workflow(&workflow).is_err());
}

#[test]
fn untrusted_workflow_message_names_the_plugin_and_class() {
    let workflow = Workflow {
        workflow: "wf".to_string(),
        steps: vec![step("EchoPlugin"), step("WhisperPlugin"), step("ShellCommandPlugin")],
    };
    assert_eq!(
        TrustPolicy::default().validate_workflow(&workflow).unwrap_err(),
        "workflow uses untrusted plugin 'WhisperPlugin' (Subprocess); configure lao.toml [trust]"
    );
}

#[test]
fn capability_errors_have_exact_messages() {
    let policy = TrustPolicy::default();
    assert_eq!(
        policy.validate_step_input("PromptDispatcherPlugin", "x").unwrap_err(),
        "plugin 'PromptDispatcherPlugin' requires Network trust; configure lao.toml [trust]"
    );
    assert_eq!(
        policy.validate_filesystem_path("/a", CapabilityClass::FilesystemWrite).unwrap_err(),
        "filesystem capability FilesystemWrite is not allowed by trust policy"
    );
    assert_eq!(
        policy.validate_network_endpoint("x").unwrap_err(),
        "network access is not allowed by trust policy"
    );
    let caps = vec!["unknown".to_string(), "http".to_string()];
    assert_eq!(
        policy.check_manifest_capabilities("P", &caps).unwrap_err(),
        "plugin 'P' declares capability 'http' but trust policy denies Network"
    );
}

#[test]
fn roots_are_required_even_when_the_class_is_allowed() {
    let mut policy = TrustPolicy::default();
    policy.allow_filesystem_read = true;
    assert_eq!(
        policy.validate_param_path("/a", CapabilityClass::FilesystemRead).unwrap_err(),
        "filesystem access denied: set trust.filesystem_roots in lao.toml (explicit roots only)"
    );
}

#[test]
fn listed_plugin_gets_network_without_the_flag_but_needs_endpoints() {
    let mut policy = TrustPolicy::default();
    policy.allow_plugins.push("SummarizerPlugin".to_string());
    assert_eq!(
        policy.validate_network_endpoint("http://x").unwrap_err(),
        "network access denied: set trust.network_endpoints or allow_network in lao.toml"
    );
    policy.network_endpoints.push(" HTTP://127.0.0.1:11434 ".to_string());
    assert!(policy.validate_step_input("SummarizerPlugin", "text").is_ok());
    assert_eq!(
        policy.validate_network_endpoint(" HTTP://Other ").unwrap_err(),
        "network endpoint 'http://other' is not in trust.network_endpoints"
    );
}

#[test]
fn endpoint_matching_accepts_equal_url_prefix_host_and_host_port() {
    assert!(endpoint_matches("http://a", "http://a"));
    assert!(endpoint_matches("http://a/b", "http://a"));
    assert!(!endpoint_matches("xhttp://ay", "http://a"));
    assert!(!endpoint_matches("http://b", "http://a"));
    assert!(!endpoint_matches("http://evil.com/?u=http://127.0.0.1:11434", "http://127.0.0.1:11434"));
    assert!(!endpoint_matches("http://127.0.0.1:114340", "http://127.0.0.1:11434"));
    assert!(endpoint_matches("http://127.0.0.1:11434/api", "127.0.0.1:11434"));
    assert!(endpoint_matches("http://localhost:8080/v1", "localhost"));
    assert!(endpoint_matches("localhost:8080", "localhost:8080"));
    assert!(!endpoint_matches("http://localhost.evil.com/", "localhost"));
}

#[test]
fn shell_opt_in_accepts_one_and_true_in_any_case() {
    assert!(shell_opt_in("1"));
    assert!(shell_opt_in("true"));
    assert!(shell_opt_in("TrUe"));
    assert!(!shell_opt_in("yes"));
    assert!(!shell_opt_in("0"));
    assert!(!shell_opt_in(""));
}

#[test]
fn merging_a_section_overrides_flags_and_extends_lists() {
    let mut policy = TrustPolicy::default();
    policy.allow_plugins.push("A".to_string());
    policy.merge_section(TrustSection {
        allow_filesystem_read: Some(true),
        allow_filesystem_write: None,
        allow_filesystem_enumerate: None,
        allow_shell: Some(false),
        allow_network: None,
        allow_subprocess: Some(true),
        allow_plugins: Some(vec!["B".to_string()]),
        filesystem_roots: Some(vec!["/r".to_string()]),
        network_endpoints: None,
    });
    assert!(policy.allow_filesystem_read);
    assert!(!policy.allow_filesystem_write);
    assert!(policy.allow_subprocess);
    assert_eq!(policy.allow_plugins, vec!["A".to_string(), "B".to_string()]);
    assert_eq!(policy.filesystem_roots, vec!["/r".to_string()]);
    assert!(policy.network_endpoints.is_empty());
}

#[test]
fn roots_that_do_not_resolve_are_normalized_or_dropped() {
    let mut policy = TrustPolicy::default();
    policy.filesystem_roots = vec!["/a/./b/".to_string(), "..".to_string(), "c".to_string()];
    policy.normalize_roots(&vec![None, None, Some("/abs/c".to_string())]);
    assert_eq!(policy.filesystem_roots, vec!["/a/b".to_string(), "/abs/c".to_string()]);
}

#[test]
fn relative_paths_are_taken_from_the_working_directory() {
    let mut policy = TrustPolicy::default();
    policy.allow_filesystem_enumerate = true;
    policy.filesystem_roots = vec!["/srv".to_string()];
    policy.working_dir = Some("/srv/app/".to_string());
    assert_eq!(
        policy.validate_filesystem_path("data/../logs", CapabilityClass::FilesystemEnumerate).unwrap(),
        "/srv/app/logs"
    );
    assert_eq!(
        policy.validate_step_input("FolderMapPlugin", " /etc ").unwrap_err(),
        "path '/etc' is outside configured filesystem_roots"
    );
}
