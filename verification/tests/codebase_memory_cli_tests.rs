use lao_orchestrator_core::code_intelligence::codebase_memory_cli::{
    append_capped, binary_name, dirty_from_status, resolve_binary_path, revision_from_output,
    tool_outcome, tool_result, version_from_output, wait_step, ChildPoll, CodebaseMemoryCliProvider,
    WaitStep, DEFAULT_MAX_OUTPUT_BYTES, DEFAULT_TIMEOUT,
};
use lao_orchestrator_core::code_intelligence::error::ProviderError;
use lao_orchestrator_core::code_intelligence::operations::GraphOperation;

fn provider(version: Option<&str>) -> CodebaseMemoryCliProvider {
    CodebaseMemoryCliProvider::new(
        "/repo".to_string(),
        Ok("/usr/local/bin/codebase-memory-mcp".to_string()),
        version.map(|v| v.to_string()),
        5000,
        10_000_000,
    )
    .expect("a found binary gives a provider")
}

#[test]
fn successful_output_is_the_json_payload() {
    let r = tool_result(true, Some(0), br#"{"ok":true}"#.to_vec(), b"log line\n".to_vec());
    assert_eq!(r, Ok(r#"{"ok":true}"#.to_string()));
}

#[test]
fn malformed_json_is_reported_apart_from_a_process_failure() {
    match tool_result(true, Some(0), b"not json at all".to_vec(), Vec::new()) {
        Err(ProviderError::MalformedOutput(m)) => {
            assert!(m.starts_with("stdout is not valid JSON: "), "{}", m)
        }
        other => panic!("expected MalformedOutput, got {:?}", other),
    }
}

#[test]
fn output_that_is_not_utf8_is_malformed() {
    match tool_result(true, Some(0), vec![0xff, 0xfe, 0x41], Vec::new()) {
        Err(ProviderError::MalformedOutput(m)) => {
            assert!(m.starts_with("stdout is not valid UTF-8: "), "{}", m)
        }
        other => panic!("expected MalformedOutput, got {:?}", other),
    }
}

#[test]
fn a_nonzero_exit_carries_the_code_and_trimmed_stderr() {
    let r = tool_result(
        false,
        Some(1),
        br#"{"ok":true}"#.to_vec(),
        b"  simulated provider error\n".to_vec(),
    );
    assert_eq!(
        r,
        Err(ProviderError::NonZeroExit {
            code: Some(1),
            stderr: "simulated provider error".to_string(),
        })
    );
}

#[test]
fn outcome_prefers_the_exit_status_then_utf8_then_json() {
    assert_eq!(
        tool_outcome(false, None, " x ", Ok("[]".into()), None),
        Err(ProviderError::NonZeroExit { code: None, stderr: "x".into() })
    );
    assert_eq!(
        tool_outcome(true, Some(0), "", Err("bad byte".into()), Some("ignored".into())),
        Err(ProviderError::MalformedOutput("stdout is not valid UTF-8: bad byte".into()))
    );
    assert_eq!(
        tool_outcome(true, Some(0), "", Ok("{".into()), Some("EOF".into())),
        Err(ProviderError::MalformedOutput("stdout is not valid JSON: EOF".into()))
    );
    assert_eq!(tool_outcome(true, Some(0), "", Ok("[1]".into()), None), Ok("[1]".to_string()));
}

#[test]
fn a_slow_tool_is_killed_once_the_time_is_up() {
    assert_eq!(wait_step(ChildPoll::Running, 199, 200), WaitStep::Sleep);
    assert_eq!(wait_step(ChildPoll::Running, 200, 200), WaitStep::KillForTimeout);
    assert_eq!(wait_step(ChildPoll::Exited, 10_000, 200), WaitStep::Finished);
    assert_eq!(
        wait_step(ChildPoll::Failed("no child".into()), 0, 200),
        WaitStep::Fail(ProviderError::SpawnFailed("no child".into()))
    );
}

#[test]
fn excessive_output_is_capped_and_rejected() {
    let mut buf = vec![b'a'; 600];
    assert_eq!(append_capped(&mut buf, &[b'b'; 400], 1000), Ok(()));
    assert_eq!(buf.len(), 1000);
    assert_eq!(append_capped(&mut buf, &[b'c'], 1000), Err(ProviderError::OutputTooLarge));
    assert_eq!(buf.len(), 1001);
    assert_eq!(buf[1000], b'c');
}

#[test]
fn unknown_binary_path_is_reported_as_not_found() {
    let found = resolve_binary_path(
        Some(("/definitely/not/a/real/path_xyz.txt".to_string(), false)),
        Some(("/ignored".to_string(), true)),
        Some("/usr/bin/codebase-memory-mcp".to_string()),
        false,
    );
    assert_eq!(
        found,
        Err(ProviderError::NotFound(
            "/definitely/not/a/real/path_xyz.txt does not exist".to_string()
        ))
    );
    let p = CodebaseMemoryCliProvider::new("/repo".to_string(), found, None, 5000, 10_000_000);
    assert!(matches!(p, Err(ProviderError::NotFound(_))));
}

#[test]
fn the_binary_is_looked_up_explicitly_then_in_the_environment_then_on_path() {
    assert_eq!(
        resolve_binary_path(Some(("/opt/cm".into(), true)), None, None, false),
        Ok("/opt/cm".to_string())
    );
    assert_eq!(
        resolve_binary_path(None, Some(("/env/cm".into(), true)), Some("/usr/bin/cm".into()), false),
        Ok("/env/cm".to_string())
    );
    assert_eq!(
        resolve_binary_path(None, Some(("/env/cm".into(), false)), Some("/usr/bin/cm".into()), false),
        Err(ProviderError::NotFound(
            "LAO_CODEBASE_MEMORY_MCP_PATH=/env/cm does not exist".to_string()
        ))
    );
    assert_eq!(
        resolve_binary_path(None, None, Some("/usr/bin/cm".into()), false),
        Ok("/usr/bin/cm".to_string())
    );
    assert_eq!(
        resolve_binary_path(None, None, None, true),
        Err(ProviderError::NotFound(
            "codebase-memory-mcp.exe not found on PATH; set LAO_CODEBASE_MEMORY_MCP_PATH"
                .to_string()
        ))
    );
    assert_eq!(binary_name(false), "codebase-memory-mcp");
}

#[test]
fn health_reports_the_binary_and_its_version() {
    let p = provider(Some("0.4.2"));
    let h = p.health(true).unwrap();
    assert!(h.available);
    assert_eq!(h.detail, "/usr/local/bin/codebase-memory-mcp (0.4.2)");
    let h = provider(None).health(true).unwrap();
    assert_eq!(h.detail, "/usr/local/bin/codebase-memory-mcp (unknown version)");
    let h = p.health(false).unwrap();
    assert!(!h.available);
    assert_eq!(h.detail, "/usr/local/bin/codebase-memory-mcp not found");
}

#[test]
fn discover_uses_the_default_limits() {
    let p = CodebaseMemoryCliProvider::discover("/repo".into(), Ok("/bin/cm".into()), None).unwrap();
    assert_eq!(p.timeout, DEFAULT_TIMEOUT);
    assert_eq!(p.timeout, 30_000);
    assert_eq!(p.max_output_bytes, DEFAULT_MAX_OUTPUT_BYTES);
    assert_eq!(p.max_output_bytes, 10 * 1024 * 1024);
}

#[test]
fn version_is_the_last_word_of_the_trimmed_output() {
    assert_eq!(
        version_from_output(true, b"codebase-memory-mcp 0.4.2\n".to_vec()),
        Some("0.4.2".to_string())
    );
    assert_eq!(version_from_output(true, b"1.0".to_vec()), Some("1.0".to_string()));
    assert_eq!(version_from_output(false, b"x 1.0".to_vec()), None);
    assert_eq!(version_from_output(true, vec![0xff]), None);
}

#[test]
fn git_state_is_read_fail_safe() {
    assert_eq!(
        revision_from_output(true, b"abc123\n".to_vec()),
        Some("abc123".to_string())
    );
    assert_eq!(revision_from_output(false, b"abc123\n".to_vec()), None);
    assert!(dirty_from_status(false, &Vec::new()));
    assert!(dirty_from_status(true, &b" M src/lib.rs\n".to_vec()));
    assert!(!dirty_from_status(true, &Vec::new()));
}

#[test]
fn successful_query_returns_artifact_with_payload() {
    let p = provider(Some("0.4.2"));
    let payload = tool_result(true, Some(0), br#"{"ok":true}"#.to_vec(), Vec::new()).unwrap();
    let a = p.artifact(GraphOperation::SearchGraph, payload, Some("abc".into()), false);
    assert_eq!(a.operation, "search_graph");
    assert_eq!(a.provider, "codebase-memory-mcp");
    assert_eq!(a.provider_version, Some("0.4.2".to_string()));
    assert_eq!(a.repo_root, "/repo");
    assert_eq!(a.payload, r#"{"ok":true}"#);
    assert_eq!(a.indexed_at, None);
    let meta = p.metadata();
    assert_eq!(meta.name, "codebase-memory-mcp");
    assert_eq!(meta.version, Some("0.4.2".to_string()));
}
