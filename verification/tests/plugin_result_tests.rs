use lao_orchestrator_core::plugin_result::{
    PluginRunResult, PluginRunStatus, LAO_STATUS_RUNTIME_ERROR, LAO_STATUS_SUCCESS,
    LAO_STATUS_VALIDATION_FAILED,
};

#[test]
fn success_carries_output() {
    let r = PluginRunResult::success("hello".to_string());
    assert!(r.is_success());
    assert_eq!(r.output.as_deref(), Some("hello"));
    assert!(r.error.is_none());
}

#[test]
fn from_text_empty_is_empty_output() {
    let r = PluginRunResult::from_plugin_text("   ".to_string());
    assert_eq!(r.status, PluginRunStatus::EmptyOutput);
    assert!(!r.is_success());
}

#[test]
fn from_text_error_prefix_is_error_output() {
    let r = PluginRunResult::from_plugin_text("error: boom".to_string());
    assert_eq!(r.status, PluginRunStatus::ErrorOutput);
    assert!(!r.is_success());
    assert_eq!(r.display_error(), "error: boom");
}

#[test]
fn from_text_error_prefix_is_case_insensitive() {
    let r = PluginRunResult::from_plugin_text("ERROR: nope".to_string());
    assert_eq!(r.status, PluginRunStatus::ErrorOutput);
}

#[test]
fn from_text_normal_is_success() {
    let r = PluginRunResult::from_plugin_text("real output".to_string());
    assert!(r.is_success());
    assert_eq!(r.output.as_deref(), Some("real output"));
}

#[test]
fn validation_and_runtime_errors_surface_messages() {
    let v = PluginRunResult::validation_failed("bad input");
    assert_eq!(v.status, PluginRunStatus::ValidationFailed);
    assert_eq!(v.display_error(), "bad input");

    let rt = PluginRunResult::runtime_error("crashed");
    assert_eq!(rt.status, PluginRunStatus::RuntimeError);
    assert_eq!(rt.display_error(), "crashed");
}

#[test]
fn display_error_falls_back_to_output_then_default() {
    let only_output = PluginRunResult {
        status: PluginRunStatus::ErrorOutput,
        output: Some("partial".to_string()),
        error: None,
    };
    assert_eq!(only_output.display_error(), "partial");

    let nothing = PluginRunResult {
        status: PluginRunStatus::RuntimeError,
        output: None,
        error: None,
    };
    assert_eq!(nothing.display_error(), "unknown plugin error");
}

#[test]
fn from_status_code_maps_abi_v2_statuses() {
    let ok = PluginRunResult::from_status_code(
        LAO_STATUS_SUCCESS,
        Some("done".to_string()),
        "EchoPlugin",
    );
    assert!(ok.is_success());
    assert_eq!(ok.output.as_deref(), Some("done"));

    let empty = PluginRunResult::from_status_code(LAO_STATUS_SUCCESS, None, "EchoPlugin");
    assert_eq!(empty.status, PluginRunStatus::EmptyOutput);

    let bad = PluginRunResult::from_status_code(
        LAO_STATUS_VALIDATION_FAILED,
        Some("nope".to_string()),
        "EchoPlugin",
    );
    assert_eq!(bad.status, PluginRunStatus::ValidationFailed);
    assert_eq!(bad.display_error(), "nope");

    let rt = PluginRunResult::from_status_code(LAO_STATUS_RUNTIME_ERROR, None, "EchoPlugin");
    assert_eq!(rt.status, PluginRunStatus::RuntimeError);
    assert!(rt.display_error().contains("EchoPlugin"));

    let unknown = PluginRunResult::from_status_code(999, None, "EchoPlugin");
    assert_eq!(unknown.status, PluginRunStatus::RuntimeError);
    assert!(unknown.display_error().contains("999"));
}

#[test]
fn status_code_messages_name_the_plugin_when_it_gave_no_text() {
    let empty = PluginRunResult::from_status_code(LAO_STATUS_SUCCESS, Some("  ".to_string()), "P");
    assert_eq!(empty.status, PluginRunStatus::EmptyOutput);
    assert_eq!(empty.display_error(), "plugin 'P' returned empty output");
    let rejected = PluginRunResult::from_status_code(LAO_STATUS_VALIDATION_FAILED, None, "P");
    assert_eq!(rejected.display_error(), "plugin 'P' rejected input");
    let crashed = PluginRunResult::from_status_code(LAO_STATUS_RUNTIME_ERROR, None, "P");
    assert_eq!(crashed.display_error(), "plugin 'P' reported a runtime error");
    let unknown = PluginRunResult::from_status_code(7, Some("ignored".to_string()), "P");
    assert_eq!(unknown.display_error(), "plugin 'P' returned unknown status code 7");
}
