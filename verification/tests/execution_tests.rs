use lao_orchestrator_core::execution::{
    adapt, Artifact, StepError, StepErrorKind, StepMetadata, StepResult, StepStatus,
};
use lao_orchestrator_core::plugin_result::{PluginRunResult, PluginRunStatus, LAO_STATUS_SUCCESS};

fn meta() -> StepMetadata {
    StepMetadata {
        plugin_name: "EchoPlugin".to_string(),
        plugin_version: Some("0.1.0".to_string()),
        attempt: 1,
        duration_ms: 0,
        cache_hit: false,
    }
}

fn result_meta() -> StepMetadata {
    StepMetadata {
        plugin_name: "EchoPlugin".to_string(),
        plugin_version: Some("0.1.0".to_string()),
        attempt: 1,
        duration_ms: 5,
        cache_hit: false,
    }
}

#[test]
fn success_maps_to_success_status_and_text_artifact() {
    let r = adapt(PluginRunResult::success("hello".to_string()), meta());
    assert!(r.is_success());
    assert_eq!(r.primary_output_text().as_deref(), Some("hello"));
    assert!(r.error.is_none());
}

#[test]
fn validation_failed_maps_to_validation_failed_kind() {
    let r = adapt(PluginRunResult::validation_failed("bad input"), meta());
    assert!(!r.is_success());
    assert_eq!(r.error.as_ref().unwrap().kind, StepErrorKind::ValidationFailed);
    assert_eq!(r.display_error(), "bad input");
}

#[test]
fn runtime_error_maps_to_runtime_error_kind() {
    let r = adapt(PluginRunResult::runtime_error("crashed"), meta());
    assert_eq!(r.error.as_ref().unwrap().kind, StepErrorKind::RuntimeError);
    assert_eq!(r.display_error(), "crashed");
}

#[test]
fn empty_output_text_maps_to_empty_output_kind() {
    let r = adapt(PluginRunResult::from_plugin_text("   ".to_string()), meta());
    assert_eq!(r.error.as_ref().unwrap().kind, StepErrorKind::EmptyOutput);
}

#[test]
fn error_prefixed_text_maps_to_error_output_kind() {
    let r = adapt(PluginRunResult::from_plugin_text("error: nope".to_string()), meta());
    assert_eq!(r.error.as_ref().unwrap().kind, StepErrorKind::ErrorOutput);
    assert_eq!(r.display_error(), "error: nope");
}

#[test]
fn abi_v2_empty_success_status_maps_to_empty_output_kind() {
    let r = adapt(
        PluginRunResult::from_status_code(LAO_STATUS_SUCCESS, None, "EchoPlugin"),
        meta(),
    );
    assert_eq!(r.error.as_ref().unwrap().kind, StepErrorKind::EmptyOutput);
}

#[test]
fn metadata_is_carried_through_unchanged() {
    let m = StepMetadata {
        plugin_name: "WhisperPlugin".to_string(),
        plugin_version: Some("1.2.3".to_string()),
        attempt: 3,
        duration_ms: 42,
        cache_hit: false,
    };
    let r = adapt(PluginRunResult::success("ok".to_string()), m.clone());
    assert_eq!(r.metadata, m);
}

#[test]
fn failed_outcome_without_error_or_output_uses_default_message() {
    let r = adapt(
        PluginRunResult {
            status: PluginRunStatus::RuntimeError,
            output: None,
            error: None,
        },
        meta(),
    );
    assert_eq!(r.status, StepStatus::Failed);
    assert!(r.outputs.is_empty());
    assert_eq!(r.display_error(), "unknown plugin error");
}

#[test]
fn success_result_reports_success_and_output() {
    let r = StepResult {
        status: StepStatus::Success,
        outputs: vec![("output".to_string(), Artifact::Text("hi".to_string()))],
        error: None,
        metadata: result_meta(),
    };
    assert!(r.is_success());
    assert_eq!(r.primary_output_text().as_deref(), Some("hi"));
}

#[test]
fn failed_result_reports_display_error() {
    let r = StepResult {
        status: StepStatus::Failed,
        outputs: vec![],
        error: Some(StepError {
            kind: StepErrorKind::RuntimeError,
            message: "boom".to_string(),
        }),
        metadata: result_meta(),
    };
    assert!(!r.is_success());
    assert_eq!(r.display_error(), "boom");
    assert_eq!(r.primary_output_text(), None);
}

#[test]
fn failed_result_without_error_falls_back_to_default_message() {
    let r = StepResult {
        status: StepStatus::Failed,
        outputs: vec![],
        error: None,
        metadata: result_meta(),
    };
    assert_eq!(r.display_error(), "unknown plugin error");
}

#[test]
fn primary_output_must_be_text() {
    let r = StepResult {
        status: StepStatus::Success,
        outputs: vec![
            ("other".to_string(), Artifact::Text("x".to_string())),
            ("output".to_string(), Artifact::Integer(3)),
        ],
        error: None,
        metadata: result_meta(),
    };
    assert_eq!(r.primary_output_text(), None);
}
