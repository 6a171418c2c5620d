use lao_orchestrator_core::execution::{Artifact, CommandResultArtifact, FileArtifact};
use lao_orchestrator_core::local_llm::{artifact_to_text, assemble_prompt, MAX_ATTACHMENT_CHARS};
use lao_orchestrator_core::model::types::{MessageContent, MessageRole, ModelMessage};

fn text(m: &ModelMessage) -> String {
    match &m.content {
        MessageContent::Text(t) => t.clone(),
        _ => panic!("expected a plain-text message"),
    }
}

#[test]
fn assembles_system_then_prompt_then_labeled_attachment_in_order() {
    let (messages, truncated) =
        assemble_prompt(Some("be terse"), Some("Analyze this:"), Some("upstream text"));
    assert!(!truncated);
    assert_eq!(messages.len(), 2);
    assert_eq!(messages[0].role, MessageRole::System);
    assert!(text(&messages[1]).starts_with("Analyze this:"));
    assert!(text(&messages[1]).contains("upstream text"));
}

#[test]
fn oversized_attachment_is_truncated_with_an_explicit_marker() {
    let huge = "x".repeat(MAX_ATTACHMENT_CHARS + 500);
    let (messages, truncated) = assemble_prompt(None, None, Some(&huge));
    assert!(truncated);
    assert!(text(&messages[0]).contains("truncated"));
}

#[test]
fn no_attachment_and_no_prompt_yields_empty_user_message_not_a_panic() {
    let (messages, truncated) = assemble_prompt(None, None, None);
    assert!(!truncated);
    assert_eq!(messages.len(), 1);
    assert_eq!(text(&messages[0]), "");
}

#[test]
fn attachment_follows_the_prompt_after_a_blank_line_and_the_label() {
    let (messages, _) = assemble_prompt(None, Some("Q"), Some("body"));
    assert_eq!(messages[0].role, MessageRole::User);
    assert_eq!(
        text(&messages[0]),
        "Q\n\n--- Attached artifact (upstream step output) ---\nbody"
    );
}

#[test]
fn attachment_without_a_prompt_starts_with_the_label() {
    let (messages, _) = assemble_prompt(None, Some(""), Some("body"));
    assert_eq!(
        text(&messages[0]),
        "--- Attached artifact (upstream step output) ---\nbody"
    );
}

#[test]
fn truncation_marker_gives_shown_and_total_counts() {
    let huge = "y".repeat(MAX_ATTACHMENT_CHARS + 1);
    let (messages, truncated) = assemble_prompt(None, None, Some(&huge));
    assert!(truncated);
    let t = text(&messages[0]);
    let expected_tail = "\n--- [truncated: 20000 of 20001 characters shown] ---";
    assert!(t.ends_with(expected_tail));
    assert_eq!(
        t.len(),
        "--- Attached artifact (upstream step output) ---\n".len() + 20000 + expected_tail.len()
    );
}

#[test]
fn attachment_of_exactly_the_limit_is_kept_whole() {
    let exact = "z".repeat(MAX_ATTACHMENT_CHARS);
    let (messages, truncated) = assemble_prompt(None, None, Some(&exact));
    assert!(!truncated);
    assert!(text(&messages[0]).ends_with(&exact));
}

#[test]
fn artifact_to_text_preserves_json_faithfully() {
    let a = Artifact::Json("{\"a\":1}".to_string());
    assert_eq!(artifact_to_text(&a), "{\"a\":1}");
}

#[test]
fn artifact_to_text_preserves_text_verbatim() {
    let a = Artifact::Text("hello world".to_string());
    assert_eq!(artifact_to_text(&a), "hello world");
}

#[test]
fn artifact_to_text_renders_null_as_nothing_and_labels_other_values() {
    assert_eq!(artifact_to_text(&Artifact::Null), "");
    assert_eq!(artifact_to_text(&Artifact::Integer(7)), "Integer(7)");
    assert_eq!(artifact_to_text(&Artifact::Boolean(true)), "Boolean(true)");
}

#[test]
fn artifact_to_text_renders_structured_values_like_their_debug_form() {
    let f = FileArtifact { path: "a \"b\".txt".into(), mime_type: None, size_bytes: Some(3) };
    assert_eq!(
        artifact_to_text(&Artifact::File(f.clone())),
        format!("{:?}", Artifact::File(f.clone()))
    );
    assert_eq!(
        artifact_to_text(&Artifact::FileSet(vec![f.clone(), f.clone()])),
        format!("{:?}", Artifact::FileSet(vec![f.clone(), f]))
    );
    assert_eq!(artifact_to_text(&Artifact::FileSet(vec![])), "FileSet([])");
    let c = CommandResultArtifact { exit_code: -2, stdout: "out\n".into(), stderr: String::new() };
    assert_eq!(
        artifact_to_text(&Artifact::CommandResult(c.clone())),
        "CommandResult(CommandResultArtifact { exit_code: -2, stdout: \"out\\n\", stderr: \"\" })"
    );
    assert_eq!(artifact_to_text(&Artifact::Integer(-5)), "Integer(-5)");
}
