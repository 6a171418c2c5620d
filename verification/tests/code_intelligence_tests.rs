use lao_orchestrator_core::code_intelligence::error::ProviderError;
use lao_orchestrator_core::code_intelligence::operations::GraphOperation;

#[test]
fn error_variants_render_readable_messages() {
    assert!(ProviderError::NotFound("x".into()).message().contains("not found"));
    assert!(ProviderError::Timeout.message().contains("timed out"));
    assert!(ProviderError::OutputTooLarge.message().contains("size limit"));
    assert!(ProviderError::UnsupportedOperation("index_repository".into())
        .message()
        .contains("index_repository"));
}

#[test]
fn every_operation_round_trips_through_its_tool_name() {
    for op in GraphOperation::all() {
        assert_eq!(GraphOperation::from_tool_name(op.tool_name()), Some(op));
    }
}

#[test]
fn mutating_and_index_triggering_tools_are_not_in_the_allowlist() {
    for forbidden in ["index_repository", "delete_project", "manage_adr", "ingest_traces"] {
        assert_eq!(GraphOperation::from_tool_name(forbidden), None);
    }
}

#[test]
fn unknown_operation_name_is_rejected() {
    assert_eq!(GraphOperation::from_tool_name("not_a_real_tool"), None);
}

#[test]
fn every_tool_name_is_distinct() {
    let ops = GraphOperation::all();
    assert_eq!(ops.len(), 7);
    for (i, a) in ops.iter().enumerate() {
        for (j, b) in ops.iter().enumerate() {
            if i != j {
                assert_ne!(a.tool_name(), b.tool_name());
            }
        }
    }
}

#[test]
fn search_graph_has_its_tool_name() {
    assert_eq!(GraphOperation::SearchGraph.tool_name(), "search_graph");
    assert_eq!(GraphOperation::from_tool_name("index_status"), Some(GraphOperation::IndexStatus));
}
