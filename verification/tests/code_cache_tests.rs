use lao_orchestrator_core::code_intelligence::cache::cache_key;
use lao_orchestrator_core::code_intelligence::operations::GraphOperation;
use lao_orchestrator_core::code_intelligence::provider::ProviderMetadata;

fn meta() -> ProviderMetadata {
    ProviderMetadata {
        name: "p".to_string(),
        version: Some("1".to_string()),
    }
}

/// The arguments `{"a": n}` as the normalized JSON text a key is built from.
fn args(n: i64) -> String {
    let mut m = serde_json::Map::new();
    m.insert("a".to_string(), serde_json::Value::from(n));
    serde_json::to_string(&serde_json::Value::Object(m)).unwrap()
}

#[test]
fn cache_key_is_stable_for_identical_inputs() {
    let a = args(1);
    let k1 = cache_key(&meta(), "/repo", Some("rev"), GraphOperation::SearchGraph, &a);
    let k2 = cache_key(&meta(), "/repo", Some("rev"), GraphOperation::SearchGraph, &a);
    assert_eq!(k1, k2);
}

#[test]
fn cache_key_differs_when_revision_differs() {
    let a = args(1);
    let k1 = cache_key(&meta(), "/repo", Some("rev1"), GraphOperation::SearchGraph, &a);
    let k2 = cache_key(&meta(), "/repo", Some("rev2"), GraphOperation::SearchGraph, &a);
    assert_ne!(k1, k2);
}

#[test]
fn cache_key_differs_when_operation_differs() {
    let a = args(1);
    let k1 = cache_key(&meta(), "/repo", Some("rev"), GraphOperation::SearchGraph, &a);
    let k2 = cache_key(&meta(), "/repo", Some("rev"), GraphOperation::QueryGraph, &a);
    assert_ne!(k1, k2);
}

#[test]
fn cache_key_differs_when_args_differ() {
    let k1 = cache_key(&meta(), "/repo", Some("rev"), GraphOperation::SearchGraph, &args(1));
    let k2 = cache_key(&meta(), "/repo", Some("rev"), GraphOperation::SearchGraph, &args(2));
    assert_ne!(k1, k2);
}

#[test]
fn cache_key_is_the_hex_fnv1a_of_the_joined_fields() {
    let k = cache_key(&meta(), "/repo", Some("rev"), GraphOperation::SearchGraph, &args(1));
    assert_eq!(args(1), "{\"a\":1}");
    assert_eq!(k, "c7a4e3e19bfd631f");
}

#[test]
fn cache_key_writes_absent_version_and_revision_as_nothing() {
    let m = ProviderMetadata {
        name: "counting".to_string(),
        version: None,
    };
    let k = cache_key(&m, "/r", None, GraphOperation::IndexStatus, "null");
    assert_eq!(k, "3981bfab960d9b3d");
}
