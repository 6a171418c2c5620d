use lao_orchestrator_core::path_policy::{canonicalize_path, path_within_roots};

#[test]
fn rejects_parent_traversal() {
    assert!(canonicalize_path("../etc/passwd").is_err());
}

#[test]
fn normalizes_relative_path() {
    let p = canonicalize_path("./foo/bar").unwrap();
    assert_eq!(p, "foo/bar");
}

#[test]
fn canonicalize_reports_each_error() {
    assert_eq!(canonicalize_path("   ").unwrap_err(), "empty path");
    assert_eq!(canonicalize_path("/..").unwrap_err(), "path escapes above root via '..'");
    assert_eq!(canonicalize_path("a/..").unwrap_err(), "path resolved to empty");
}

#[test]
fn canonicalize_keeps_the_root_and_resolves_dots() {
    assert_eq!(canonicalize_path("  /tmp//a/./b/../c/ ").unwrap(), "/tmp/a/c");
    assert_eq!(canonicalize_path("/a/..").unwrap(), "/");
}

#[test]
fn containment_compares_whole_components() {
    let roots = vec!["/data".to_string()];
    assert!(path_within_roots("/data/file.txt", &roots));
    assert!(path_within_roots("/data", &roots));
    assert!(!path_within_roots("/data2/file.txt", &roots));
    assert!(!path_within_roots("/etc/passwd", &roots));
    assert!(!path_within_roots("/data/x", &[]));
}
