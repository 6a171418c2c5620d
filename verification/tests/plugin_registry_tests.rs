use lao_orchestrator_core::plugin_info::{
    PluginCapability, PluginDependency, PluginInfo, PluginInputType, PluginOutputType,
};
use lao_orchestrator_core::plugin_registry::PluginRegistry;

fn info(name: &str, version: &str, deps: &[(&str, bool)], tags: &[&str]) -> PluginInfo {
    PluginInfo {
        name: name.to_string(),
        version: version.to_string(),
        description: String::new(),
        author: String::new(),
        dependencies: deps
            .iter()
            .map(|(n, optional)| PluginDependency {
                name: n.to_string(),
                optional: *optional,
            })
            .collect(),
        tags: tags.iter().map(|t| t.to_string()).collect(),
        capabilities: vec![PluginCapability {
            name: format!("{}-cap", name),
            description: String::new(),
            input_type: PluginInputType::Text,
            output_type: PluginOutputType::Text,
        }],
    }
}

#[test]
fn test_registry_new_is_empty() {
    let registry = PluginRegistry::<()>::new();
    assert_eq!(registry.plugin_count(), 0);
    assert!(registry.plugin_names().is_empty());
}

#[test]
fn test_registry_default_is_empty() {
    let registry = PluginRegistry::<()>::default();
    assert_eq!(registry.plugin_count(), 0);
}

#[test]
fn test_get_nonexistent_plugin() {
    let registry = PluginRegistry::<()>::new();
    assert!(registry.get("nonexistent").is_none());
}

#[test]
fn test_get_with_version_nonexistent() {
    let registry = PluginRegistry::<()>::new();
    assert!(registry.get_with_version("anything", "1.0").is_none());
}

#[test]
fn test_find_by_tag_empty() {
    let registry = PluginRegistry::<()>::new();
    assert!(registry.find_plugins_by_tag("inference").is_empty());
}

#[test]
fn test_find_by_capability_empty() {
    let registry = PluginRegistry::<()>::new();
    assert!(registry.find_plugins_by_capability("text-generation").is_empty());
}

#[test]
fn test_remove_nonexistent_plugin() {
    let mut registry = PluginRegistry::<()>::new();
    let result = registry.remove_plugin("nope");
    assert!(result.is_ok());
}

#[test]
fn test_resolve_dependencies_unknown_plugin() {
    let registry = PluginRegistry::<()>::new();
    let result = registry.resolve_dependencies("unknown");
    assert!(result.is_ok());
    assert_eq!(result.unwrap(), vec!["unknown"]);
}

#[test]
fn registering_again_replaces_the_plugin_and_keeps_one_entry() {
    let mut registry = PluginRegistry::new();
    registry.register_plugin(info("Echo", "1.0", &[], &[]), 1u8);
    registry.register_plugin(info("Echo", "2.0", &[], &[]), 2u8);
    assert_eq!(registry.plugin_count(), 1);
    assert_eq!(registry.get("Echo").unwrap().plugin, 2);
    assert!(registry.get_with_version("Echo", "2.0").is_some());
    assert!(registry.get_with_version("Echo", "1.0").is_none());
}

#[test]
fn lookups_by_tag_and_capability_follow_registration_order() {
    let mut registry = PluginRegistry::new();
    registry.register_plugin(info("A", "1", &[], &["audio"]), ());
    registry.register_plugin(info("B", "1", &[], &["text"]), ());
    registry.register_plugin(info("C", "1", &[], &["audio", "text"]), ());
    let audio: Vec<&str> = registry
        .find_plugins_by_tag("audio")
        .iter()
        .map(|p| p.name.as_str())
        .collect();
    assert_eq!(audio, vec!["A", "C"]);
    let b: Vec<&str> = registry
        .find_plugins_by_capability("B-cap")
        .iter()
        .map(|p| p.name.as_str())
        .collect();
    assert_eq!(b, vec!["B"]);
    assert_eq!(registry.plugin_names(), vec!["A", "B", "C"]);
    assert_eq!(registry.list_plugins().len(), 3);
}

#[test]
fn dependencies_resolve_before_their_dependents() {
    let mut registry = PluginRegistry::new();
    registry.register_plugin(info("App", "1", &[("Lib", false), ("Extra", true)], &[]), ());
    registry.register_plugin(info("Lib", "1", &[("Core", false)], &[]), ());
    registry.register_plugin(info("Core", "1", &[], &[]), ());
    assert_eq!(
        registry.resolve_dependencies("App").unwrap(),
        vec!["Core", "Lib", "App"]
    );
}

#[test]
fn a_dependency_cycle_still_resolves_each_name_once() {
    let mut registry = PluginRegistry::new();
    registry.register_plugin(info("A", "1", &[("B", false)], &[]), ());
    registry.register_plugin(info("B", "1", &[("A", false)], &[]), ());
    assert_eq!(registry.resolve_dependencies("A").unwrap(), vec!["B", "A"]);
}

#[test]
fn a_required_plugin_cannot_be_removed() {
    let mut registry = PluginRegistry::new();
    registry.register_plugin(info("Lib", "1", &[], &[]), ());
    registry.register_plugin(info("App", "1", &[("Lib", false)], &[]), ());
    assert_eq!(
        registry.remove_plugin("Lib"),
        Err("Cannot remove Lib: required by App".to_string())
    );
    assert_eq!(registry.plugin_count(), 2);
    assert!(registry.remove_plugin("App").is_ok());
    assert!(registry.remove_plugin("Lib").is_ok());
    assert_eq!(registry.plugin_count(), 0);
}

#[test]
fn compatibility_requires_every_required_dependency() {
    let mut registry = PluginRegistry::new();
    registry.register_plugin(info("App", "1", &[("Opt", true), ("Lib", false)], &[]), ());
    assert_eq!(
        registry.validate_plugin_compatibility("App"),
        Err("Missing required dependency: Lib".to_string())
    );
    assert_eq!(
        registry.update_plugin("App", info("App", "2", &[], &[]), ()),
        Err("Missing required dependency: Lib".to_string())
    );
    registry.register_plugin(info("Lib", "1", &[], &[]), ());
    assert!(registry.validate_plugin_compatibility("App").is_ok());
    assert!(registry.update_plugin("App", info("App", "2", &[], &[]), ()).is_ok());
    assert!(registry.get_with_version("App", "2").is_some());
    assert_eq!(
        registry.update_plugin("Ghost", info("Ghost", "1", &[], &[]), ()),
        Err("Plugin Ghost not found".to_string())
    );
}

#[test]
fn sibling_dependencies_resolve_in_declared_order_and_shared_ones_once() {
    let mut registry = PluginRegistry::new();
    registry.register_plugin(info("App", "1", &[("B", false), ("C", false)], &[]), ());
    registry.register_plugin(info("B", "1", &[("D", false)], &[]), ());
    registry.register_plugin(info("C", "1", &[("D", false)], &[]), ());
    registry.register_plugin(info("D", "1", &[], &[]), ());
    assert_eq!(
        registry.resolve_dependencies("App").unwrap(),
        vec!["D", "B", "C", "App"]
    );
}
