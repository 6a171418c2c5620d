use lao_orchestrator_core::plugin_info::{PluginDependency, PluginInfo};
use lao_orchestrator_core::plugin_manager::{PluginConfig, PluginManager};
use lao_orchestrator_core::plugin_registry::PluginRegistry;

fn manager() -> PluginManager<()> {
    PluginManager::new("/tmp/plugins".to_string(), PluginRegistry::new())
}

fn info(name: &str, deps: &[(&str, bool)]) -> PluginInfo {
    PluginInfo {
        name: name.to_string(),
        version: "1.0".to_string(),
        description: String::new(),
        author: String::new(),
        dependencies: deps
            .iter()
            .map(|(n, optional)| PluginDependency {
                name: n.to_string(),
                optional: *optional,
            })
            .collect(),
        tags: vec![],
        capabilities: vec![],
    }
}

#[test]
fn test_plugin_config_default() {
    let config = PluginConfig::default();
    assert!(config.enabled);
    assert!(!config.auto_update);
    assert!(config.permissions.contains(&"read_files".to_string()));
    assert!(config.permissions.contains(&"write_files".to_string()));
}

#[test]
fn test_is_plugin_enabled_default_true() {
    let manager = manager();
    assert!(manager.is_plugin_enabled("nonexistent"));
}

#[test]
fn test_validate_permissions() {
    let mut manager = manager();
    let config = PluginConfig {
        enabled: true,
        settings: vec![],
        permissions: vec!["read_files".to_string()],
        auto_update: false,
    };
    manager.configs.push(("test".to_string(), config));
    assert!(manager.validate_plugin_permissions("test", "read_files"));
    assert!(!manager.validate_plugin_permissions("test", "write_files"));
    assert!(!manager.validate_plugin_permissions("unknown", "read_files"));
}

#[test]
fn settings_live_beside_the_plugin_directory() {
    let manager = manager();
    assert_eq!(manager.config_directory, "/tmp/plugins/configs");
    assert_eq!(manager.config_path("Echo"), "/tmp/plugins/configs/Echo.json");
}

#[test]
fn enabling_and_disabling_keeps_other_settings() {
    let mut manager = manager();
    assert_eq!(
        manager.set_plugin_enabled("Echo", false),
        Err("Plugin 'Echo' not found".to_string())
    );
    manager.update_plugin_config("Echo", PluginConfig::default());
    manager.set_plugin_enabled("Echo", false).unwrap();
    assert!(!manager.is_plugin_enabled("Echo"));
    assert_eq!(
        manager.get_plugin_config("Echo").unwrap().permissions,
        vec!["read_files".to_string(), "write_files".to_string()]
    );
    manager.set_plugin_enabled("Echo", true).unwrap();
    assert!(manager.is_plugin_enabled("Echo"));
}

#[test]
fn missing_dependencies_are_all_named() {
    let mut manager = manager();
    manager
        .registry
        .register_plugin(info("App", &[("Lib", false), ("Opt", true), ("Core", false)]), ());
    assert_eq!(
        manager.validate_plugin_dependencies("App"),
        Err("Missing required dependencies: Lib, Core".to_string())
    );
    manager.registry.register_plugin(info("Lib", &[]), ());
    manager.registry.register_plugin(info("Core", &[]), ());
    assert_eq!(manager.validate_plugin_dependencies("App"), Ok(()));
    assert_eq!(
        manager.validate_plugin_dependencies("Ghost"),
        Err("Plugin 'Ghost' not found".to_string())
    );
}

#[test]
fn plugins_are_listed_with_their_status() {
    let mut manager = manager();
    manager.registry.register_plugin(info("A", &[]), ());
    manager.registry.register_plugin(info("B", &[]), ());
    manager.update_plugin_config("B", PluginConfig::default());
    manager.set_plugin_enabled("B", false).unwrap();
    let listed: Vec<(String, bool)> = manager
        .list_plugins_with_status()
        .into_iter()
        .map(|(name, enabled, _)| (name, enabled))
        .collect();
    assert_eq!(listed, vec![("A".to_string(), true), ("B".to_string(), false)]);
}
