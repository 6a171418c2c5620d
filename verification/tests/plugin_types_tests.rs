use lao_orchestrator_core::execution::{synthetic_descriptor, ExecutionMode};
use lao_orchestrator_core::plugin_info::{
    types_compatible, PluginCapability, PluginInfo, PluginInputType, PluginOutputType,
};
use lao_orchestrator_core::trust::CapabilityClass;
use lao_orchestrator_core::workflow_dag::{build_dag, validate_workflow_schema, validate_workflow_types};
use lao_orchestrator_core::workflow_types::WorkflowStep;

fn info_with_capability(name: &str, cap_name: &str) -> PluginInfo {
    PluginInfo {
        name: name.to_string(),
        version: "0.1.0".to_string(),
        description: String::new(),
        author: String::new(),
        dependencies: vec![],
        tags: vec![],
        capabilities: vec![PluginCapability {
            name: cap_name.to_string(),
            description: String::new(),
            input_type: PluginInputType::Text,
            output_type: PluginOutputType::Text,
        }],
    }
}

fn plugin(name: &str, input: PluginInputType, output: PluginOutputType) -> PluginInfo {
    PluginInfo {
        name: name.to_string(),
        version: "1.0.0".to_string(),
        description: String::new(),
        author: String::new(),
        dependencies: vec![],
        tags: vec![],
        capabilities: vec![PluginCapability {
            name: "main".to_string(),
            description: String::new(),
            input_type: input,
            output_type: output,
        }],
    }
}

fn step(run: &str, input_from: Option<&str>) -> WorkflowStep {
    WorkflowStep {
        run: run.to_string(),
        params: String::new(),
        retries: None,
        retry_delay: None,
        cache_key: None,
        input_from: input_from.map(|s| s.to_string()),
        depends_on: None,
        condition: None,
        for_each: None,
    }
}

#[test]
fn recognized_capability_name_maps_to_capability_class() {
    let info = info_with_capability("FileReadPlugin", "read-file");
    let d = synthetic_descriptor(&info);
    assert_eq!(d.name, "FileReadPlugin");
    assert_eq!(d.capabilities, vec![CapabilityClass::FilesystemRead]);
    assert_eq!(d.execution_mode, ExecutionMode::InProcess);
    assert_eq!(d.declared_inputs, vec![PluginInputType::Text]);
    assert_eq!(d.declared_outputs, vec![PluginOutputType::Text]);
}

#[test]
fn unrecognized_capability_name_is_dropped_not_guessed() {
    let info = info_with_capability("MysteryPlugin", "does-not-exist");
    let d = synthetic_descriptor(&info);
    assert!(d.capabilities.is_empty());
}

#[test]
fn plugin_with_no_capabilities_gets_empty_descriptor() {
    let info = PluginInfo {
        name: "EchoPlugin".to_string(),
        version: "0.1.0".to_string(),
        description: String::new(),
        author: String::new(),
        dependencies: vec![],
        tags: vec![],
        capabilities: vec![],
    };
    let d = synthetic_descriptor(&info);
    assert!(d.capabilities.is_empty());
    assert!(d.declared_inputs.is_empty());
    assert!(d.declared_outputs.is_empty());
}

#[test]
fn any_and_matching_kinds_are_compatible() {
    assert!(types_compatible(PluginOutputType::Any, PluginInputType::Video));
    assert!(types_compatible(PluginOutputType::Json, PluginInputType::Any));
    assert!(types_compatible(PluginOutputType::Audio, PluginInputType::File));
    assert!(types_compatible(PluginOutputType::File, PluginInputType::Image));
    assert!(!types_compatible(PluginOutputType::Text, PluginInputType::Json));
    assert!(!types_compatible(PluginOutputType::Audio, PluginInputType::Image));
}

#[test]
fn missing_plugin_and_type_mismatch_are_reported_per_step() {
    let steps = vec![step("Reader", None), step("Vision", Some("step1")), step("Ghost", Some("step1"))];
    let dag = build_dag(&steps).unwrap();
    let plugins = vec![
        plugin("Reader", PluginInputType::Any, PluginOutputType::Text),
        plugin("Vision", PluginInputType::Image, PluginOutputType::Json),
    ];
    let errors = validate_workflow_types(&dag, &plugins);
    assert_eq!(
        errors,
        vec![
            (1, "Type mismatch: parent 'Reader' outputs Text but 'Vision' expects Image".to_string()),
            (2, "Plugin 'Ghost' not found".to_string()),
        ]
    );
}

#[test]
fn compatible_chain_has_no_type_errors() {
    let steps = vec![step("Recorder", None), step("Transcriber", Some("step1"))];
    let dag = build_dag(&steps).unwrap();
    let plugins = vec![
        plugin("Recorder", PluginInputType::Any, PluginOutputType::Audio),
        plugin("Transcriber", PluginInputType::File, PluginOutputType::Text),
    ];
    assert!(validate_workflow_types(&dag, &plugins).is_empty());
}

#[test]
fn unsupported_schema_field_names_first_offending_step() {
    let keys = vec![
        Some(vec!["input".to_string()]),
        None,
        Some(vec!["output_modality".to_string(), "on_failure".to_string()]),
        Some(vec!["on_success".to_string()]),
    ];
    assert_eq!(
        validate_workflow_schema(&keys),
        Err("Unsupported workflow field 'on_failure' in step 3. This field is not part of the production schema.".to_string())
    );
}

#[test]
fn supported_schema_fields_pass() {
    let keys = vec![Some(vec!["input".to_string(), "path".to_string()]), None];
    assert_eq!(validate_workflow_schema(&keys), Ok(()));
}
