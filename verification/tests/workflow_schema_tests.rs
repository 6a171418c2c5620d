use lao_orchestrator_core::plugin_info::PluginInfo;
use lao_orchestrator_core::workflow_dag::{
    build_dag, topo_sort, validate_workflow_schema, validate_workflow_types,
};
use lao_orchestrator_core::workflow_types::{
    ConditionOperator, ConditionType, DagNode, LoopConfig, LoopItems, StepCondition, Workflow,
    WorkflowStep,
};

fn step(run: &str) -> WorkflowStep {
    WorkflowStep {
        run: run.to_string(),
        params: "null".to_string(),
        retries: None,
        retry_delay: None,
        cache_key: None,
        input_from: None,
        depends_on: None,
        condition: None,
        for_each: None,
    }
}

#[test]
fn test_loop_config_default_values() {
    let loop_config = LoopConfig {
        items: LoopItems::Array(vec!["a".to_string()]),
        var: "item".to_string(),
        collect_results: true,
        max_parallel: 4,
    };
    assert_eq!(loop_config.var, "item");
    assert_eq!(loop_config.collect_results, true);
    assert_eq!(loop_config.max_parallel, 4);
}

#[test]
fn test_loop_items_array() {
    let items = vec!["file1.txt".to_string(), "file2.txt".to_string(), "file3.txt".to_string()];
    match LoopItems::Array(items.clone()) {
        LoopItems::Array(arr) => assert_eq!(arr.len(), 3),
        _ => panic!("Expected Array variant"),
    }
}

#[test]
fn test_loop_items_reference() {
    let reference = LoopItems::Reference("step1.output".to_string());
    match reference {
        LoopItems::Reference(ref_str) => assert_eq!(ref_str, "step1.output"),
        _ => panic!("Expected Reference variant"),
    }
}

#[test]
fn test_step_condition_output_contains() {
    let condition = StepCondition {
        condition_type: ConditionType::OutputContains,
        field: "output".to_string(),
        operator: ConditionOperator::Contains,
        value: "error".to_string(),
    };
    assert_eq!(condition.field, "output");
    match condition.condition_type {
        ConditionType::OutputContains => (),
        _ => panic!("Expected OutputContains"),
    }
}

#[test]
fn test_dag_node_creation() {
    let step = step("EchoPlugin");
    let dag_node = DagNode {
        id: "step1".to_string(),
        step: step.clone(),
        parents: vec![],
    };
    assert_eq!(dag_node.id, "step1");
    assert_eq!(dag_node.parents.len(), 0);
    assert_eq!(dag_node.step.run, "EchoPlugin");
}

#[test]
fn test_workflow_with_multiple_steps() {
    let mut second = step("Step2");
    second.input_from = Some("step1".to_string());
    second.depends_on = Some(vec!["step1".to_string()]);
    let workflow = Workflow {
        workflow: "test_workflow".to_string(),
        steps: vec![step("Step1"), second],
    };
    assert_eq!(workflow.workflow, "test_workflow");
    assert_eq!(workflow.steps.len(), 2);
}

#[test]
fn loop_workflow_schema_stays_supported() {
    let mut s = step("WhisperPlugin");
    s.retries = Some(2);
    s.retry_delay = Some(1000);
    s.cache_key = Some("audio_transcription".to_string());
    s.for_each = Some(LoopConfig {
        items: LoopItems::Array(vec![
            "audio1.mp3".to_string(),
            "audio2.mp3".to_string(),
            "audio3.mp3".to_string(),
        ]),
        var: "audio_file".to_string(),
        collect_results: true,
        max_parallel: 2,
    });
    let workflow = Workflow {
        workflow: "audio_batch_transcribe".to_string(),
        steps: vec![s],
    };
    validate_workflow_schema(&[None]).expect("loop workflow is supported");
    let step = &workflow.steps[0];
    assert!(step.for_each.is_some());
    assert!(step.cache_key.is_some());
    let loop_config = step.for_each.as_ref().unwrap();
    assert_eq!(loop_config.var, "audio_file");
    assert!(loop_config.collect_results);
    assert_eq!(loop_config.max_parallel, 2);
}

#[test]
fn dag_construction_with_loop_and_dependency() {
    let mut first = step("EchoPlugin");
    first.cache_key = Some("batch".to_string());
    first.for_each = Some(LoopConfig {
        items: LoopItems::Array(vec!["one".to_string(), "two".to_string()]),
        var: "item".to_string(),
        collect_results: true,
        max_parallel: 2,
    });
    let mut second = step("EchoPlugin");
    second.input_from = Some("step1".to_string());
    second.depends_on = Some(vec!["step1".to_string()]);
    let workflow = Workflow {
        workflow: "loop_then_summarize".to_string(),
        steps: vec![first, second],
    };
    let dag = build_dag(&workflow.steps).expect("dag builds");
    assert_eq!(dag.len(), 2);
    assert!(dag[0].step.for_each.is_some());
    assert_eq!(dag[1].parents, vec!["step1".to_string(), "step1".to_string()]);
}

#[test]
fn condition_schema_stays_supported() {
    let mut s = step("EchoPlugin");
    s.condition = Some(StepCondition {
        condition_type: ConditionType::OutputContains,
        field: "step1".to_string(),
        operator: ConditionOperator::Equals,
        value: "ready".to_string(),
    });
    let workflow = Workflow {
        workflow: "conditional_process".to_string(),
        steps: vec![s],
    };
    validate_workflow_schema(&[None]).expect("condition workflow is supported");
    let condition = workflow.steps[0].condition.as_ref().unwrap();
    assert_eq!(condition.field, "step1");
    assert_eq!(condition.value, "ready");
}

#[test]
fn retry_schema_stays_supported() {
    let mut s = step("EchoPlugin");
    s.retries = Some(3);
    s.retry_delay = Some(2000);
    s.cache_key = Some("echo".to_string());
    assert_eq!(s.retries, Some(3));
    assert_eq!(s.retry_delay, Some(2000));
    assert!(s.cache_key.is_some());
}

#[test]
fn test_circular_dependency() {
    let mut a = step("EchoPlugin");
    a.params = "input: 'A'".to_string();
    a.input_from = Some("step2".to_string());
    let mut b = step("SummarizerPlugin");
    b.input_from = Some("step1".to_string());
    let workflow = Workflow {
        workflow: "Circular Dependency".to_string(),
        steps: vec![a, b],
    };
    let dag = build_dag(&workflow.steps).unwrap();
    let result = topo_sort(&dag);
    assert!(result.is_err(), "Should error on circular dependency");
}

#[test]
fn test_invalid_workflow_step() {
    let workflow = Workflow {
        workflow: "Invalid Step".to_string(),
        steps: vec![step("NonExistentPlugin")],
    };
    let dag = build_dag(&workflow.steps).unwrap();
    let registered: Vec<PluginInfo> = vec![];
    let errors = validate_workflow_types(&dag, &registered);
    assert!(!errors.is_empty(), "Should report error for missing plugin");
}
