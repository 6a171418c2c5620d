use lao_orchestrator_core::workflow_helpers::{
    cache_file_path, compute_default_cache_key, evaluate_condition, should_execute_step,
    substitute_vars,
};
use lao_orchestrator_core::workflow_types::{
    ConditionOperator, ConditionType, StepCondition, StepLog, WorkflowStep,
};

fn step(run: &str, params: &str) -> WorkflowStep {
    WorkflowStep {
        run: run.to_string(),
        params: params.to_string(),
        retries: None,
        retry_delay: None,
        cache_key: None,
        input_from: None,
        depends_on: None,
        condition: None,
        for_each: None,
    }
}

fn log(id: &str, output: Option<&str>, error: Option<&str>) -> StepLog {
    StepLog {
        step: 0,
        step_id: id.to_string(),
        runner: "Echo".to_string(),
        input: String::new(),
        output: output.map(|s| s.to_string()),
        error: error.map(|s| s.to_string()),
        attempt: 1,
        validation: None,
    }
}

#[test]
fn test_substitute_vars() {
    let outputs = vec![("step1".to_string(), "hello world".to_string())];
    let result = substitute_vars("Input: ${step1}", &outputs);
    assert_eq!(result, "Input: hello world");
}

#[test]
fn test_substitute_vars_no_match() {
    let outputs: Vec<(String, String)> = vec![];
    let result = substitute_vars("Input: ${Missing}", &outputs);
    assert_eq!(result, "Input: ${Missing}");
}

#[test]
fn default_cache_key_hashes_the_parameters() {
    // FNV-1a over no bytes is the starting value itself.
    assert_eq!(compute_default_cache_key(&step("Echo", ""), "1.0"), "Echo-1.0-14650fb0739d0383");
    let a = compute_default_cache_key(&step("Echo", "input: a\n"), "1.0");
    let b = compute_default_cache_key(&step("Echo", "input: b\n"), "1.0");
    assert_ne!(a, b);
    assert!(a.starts_with("Echo-1.0-"));
}

#[test]
fn cache_path_prefers_the_step_key() {
    let mut s = step("Echo", "");
    assert_eq!(cache_file_path("cache", &s, "1.0"), "cache/Echo-1.0-14650fb0739d0383.json");
    s.cache_key = Some("mine".to_string());
    assert_eq!(cache_file_path("cache", &s, "1.0"), "cache/mine.json");
}

#[test]
fn conditions_read_the_first_log_of_the_step() {
    let logs = vec![log("step1", Some("all good"), None), log("step1", Some("other"), None)];
    let contains = StepCondition {
        condition_type: ConditionType::OutputContains,
        field: "step1".to_string(),
        operator: ConditionOperator::Contains,
        value: "good".to_string(),
    };
    assert!(evaluate_condition(&contains, &logs, "step1"));
    assert!(!evaluate_condition(&contains, &logs, "step2"));
    let mut s = step("Echo", "");
    s.condition = Some(contains);
    assert!(should_execute_step(&s, &logs, None));
    assert!(!should_execute_step(&s, &logs, Some("missing")));
    assert!(should_execute_step(&step("Echo", ""), &logs, None));
}
