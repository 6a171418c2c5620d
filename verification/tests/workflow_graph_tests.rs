use lao_orchestrator_core::workflow_dag::{build_dag, topo_sort};
use lao_orchestrator_core::workflow_types::{DagNode, WorkflowStep};

fn step(run: &str, input_from: Option<&str>, depends_on: Option<Vec<&str>>) -> WorkflowStep {
    WorkflowStep {
        run: run.to_string(),
        params: String::new(),
        retries: None,
        retry_delay: None,
        cache_key: None,
        input_from: input_from.map(|s| s.to_string()),
        depends_on: depends_on.map(|v| v.into_iter().map(|s| s.to_string()).collect()),
        condition: None,
        for_each: None,
    }
}

#[test]
fn test_build_dag_simple() {
    let mut s = step("Echo", None, None);
    s.params = "input: 'hello'".to_string();
    let dag = build_dag(&[s]).unwrap();
    assert_eq!(dag.len(), 1);
    assert_eq!(dag[0].id, "step1");
    assert_eq!(dag[0].parents.len(), 0);
}

#[test]
fn test_build_dag_with_dependencies() {
    let steps = vec![step("Step1", None, None), step("Step2", Some("step1"), None)];
    let dag = build_dag(&steps).unwrap();
    assert_eq!(dag.len(), 2);
    assert_eq!(dag[1].parents.len(), 1);
    assert_eq!(dag[1].parents[0], "step1");
}

#[test]
fn test_topo_sort_simple() {
    let steps = vec![step("A", None, None), step("B", Some("step1"), None)];
    let dag = build_dag(&steps).unwrap();
    let order = topo_sort(&dag).unwrap();
    assert_eq!(order, vec!["step1", "step2"]);
}

#[test]
fn test_topo_sort_circular_dependency() {
    let steps = vec![step("A", Some("step2"), None), step("B", Some("step1"), None)];
    let dag = build_dag(&steps).unwrap();
    let result = topo_sort(&dag);
    assert!(result.is_err());
    assert!(result.unwrap_err().contains("Circular dependency"));
}

#[test]
fn parents_come_before_children_and_unknown_parents_are_ignored() {
    let steps = vec![
        step("A", Some("step3"), Some(vec!["ghost"])),
        step("B", None, None),
        step("C", Some("step2"), None),
    ];
    let dag = build_dag(&steps).unwrap();
    assert_eq!(dag[0].parents, vec!["step3".to_string(), "ghost".to_string()]);
    let order = topo_sort(&dag).unwrap();
    assert_eq!(order, vec!["step2", "step3", "step1"]);
}

#[test]
fn a_self_dependency_is_a_cycle_through_that_step() {
    let steps = vec![step("A", None, None), step("B", None, Some(vec!["step2"]))];
    let dag = build_dag(&steps).unwrap();
    assert_eq!(topo_sort(&dag).unwrap_err(), "Circular dependency detected involving step2");
}

#[test]
fn repeated_ids_are_ordered_once() {
    let a = DagNode { id: "x".to_string(), step: step("A", None, None), parents: vec![] };
    let b = DagNode { id: "x".to_string(), step: step("B", None, None), parents: vec![] };
    assert_eq!(topo_sort(&[a, b]).unwrap(), vec!["x"]);
}
