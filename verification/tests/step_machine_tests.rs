use lao_orchestrator_core::execution::Artifact;
use lao_orchestrator_core::model_step::{local_llm_step_next, ModelObservation, ModelPhase, ModelStepState};
use lao_orchestrator_core::plugin_result::PluginRunResult;
use lao_orchestrator_core::plugin_step::{
    plugin_step_next, PluginPhase, PluginStepState, StepAction, StepObservation,
};
use lao_orchestrator_core::trust::TrustPolicy;
use lao_orchestrator_core::workflow_types::WorkflowStep;

fn step(run: &str, retries: Option<u32>, cache_key: Option<&str>) -> WorkflowStep {
    WorkflowStep {
        run: run.to_string(),
        params: "input: hi\n".to_string(),
        retries,
        retry_delay: Some(5),
        cache_key: cache_key.map(|k| k.to_string()),
        input_from: None,
        depends_on: None,
        condition: None,
        for_each: None,
    }
}

fn start(run: &str, retries: Option<u32>, cache_key: Option<&str>) -> (PluginStepState, Vec<StepAction>) {
    PluginStepState::start(
        0,
        "s1".to_string(),
        step(run, retries, cache_key),
        "input: hi\n".to_string(),
        "hi".to_string(),
        "/cache".to_string(),
    )
}

fn kinds(actions: &[StepAction]) -> Vec<&'static str> {
    actions
        .iter()
        .map(|a| match a {
            StepAction::LookUpPlugin => "lookup",
            StepAction::ReadCache(_) => "read",
            StepAction::RunPlugin => "run",
            StepAction::InvokeModel => "invoke",
            StepAction::StoreOutput(_) => "store",
            StepAction::WriteCache(_, _) => "write",
            StepAction::Emit(_) => "emit",
            StepAction::Log(_) => "log",
            StepAction::Sleep(_) => "sleep",
        })
        .collect()
}

#[test]
fn a_missing_plugin_gives_one_error_event_and_one_log_and_no_run() {
    let policy = TrustPolicy::default();
    let (s, acts) = start("Echo", None, None);
    assert_eq!(kinds(&acts), vec!["lookup"]);
    let (s, acts) = plugin_step_next(&policy, s, StepObservation::Plugin(None));
    assert_eq!(kinds(&acts), vec!["emit", "log"]);
    match &acts[0] {
        StepAction::Emit(e) => {
            assert_eq!(e.status, "error");
            assert_eq!(e.error, Some("Plugin 'Echo' not found".to_string()));
        }
        _ => unreachable!(),
    }
    match &acts[1] {
        StepAction::Log(l) => assert_eq!(l.error, Some("Plugin not found".to_string())),
        _ => unreachable!(),
    }
    assert!(matches!(s.phase, PluginPhase::Done));
    let (_, acts) = plugin_step_next(&policy, s, StepObservation::Slept);
    assert!(acts.is_empty());
}

#[test]
fn a_cache_hit_stores_the_output_without_running() {
    let policy = TrustPolicy::default();
    let (s, _) = start("Echo", None, Some("k"));
    let (s, acts) = plugin_step_next(&policy, s, StepObservation::Plugin(Some("1.0".into())));
    match &acts[0] {
        StepAction::ReadCache(p) => assert_eq!(p, "/cache/k.json"),
        _ => unreachable!(),
    }
    let (s, acts) = plugin_step_next(&policy, s, StepObservation::Cached(Some("old".into())));
    assert_eq!(kinds(&acts), vec!["store", "emit", "log"]);
    assert!(matches!(s.phase, PluginPhase::Done));
}

#[test]
fn runs_retry_until_success_and_write_the_cache_only_with_a_key() {
    let policy = TrustPolicy::default();
    let (s, _) = start("Echo", Some(2), None);
    let (s, _) = plugin_step_next(&policy, s, StepObservation::Plugin(Some("1.0".into())));
    let (s, acts) = plugin_step_next(&policy, s, StepObservation::Cached(None));
    assert_eq!(kinds(&acts), vec!["emit", "run"]);
    let (s, acts) =
        plugin_step_next(&policy, s, StepObservation::Ran(PluginRunResult::runtime_error("boom")));
    assert_eq!(kinds(&acts), vec!["emit", "sleep"]);
    assert_eq!(s.attempt, 2);
    let (s, acts) = plugin_step_next(&policy, s, StepObservation::Slept);
    assert_eq!(kinds(&acts), vec!["emit", "run"]);
    let (s, acts) =
        plugin_step_next(&policy, s, StepObservation::Ran(PluginRunResult::success("done".to_string())));
    assert_eq!(kinds(&acts), vec!["store", "emit", "log"]);
    assert!(matches!(s.phase, PluginPhase::Done));

    let (s, _) = start("Echo", None, Some("k"));
    let (s, _) = plugin_step_next(&policy, s, StepObservation::Plugin(Some("1.0".into())));
    let (s, _) = plugin_step_next(&policy, s, StepObservation::Cached(None));
    let (s, acts) =
        plugin_step_next(&policy, s, StepObservation::Ran(PluginRunResult::success("done".to_string())));
    assert_eq!(kinds(&acts), vec!["store", "write"]);
    let (_, acts) = plugin_step_next(&policy, s, StepObservation::CacheSaved(true));
    match &acts[1] {
        StepAction::Log(l) => assert_eq!(l.validation, Some("saved".to_string())),
        _ => unreachable!(),
    }
}

#[test]
fn the_last_failed_attempt_logs_the_error() {
    let policy = TrustPolicy::default();
    let (s, _) = start("Echo", Some(0), None);
    let (s, _) = plugin_step_next(&policy, s, StepObservation::Plugin(Some("1.0".into())));
    let (s, _) = plugin_step_next(&policy, s, StepObservation::Cached(None));
    let (s, acts) =
        plugin_step_next(&policy, s, StepObservation::Ran(PluginRunResult::runtime_error("boom")));
    assert_eq!(kinds(&acts), vec!["emit", "log"]);
    match &acts[1] {
        StepAction::Log(l) => {
            assert_eq!(l.error, Some("boom".to_string()));
            assert_eq!(l.attempt, 1);
        }
        _ => unreachable!(),
    }
    assert!(matches!(s.phase, PluginPhase::Done));
}

#[test]
fn an_untrusted_step_never_runs() {
    let policy = TrustPolicy::default();
    let (s, _) = start("ShellCommandPlugin", Some(1), None);
    let (s, _) = plugin_step_next(&policy, s, StepObservation::Plugin(Some("1.0".into())));
    let (s, acts) = plugin_step_next(&policy, s, StepObservation::Cached(None));
    assert_eq!(kinds(&acts), vec!["emit", "emit", "sleep"]);
    let (s, acts) = plugin_step_next(&policy, s, StepObservation::Slept);
    assert_eq!(kinds(&acts), vec!["emit", "emit", "log"]);
    assert!(matches!(s.phase, PluginPhase::Done));
}

fn model_start(has_invoker: bool, allowed: bool, problem: Option<&str>) -> (ModelStepState, Vec<StepAction>) {
    ModelStepState::start(
        0,
        "m".into(),
        "local_llm".into(),
        "prompt: hi\n".into(),
        Some(1),
        Some(5),
        has_invoker,
        allowed,
        problem.map(|p| p.to_string()),
        true,
    )
}

#[test]
fn a_model_step_stops_before_any_attempt_when_it_cannot_run() {
    let (s, acts) = model_start(false, true, None);
    assert_eq!(kinds(&acts), vec!["emit", "log"]);
    assert!(matches!(s.phase, ModelPhase::Done));
    match &acts[1] {
        StepAction::Log(l) => assert_eq!(
            l.error,
            Some("local_llm step requires a configured ModelInvoker".to_string())
        ),
        _ => unreachable!(),
    }
    let (_, acts) = model_start(true, false, None);
    match &acts[1] {
        StepAction::Log(l) => assert_eq!(
            l.error,
            Some("local_llm requires trust.allow_model_inference = true in lao.toml".to_string())
        ),
        _ => unreachable!(),
    }
    let (_, acts) = model_start(true, true, Some("bad request"));
    assert_eq!(kinds(&acts), vec!["emit", "log"]);
}

#[test]
fn a_model_step_retries_then_stores_the_noted_output() {
    let (s, acts) = model_start(true, true, None);
    assert_eq!(kinds(&acts), vec!["emit", "invoke"]);
    let (s, acts) = local_llm_step_next(s, ModelObservation::Answered(Err("backend down".into())));
    assert_eq!(kinds(&acts), vec!["emit", "sleep"]);
    let (s, acts) = local_llm_step_next(s, ModelObservation::Slept);
    assert_eq!(kinds(&acts), vec!["emit", "invoke"]);
    let (s, acts) = local_llm_step_next(s, ModelObservation::Answered(Ok(Artifact::Text("ok".into()))));
    match &acts[0] {
        StepAction::StoreOutput(o) => assert_eq!(
            o,
            "ok\n[lao: input artifact was truncated before reaching the model]"
        ),
        _ => unreachable!(),
    }
    assert!(matches!(s.phase, ModelPhase::Done));
}
