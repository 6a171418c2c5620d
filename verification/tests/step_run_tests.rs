use lao_orchestrator_core::step_run::{
    cache_hit, failed_before_run, loop_message, loop_note, loop_outputs, max_attempts,
    missing_plugin, model_output_text, skipped_step, AttemptLoop, AttemptOutcome, AttemptVerdict,
};

fn loop_for(retries: Option<u32>) -> AttemptLoop {
    AttemptLoop::new(3, "step4".to_string(), "Echo".to_string(), "input: x\n".to_string(), retries, Some(250))
}

#[test]
fn attempts_are_one_more_than_retries() {
    assert_eq!(max_attempts(None), 2);
    assert_eq!(max_attempts(Some(0)), 1);
    assert_eq!(max_attempts(Some(3)), 4);
}

#[test]
fn success_on_the_first_attempt_settles_the_step() {
    let mut l = loop_for(None);
    let e = l.running_event();
    assert_eq!(e.status, "running");
    assert_eq!(e.attempt, 1);
    assert_eq!(e.message, None);
    match l.finish_attempt(AttemptOutcome::Succeeded { output: "done".to_string(), cached: true }) {
        AttemptVerdict::Done { event, log } => {
            assert_eq!(event.status, "success");
            assert_eq!(event.output.as_deref(), Some("done"));
            assert_eq!(log.step, 3);
            assert_eq!(log.step_id, "step4");
            assert_eq!(log.input, "input: x\n");
            assert_eq!(log.attempt, 1);
            assert_eq!(log.validation.as_deref(), Some("saved"));
        }
        AttemptVerdict::Retry { .. } => panic!("a success does not retry"),
    }
}

#[test]
fn failures_retry_until_the_attempts_run_out() {
    let mut l = loop_for(Some(1));
    match l.finish_attempt(AttemptOutcome::Failed { error: "boom".to_string() }) {
        AttemptVerdict::Retry { event, delay_ms } => {
            assert_eq!(delay_ms, 250);
            assert_eq!(event.status, "error");
            assert_eq!(event.message.as_deref(), Some("attempt failed"));
            assert_eq!(event.error.as_deref(), Some("boom"));
        }
        AttemptVerdict::Done { .. } => panic!("one retry is left"),
    }
    assert_eq!(l.attempt(), 2);
    assert_eq!(l.running_event().message.as_deref(), Some("retrying"));
    match l.finish_attempt(AttemptOutcome::Failed { error: "again".to_string() }) {
        AttemptVerdict::Done { event, log } => {
            assert_eq!(event.attempt, 2);
            assert_eq!(log.error.as_deref(), Some("again"));
            assert_eq!(log.attempt, 2);
            assert_eq!(log.output, None);
        }
        AttemptVerdict::Retry { .. } => panic!("no attempts are left"),
    }
}

#[test]
fn default_retry_delay_is_one_second() {
    let mut l = AttemptLoop::new(0, "s".to_string(), "P".to_string(), String::new(), None, None);
    match l.finish_attempt(AttemptOutcome::Failed { error: "e".to_string() }) {
        AttemptVerdict::Retry { delay_ms, .. } => assert_eq!(delay_ms, 1000),
        AttemptVerdict::Done { .. } => panic!("the default gives one retry"),
    }
}

#[test]
fn lifecycle_records_have_their_fixed_texts() {
    let (e, l) = skipped_step(1, "s".to_string(), "P".to_string(), "in".to_string());
    assert_eq!(e.status, "skipped");
    assert_eq!(e.message.as_deref(), Some("condition not met"));
    assert_eq!(l.output.as_deref(), Some("skipped due to condition"));
    assert_eq!(l.validation.as_deref(), Some("skipped"));

    let (e, l) = missing_plugin(1, "s".to_string(), "Nope".to_string(), "in".to_string());
    assert_eq!(e.error.as_deref(), Some("Plugin 'Nope' not found"));
    assert_eq!(l.error.as_deref(), Some("Plugin not found"));

    let (e, l) = cache_hit(2, "s".to_string(), "P".to_string(), "in".to_string(), "old".to_string());
    assert_eq!(e.status, "cache");
    assert_eq!(l.validation.as_deref(), Some("cache"));
    assert_eq!(l.output.as_deref(), Some("old"));

    let (e, l) = failed_before_run(2, "s".to_string(), "local_llm".to_string(), "in".to_string(), "no invoker".to_string());
    assert_eq!(e.error, l.error);
    assert_eq!(l.attempt, 1);
}

#[test]
fn model_output_notes_truncation() {
    assert_eq!(model_output_text("hi", false), "hi");
    assert_eq!(
        model_output_text("hi", true),
        "hi\n[lao: input artifact was truncated before reaching the model]"
    );
}

#[test]
fn loop_results_and_notes() {
    assert_eq!(loop_outputs(true, vec!["a".to_string(), "b".to_string()]), vec!["a", "b"]);
    assert_eq!(loop_outputs(false, vec![]), vec![""]);
    assert_eq!(loop_note(3), "loop:3 iterations");
    assert_eq!(loop_message(0), "Loop completed: 0 iterations");
}
