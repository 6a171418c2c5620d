//! The lifecycle of one `local_llm` step as a state machine: whether it can run at all
//! (a model invoker is configured, model inference is trusted, the request is valid),
//! then its attempts, each sending the request once, until an answer succeeds or the
//! attempts run out. Building the request and sending it are the host's; the host
//! reports each answer and each finished wait.
use vstd::prelude::*;
use crate::execution::Artifact;
use crate::local_llm::{artifact_text, artifact_to_text};
use crate::plugin_step::{opt_view, StepAction};
use crate::step_run::{attempts_for, delay_for, max_attempts, model_output_text, truncation_note};
use crate::text::owned;
use crate::workflow_types::{StepEvent, StepLog};

verus! {

/// What the host observed about a model step's work.
pub enum ModelObservation {
    /// The answer to the request: the output artifact, or the failure's message.
    Answered(Result<Artifact, String>),
    /// The wait between attempts is over.
    Slept,
}

/// Where a model step stands.
pub enum ModelPhase {
    /// Waiting for the answer of the current attempt.
    Invoking,
    /// Waiting out the delay before the next attempt.
    Waiting,
    /// The step is over.
    Done,
}

/// One `local_llm` step being carried out.
pub struct ModelStepState {
    pub phase: ModelPhase,
    pub index: usize,
    pub step_id: String,
    pub runner: String,
    /// The step's parameters, as its log records them.
    pub input: String,
    /// The prompt's attached input was cut to size.
    pub truncated: bool,
    pub attempt: u32,
    pub max_attempts: u32,
    pub retry_delay: u64,
}

/// The message of a step with no model invoker.
pub open spec fn no_invoker_message() -> Seq<char> {
    "local_llm step requires a configured ModelInvoker"@
}

/// The message of a step whose model inference is not trusted.
pub open spec fn untrusted_message() -> Seq<char> {
    "local_llm requires trust.allow_model_inference = true in lao.toml"@
}

impl ModelStepState {
    /// Attempts stay within the step's limit.
    pub open spec fn well_formed(&self) -> bool {
        1 <= self.attempt <= self.max_attempts
    }

    /// `e` is an event of this step with these values.
    pub open spec fn event_is(
        &self,
        e: StepEvent,
        status: Seq<char>,
        attempt: u32,
        message: Option<Seq<char>>,
        output: Option<Seq<char>>,
        error: Option<Seq<char>>,
    ) -> bool {
        &&& e.step == self.index
        &&& e.step_id@ == self.step_id@
        &&& e.runner@ == self.runner@
        &&& e.status@ == status
        &&& e.attempt == attempt
        &&& opt_view(e.message) == message
        &&& opt_view(e.output) == output
        &&& opt_view(e.error) == error
    }

    /// `l` is a log of this step with these values.
    pub open spec fn log_is(
        &self,
        l: StepLog,
        attempt: u32,
        output: Option<Seq<char>>,
        error: Option<Seq<char>>,
    ) -> bool {
        &&& l.step == self.index
        &&& l.step_id@ == self.step_id@
        &&& l.runner@ == self.runner@
        &&& l.input@ == self.input@
        &&& opt_view(l.output) == output
        &&& opt_view(l.error) == error
        &&& l.attempt == attempt
        &&& l.validation is None
    }

    /// `r` is this step with its phase and attempt changed at most.
    pub open spec fn same_step(&self, r: ModelStepState) -> bool {
        &&& r.index == self.index
        &&& r.step_id == self.step_id
        &&& r.runner == self.runner
        &&& r.input == self.input
        &&& r.truncated == self.truncated
        &&& r.max_attempts == self.max_attempts
        &&& r.retry_delay == self.retry_delay
    }

    /// The step ends before any attempt with `m`: one error event and one log.
    pub open spec fn stops_with(&self, m: Seq<char>, acts: Seq<StepAction>) -> bool {
        &&& acts.len() == 2
        &&& acts[0] matches StepAction::Emit(e) && self.event_is(e, "error"@, 1, Some(m), None, Some(m))
        &&& acts[1] matches StepAction::Log(l) && self.log_is(l, 1, None, Some(m))
    }

    /// The current attempt starts: a `running` event (`retrying` from the second
    /// attempt on), then the request is sent.
    pub open spec fn starts_attempt(&self, acts: Seq<StepAction>) -> bool {
        &&& acts.len() == 2
        &&& acts[0] matches StepAction::Emit(e) && self.event_is(
            e,
            "running"@,
            self.attempt,
            if self.attempt > 1 {
                Some("retrying"@)
            } else {
                None
            },
            None,
            None,
        )
        &&& acts[1] is InvokeModel
    }
}

/// The text a successful answer leaves as the step's output: the artifact's text,
/// with a note when the prompt's input was cut.
pub open spec fn answer_text(a: Artifact, truncated: bool) -> Seq<char> {
    if truncated {
        artifact_text(a) + truncation_note()
    } else {
        artifact_text(a)
    }
}

/// One step of the machine after what the host observed. An observation that does
/// not answer what the phase waits for changes nothing and asks for nothing.
pub open spec fn model_step_spec(
    s: ModelStepState,
    seen: ModelObservation,
    r: ModelStepState,
    acts: Seq<StepAction>,
) -> bool {
    match (s.phase, seen) {
        (ModelPhase::Invoking, ModelObservation::Answered(Ok(a))) => {
            let out = answer_text(a, s.truncated);
            &&& s.same_step(r)
            &&& r.attempt == s.attempt
            &&& r.phase is Done
            &&& acts.len() == 3
            &&& acts[0] matches StepAction::StoreOutput(o) && o@ == out
            &&& acts[1] matches StepAction::Emit(e) && s.event_is(
                e,
                "success"@,
                s.attempt,
                None,
                Some(out),
                None,
            )
            &&& acts[2] matches StepAction::Log(l) && s.log_is(l, s.attempt, Some(out), None)
        },
        (ModelPhase::Invoking, ModelObservation::Answered(Err(m))) => {
            &&& s.same_step(r)
            &&& acts.len() == 2
            &&& acts[0] matches StepAction::Emit(e) && s.event_is(
                e,
                "error"@,
                s.attempt,
                Some("attempt failed"@),
                None,
                Some(m@),
            )
            &&& if s.attempt < s.max_attempts {
                &&& r.phase is Waiting
                &&& r.attempt == s.attempt + 1
                &&& acts[1] == StepAction::Sleep(s.retry_delay)
            } else {
                &&& r.phase is Done
                &&& r.attempt == s.attempt
                &&& acts[1] matches StepAction::Log(l) && s.log_is(l, s.max_attempts, None, Some(m@))
            }
        },
        (ModelPhase::Waiting, ModelObservation::Slept) => {
            &&& s.same_step(r)
            &&& r.attempt == s.attempt
            &&& r.phase is Invoking
            &&& s.starts_attempt(acts)
        },
        _ => r == s && acts.len() == 0,
    }
}

impl ModelStepState {
    fn event(
        &self,
        status: &str,
        attempt: u32,
        message: Option<String>,
        output: Option<String>,
        error: Option<String>,
    ) -> (e: StepEvent)
        ensures
            self.event_is(e, status@, attempt, opt_view(message), opt_view(output), opt_view(error)),
    {
        StepEvent {
            step: self.index,
            step_id: self.step_id.clone(),
            runner: self.runner.clone(),
            status: owned(status),
            attempt,
            message,
            output,
            error,
        }
    }

    fn log(&self, attempt: u32, output: Option<String>, error: Option<String>) -> (l: StepLog)
        ensures
            self.log_is(l, attempt, opt_view(output), opt_view(error)),
    {
        StepLog {
            step: self.index,
            step_id: self.step_id.clone(),
            runner: self.runner.clone(),
            input: self.input.clone(),
            output,
            error,
            attempt,
            validation: None,
        }
    }

    fn stop(self, m: String) -> (r: (ModelStepState, Vec<StepAction>))
        ensures
            self.stops_with(m@, r.1@),
            self.same_step(r.0),
            r.0.attempt == self.attempt,
            r.0.phase is Done,
    {
        let ev = self.event("error", 1, Some(m.clone()), None, Some(m.clone()));
        let lg = self.log(1, None, Some(m));
        let mut acts: Vec<StepAction> = Vec::new();
        acts.push(StepAction::Emit(ev));
        acts.push(StepAction::Log(lg));
        (ModelStepState { phase: ModelPhase::Done, ..self }, acts)
    }

    /// A `local_llm` step about to start, given whether a model invoker is configured,
    /// whether model inference is trusted, what is wrong with its request (none when
    /// it is valid) and whether its prompt's input was cut. It ends at once, with one
    /// error event and one log, on the first of: no invoker, inference not trusted, an
    /// invalid request; otherwise its first attempt starts.
    pub fn start(
        index: usize,
        step_id: String,
        runner: String,
        input: String,
        retries: Option<u32>,
        retry_delay: Option<u64>,
        has_invoker: bool,
        inference_allowed: bool,
        request_problem: Option<String>,
        truncated: bool,
    ) -> (r: (ModelStepState, Vec<StepAction>))
        requires
            retries != Some(u32::MAX),
        ensures
            r.0.well_formed(),
            r.0.index == index,
            r.0.step_id == step_id,
            r.0.runner == runner,
            r.0.input == input,
            r.0.truncated == truncated,
            r.0.attempt == 1,
            r.0.max_attempts == attempts_for(retries),
            r.0.retry_delay == delay_for(retry_delay),
            !has_invoker ==> r.0.phase is Done && r.0.stops_with(no_invoker_message(), r.1@),
            has_invoker && !inference_allowed ==> r.0.phase is Done && r.0.stops_with(
                untrusted_message(),
                r.1@,
            ),
            has_invoker && inference_allowed && request_problem is Some ==> r.0.phase is Done
                && r.0.stops_with(request_problem->0@, r.1@),
            has_invoker && inference_allowed && request_problem is None ==> r.0.phase is Invoking
                && r.0.starts_attempt(r.1@),
    {
        let max = max_attempts(retries);
        let delay = match retry_delay {
            Some(d) => d,
            None => 1000,
        };
        let st = ModelStepState {
            phase: ModelPhase::Invoking,
            index,
            step_id,
            runner,
            input,
            truncated,
            attempt: 1,
            max_attempts: max,
            retry_delay: delay,
        };
        if !has_invoker {
            return st.stop(owned("local_llm step requires a configured ModelInvoker"));
        }
        if !inference_allowed {
            return st.stop(owned("local_llm requires trust.allow_model_inference = true in lao.toml"));
        }
        match request_problem {
            Some(m) => st.stop(m),
            None => {
                let ev = st.event("running", 1, None, None, None);
                let mut acts: Vec<StepAction> = Vec::new();
                acts.push(StepAction::Emit(ev));
                acts.push(StepAction::InvokeModel);
                (st, acts)
            },
        }
    }
}

/// The next state and actions of a `local_llm` step, given what the host observed.
pub fn local_llm_step_next(state: ModelStepState, seen: ModelObservation) -> (r: (
    ModelStepState,
    Vec<StepAction>,
))
    requires
        state.well_formed(),
    ensures
        model_step_spec(state, seen, r.0, r.1@),
        r.0.well_formed(),
{
    let ghost s0 = state;
    let mut state = state;
    let mut phase = ModelPhase::Done;
    std::mem::swap(&mut phase, &mut state.phase);
    match (phase, seen) {
        (ModelPhase::Invoking, ModelObservation::Answered(Ok(a))) => {
            let text = artifact_to_text(&a);
            let out = model_output_text(text.as_str(), state.truncated);
            let ev = state.event("success", state.attempt, None, Some(out.clone()), None);
            let lg = state.log(state.attempt, Some(out.clone()), None);
            let mut acts: Vec<StepAction> = Vec::new();
            acts.push(StepAction::StoreOutput(out));
            acts.push(StepAction::Emit(ev));
            acts.push(StepAction::Log(lg));
            (ModelStepState { phase: ModelPhase::Done, ..state }, acts)
        },
        (ModelPhase::Invoking, ModelObservation::Answered(Err(m))) => {
            let ev = state.event(
                "error",
                state.attempt,
                Some(owned("attempt failed")),
                None,
                Some(m.clone()),
            );
            let mut acts: Vec<StepAction> = Vec::new();
            acts.push(StepAction::Emit(ev));
            if state.attempt < state.max_attempts {
                acts.push(StepAction::Sleep(state.retry_delay));
                (ModelStepState { phase: ModelPhase::Waiting, attempt: state.attempt + 1, ..state }, acts)
            } else {
                let lg = state.log(state.max_attempts, None, Some(m));
                acts.push(StepAction::Log(lg));
                (ModelStepState { phase: ModelPhase::Done, ..state }, acts)
            }
        },
        (ModelPhase::Waiting, ModelObservation::Slept) => {
            let message = if state.attempt > 1 {
                Some(owned("retrying"))
            } else {
                None
            };
            let ev = state.event("running", state.attempt, message, None, None);
            let mut acts: Vec<StepAction> = Vec::new();
            acts.push(StepAction::Emit(ev));
            acts.push(StepAction::InvokeModel);
            (ModelStepState { phase: ModelPhase::Invoking, ..state }, acts)
        },
        (phase, seen) => {
            let st = ModelStepState { phase, ..state };
            assert(st == s0);
            (st, Vec::new())
        },
    }
}

/// The answer was a success.
pub open spec fn answered_ok(seen: ModelObservation) -> bool {
    match seen {
        ModelObservation::Answered(Ok(_)) => true,
        _ => false,
    }
}

/// The actions send the request.
pub open spec fn invokes(acts: Seq<StepAction>) -> bool {
    exists|i: int| 0 <= i < acts.len() && acts[i] is InvokeModel
}

/// What one step of the machine keeps: a request is sent only while attempts remain,
/// an output is stored only after a successful answer, a successful answer ends the
/// step, and a finished step asks for nothing more.
pub proof fn lemma_model_step_laws(
    s: ModelStepState,
    seen: ModelObservation,
    r: ModelStepState,
    acts: Seq<StepAction>,
)
    requires
        s.well_formed(),
        model_step_spec(s, seen, r, acts),
    ensures
        invokes(acts) ==> r.phase is Invoking && 1 <= r.attempt <= r.max_attempts && r.attempt
            == s.attempt,
        (exists|i: int| 0 <= i < acts.len() && acts[i] is StoreOutput) ==> (s.phase is Invoking
            && answered_ok(seen) && r.phase is Done),
        s.phase is Done ==> acts.len() == 0 && r == s,
        r.attempt <= r.max_attempts,
{
    if invokes(acts) {
        let i = choose|i: int| 0 <= i < acts.len() && acts[i] is InvokeModel;
    }
    if exists|i: int| 0 <= i < acts.len() && acts[i] is StoreOutput {
        let i = choose|i: int| 0 <= i < acts.len() && acts[i] is StoreOutput;
    }
}

} // verus!
