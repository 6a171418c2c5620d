//! The decisions of one step's lifecycle: whether it is skipped, served from the
//! cache or run, how many attempts it gets and how long to wait between them, and
//! the progress events and log record each outcome produces. The caller performs the
//! work (reading the cache, running the plugin or model, sleeping, sending events)
//! and hands each outcome back.
use vstd::prelude::*;
use crate::text::{chars_of, decimal, decimal_chars, push_all, push_str, string_of};
use crate::workflow_types::{StepEvent, StepLog};

verus! {

/// How many attempts a step with `retries` gets: one more than its retries, and
/// two when it sets none.
pub open spec fn attempts_for(retries: Option<u32>) -> int {
    match retries {
        Some(r) => r + 1,
        None => 2,
    }
}

/// How long to wait before retrying, in milliseconds: the step's delay, one second
/// when it sets none.
pub open spec fn delay_for(retry_delay: Option<u64>) -> u64 {
    match retry_delay {
        Some(d) => d,
        None => 1000,
    }
}

/// The number of attempts a step gets.
pub fn max_attempts(retries: Option<u32>) -> (r: u32)
    requires
        retries != Some(u32::MAX),
    ensures
        r == attempts_for(retries),
{
    match retries {
        Some(n) => n + 1,
        None => 2,
    }
}

/// What happened to one attempt to run a step.
pub enum AttemptOutcome {
    /// The attempt produced this output; `cached` tells whether it was also written
    /// to the step's cache.
    Succeeded { output: String, cached: bool },
    /// The attempt failed with this error text.
    Failed { error: String },
}

/// What follows a finished attempt.
pub enum AttemptVerdict {
    /// The step is done: emit the event and record the log.
    Done { event: StepEvent, log: StepLog },
    /// Emit the event, wait `delay_ms`, then run the next attempt.
    Retry { event: StepEvent, delay_ms: u64 },
}

/// The retry loop of one step.
pub struct AttemptLoop {
    step: usize,
    step_id: String,
    runner: String,
    input: String,
    max_attempts: u32,
    retry_delay_ms: u64,
    attempt: u32,
    settled: bool,
}

impl AttemptLoop {
    #[verifier::type_invariant]
    spec fn attempts_in_range(self) -> bool {
        1 <= self.attempt <= self.max_attempts
    }

    /// The attempt that runs next (or that settled the step), counted from one.
    pub closed spec fn current(self) -> u32 {
        self.attempt
    }

    /// How many attempts the step gets.
    pub closed spec fn limit(self) -> u32 {
        self.max_attempts
    }

    /// The wait between attempts, in milliseconds.
    pub closed spec fn delay(self) -> u64 {
        self.retry_delay_ms
    }

    /// The step's loop has ended, with a success or with its last failure.
    pub closed spec fn is_settled(self) -> bool {
        self.settled
    }

    /// The step's position, id, plugin and parameters, as events and logs carry them.
    pub closed spec fn position(self) -> usize {
        self.step
    }

    pub closed spec fn id(self) -> Seq<char> {
        self.step_id@
    }

    pub closed spec fn plugin(self) -> Seq<char> {
        self.runner@
    }

    pub closed spec fn params(self) -> Seq<char> {
        self.input@
    }

    /// The loop for a step at `step` with id `step_id` running `runner` on `input`,
    /// before its first attempt.
    pub fn new(
        step: usize,
        step_id: String,
        runner: String,
        input: String,
        retries: Option<u32>,
        retry_delay: Option<u64>,
    ) -> (r: Self)
        requires
            retries != Some(u32::MAX),
        ensures
            r.current() == 1,
            r.limit() == attempts_for(retries),
            r.delay() == delay_for(retry_delay),
            !r.is_settled(),
            r.position() == step,
            r.id() == step_id@,
            r.plugin() == runner@,
            r.params() == input@,
    {
        let max = max_attempts(retries);
        let delay = match retry_delay {
            Some(d) => d,
            None => 1000,
        };
        AttemptLoop {
            step,
            step_id,
            runner,
            input,
            max_attempts: max,
            retry_delay_ms: delay,
            attempt: 1,
            settled: false,
        }
    }

    /// The attempt that runs next.
    pub fn attempt(&self) -> (r: u32)
        ensures
            r == self.current(),
            1 <= r <= self.limit(),
    {
        proof {
            use_type_invariant(self);
        }
        self.attempt
    }

    /// The event announcing the next attempt: status `running`, with the message
    /// `retrying` from the second attempt on.
    pub fn running_event(&self) -> (e: StepEvent)
        ensures
            e.step == self.position(),
            e.step_id@ == self.id(),
            e.runner@ == self.plugin(),
            e.status@ == "running"@,
            e.attempt == self.current(),
            match e.message {
                Some(m) => self.current() > 1 && m@ == "retrying"@,
                None => self.current() <= 1,
            },
            e.output is None,
            e.error is None,
    {
        StepEvent {
            step: self.step,
            step_id: self.step_id.clone(),
            runner: self.runner.clone(),
            status: String::from_str("running"),
            attempt: self.attempt,
            message: if self.attempt > 1 {
                Some(String::from_str("retrying"))
            } else {
                None
            },
            output: None,
            error: None,
        }
    }

    /// Settles or continues the loop with the outcome of the current attempt. A
    /// success settles it with a `success` event and a log of the output (noted
    /// `saved` when it was cached). A failure emits an `error` event; it retries
    /// after the step's delay while attempts remain, and otherwise settles with a
    /// log of the error at the last attempt.
    pub fn finish_attempt(&mut self, outcome: AttemptOutcome) -> (v: AttemptVerdict)
        requires
            !old(self).is_settled(),
        ensures
            final(self).limit() == old(self).limit(),
            final(self).delay() == old(self).delay(),
            final(self).position() == old(self).position(),
            final(self).id() == old(self).id(),
            final(self).plugin() == old(self).plugin(),
            final(self).params() == old(self).params(),
            match outcome {
                AttemptOutcome::Succeeded { output, cached } => {
                    &&& final(self).is_settled()
                    &&& final(self).current() == old(self).current()
                    &&& v matches AttemptVerdict::Done { event, log } && {
                        &&& event.step == old(self).position()
                        &&& event.step_id@ == old(self).id()
                        &&& event.runner@ == old(self).plugin()
                        &&& event.status@ == "success"@
                        &&& event.attempt == old(self).current()
                        &&& event.message is None
                        &&& event.output == Some(output)
                        &&& event.error is None
                        &&& log.step == old(self).position()
                        &&& log.step_id@ == old(self).id()
                        &&& log.runner@ == old(self).plugin()
                        &&& log.input@ == old(self).params()
                        &&& log.output == Some(output)
                        &&& log.error is None
                        &&& log.attempt == old(self).current()
                        &&& match log.validation {
                            Some(n) => cached && n@ == "saved"@,
                            None => !cached,
                        }
                    }
                },
                AttemptOutcome::Failed { error } => {
                    let last = old(self).current() >= old(self).limit();
                    &&& final(self).is_settled() == last
                    &&& final(self).current() == if last {
                        old(self).current() as int
                    } else {
                        old(self).current() + 1
                    }
                    &&& if last {
                        v matches AttemptVerdict::Done { event, log } && {
                            &&& event.step == old(self).position()
                            &&& event.step_id@ == old(self).id()
                            &&& event.runner@ == old(self).plugin()
                            &&& event.status@ == "error"@
                            &&& event.attempt == old(self).current()
                            &&& event.message matches Some(m) && m@ == "attempt failed"@
                            &&& event.output is None
                            &&& event.error == Some(error)
                            &&& log.step == old(self).position()
                            &&& log.step_id@ == old(self).id()
                            &&& log.runner@ == old(self).plugin()
                            &&& log.input@ == old(self).params()
                            &&& log.output is None
                            &&& log.error == Some(error)
                            &&& log.attempt == old(self).limit()
                            &&& log.validation is None
                        }
                    } else {
                        v matches AttemptVerdict::Retry { event, delay_ms } && {
                            &&& delay_ms == old(self).delay()
                            &&& event.step == old(self).position()
                            &&& event.step_id@ == old(self).id()
                            &&& event.runner@ == old(self).plugin()
                            &&& event.status@ == "error"@
                            &&& event.attempt == old(self).current()
                            &&& event.message matches Some(m) && m@ == "attempt failed"@
                            &&& event.output is None
                            &&& event.error == Some(error)
                        }
                    }
                },
            },
    {
        proof {
            use_type_invariant(&*self);
        }
        match outcome {
            AttemptOutcome::Succeeded { output, cached } => {
                let event = StepEvent {
                    step: self.step,
                    step_id: self.step_id.clone(),
                    runner: self.runner.clone(),
                    status: String::from_str("success"),
                    attempt: self.attempt,
                    message: None,
                    output: Some(output.clone()),
                    error: None,
                };
                let log = StepLog {
                    step: self.step,
                    step_id: self.step_id.clone(),
                    runner: self.runner.clone(),
                    input: self.input.clone(),
                    output: Some(output),
                    error: None,
                    attempt: self.attempt,
                    validation: if cached {
                        Some(String::from_str("saved"))
                    } else {
                        None
                    },
                };
                self.settled = true;
                AttemptVerdict::Done { event, log }
            },
            AttemptOutcome::Failed { error } => {
                let event = StepEvent {
                    step: self.step,
                    step_id: self.step_id.clone(),
                    runner: self.runner.clone(),
                    status: String::from_str("error"),
                    attempt: self.attempt,
                    message: Some(String::from_str("attempt failed")),
                    output: None,
                    error: Some(error.clone()),
                };
                if self.attempt < self.max_attempts {
                    self.attempt = self.attempt + 1;
                    AttemptVerdict::Retry { event, delay_ms: self.retry_delay_ms }
                } else {
                    let log = StepLog {
                        step: self.step,
                        step_id: self.step_id.clone(),
                        runner: self.runner.clone(),
                        input: self.input.clone(),
                        output: None,
                        error: Some(error),
                        attempt: self.max_attempts,
                        validation: None,
                    };
                    self.settled = true;
                    AttemptVerdict::Done { event, log }
                }
            },
        }
    }
}

/// The event and log of a step skipped because its condition does not hold.
pub fn skipped_step(step: usize, step_id: String, runner: String, input: String) -> (r: (
    StepEvent,
    StepLog,
))
    ensures
        r.0.step == step,
        r.0.step_id == step_id,
        r.0.runner == runner,
        r.0.status@ == "skipped"@,
        r.0.attempt == 1,
        r.0.message matches Some(m) && m@ == "condition not met"@,
        r.0.output is None,
        r.0.error is None,
        r.1.step == step,
        r.1.step_id == step_id,
        r.1.runner == runner,
        r.1.input == input,
        r.1.output matches Some(o) && o@ == "skipped due to condition"@,
        r.1.error is None,
        r.1.attempt == 1,
        r.1.validation matches Some(n) && n@ == "skipped"@,
{
    let event = StepEvent {
        step,
        step_id: step_id.clone(),
        runner: runner.clone(),
        status: String::from_str("skipped"),
        attempt: 1,
        message: Some(String::from_str("condition not met")),
        output: None,
        error: None,
    };
    let log = StepLog {
        step,
        step_id,
        runner,
        input,
        output: Some(String::from_str("skipped due to condition")),
        error: None,
        attempt: 1,
        validation: Some(String::from_str("skipped")),
    };
    (event, log)
}

/// The event and log of a step whose plugin is not registered.
pub fn missing_plugin(step: usize, step_id: String, runner: String, input: String) -> (r: (
    StepEvent,
    StepLog,
))
    ensures
        r.0.step == step,
        r.0.step_id == step_id,
        r.0.runner == runner,
        r.0.status@ == "error"@,
        r.0.attempt == 1,
        r.0.message matches Some(m) && m@ == "Plugin '"@ + runner@ + "' not found"@,
        r.0.output is None,
        r.0.error == r.0.message,
        r.1.step == step,
        r.1.step_id == step_id,
        r.1.runner == runner,
        r.1.input == input,
        r.1.output is None,
        r.1.error matches Some(e) && e@ == "Plugin not found"@,
        r.1.attempt == 1,
        r.1.validation is None,
{
    let mut m: Vec<char> = Vec::new();
    push_str(&mut m, "Plugin '");
    push_str(&mut m, runner.as_str());
    push_str(&mut m, "' not found");
    let text = string_of(m.as_slice());
    let event = StepEvent {
        step,
        step_id: step_id.clone(),
        runner: runner.clone(),
        status: String::from_str("error"),
        attempt: 1,
        message: Some(text.clone()),
        output: None,
        error: Some(text),
    };
    let log = StepLog {
        step,
        step_id,
        runner,
        input,
        output: None,
        error: Some(String::from_str("Plugin not found")),
        attempt: 1,
        validation: None,
    };
    (event, log)
}

/// The event and log of a step that fails before any attempt (a local model step
/// with no invoker, or whose request does not validate), with `message`.
pub fn failed_before_run(
    step: usize,
    step_id: String,
    runner: String,
    input: String,
    message: String,
) -> (r: (StepEvent, StepLog))
    ensures
        r.0.step == step,
        r.0.step_id == step_id,
        r.0.runner == runner,
        r.0.status@ == "error"@,
        r.0.attempt == 1,
        r.0.message == Some(message),
        r.0.output is None,
        r.0.error == Some(message),
        r.1.step == step,
        r.1.step_id == step_id,
        r.1.runner == runner,
        r.1.input == input,
        r.1.output is None,
        r.1.error == Some(message),
        r.1.attempt == 1,
        r.1.validation is None,
{
    let event = StepEvent {
        step,
        step_id: step_id.clone(),
        runner: runner.clone(),
        status: String::from_str("error"),
        attempt: 1,
        message: Some(message.clone()),
        output: None,
        error: Some(message.clone()),
    };
    let log = StepLog {
        step,
        step_id,
        runner,
        input,
        output: None,
        error: Some(message),
        attempt: 1,
        validation: None,
    };
    (event, log)
}

/// The event and log of a step answered from its cache with `cached_output`.
pub fn cache_hit(step: usize, step_id: String, runner: String, input: String, cached_output: String)
    -> (r: (StepEvent, StepLog))
    ensures
        r.0.step == step,
        r.0.step_id == step_id,
        r.0.runner == runner,
        r.0.status@ == "cache"@,
        r.0.attempt == 1,
        r.0.message matches Some(m) && m@ == "cache hit"@,
        r.0.output == Some(cached_output),
        r.0.error is None,
        r.1.step == step,
        r.1.step_id == step_id,
        r.1.runner == runner,
        r.1.input == input,
        r.1.output == Some(cached_output),
        r.1.error is None,
        r.1.attempt == 1,
        r.1.validation matches Some(n) && n@ == "cache"@,
{
    let event = StepEvent {
        step,
        step_id: step_id.clone(),
        runner: runner.clone(),
        status: String::from_str("cache"),
        attempt: 1,
        message: Some(String::from_str("cache hit")),
        output: Some(cached_output.clone()),
        error: None,
    };
    let log = StepLog {
        step,
        step_id,
        runner,
        input,
        output: Some(cached_output),
        error: None,
        attempt: 1,
        validation: Some(String::from_str("cache")),
    };
    (event, log)
}

/// The note appended to a model's output when its input attachment was truncated.
pub open spec fn truncation_note() -> Seq<char> {
    "\n[lao: input artifact was truncated before reaching the model]"@
}

/// A local model step's output text: the model's text, with the truncation note
/// appended when the input was truncated.
pub fn model_output_text(text: &str, truncated: bool) -> (r: String)
    ensures
        r@ == if truncated {
            text@ + truncation_note()
        } else {
            text@
        },
{
    let mut m = chars_of(text);
    if truncated {
        push_str(&mut m, "\n[lao: input artifact was truncated before reaching the model]");
    }
    string_of(m.as_slice())
}

/// The outputs a loop step reports: every iteration's output when it collects
/// results; otherwise a single empty output (iterations are not collected).
pub fn loop_outputs(collect_results: bool, iteration_outputs: Vec<String>) -> (r: Vec<String>)
    ensures
        collect_results ==> r@ == iteration_outputs@,
        !collect_results ==> r@.len() == 1 && r@[0]@ == Seq::<char>::empty(),
{
    if collect_results {
        iteration_outputs
    } else {
        let mut r: Vec<String> = Vec::new();
        r.push(String::new());
        r
    }
}

/// The note a loop step's log carries: `loop:<n> iterations`.
pub fn loop_note(iterations: usize) -> (r: String)
    ensures
        r@ == "loop:"@ + decimal(iterations as nat) + " iterations"@,
{
    let mut m: Vec<char> = Vec::new();
    push_str(&mut m, "loop:");
    let d = decimal_chars(iterations as u64);
    push_all(&mut m, &d);
    push_str(&mut m, " iterations");
    string_of(m.as_slice())
}

/// The message a finished loop step's event carries: `Loop completed: <n> iterations`.
pub fn loop_message(iterations: usize) -> (r: String)
    ensures
        r@ == "Loop completed: "@ + decimal(iterations as nat) + " iterations"@,
{
    let mut m: Vec<char> = Vec::new();
    push_str(&mut m, "Loop completed: ");
    let d = decimal_chars(iterations as u64);
    push_all(&mut m, &d);
    push_str(&mut m, " iterations");
    string_of(m.as_slice())
}

} // verus!
