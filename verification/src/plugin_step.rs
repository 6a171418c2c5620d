//! The lifecycle of one plugin step as a state machine: the host reports what it
//! observed (whether the plugin is registered, what the cache held, what a run gave
//! back, whether the cache was written, that it slept) and gets back the next state
//! and the actions to perform in order (look the plugin up, read or write the cache,
//! run the plugin, store the output, emit an event, record a log, sleep). The trust
//! gate is decided here, before every run.
use vstd::prelude::*;
use crate::plugin_result::{error_text, PluginRunResult, PluginRunStatus};
use crate::text::{owned, push_str, string_of};
use crate::trust::TrustPolicy;
use crate::workflow_helpers::{cache_file_path, fnv1a, hex};
use crate::workflow_types::{StepEvent, StepLog, WorkflowStep};
use vstd::utf8::encode_utf8;

verus! {

/// What the host observed since the last step of the machine.
pub enum StepObservation {
    /// The version of the plugin the step runs, or none when it is not registered.
    Plugin(Option<String>),
    /// The output the step's cache file held, when it held one that parses.
    Cached(Option<String>),
    /// What one run of the plugin gave back.
    Ran(PluginRunResult),
    /// Whether writing the step's output to its cache succeeded.
    CacheSaved(bool),
    /// The wait between attempts is over.
    Slept,
}

/// What the host is to do, in order.
pub enum StepAction {
    /// Find the plugin the step runs, and report its version.
    LookUpPlugin,
    /// Read the cache file at this path.
    ReadCache(String),
    /// Run the plugin once on the step's input.
    RunPlugin,
    /// Send the step's model request once, and report the answer.
    InvokeModel,
    /// Store this as the step's output, for the steps that read it.
    StoreOutput(String),
    /// Write this output to the cache file at this path.
    WriteCache(String, String),
    /// Send this progress event.
    Emit(StepEvent),
    /// Record this log.
    Log(StepLog),
    /// Wait this many milliseconds, then report `Slept`.
    Sleep(u64),
}

/// Where the machine stands.
pub enum PluginPhase {
    /// Waiting for the plugin lookup.
    LookingUp,
    /// Waiting for what the cache held.
    ReadingCache,
    /// Waiting for the current attempt's run.
    Running,
    /// Waiting for the cache write of this successful output.
    SavingCache(String),
    /// Waiting out the delay before the next attempt.
    Waiting,
    /// The step is over.
    Done,
}

/// One plugin step being carried out.
pub struct PluginStepState {
    pub phase: PluginPhase,
    /// The step's position among the steps run, as events and logs carry it.
    pub index: usize,
    pub step_id: String,
    /// The step as written: its plugin, parameters, retries, delay and cache key.
    pub step: WorkflowStep,
    /// The step's parameters after substitution, as its log records them.
    pub input: String,
    /// The text the trust gate checks for this plugin.
    pub input_text: String,
    pub cache_dir: String,
    /// Where the step's output is cached, once the plugin's version is known.
    pub cache_path: String,
    /// The current attempt, counted from one.
    pub attempt: u32,
    pub max_attempts: u32,
    pub retry_delay: u64,
}

/// An optional string as an optional character sequence.
pub open spec fn opt_view(o: Option<String>) -> Option<Seq<char>> {
    match o {
        Some(s) => Some(s@),
        None => None,
    }
}

impl PluginStepState {
    /// Attempts stay within the step's limit.
    pub open spec fn well_formed(&self) -> bool {
        1 <= self.attempt <= self.max_attempts
    }

    /// `e` is an event of this step with these values.
    pub open spec fn event_is(
        &self,
        e: StepEvent,
        status: Seq<char>,
        attempt: u32,
        message: Option<Seq<char>>,
        output: Option<Seq<char>>,
        error: Option<Seq<char>>,
    ) -> bool {
        &&& e.step == self.index
        &&& e.step_id@ == self.step_id@
        &&& e.runner@ == self.step.run@
        &&& e.status@ == status
        &&& e.attempt == attempt
        &&& opt_view(e.message) == message
        &&& opt_view(e.output) == output
        &&& opt_view(e.error) == error
    }

    /// `l` is a log of this step with these values.
    pub open spec fn log_is(
        &self,
        l: StepLog,
        attempt: u32,
        output: Option<Seq<char>>,
        error: Option<Seq<char>>,
        validation: Option<Seq<char>>,
    ) -> bool {
        &&& l.step == self.index
        &&& l.step_id@ == self.step_id@
        &&& l.runner@ == self.step.run@
        &&& l.input@ == self.input@
        &&& opt_view(l.output) == output
        &&& opt_view(l.error) == error
        &&& l.attempt == attempt
        &&& opt_view(l.validation) == validation
    }

    /// `r` is this step with the phase, attempt and cache path changed at most.
    pub open spec fn same_step(&self, r: PluginStepState) -> bool {
        &&& r.index == self.index
        &&& r.step_id == self.step_id
        &&& r.step == self.step
        &&& r.input == self.input
        &&& r.input_text == self.input_text
        &&& r.cache_dir == self.cache_dir
        &&& r.max_attempts == self.max_attempts
        &&& r.retry_delay == self.retry_delay
    }

    /// The current attempt failed with `err`: an `attempt failed` event, then a wait
    /// and the next attempt while attempts remain, else the final log at the last
    /// attempt.
    pub open spec fn fails(&self, err: Seq<char>, r: PluginStepState, acts: Seq<StepAction>) -> bool {
        &&& self.same_step(r)
        &&& r.cache_path == self.cache_path
        &&& acts.len() == 2
        &&& acts[0] matches StepAction::Emit(e) && self.event_is(
            e,
            "error"@,
            self.attempt,
            Some("attempt failed"@),
            None,
            Some(err),
        )
        &&& if self.attempt < self.max_attempts {
            &&& r.phase is Waiting
            &&& r.attempt == self.attempt + 1
            &&& acts[1] == StepAction::Sleep(self.retry_delay)
        } else {
            &&& r.phase is Done
            &&& r.attempt == self.attempt
            &&& acts[1] matches StepAction::Log(l) && self.log_is(
                l,
                self.max_attempts,
                None,
                Some(err),
                None,
            )
        }
    }

    /// The current attempt starts: a `running` event (`retrying` from the second
    /// attempt on), then the trust check of the step's input: on approval the plugin
    /// runs, on refusal the attempt fails with the refusal's text.
    pub open spec fn starts_attempt(
        &self,
        policy: TrustPolicy,
        r: PluginStepState,
        acts: Seq<StepAction>,
    ) -> bool {
        &&& acts.len() >= 1
        &&& acts[0] matches StepAction::Emit(e) && self.event_is(
            e,
            "running"@,
            self.attempt,
            if self.attempt > 1 {
                Some("retrying"@)
            } else {
                None
            },
            None,
            None,
        )
        &&& match policy.step_input_verdict(self.step.run@, self.input_text@) {
            Ok(_) => {
                &&& self.same_step(r)
                &&& r.cache_path == self.cache_path
                &&& r.attempt == self.attempt
                &&& r.phase is Running
                &&& acts.len() == 2
                &&& acts[1] is RunPlugin
            },
            Err(m) => self.fails(m, r, acts.drop_first()),
        }
    }

    /// The step succeeded with `out` and is over: a `success` event and a log of the
    /// output, noted `saved` when the cache was written.
    pub open spec fn succeeds(
        &self,
        out: Seq<char>,
        saved: bool,
        r: PluginStepState,
        acts: Seq<StepAction>,
    ) -> bool {
        &&& self.same_step(r)
        &&& r.cache_path == self.cache_path
        &&& r.attempt == self.attempt
        &&& r.phase is Done
        &&& acts.len() == 2
        &&& acts[0] matches StepAction::Emit(e) && self.event_is(
            e,
            "success"@,
            self.attempt,
            None,
            Some(out),
            None,
        )
        &&& acts[1] matches StepAction::Log(l) && self.log_is(
            l,
            self.attempt,
            Some(out),
            None,
            if saved {
                Some("saved"@)
            } else {
                None
            },
        )
    }
}

/// The output a successful run gives: its output text, empty when it has none.
pub open spec fn run_output(res: PluginRunResult) -> Seq<char> {
    match res.output {
        Some(o) => o@,
        None => Seq::empty(),
    }
}

/// Where a step's output is cached for a plugin at `version`.
pub open spec fn cache_path_for(cache_dir: Seq<char>, step: WorkflowStep, version: Seq<char>) -> Seq<char> {
    cache_dir + "/"@ + match step.cache_key {
        Some(k) => k@,
        None => step.run@ + "-"@ + version + "-"@ + hex(fnv1a(encode_utf8(step.params@)) as nat),
    } + ".json"@
}

/// One step of the machine: from `s`, having observed `seen`, the machine moves to
/// `r` and asks for `acts`. An observation that does not answer what the phase
/// waits for changes nothing and asks for nothing.
pub open spec fn plugin_step_spec(
    policy: TrustPolicy,
    s: PluginStepState,
    seen: StepObservation,
    r: PluginStepState,
    acts: Seq<StepAction>,
) -> bool {
    match (s.phase, seen) {
        (PluginPhase::LookingUp, StepObservation::Plugin(None)) => {
            let m = "Plugin '"@ + s.step.run@ + "' not found"@;
            &&& s.same_step(r)
            &&& r.cache_path == s.cache_path
            &&& r.attempt == s.attempt
            &&& r.phase is Done
            &&& acts.len() == 2
            &&& acts[0] matches StepAction::Emit(e) && s.event_is(
                e,
                "error"@,
                1,
                Some(m),
                None,
                Some(m),
            )
            &&& acts[1] matches StepAction::Log(l) && s.log_is(
                l,
                1,
                None,
                Some("Plugin not found"@),
                None,
            )
        },
        (PluginPhase::LookingUp, StepObservation::Plugin(Some(v))) => {
            &&& s.same_step(r)
            &&& r.attempt == s.attempt
            &&& r.phase is ReadingCache
            &&& r.cache_path@ == cache_path_for(s.cache_dir@, s.step, v@)
            &&& acts.len() == 1
            &&& acts[0] matches StepAction::ReadCache(p) && p@ == r.cache_path@
        },
        (PluginPhase::ReadingCache, StepObservation::Cached(Some(out))) => {
            &&& s.same_step(r)
            &&& r.cache_path == s.cache_path
            &&& r.attempt == s.attempt
            &&& r.phase is Done
            &&& acts.len() == 3
            &&& acts[0] matches StepAction::StoreOutput(o) && o@ == out@
            &&& acts[1] matches StepAction::Emit(e) && s.event_is(
                e,
                "cache"@,
                1,
                Some("cache hit"@),
                Some(out@),
                None,
            )
            &&& acts[2] matches StepAction::Log(l) && s.log_is(
                l,
                1,
                Some(out@),
                None,
                Some("cache"@),
            )
        },
        (PluginPhase::ReadingCache, StepObservation::Cached(None)) => s.starts_attempt(
            policy,
            r,
            acts,
        ),
        (PluginPhase::Waiting, StepObservation::Slept) => s.starts_attempt(policy, r, acts),
        (PluginPhase::Running, StepObservation::Ran(res)) => {
            if res.status == PluginRunStatus::Success {
                let out = run_output(res);
                match s.step.cache_key {
                    Some(_) => {
                        &&& s.same_step(r)
                        &&& r.cache_path == s.cache_path
                        &&& r.attempt == s.attempt
                        &&& r.phase matches PluginPhase::SavingCache(o) && o@ == out
                        &&& acts.len() == 2
                        &&& acts[0] matches StepAction::StoreOutput(o) && o@ == out
                        &&& acts[1] matches StepAction::WriteCache(p, o) && p@ == s.cache_path@ && o@
                            == out
                    },
                    None => {
                        &&& acts.len() == 3
                        &&& acts[0] matches StepAction::StoreOutput(o) && o@ == out
                        &&& s.succeeds(out, false, r, acts.drop_first())
                    },
                }
            } else {
                s.fails(error_text(res), r, acts)
            }
        },
        (PluginPhase::SavingCache(out), StepObservation::CacheSaved(ok)) => s.succeeds(
            out@,
            ok,
            r,
            acts,
        ),
        _ => r == s && acts.len() == 0,
    }
}

/// The machine waited for a run, and the run succeeded.
pub open spec fn run_succeeded(s: PluginStepState, seen: StepObservation) -> bool {
    s.phase is Running && match seen {
        StepObservation::Ran(res) => res.status == PluginRunStatus::Success,
        _ => false,
    }
}

/// The machine waited for the cache, and it held an output.
pub open spec fn cache_was_hit(s: PluginStepState, seen: StepObservation) -> bool {
    s.phase is ReadingCache && match seen {
        StepObservation::Cached(Some(_)) => true,
        _ => false,
    }
}

/// The actions ask for a run.
pub open spec fn runs(acts: Seq<StepAction>) -> bool {
    exists|i: int| 0 <= i < acts.len() && acts[i] is RunPlugin
}

/// The actions store an output.
pub open spec fn stores(acts: Seq<StepAction>) -> bool {
    exists|i: int| 0 <= i < acts.len() && acts[i] is StoreOutput
}

/// The actions write the cache.
pub open spec fn writes_cache(acts: Seq<StepAction>) -> bool {
    exists|i: int| 0 <= i < acts.len() && acts[i] is WriteCache
}

fn copy_opt(o: &Option<String>) -> (r: Option<String>)
    ensures
        r == *o,
{
    match o {
        Some(s) => Some(s.clone()),
        None => None,
    }
}

impl PluginStepState {
    /// A step about to start: the machine first asks for the plugin lookup.
    pub fn start(
        index: usize,
        step_id: String,
        step: WorkflowStep,
        input: String,
        input_text: String,
        cache_dir: String,
    ) -> (r: (PluginStepState, Vec<StepAction>))
        requires
            step.retries != Some(u32::MAX),
        ensures
            r.0.phase is LookingUp,
            r.0.index == index,
            r.0.step_id == step_id,
            r.0.step == step,
            r.0.input == input,
            r.0.input_text == input_text,
            r.0.cache_dir == cache_dir,
            r.0.attempt == 1,
            r.0.max_attempts == crate::step_run::attempts_for(step.retries),
            r.0.retry_delay == crate::step_run::delay_for(step.retry_delay),
            r.0.well_formed(),
            r.1@.len() == 1,
            r.1@[0] is LookUpPlugin,
    {
        let max = crate::step_run::max_attempts(step.retries);
        let delay = match step.retry_delay {
            Some(d) => d,
            None => 1000,
        };
        let st = PluginStepState {
            phase: PluginPhase::LookingUp,
            index,
            step_id,
            step,
            input,
            input_text,
            cache_dir,
            cache_path: String::new(),
            attempt: 1,
            max_attempts: max,
            retry_delay: delay,
        };
        let mut acts: Vec<StepAction> = Vec::new();
        acts.push(StepAction::LookUpPlugin);
        (st, acts)
    }

    fn event(
        &self,
        status: &str,
        attempt: u32,
        message: Option<String>,
        output: Option<String>,
        error: Option<String>,
    ) -> (e: StepEvent)
        ensures
            self.event_is(e, status@, attempt, opt_view(message), opt_view(output), opt_view(error)),
    {
        StepEvent {
            step: self.index,
            step_id: self.step_id.clone(),
            runner: self.step.run.clone(),
            status: owned(status),
            attempt,
            message,
            output,
            error,
        }
    }

    fn log(
        &self,
        attempt: u32,
        output: Option<String>,
        error: Option<String>,
        validation: Option<String>,
    ) -> (l: StepLog)
        ensures
            self.log_is(l, attempt, opt_view(output), opt_view(error), opt_view(validation)),
    {
        StepLog {
            step: self.index,
            step_id: self.step_id.clone(),
            runner: self.step.run.clone(),
            input: self.input.clone(),
            output,
            error,
            attempt,
            validation,
        }
    }

    /// The failure of the current attempt with `err`.
    fn fail_attempt(self, err: String) -> (r: (PluginStepState, Vec<StepAction>))
        requires
            self.well_formed(),
        ensures
            self.fails(err@, r.0, r.1@),
            r.0.well_formed(),
    {
        let mut acts: Vec<StepAction> = Vec::new();
        let ev = self.event("error", self.attempt, Some(owned("attempt failed")), None, Some(err.clone()));
        acts.push(StepAction::Emit(ev));
        if self.attempt < self.max_attempts {
            acts.push(StepAction::Sleep(self.retry_delay));
            let next = PluginStepState { phase: PluginPhase::Waiting, attempt: self.attempt + 1, ..self };
            (next, acts)
        } else {
            let lg = self.log(self.max_attempts, None, Some(err), None);
            acts.push(StepAction::Log(lg));
            let next = PluginStepState { phase: PluginPhase::Done, ..self };
            (next, acts)
        }
    }

    /// The start of the current attempt, through the trust gate.
    fn begin_attempt(self, policy: &TrustPolicy) -> (r: (PluginStepState, Vec<StepAction>))
        requires
            self.well_formed(),
        ensures
            self.starts_attempt(*policy, r.0, r.1@),
            r.0.well_formed(),
    {
        let message = if self.attempt > 1 {
            Some(owned("retrying"))
        } else {
            None
        };
        let ev = self.event("running", self.attempt, message, None, None);
        match policy.validate_step_input(self.step.run.as_str(), self.input_text.as_str()) {
            Ok(()) => {
                let mut acts: Vec<StepAction> = Vec::new();
                acts.push(StepAction::Emit(ev));
                acts.push(StepAction::RunPlugin);
                let next = PluginStepState { phase: PluginPhase::Running, ..self };
                (next, acts)
            },
            Err(e) => {
                let ghost s0 = self;
                let (next, rest) = self.fail_attempt(e);
                let mut acts: Vec<StepAction> = Vec::new();
                acts.push(StepAction::Emit(ev));
                let mut rest = rest;
                let ghost tail = rest@;
                acts.append(&mut rest);
                assert(acts@.drop_first() =~= tail);
                (next, acts)
            },
        }
    }

    /// The end of the step with output `out`.
    fn succeed(self, out: String, saved: bool) -> (r: (PluginStepState, Vec<StepAction>))
        ensures
            self.succeeds(out@, saved, r.0, r.1@),
            self.well_formed() ==> r.0.well_formed(),
    {
        let mut acts: Vec<StepAction> = Vec::new();
        let ev = self.event("success", self.attempt, None, Some(out.clone()), None);
        acts.push(StepAction::Emit(ev));
        let validation = if saved {
            Some(owned("saved"))
        } else {
            None
        };
        let lg = self.log(self.attempt, Some(out), None, validation);
        acts.push(StepAction::Log(lg));
        let next = PluginStepState { phase: PluginPhase::Done, ..self };
        (next, acts)
    }
}

/// The next state and actions of a plugin step, given what the host observed.
pub fn plugin_step_next(policy: &TrustPolicy, state: PluginStepState, seen: StepObservation) -> (r: (
    PluginStepState,
    Vec<StepAction>,
))
    requires
        state.well_formed(),
    ensures
        plugin_step_spec(*policy, state, seen, r.0, r.1@),
        r.0.well_formed(),
{
    let ghost s0 = state;
    let mut state = state;
    let mut phase = PluginPhase::Done;
    std::mem::swap(&mut phase, &mut state.phase);
    match (phase, seen) {
        (PluginPhase::LookingUp, StepObservation::Plugin(None)) => {
            let mut m: Vec<char> = Vec::new();
            push_str(&mut m, "Plugin '");
            push_str(&mut m, state.step.run.as_str());
            push_str(&mut m, "' not found");
            let text = string_of(m.as_slice());
            let ev = state.event("error", 1, Some(text.clone()), None, Some(text));
            let lg = state.log(1, None, Some(owned("Plugin not found")), None);
            let mut acts: Vec<StepAction> = Vec::new();
            acts.push(StepAction::Emit(ev));
            acts.push(StepAction::Log(lg));
            (PluginStepState { phase: PluginPhase::Done, ..state }, acts)
        },
        (PluginPhase::LookingUp, StepObservation::Plugin(Some(v))) => {
            let path = cache_file_path(state.cache_dir.as_str(), &state.step, v.as_str());
            let mut acts: Vec<StepAction> = Vec::new();
            acts.push(StepAction::ReadCache(path.clone()));
            (PluginStepState { phase: PluginPhase::ReadingCache, cache_path: path, ..state }, acts)
        },
        (PluginPhase::ReadingCache, StepObservation::Cached(Some(out))) => {
            let ev = state.event("cache", 1, Some(owned("cache hit")), Some(out.clone()), None);
            let lg = state.log(1, Some(out.clone()), None, Some(owned("cache")));
            let mut acts: Vec<StepAction> = Vec::new();
            acts.push(StepAction::StoreOutput(out));
            acts.push(StepAction::Emit(ev));
            acts.push(StepAction::Log(lg));
            (PluginStepState { phase: PluginPhase::Done, ..state }, acts)
        },
        (PluginPhase::ReadingCache, StepObservation::Cached(None)) => {
            state.begin_attempt(policy)
        },
        (PluginPhase::Waiting, StepObservation::Slept) => {
            state.begin_attempt(policy)
        },
        (PluginPhase::Running, StepObservation::Ran(res)) => {
            let st = state;
            if res.status == PluginRunStatus::Success {
                let out = match res.output {
                    Some(o) => o,
                    None => String::new(),
                };
                match &st.step.cache_key {
                    Some(_) => {
                        let mut acts: Vec<StepAction> = Vec::new();
                        acts.push(StepAction::StoreOutput(out.clone()));
                        acts.push(StepAction::WriteCache(st.cache_path.clone(), out.clone()));
                        (PluginStepState { phase: PluginPhase::SavingCache(out), ..st }, acts)
                    },
                    None => {
                        let (next, rest) = st.succeed(out.clone(), false);
                        let mut acts: Vec<StepAction> = Vec::new();
                        acts.push(StepAction::StoreOutput(out));
                        let mut rest = rest;
                        let ghost tail = rest@;
                        acts.append(&mut rest);
                        assert(acts@.drop_first() =~= tail);
                        (next, acts)
                    },
                }
            } else {
                let err = res.display_error();
                st.fail_attempt(err)
            }
        },
        (PluginPhase::SavingCache(out), StepObservation::CacheSaved(ok)) => {
            state.succeed(out, ok)
        },
        (phase, seen) => {
            let st = PluginStepState { phase, ..state };
            assert(st == s0);
            (st, Vec::new())
        },
    }
}

/// What one step of the machine keeps, whatever it observed: a missing plugin ends
/// the step with exactly one error event and one log and no run; a run is asked for
/// only after the trust gate passed for the step's input, and within the step's
/// attempts; an output is stored only after a successful run or a cache hit; the
/// cache is written only for a step that names a cache key, and always after its
/// successful run; a finished step asks for nothing more.
pub proof fn lemma_plugin_step_laws(
    policy: TrustPolicy,
    s: PluginStepState,
    seen: StepObservation,
    r: PluginStepState,
    acts: Seq<StepAction>,
)
    requires
        s.well_formed(),
        plugin_step_spec(policy, s, seen, r, acts),
    ensures
        (s.phase is LookingUp && seen matches StepObservation::Plugin(None)) ==> (acts.len() == 2
            && acts[0] is Emit && acts[1] is Log && !runs(acts) && r.phase is Done),
        runs(acts) ==> (policy.step_input_verdict(s.step.run@, s.input_text@) is Ok
            && r.phase is Running && 1 <= r.attempt <= r.max_attempts),
        stores(acts) ==> (run_succeeded(s, seen) || cache_was_hit(s, seen)),
        writes_cache(acts) ==> s.step.cache_key is Some,
        run_succeeded(s, seen) ==> (writes_cache(acts) <==> s.step.cache_key is Some),
        run_succeeded(s, seen) ==> !(r.phase is Waiting) && !runs(acts),
        s.phase is Done ==> acts.len() == 0 && r == s,
{
    if runs(acts) {
        let i = choose|i: int| 0 <= i < acts.len() && acts[i] is RunPlugin;
    }
    if stores(acts) {
        let i = choose|i: int| 0 <= i < acts.len() && acts[i] is StoreOutput;
    }
    if writes_cache(acts) {
        let i = choose|i: int| 0 <= i < acts.len() && acts[i] is WriteCache;
    }
    if run_succeeded(s, seen) && s.step.cache_key is Some {
        assert(acts[1] is WriteCache);
    }
}

} // verus!
