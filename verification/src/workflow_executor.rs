//! How workflows are run: concurrently or not, and whether and where run state is
//! recorded.
use vstd::prelude::*;

verus! {

/// Controls how workflows are executed and persisted.
#[derive(Debug, Clone)]
pub struct ExecutionOptions {
    /// Independent levels of the graph run concurrently.
    pub parallel: bool,
    /// Run state is persisted under `state_dir`.
    pub record_state: bool,
    pub state_dir: String,
}

impl ExecutionOptions {
    /// The defaults, with the state directory taken from `state_dir_override` (the
    /// value of `LAO_STATE_DIR`) when it is set, `workflow_states` otherwise.
    pub fn with_state_dir_override(state_dir_override: Option<String>) -> (r: Self)
        ensures
            r.parallel,
            r.record_state,
            r.state_dir@ == match state_dir_override {
                Some(d) => d@,
                None => "workflow_states"@,
            },
    {
        ExecutionOptions {
            parallel: true,
            record_state: true,
            state_dir: match state_dir_override {
                Some(d) => d,
                None => String::from_str("workflow_states"),
            },
        }
    }
}

impl Default for ExecutionOptions {
    /// Parallel, recording state under `workflow_states`.
    fn default() -> (r: Self)
        ensures
            r.parallel,
            r.record_state,
            r.state_dir@ == "workflow_states"@,
    {
        ExecutionOptions::with_state_dir_override(None)
    }
}

/// The shared workflow runner's configuration.
pub struct WorkflowExecutor {
    options: ExecutionOptions,
}

impl WorkflowExecutor {
    /// The options the executor runs with.
    pub closed spec fn settings(&self) -> ExecutionOptions {
        self.options
    }

    /// An executor with `options`.
    pub fn new(options: ExecutionOptions) -> (r: Self)
        ensures
            r.settings() == options,
    {
        WorkflowExecutor { options }
    }

    /// An executor with the default options.
    pub fn with_defaults() -> (r: Self)
        ensures
            r.settings().parallel,
            r.settings().record_state,
            r.settings().state_dir@ == "workflow_states"@,
    {
        WorkflowExecutor::new(ExecutionOptions::default())
    }

    /// The executor's options.
    pub fn options(&self) -> (r: &ExecutionOptions)
        ensures
            *r == self.settings(),
    {
        &self.options
    }
}

} // verus!
