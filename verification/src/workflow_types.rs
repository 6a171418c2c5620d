//! Workflow definitions: steps, the dependency graph built from them, step conditions
//! and the per-step execution log.
use vstd::prelude::*;

verus! {

/// Which part of an earlier step's log a condition inspects.
#[derive(Debug, Clone, Copy, PartialEq, Eq, Structural)]
pub enum ConditionType {
    OutputContains,
    OutputEquals,
    StatusEquals,
    ErrorContains,
    PreviousStepStatus,
}

/// How a condition compares the inspected value with its operand.
#[derive(Debug, Clone, Copy, PartialEq, Eq, Structural)]
pub enum ConditionOperator {
    Equals,
    NotEquals,
    Contains,
    NotContains,
    GreaterThan,
    LessThan,
}

/// A condition gating a step on the log of an earlier step.
#[derive(Debug, PartialEq)]
pub struct StepCondition {
    pub condition_type: ConditionType,
    /// The step id the condition refers to when no dependency is given.
    pub field: String,
    pub operator: ConditionOperator,
    pub value: String,
}

/// Where a loop's items come from: listed in the step (each item as YAML text), or
/// the output of an earlier step, named by its id.
#[derive(Debug, PartialEq)]
pub enum LoopItems {
    Array(Vec<String>),
    Reference(String),
}

/// How a step runs once per item: the items, the parameter each item is bound to,
/// whether every iteration's output is kept (else only the last), and how many
/// iterations run at once.
#[derive(Debug, PartialEq)]
pub struct LoopConfig {
    pub items: LoopItems,
    pub var: String,
    pub collect_results: bool,
    pub max_parallel: usize,
}

/// One step of a workflow. `params` holds the step's YAML parameters as text.
#[derive(Debug, PartialEq)]
pub struct WorkflowStep {
    pub run: String,
    pub params: String,
    pub retries: Option<u32>,
    pub retry_delay: Option<u64>,
    pub cache_key: Option<String>,
    pub input_from: Option<String>,
    pub depends_on: Option<Vec<String>>,
    pub condition: Option<StepCondition>,
    pub for_each: Option<LoopConfig>,
}

/// A named workflow.
#[derive(Debug, PartialEq)]
pub struct Workflow {
    pub workflow: String,
    pub steps: Vec<WorkflowStep>,
}

/// A step placed in the dependency graph, with the ids of the steps it reads from.
#[derive(Debug, PartialEq)]
pub struct DagNode {
    pub id: String,
    pub step: WorkflowStep,
    pub parents: Vec<String>,
}

/// The record of one executed step: its position in the run, its id and plugin, the
/// parameters it ran with (as YAML text), what it produced or the error it ended
/// with, the attempt that settled it, and a validation note (skipped, cache, ...).
#[derive(Debug, PartialEq)]
pub struct StepLog {
    pub step: usize,
    pub step_id: String,
    pub runner: String,
    pub input: String,
    pub output: Option<String>,
    pub error: Option<String>,
    pub attempt: u32,
    pub validation: Option<String>,
}

/// A progress event emitted while a step runs.
#[derive(Debug, PartialEq)]
pub struct StepEvent {
    pub step: usize,
    pub step_id: String,
    pub runner: String,
    pub status: String,
    pub attempt: u32,
    pub message: Option<String>,
    pub output: Option<String>,
    pub error: Option<String>,
}

impl Clone for StepCondition {
    fn clone(&self) -> (r: Self)
        ensures
            r == *self,
    {
        StepCondition {
            condition_type: self.condition_type,
            field: self.field.clone(),
            operator: self.operator,
            value: self.value.clone(),
        }
    }
}

fn clone_opt_string(s: &Option<String>) -> (r: Option<String>)
    ensures
        r == *s,
{
    match s {
        Some(x) => Some(x.clone()),
        None => None,
    }
}

/// A copy of a list of strings.
pub fn clone_strings(v: &Vec<String>) -> (r: Vec<String>)
    ensures
        r@ == v@,
{
    let mut r: Vec<String> = Vec::new();
    let mut i: usize = 0;
    while i < v.len()
        invariant
            i <= v@.len(),
            r@ == v@.subrange(0, i as int),
        decreases v@.len() - i,
    {
        r.push(v[i].clone());
        i = i + 1;
        assert(r@ =~= v@.subrange(0, i as int));
    }
    assert(v@.subrange(0, v@.len() as int) =~= v@);
    r
}

/// Two loop settings hold the same values (item lists compared by their contents).
pub open spec fn same_loop(a: LoopConfig, b: LoopConfig) -> bool {
    &&& a.var == b.var
    &&& a.collect_results == b.collect_results
    &&& a.max_parallel == b.max_parallel
    &&& match (a.items, b.items) {
        (LoopItems::Array(x), LoopItems::Array(y)) => x@ == y@,
        (LoopItems::Reference(x), LoopItems::Reference(y)) => x == y,
        _ => false,
    }
}

impl Clone for LoopConfig {
    fn clone(&self) -> (r: Self)
        ensures
            same_loop(r, *self),
    {
        let items = match &self.items {
            LoopItems::Array(v) => LoopItems::Array(clone_strings(v)),
            LoopItems::Reference(s) => LoopItems::Reference(s.clone()),
        };
        LoopConfig {
            items,
            var: self.var.clone(),
            collect_results: self.collect_results,
            max_parallel: self.max_parallel,
        }
    }
}

/// Two steps hold the same values (dependency lists compared by their contents).
pub open spec fn same_step(a: WorkflowStep, b: WorkflowStep) -> bool {
    &&& a.run == b.run
    &&& a.params == b.params
    &&& a.retries == b.retries
    &&& a.retry_delay == b.retry_delay
    &&& a.cache_key == b.cache_key
    &&& a.input_from == b.input_from
    &&& (a.depends_on is Some <==> b.depends_on is Some)
    &&& (a.depends_on is Some ==> a.depends_on->0@ == b.depends_on->0@)
    &&& a.condition == b.condition
    &&& (a.for_each is Some <==> b.for_each is Some)
    &&& (a.for_each is Some ==> same_loop(a.for_each->0, b.for_each->0))
}

impl Clone for WorkflowStep {
    fn clone(&self) -> (r: Self)
        ensures
            same_step(r, *self),
    {
        let depends_on = match &self.depends_on {
            Some(v) => Some(clone_strings(v)),
            None => None,
        };
        let condition = match &self.condition {
            Some(c) => Some(c.clone()),
            None => None,
        };
        let r = WorkflowStep {
            run: self.run.clone(),
            params: self.params.clone(),
            retries: self.retries,
            retry_delay: self.retry_delay,
            cache_key: clone_opt_string(&self.cache_key),
            input_from: clone_opt_string(&self.input_from),
            depends_on,
            condition,
            for_each: match &self.for_each {
                Some(l) => Some(l.clone()),
                None => None,
            },
        };
        r
    }
}

} // verus!
