//! Step-level helpers: `${step}` placeholder substitution, default cache keys and
//! step conditions.
use vstd::prelude::*;
use crate::text::{chars_of, contains, has_infix, push_all, push_str, replace_all, replace_chars, str_eq, string_of};
use vstd::utf8::encode_utf8;
use crate::workflow_types::{ConditionOperator, ConditionType, StepCondition, StepLog, WorkflowStep};

verus! {

/// The placeholder that stands for the output of `key`: `${key}`.
pub open spec fn placeholder(key: Seq<char>) -> Seq<char> {
    "${"@ + key + "}"@
}

/// Replaces the placeholder of every `(key, value)` pair in turn, in list order.
pub open spec fn substituted(s: Seq<char>, outputs: Seq<(String, String)>) -> Seq<char>
    decreases outputs.len(),
{
    if outputs.len() == 0 {
        s
    } else {
        let last = outputs.last();
        replace_all(substituted(s, outputs.drop_last()), placeholder(last.0@), last.1@)
    }
}

/// Replaces each `${key}` in `s` by the output recorded for `key`, one key after the
/// other in the order of `outputs`.
pub fn substitute_vars(s: &str, outputs: &Vec<(String, String)>) -> (r: String)
    ensures
        r@ == substituted(s@, outputs@),
{
    let mut result = chars_of(s);
    let mut i: usize = 0;
    assert(outputs@.subrange(0, 0) =~= Seq::<(String, String)>::empty());
    while i < outputs.len()
        invariant
            i <= outputs@.len(),
            result@ == substituted(s@, outputs@.subrange(0, i as int)),
        decreases outputs@.len() - i,
    {
        let mut pat: Vec<char> = Vec::new();
        push_str(&mut pat, "${");
        push_str(&mut pat, outputs[i].0.as_str());
        push_str(&mut pat, "}");
        proof {
            reveal_strlit("${");
            reveal_strlit("}");
        }
        assert(pat@ == placeholder(outputs@[i as int].0@));
        let value = chars_of(outputs[i].1.as_str());
        result = replace_chars(&result, &pat, &value);
        assert(outputs@.subrange(0, i + 1).drop_last() =~= outputs@.subrange(0, i as int));
        i = i + 1;
    }
    assert(outputs@.subrange(0, outputs@.len() as int) =~= outputs@);
    string_of(result.as_slice())
}

/// Position of the first log of step `id`.
pub open spec fn first_log_of(logs: Seq<StepLog>, id: Seq<char>) -> Option<int> {
    if exists|i: int| 0 <= i < logs.len() && (#[trigger] logs[i]).step_id@ == id {
        Some(
            choose|i: int|
                0 <= i < logs.len() && (#[trigger] logs[i]).step_id@ == id && forall|j: int|
                    0 <= j < i ==> (#[trigger] logs[j]).step_id@ != id,
        )
    } else {
        None
    }
}

/// A step's status as conditions see it.
pub open spec fn status_text(log: StepLog) -> Seq<char> {
    if log.error is Some {
        "error"@
    } else {
        "success"@
    }
}

/// Applies a containment operator; other operators never hold.
pub open spec fn containment(op: ConditionOperator, text: Seq<char>, operand: Seq<char>) -> bool {
    match op {
        ConditionOperator::Contains => has_infix(text, operand),
        ConditionOperator::NotContains => !has_infix(text, operand),
        _ => false,
    }
}

/// Applies an equality operator; other operators never hold.
pub open spec fn equality(op: ConditionOperator, text: Seq<char>, operand: Seq<char>) -> bool {
    match op {
        ConditionOperator::Equals => text == operand,
        ConditionOperator::NotEquals => text != operand,
        _ => false,
    }
}

/// Whether a condition holds against the logs, looking at step `id` (or, for
/// `PreviousStepStatus`, at the last log).
pub open spec fn condition_holds(c: StepCondition, logs: Seq<StepLog>, id: Seq<char>) -> bool {
    match c.condition_type {
        ConditionType::OutputContains => match first_log_of(logs, id) {
            Some(i) => match logs[i].output {
                Some(o) => containment(c.operator, o@, c.value@),
                None => false,
            },
            None => false,
        },
        ConditionType::OutputEquals => match first_log_of(logs, id) {
            Some(i) => match logs[i].output {
                Some(o) => equality(c.operator, o@, c.value@),
                None => false,
            },
            None => false,
        },
        ConditionType::StatusEquals => match first_log_of(logs, id) {
            Some(i) => equality(c.operator, status_text(logs[i]), c.value@),
            None => false,
        },
        ConditionType::ErrorContains => match first_log_of(logs, id) {
            Some(i) => match logs[i].error {
                Some(e) => containment(c.operator, e@, c.value@),
                None => false,
            },
            None => false,
        },
        ConditionType::PreviousStepStatus => if logs.len() > 0 {
            equality(c.operator, status_text(logs.last()), c.value@)
        } else {
            false
        },
    }
}

fn find_log(logs: &[StepLog], step_id: &str) -> (r: Option<usize>)
    ensures
        r matches Some(i) ==> i < logs@.len() && first_log_of(logs@, step_id@) == Some(i as int),
        r is None ==> first_log_of(logs@, step_id@) is None,
{
    let mut i: usize = 0;
    while i < logs.len()
        invariant
            i <= logs@.len(),
            forall|j: int| 0 <= j < i ==> (#[trigger] logs@[j]).step_id@ != step_id@,
        decreases logs@.len() - i,
    {
        if str_eq(logs[i].step_id.as_str(), step_id) {
            proof {
                assert(logs@[i as int].step_id@ == step_id@);
                let c = choose|c: int|
                    0 <= c < logs@.len() && (#[trigger] logs@[c]).step_id@ == step_id@ && forall|
                        j: int,
                    | 0 <= j < c ==> (#[trigger] logs@[j]).step_id@ != step_id@;
                if c < i {
                } else if c > i {
                    assert(logs@[i as int].step_id@ != step_id@);
                }
            }
            return Some(i);
        }
        i = i + 1;
    }
    None
}

fn apply_containment(op: ConditionOperator, text: &str, operand: &str) -> (r: bool)
    ensures
        r == containment(op, text@, operand@),
{
    match op {
        ConditionOperator::Contains => contains(&chars_of(text), &chars_of(operand)),
        ConditionOperator::NotContains => !contains(&chars_of(text), &chars_of(operand)),
        _ => false,
    }
}

fn apply_equality(op: ConditionOperator, text: &str, operand: &str) -> (r: bool)
    ensures
        r == equality(op, text@, operand@),
{
    match op {
        ConditionOperator::Equals => str_eq(text, operand),
        ConditionOperator::NotEquals => !str_eq(text, operand),
        _ => false,
    }
}

fn status_of(log: &StepLog) -> (r: &'static str)
    ensures
        r@ == status_text(*log),
{
    if log.error.is_some() {
        "error"
    } else {
        "success"
    }
}

/// Evaluates a step condition against the logs of the steps run so far.
pub fn evaluate_condition(condition: &StepCondition, step_logs: &[StepLog], step_id: &str) -> (r:
    bool)
    ensures
        r == condition_holds(*condition, step_logs@, step_id@),
{
    match condition.condition_type {
        ConditionType::OutputContains => {
            if let Some(i) = find_log(step_logs, step_id) {
                if let Some(output) = &step_logs[i].output {
                    apply_containment(condition.operator, output.as_str(), condition.value.as_str())
                } else {
                    false
                }
            } else {
                false
            }
        },
        ConditionType::OutputEquals => {
            if let Some(i) = find_log(step_logs, step_id) {
                if let Some(output) = &step_logs[i].output {
                    apply_equality(condition.operator, output.as_str(), condition.value.as_str())
                } else {
                    false
                }
            } else {
                false
            }
        },
        ConditionType::StatusEquals => {
            if let Some(i) = find_log(step_logs, step_id) {
                let status = status_of(&step_logs[i]);
                apply_equality(condition.operator, status, condition.value.as_str())
            } else {
                false
            }
        },
        ConditionType::ErrorContains => {
            if let Some(i) = find_log(step_logs, step_id) {
                if let Some(error) = &step_logs[i].error {
                    apply_containment(condition.operator, error.as_str(), condition.value.as_str())
                } else {
                    false
                }
            } else {
                false
            }
        },
        ConditionType::PreviousStepStatus => {
            if step_logs.len() > 0 {
                let status = status_of(&step_logs[step_logs.len() - 1]);
                apply_equality(condition.operator, status, condition.value.as_str())
            } else {
                false
            }
        },
    }
}

/// Whether a step runs: always when it has no condition, otherwise when its condition
/// holds for the given dependency (or, without one, for the condition's own field).
pub open spec fn step_runs(step: WorkflowStep, logs: Seq<StepLog>, dep: Option<Seq<char>>) -> bool {
    match step.condition {
        Some(c) => match dep {
            Some(d) => condition_holds(c, logs, d),
            None => condition_holds(c, logs, c.field@),
        },
        None => true,
    }
}

pub fn should_execute_step(step: &WorkflowStep, step_logs: &[StepLog], dependent_step_id: Option<
    &str,
>) -> (r: bool)
    ensures
        r == step_runs(
            *step,
            step_logs@,
            match dependent_step_id {
                Some(d) => Some(d@),
                None => None,
            },
        ),
{
    if let Some(condition) = &step.condition {
        if let Some(dep_id) = dependent_step_id {
            evaluate_condition(condition, step_logs, dep_id)
        } else {
            evaluate_condition(condition, step_logs, condition.field.as_str())
        }
    } else {
        true
    }
}

/// FNV-1a (64-bit) of `bytes`, started from 1469598103934665603: each byte is xored in and the
/// state multiplied by the FNV prime, wrapping.
pub open spec fn fnv1a(bytes: Seq<u8>) -> u64
    decreases bytes.len(),
{
    if bytes.len() == 0 {
        1469598103934665603u64
    } else {
        vstd::wrapping::u64_specs::wrapping_mul(
            fnv1a(bytes.drop_last()) ^ (bytes.last() as u64),
            1099511628211u64,
        )
    }
}

/// Lowercase hexadecimal digits of a natural number, most significant first, as
/// `{:x}` writes them.
pub open spec fn hex(n: nat) -> Seq<char>
    decreases n,
{
    if n < 16 {
        seq![hex_digit(n)]
    } else {
        hex(n / 16) + seq![hex_digit(n % 16)]
    }
}

pub open spec fn hex_digit(d: nat) -> char {
    if d < 10 {
        ((d + 48) as u8) as char
    } else {
        ((d + 87) as u8) as char
    }
}

fn hex_digit_char(d: u64) -> (c: char)
    requires
        d < 16,
    ensures
        c == hex_digit(d as nat),
{
    if d < 10 {
        ((d + 48) as u8) as char
    } else {
        ((d + 87) as u8) as char
    }
}

pub(crate) fn hex_chars(n: u64) -> (r: Vec<char>)
    ensures
        r@ == hex(n as nat),
    decreases n,
{
    if n < 16 {
        let mut r: Vec<char> = Vec::new();
        r.push(hex_digit_char(n));
        assert(r@ =~= seq![hex_digit(n as nat)]);
        r
    } else {
        let mut r = hex_chars(n / 16);
        r.push(hex_digit_char(n % 16));
        r
    }
}

/// The FNV-1a hash of a string's UTF-8 bytes.
pub(crate) fn fnv1a_of(s: &str) -> (h: u64)
    ensures
        h == fnv1a(encode_utf8(s@)),
{
    let bytes = s.as_bytes();
    let mut hash: u64 = 1469598103934665603u64;
    let mut i: usize = 0;
    assert(bytes@.subrange(0, 0) =~= Seq::<u8>::empty());
    while i < bytes.len()
        invariant
            i <= bytes@.len(),
            bytes@ == encode_utf8(s@),
            hash == fnv1a(bytes@.subrange(0, i as int)),
        decreases bytes@.len() - i,
    {
        let b = bytes[i];
        assert(bytes@.subrange(0, i + 1).drop_last() =~= bytes@.subrange(0, i as int));
        assert(bytes@.subrange(0, i + 1).last() == b);
        hash = hash ^ (b as u64);
        hash = hash.wrapping_mul(1099511628211u64);
        i = i + 1;
    }
    assert(bytes@.subrange(0, bytes@.len() as int) =~= bytes@);
    hash
}

/// The key a step is cached under when it names none:
/// `<plugin>-<plugin version>-<hex FNV-1a of the step's parameters text>`.
pub fn compute_default_cache_key(step: &WorkflowStep, plugin_version: &str) -> (r: String)
    ensures
        r@ == step.run@ + "-"@ + plugin_version@ + "-"@ + hex(fnv1a(encode_utf8(step.params@)) as nat),
{
    let h = fnv1a_of(step.params.as_str());
    let mut m = chars_of(step.run.as_str());
    push_str(&mut m, "-");
    push_str(&mut m, plugin_version);
    push_str(&mut m, "-");
    let hx = hex_chars(h);
    push_all(&mut m, &hx);
    string_of(m.as_slice())
}

/// Where a step's output is cached: `<cache dir>/<key>.json`, the key being the
/// step's own or its default one.
pub fn cache_file_path(cache_dir: &str, step: &WorkflowStep, plugin_version: &str) -> (r: String)
    ensures
        r@ == cache_dir@ + "/"@ + match step.cache_key {
            Some(k) => k@,
            None => step.run@ + "-"@ + plugin_version@ + "-"@ + hex(
                fnv1a(encode_utf8(step.params@)) as nat,
            ),
        } + ".json"@,
{
    let key = match &step.cache_key {
        Some(k) => k.clone(),
        None => compute_default_cache_key(step, plugin_version),
    };
    let mut m = chars_of(cache_dir);
    push_str(&mut m, "/");
    push_str(&mut m, key.as_str());
    push_str(&mut m, ".json");
    string_of(m.as_slice())
}

/// A status condition compares a step's outcome: the first log of the step reads as
/// `error` exactly when it records an error, and as `success` exactly when it
/// records none; for the previous-step form the same holds of the last log. So an
/// `Equals "error"` condition holds exactly on a failed step, and `Equals "success"`
/// exactly on a step that did not fail.
pub proof fn lemma_status_conditions_follow_the_error(
    c: StepCondition,
    logs: Seq<StepLog>,
    id: Seq<char>,
)
    requires
        c.operator == ConditionOperator::Equals,
    ensures
        c.condition_type == ConditionType::StatusEquals && first_log_of(logs, id) is Some
            && c.value@ == "error"@ ==> (condition_holds(c, logs, id) <==> logs[first_log_of(
            logs,
            id,
        )->0].error is Some),
        c.condition_type == ConditionType::StatusEquals && first_log_of(logs, id) is Some
            && c.value@ == "success"@ ==> (condition_holds(c, logs, id) <==> logs[first_log_of(
            logs,
            id,
        )->0].error is None),
        c.condition_type == ConditionType::PreviousStepStatus && logs.len() > 0 && c.value@
            == "error"@ ==> (condition_holds(c, logs, id) <==> logs.last().error is Some),
        c.condition_type == ConditionType::PreviousStepStatus && logs.len() > 0 && c.value@
            == "success"@ ==> (condition_holds(c, logs, id) <==> logs.last().error is None),
{
    reveal_strlit("error");
    reveal_strlit("success");
    assert("error"@ != "success"@) by {
        assert("error"@[0] != "success"@[0]);
    }
}

} // verus!
