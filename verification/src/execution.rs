//! The structured outcome of one step: its status, its typed outputs, the error it
//! ended with and what it ran as. A plugin's already-decided result is turned into
//! this outcome in one place, `adapt`.
use vstd::prelude::*;
use crate::plugin_result::{PluginRunResult, PluginRunStatus};
use crate::text::str_eq;
use crate::plugin_info::{PluginCapability, PluginInfo, PluginInputType, PluginOutputType};
use crate::trust::{capability_class_for_manifest, manifest_class, CapabilityClass};

verus! {

/// How a step ended.
#[derive(Debug, Clone, Copy, PartialEq, Eq, Structural)]
pub enum StepStatus {
    Success,
    Failed,
    Skipped,
}

/// Why a step failed.
#[derive(Debug, Clone, Copy, PartialEq, Eq, Structural)]
pub enum StepErrorKind {
    /// The plugin rejected its input.
    ValidationFailed,
    /// The plugin reported a runtime failure.
    RuntimeError,
    /// The plugin reported success with empty output.
    EmptyOutput,
    /// The plugin's output text began with `error:`.
    ErrorOutput,
    /// The trust policy denied the step before the plugin ran.
    TrustDenied,
    /// No plugin is registered under the step's name.
    PluginNotFound,
    /// Reading or writing the step cache failed.
    CacheError,
}

/// The error a step ended with.
#[derive(Debug, Clone, PartialEq, Eq)]
pub struct StepError {
    pub kind: StepErrorKind,
    pub message: String,
}

/// What a step ran as and how.
#[derive(Debug, Clone, PartialEq)]
pub struct StepMetadata {
    pub plugin_name: String,
    pub plugin_version: Option<String>,
    pub attempt: u32,
    pub duration_ms: u64,
    pub cache_hit: bool,
}

/// Where a plugin runs.
#[derive(Debug, Clone, Copy, PartialEq, Eq, Structural)]
pub enum ExecutionMode {
    InProcess,
    Subprocess,
}

/// A file a step produced.
#[derive(Debug, Clone, PartialEq)]
pub struct FileArtifact {
    pub path: String,
    pub mime_type: Option<String>,
    pub size_bytes: Option<u64>,
}

/// The result of a command a step ran.
#[derive(Debug, Clone, PartialEq)]
pub struct CommandResultArtifact {
    pub exit_code: i32,
    pub stdout: String,
    pub stderr: String,
}

/// The result of a read-only code-graph query, with where it came from. The query's
/// payload is held as its JSON text.
#[derive(Debug, Clone, PartialEq)]
pub struct CodeGraphArtifact {
    pub provider: String,
    pub provider_version: Option<String>,
    pub repo_root: String,
    pub git_revision: Option<String>,
    pub dirty: bool,
    pub indexed_at: Option<String>,
    pub operation: String,
    pub payload: String,
}

/// A typed value a step produced. Structured JSON is held as its JSON text; a
/// floating-point result has no variant here.
#[derive(Debug, Clone, PartialEq)]
pub enum Artifact {
    Null,
    Text(String),
    Json(String),
    Integer(i64),
    Boolean(bool),
    File(FileArtifact),
    FileSet(Vec<FileArtifact>),
    CommandResult(CommandResultArtifact),
    CodeGraph(CodeGraphArtifact),
}

/// A step's structured result: its status, its named outputs, the error it ended with
/// and what it ran as.
#[derive(Debug, Clone, PartialEq)]
pub struct StepResult {
    pub status: StepStatus,
    pub outputs: Vec<(String, Artifact)>,
    pub error: Option<StepError>,
    pub metadata: StepMetadata,
}

/// The text of the first output named `output`, when that output is text.
pub open spec fn primary_text(outputs: Seq<(String, Artifact)>) -> Option<Seq<char>>
    decreases outputs.len(),
{
    if outputs.len() == 0 {
        None
    } else if outputs[0].0@ == "output"@ {
        match outputs[0].1 {
            Artifact::Text(t) => Some(t@),
            _ => None,
        }
    } else {
        primary_text(outputs.drop_first())
    }
}

impl StepResult {
    pub fn is_success(&self) -> (r: bool)
        ensures
            r == (self.status == StepStatus::Success),
    {
        self.status == StepStatus::Success
    }

    /// The text of the `output` output, if there is one and it is text.
    pub fn primary_output_text(&self) -> (r: Option<String>)
        ensures
            match r {
                Some(t) => primary_text(self.outputs@) == Some(t@),
                None => primary_text(self.outputs@) is None,
            },
    {
        let mut i: usize = 0;
        assert(self.outputs@.subrange(0, self.outputs@.len() as int) =~= self.outputs@);
        while i < self.outputs.len()
            invariant
                i <= self.outputs@.len(),
                primary_text(self.outputs@) == primary_text(self.outputs@.subrange(i as int, self.outputs@.len() as int)),
            decreases self.outputs@.len() - i,
        {
            let ghost rest = self.outputs@.subrange(i as int, self.outputs@.len() as int);
            assert(rest.drop_first() =~= self.outputs@.subrange(i + 1, self.outputs@.len() as int));
            if str_eq(self.outputs[i].0.as_str(), "output") {
                return match &self.outputs[i].1 {
                    Artifact::Text(t) => Some(t.clone()),
                    _ => None,
                };
            }
            i = i + 1;
        }
        None
    }

    /// The error's message, or `unknown plugin error` when there is none.
    pub fn display_error(&self) -> (r: String)
        ensures
            r@ == match self.error {
                Some(e) => e.message@,
                None => "unknown plugin error"@,
            },
    {
        match &self.error {
            Some(e) => e.message.clone(),
            None => String::from_str("unknown plugin error"),
        }
    }
}

/// The error kind a failed plugin status stands for.
pub open spec fn kind_of(status: PluginRunStatus) -> StepErrorKind {
    match status {
        PluginRunStatus::ValidationFailed => StepErrorKind::ValidationFailed,
        PluginRunStatus::RuntimeError => StepErrorKind::RuntimeError,
        PluginRunStatus::EmptyOutput => StepErrorKind::EmptyOutput,
        _ => StepErrorKind::ErrorOutput,
    }
}

/// Turns a plugin's already-decided result into the step's structured result, with
/// the given metadata unchanged. A success has one output, `output`, holding the
/// plugin's text (empty when it gave none) and no error. Anything else fails with no
/// outputs and an error of the matching kind whose message is the result's error, else
/// its output, else `unknown plugin error`.
pub fn adapt(result: PluginRunResult, metadata: StepMetadata) -> (r: StepResult)
    ensures
        r.metadata == metadata,
        result.status == PluginRunStatus::Success ==> {
            &&& r.status == StepStatus::Success
            &&& r.error is None
            &&& r.outputs@.len() == 1
            &&& r.outputs@[0].0@ == "output"@
            &&& r.outputs@[0].1 matches Artifact::Text(t) && t@ == match result.output {
                Some(o) => o@,
                None => Seq::empty(),
            }
        },
        result.status != PluginRunStatus::Success ==> {
            &&& r.status == StepStatus::Failed
            &&& r.outputs@.len() == 0
            &&& r.error matches Some(e) && e.kind == kind_of(result.status) && e.message@
                == match (result.error, result.output) {
                (Some(m), _) => m@,
                (None, Some(o)) => o@,
                (None, None) => "unknown plugin error"@,
            }
        },
{
    match result.status {
        PluginRunStatus::Success => {
            let text = match result.output {
                Some(o) => o,
                None => String::new(),
            };
            let mut outputs: Vec<(String, Artifact)> = Vec::new();
            outputs.push((String::from_str("output"), Artifact::Text(text)));
            StepResult { status: StepStatus::Success, outputs, error: None, metadata }
        },
        _ => {
            let kind = match result.status {
                PluginRunStatus::ValidationFailed => StepErrorKind::ValidationFailed,
                PluginRunStatus::RuntimeError => StepErrorKind::RuntimeError,
                PluginRunStatus::EmptyOutput => StepErrorKind::EmptyOutput,
                _ => StepErrorKind::ErrorOutput,
            };
            let message = match (result.error, result.output) {
                (Some(m), _) => m,
                (None, Some(o)) => o,
                (None, None) => String::from_str("unknown plugin error"),
            };
            StepResult {
                status: StepStatus::Failed,
                outputs: Vec::new(),
                error: Some(StepError { kind, message }),
                metadata,
            }
        },
    }
}

/// How a plugin runs and what it declares, its capability names reconciled with the
/// trust policy's classes.
#[derive(Debug, Clone, PartialEq)]
pub struct PluginDescriptor {
    pub name: String,
    pub declared_inputs: Vec<PluginInputType>,
    pub declared_outputs: Vec<PluginOutputType>,
    pub capabilities: Vec<CapabilityClass>,
    pub execution_mode: ExecutionMode,
}

/// The trust classes of the capability names that the trust policy recognizes, in
/// order; unrecognized names are left out.
pub open spec fn recognized_classes(caps: Seq<PluginCapability>) -> Seq<CapabilityClass>
    decreases caps.len(),
{
    if caps.len() == 0 {
        Seq::empty()
    } else {
        let rest = recognized_classes(caps.drop_last());
        match manifest_class(caps.last().name@) {
            Some(c) => rest.push(c),
            None => rest,
        }
    }
}

/// The descriptor of a plugin from its declared metadata: its name, the input and
/// output kinds of its capabilities in order, the trust classes of the capability
/// names that are recognized (others are dropped, not guessed at), and in-process
/// execution, the only mode plugins run in.
pub fn synthetic_descriptor(info: &PluginInfo) -> (r: PluginDescriptor)
    ensures
        r.name@ == info.name@,
        r.declared_inputs@ == info.capabilities@.map_values(|c: PluginCapability| c.input_type),
        r.declared_outputs@ == info.capabilities@.map_values(|c: PluginCapability| c.output_type),
        r.capabilities@ == recognized_classes(info.capabilities@),
        r.execution_mode == ExecutionMode::InProcess,
{
    let mut declared_inputs: Vec<PluginInputType> = Vec::new();
    let mut declared_outputs: Vec<PluginOutputType> = Vec::new();
    let mut capabilities: Vec<CapabilityClass> = Vec::new();
    let mut i: usize = 0;
    while i < info.capabilities.len()
        invariant
            i <= info.capabilities@.len(),
            declared_inputs@ == info.capabilities@.subrange(0, i as int).map_values(
                |c: PluginCapability| c.input_type,
            ),
            declared_outputs@ == info.capabilities@.subrange(0, i as int).map_values(
                |c: PluginCapability| c.output_type,
            ),
            capabilities@ == recognized_classes(info.capabilities@.subrange(0, i as int)),
        decreases info.capabilities@.len() - i,
    {
        let c = &info.capabilities[i];
        let ghost before = info.capabilities@.subrange(0, i as int);
        let ghost after = info.capabilities@.subrange(0, i + 1);
        assert(after.drop_last() =~= before);
        declared_inputs.push(c.input_type);
        declared_outputs.push(c.output_type);
        match capability_class_for_manifest(c.name.as_str()) {
            Some(class) => capabilities.push(class),
            None => {},
        }
        i = i + 1;
        assert(declared_inputs@ =~= after.map_values(|c: PluginCapability| c.input_type));
        assert(declared_outputs@ =~= after.map_values(|c: PluginCapability| c.output_type));
    }
    assert(info.capabilities@.subrange(0, info.capabilities@.len() as int) =~= info.capabilities@);
    PluginDescriptor {
        name: info.name.clone(),
        declared_inputs,
        declared_outputs,
        capabilities,
        execution_mode: ExecutionMode::InProcess,
    }
}

} // verus!
