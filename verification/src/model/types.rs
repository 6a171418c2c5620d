//! Model execution contracts: the structured request/response types that flow between
//! a workflow step, the scheduler, a worker, and a backend. Pure data plus validation.
use vstd::prelude::*;
use crate::text::owned;

verus! {

/// Identifier of a model request.
#[derive(Debug, PartialEq, Eq, PartialOrd, Ord, Hash)]
pub struct RequestId(pub String);

/// Identifier of a model in the registry.
#[derive(Debug, PartialEq, Eq, PartialOrd, Ord, Hash)]
pub struct ModelId(pub String);

/// Identifier of a worker.
#[derive(Debug, PartialEq, Eq, PartialOrd, Ord, Hash)]
pub struct WorkerId(pub String);

/// Identifier of a worker job.
#[derive(Debug, PartialEq, Eq, PartialOrd, Ord, Hash)]
pub struct JobId(pub String);

impl View for RequestId {
    type V = Seq<char>;

    open spec fn view(&self) -> Seq<char> {
        self.0@
    }
}

impl View for ModelId {
    type V = Seq<char>;

    open spec fn view(&self) -> Seq<char> {
        self.0@
    }
}

impl View for WorkerId {
    type V = Seq<char>;

    open spec fn view(&self) -> Seq<char> {
        self.0@
    }
}

impl View for JobId {
    type V = Seq<char>;

    open spec fn view(&self) -> Seq<char> {
        self.0@
    }
}

impl Clone for RequestId {
    fn clone(&self) -> (r: Self)
        ensures
            r@ == self@,
    {
        RequestId(self.0.clone())
    }
}

impl Clone for ModelId {
    fn clone(&self) -> (r: Self)
        ensures
            r@ == self@,
            r == *self,
    {
        ModelId(self.0.clone())
    }
}

impl Clone for WorkerId {
    fn clone(&self) -> (r: Self)
        ensures
            r@ == self@,
    {
        WorkerId(self.0.clone())
    }
}

impl Clone for JobId {
    fn clone(&self) -> (r: Self)
        ensures
            r@ == self@,
    {
        JobId(self.0.clone())
    }
}

/// A lowercase hexadecimal digit.
pub open spec fn is_lower_hex(c: char) -> bool {
    ('0' <= c && c <= '9') || ('a' <= c && c <= 'f')
}

/// The hyphenated lowercase text of a version-4 UUID: 36 characters, hyphens at
/// positions 8, 13, 18 and 23 and lowercase hex digits elsewhere, the version digit `4`
/// at position 14 and the variant digit (`8`, `9`, `a` or `b`) at position 19.
pub open spec fn is_v4_uuid_text(s: Seq<char>) -> bool {
    &&& s.len() == 36
    &&& forall|i: int|
        0 <= i < 36 ==> if i == 8 || i == 13 || i == 18 || i == 23 {
            s[i] == '-'
        } else {
            is_lower_hex(#[trigger] s[i])
        }
    &&& s[14] == '4'
    &&& (s[19] == '8' || s[19] == '9' || s[19] == 'a' || s[19] == 'b')
}

/// `uuid::Uuid::new_v4().to_string()`: a fresh random version-4 UUID (the version and
/// RFC 4122 variant bits set) in its hyphenated lowercase text form. Which UUID comes
/// back is random, so nothing ties it to anything else.
#[verifier::external_body]
fn new_v4_text() -> (s: String)
    ensures
        is_v4_uuid_text(s@),
{
    uuid::Uuid::new_v4().to_string()
}

impl RequestId {
    /// A fresh random request id (a version-4 UUID in hyphenated form).
    pub fn generate() -> (r: Self)
        ensures
            is_v4_uuid_text(r@),
    {
        RequestId(new_v4_text())
    }

    pub fn new(s: &str) -> (r: Self)
        ensures
            r@ == s@,
    {
        RequestId(owned(s))
    }

    pub fn from(s: &str) -> (r: Self)
        ensures
            r@ == s@,
    {
        RequestId(owned(s))
    }
}

impl ModelId {
    pub fn new(s: &str) -> (r: Self)
        ensures
            r@ == s@,
    {
        ModelId(owned(s))
    }

    pub fn from(s: &str) -> (r: Self)
        ensures
            r@ == s@,
    {
        ModelId(owned(s))
    }
}

impl WorkerId {
    pub fn new(s: &str) -> (r: Self)
        ensures
            r@ == s@,
    {
        WorkerId(owned(s))
    }

    pub fn from(s: &str) -> (r: Self)
        ensures
            r@ == s@,
    {
        WorkerId(owned(s))
    }
}

impl JobId {
    /// A fresh random job id (a version-4 UUID in hyphenated form).
    pub fn generate() -> (r: Self)
        ensures
            is_v4_uuid_text(r@),
    {
        JobId(new_v4_text())
    }

    pub fn new(s: &str) -> (r: Self)
        ensures
            r@ == s@,
    {
        JobId(owned(s))
    }

    pub fn from(s: &str) -> (r: Self)
        ensures
            r@ == s@,
    {
        JobId(owned(s))
    }
}

/// Logical role a model is asked to play.
#[derive(Debug, PartialEq, Eq, PartialOrd, Ord, Hash)]
pub enum ModelRole {
    Reasoning,
    Coding,
    Summarization,
    Extraction,
    Embedding,
    Reranking,
    Verification,
    Custom(String),
}

/// Mathematical value of a `ModelRole`.
pub enum RoleView {
    Reasoning,
    Coding,
    Summarization,
    Extraction,
    Embedding,
    Reranking,
    Verification,
    Custom(Seq<char>),
}

impl View for ModelRole {
    type V = RoleView;

    open spec fn view(&self) -> RoleView {
        match self {
            ModelRole::Reasoning => RoleView::Reasoning,
            ModelRole::Coding => RoleView::Coding,
            ModelRole::Summarization => RoleView::Summarization,
            ModelRole::Extraction => RoleView::Extraction,
            ModelRole::Embedding => RoleView::Embedding,
            ModelRole::Reranking => RoleView::Reranking,
            ModelRole::Verification => RoleView::Verification,
            ModelRole::Custom(s) => RoleView::Custom(s@),
        }
    }
}

/// The role that `ModelRole::parse` gives a configuration name.
pub open spec fn parse_role(s: Seq<char>) -> RoleView {
    if s == "reasoning"@ {
        RoleView::Reasoning
    } else if s == "coding"@ {
        RoleView::Coding
    } else if s == "summarization"@ {
        RoleView::Summarization
    } else if s == "extraction"@ {
        RoleView::Extraction
    } else if s == "embedding"@ {
        RoleView::Embedding
    } else if s == "reranking"@ {
        RoleView::Reranking
    } else if s == "verification"@ {
        RoleView::Verification
    } else {
        RoleView::Custom(s)
    }
}

/// The name under which a role is displayed (its configuration name).
pub open spec fn role_name(r: RoleView) -> Seq<char> {
    match r {
        RoleView::Reasoning => "reasoning"@,
        RoleView::Coding => "coding"@,
        RoleView::Summarization => "summarization"@,
        RoleView::Extraction => "extraction"@,
        RoleView::Embedding => "embedding"@,
        RoleView::Reranking => "reranking"@,
        RoleView::Verification => "verification"@,
        RoleView::Custom(s) => s,
    }
}

impl Clone for ModelRole {
    fn clone(&self) -> (r: Self)
        ensures
            r@ == self@,
            r == *self,
    {
        match self {
            ModelRole::Reasoning => ModelRole::Reasoning,
            ModelRole::Coding => ModelRole::Coding,
            ModelRole::Summarization => ModelRole::Summarization,
            ModelRole::Extraction => ModelRole::Extraction,
            ModelRole::Embedding => ModelRole::Embedding,
            ModelRole::Reranking => ModelRole::Reranking,
            ModelRole::Verification => ModelRole::Verification,
            ModelRole::Custom(s) => ModelRole::Custom(s.clone()),
        }
    }
}

impl ModelRole {
    /// Parses a role name from configuration text. Unrecognized names become `Custom`.
    pub fn parse(s: &str) -> (r: Self)
        ensures
            r@ == parse_role(s@),
    {
        proof {
            reveal_strlit("reasoning");
            reveal_strlit("coding");
            reveal_strlit("summarization");
            reveal_strlit("extraction");
            reveal_strlit("embedding");
            reveal_strlit("reranking");
            reveal_strlit("verification");
        }
        if crate::text::str_eq(s, "reasoning") {
            ModelRole::Reasoning
        } else if crate::text::str_eq(s, "coding") {
            ModelRole::Coding
        } else if crate::text::str_eq(s, "summarization") {
            ModelRole::Summarization
        } else if crate::text::str_eq(s, "extraction") {
            ModelRole::Extraction
        } else if crate::text::str_eq(s, "embedding") {
            ModelRole::Embedding
        } else if crate::text::str_eq(s, "reranking") {
            ModelRole::Reranking
        } else if crate::text::str_eq(s, "verification") {
            ModelRole::Verification
        } else {
            ModelRole::Custom(owned(s))
        }
    }

    /// The role's display name.
    pub fn name(&self) -> (r: String)
        ensures
            r@ == role_name(self@),
    {
        match self {
            ModelRole::Reasoning => owned("reasoning"),
            ModelRole::Coding => owned("coding"),
            ModelRole::Summarization => owned("summarization"),
            ModelRole::Extraction => owned("extraction"),
            ModelRole::Embedding => owned("embedding"),
            ModelRole::Reranking => owned("reranking"),
            ModelRole::Verification => owned("verification"),
            ModelRole::Custom(s) => s.clone(),
        }
    }

    /// Whether two roles are the same role.
    pub fn same_as(&self, other: &ModelRole) -> (r: bool)
        ensures
            r == (self@ == other@),
    {
        match (self, other) {
            (ModelRole::Reasoning, ModelRole::Reasoning) => true,
            (ModelRole::Coding, ModelRole::Coding) => true,
            (ModelRole::Summarization, ModelRole::Summarization) => true,
            (ModelRole::Extraction, ModelRole::Extraction) => true,
            (ModelRole::Embedding, ModelRole::Embedding) => true,
            (ModelRole::Reranking, ModelRole::Reranking) => true,
            (ModelRole::Verification, ModelRole::Verification) => true,
            (ModelRole::Custom(a), ModelRole::Custom(b)) => crate::text::str_eq(a.as_str(), b.as_str()),
            _ => false,
        }
    }
}

/// Selects a specific model, bypassing role-based candidate resolution.
#[derive(Debug, PartialEq)]
pub enum ModelSelector {
    Id(ModelId),
    Alias(String),
}

#[derive(Debug, Clone, Copy, PartialEq, Eq, Structural)]
pub enum MessageRole {
    System,
    User,
    Assistant,
    Tool,
}

/// A model-requested function invocation.
#[derive(Debug, PartialEq, Eq)]
pub struct ModelToolCall {
    pub id: String,
    pub function: ModelToolFunction,
}

#[derive(Debug, PartialEq, Eq)]
pub struct ModelToolFunction {
    pub name: String,
    /// JSON text supplied by the model.
    pub arguments: String,
}

/// A single part within a multipart message content array.
#[derive(Debug, PartialEq)]
pub enum ContentPart {
    Text { text: String },
    ImageUrl { image_url: ImageUrlContent },
}

#[derive(Debug, PartialEq)]
pub struct ImageUrlContent {
    /// `data:image/<mime>;base64,<data>` or an `https://` URL.
    pub url: String,
}

/// Message content: either plain text or a parts array (text interleaved with images).
#[derive(Debug, PartialEq)]
pub enum MessageContent {
    Text(String),
    Parts(Vec<ContentPart>),
}

/// Whether a content value carries at least one image part.
pub open spec fn content_has_images(c: MessageContent) -> bool {
    match c {
        MessageContent::Text(_) => false,
        MessageContent::Parts(parts) => exists|i: int|
            0 <= i < parts@.len() && (#[trigger] parts@[i]) is ImageUrl,
    }
}

impl MessageContent {
    pub fn has_images(&self) -> (r: bool)
        ensures
            r == content_has_images(*self),
    {
        match self {
            MessageContent::Text(_) => false,
            MessageContent::Parts(parts) => {
                let mut i: usize = 0;
                while i < parts.len()
                    invariant
                        *self == MessageContent::Parts(*parts),
                        i <= parts@.len(),
                        forall|k: int| 0 <= k < i ==> !((#[trigger] parts@[k]) is ImageUrl),
                    decreases parts@.len() - i,
                {
                    match &parts[i] {
                        ContentPart::ImageUrl { .. } => {
                            assert(parts@[i as int] is ImageUrl);
                            assert(exists|k: int|
                                0 <= k < parts@.len() && (#[trigger] parts@[k]) is ImageUrl);

                            return true;
                        },
                        ContentPart::Text { .. } => {},
                    }
                    i = i + 1;
                }
                false
            },
        }
    }
}

#[derive(Debug, PartialEq)]
pub struct ModelMessage {
    pub role: MessageRole,
    pub content: MessageContent,
    /// Present only on assistant messages which requested tool execution.
    pub tool_calls: Vec<ModelToolCall>,
    /// Present only on a tool-result message and links it to its assistant call.
    pub tool_call_id: Option<String>,
}

impl ModelMessage {
    /// A system message with plain-text content.
    pub fn system(content: String) -> (r: Self)
        ensures
            r.role == MessageRole::System,
            r.content == MessageContent::Text(content),
            r.tool_calls@.len() == 0,
            r.tool_call_id is None,
    {
        ModelMessage {
            role: MessageRole::System,
            content: MessageContent::Text(content),
            tool_calls: Vec::new(),
            tool_call_id: None,
        }
    }

    /// A user message with plain-text content.
    pub fn user(content: String) -> (r: Self)
        ensures
            r.role == MessageRole::User,
            r.content == MessageContent::Text(content),
            r.tool_calls@.len() == 0,
            r.tool_call_id is None,
    {
        ModelMessage {
            role: MessageRole::User,
            content: MessageContent::Text(content),
            tool_calls: Vec::new(),
            tool_call_id: None,
        }
    }
}

#[derive(Debug, Clone, Copy, PartialEq, Eq, Structural)]
pub enum ResponseFormat {
    Text,
    Json,
}

/// Controls whether the model reasons before responding.
#[derive(Debug, Clone, Copy, PartialEq, Eq, Structural)]
pub enum ReasoningMode {
    Auto,
    Enabled,
    Disabled,
}

#[derive(Debug, Clone, Copy, PartialEq, Eq, Hash, Structural)]
pub enum AcceleratorKind {
    Cuda,
    Metal,
    Vulkan,
    Rocm,
    Cpu,
}

/// The display name of an accelerator kind.
pub open spec fn accelerator_name(a: AcceleratorKind) -> Seq<char> {
    match a {
        AcceleratorKind::Cuda => "cuda"@,
        AcceleratorKind::Metal => "metal"@,
        AcceleratorKind::Vulkan => "vulkan"@,
        AcceleratorKind::Rocm => "rocm"@,
        AcceleratorKind::Cpu => "cpu"@,
    }
}

impl AcceleratorKind {
    pub fn name(&self) -> (r: String)
        ensures
            r@ == accelerator_name(*self),
    {
        match self {
            AcceleratorKind::Cuda => owned("cuda"),
            AcceleratorKind::Metal => owned("metal"),
            AcceleratorKind::Vulkan => owned("vulkan"),
            AcceleratorKind::Rocm => owned("rocm"),
            AcceleratorKind::Cpu => owned("cpu"),
        }
    }
}

/// Where the request may be sent for execution.
#[derive(Debug, Clone, Copy, PartialEq, Eq, Structural)]
pub enum PlacementPolicy {
    Any,
    LocalOnly,
}

/// Hard requirements a request places on the placement that serves it.
#[derive(Debug, Clone, Copy, PartialEq, Eq, Structural)]
pub struct ModelRequirements {
    pub minimum_context_tokens: Option<u32>,
    pub preferred_accelerator: Option<AcceleratorKind>,
    pub require_accelerator: bool,
    pub allow_cpu_fallback: bool,
    pub maximum_queue_wait_ms: Option<u64>,
    pub maximum_execution_ms: Option<u64>,
    pub minimum_available_memory_bytes: Option<u64>,
    pub require_streaming: bool,
    pub placement_policy: PlacementPolicy,
    /// `Some(true)`: only models tagged for reasoning may serve the request.
    pub reasoning: Option<bool>,
    /// `Some(true)`: only models tagged for vision may serve the request.
    pub vision: Option<bool>,
}

impl Default for ModelRequirements {
    /// CPU fallback is allowed by default; nothing else is required.
    fn default() -> (r: Self)
        ensures
            r.minimum_context_tokens is None,
            r.preferred_accelerator is None,
            !r.require_accelerator,
            r.allow_cpu_fallback,
            r.maximum_queue_wait_ms is None,
            r.maximum_execution_ms is None,
            r.minimum_available_memory_bytes is None,
            !r.require_streaming,
            r.placement_policy == PlacementPolicy::Any,
            r.reasoning is None,
            r.vision is None,
    {
        ModelRequirements {
            minimum_context_tokens: None,
            preferred_accelerator: None,
            require_accelerator: false,
            allow_cpu_fallback: true,
            maximum_queue_wait_ms: None,
            maximum_execution_ms: None,
            minimum_available_memory_bytes: None,
            require_streaming: false,
            placement_policy: PlacementPolicy::Any,
            reasoning: None,
            vision: None,
        }
    }
}

/// Which requirement check fails first, if any: the field name and message that
/// `ModelRequirements::validate` reports.
pub open spec fn requirements_error(r: ModelRequirements) -> Option<(Seq<char>, Seq<char>)> {
    if r.minimum_context_tokens == Some(0u32) {
        Some(("minimum_context_tokens"@, "must be greater than 0"@))
    } else if r.require_accelerator && r.preferred_accelerator == Some(AcceleratorKind::Cpu) {
        Some(("require_accelerator"@, "cannot require an accelerator while preferring CPU"@))
    } else {
        None
    }
}

impl ModelRequirements {
    pub fn validate(&self) -> (r: Result<(), ModelRequestError>)
        ensures
            r is Ok <==> requirements_error(*self) is None,
            r matches Err(e) ==> requirements_error(*self) == Some((e.field@, e.message@)),
    {
        if let Some(c) = self.minimum_context_tokens {
            if c == 0 {
                return Err(ModelRequestError::new("minimum_context_tokens", "must be greater than 0"));
            }
        }
        if self.require_accelerator && self.preferred_accelerator == Some(AcceleratorKind::Cpu) {
            return Err(
                ModelRequestError::new(
                    "require_accelerator",
                    "cannot require an accelerator while preferring CPU",
                ),
            );
        }
        Ok(())
    }
}

#[derive(Debug, PartialEq)]
pub struct ArtifactReference {
    pub step: String,
    pub output: String,
    pub label: Option<String>,
}

/// The parts of a model request that routing and validation read. Sampling parameters
/// (floating point) and free-form JSON metadata travel alongside it outside the library.
#[derive(Debug, PartialEq)]
pub struct ModelRequest {
    pub request_id: RequestId,
    pub role: ModelRole,
    pub model: Option<ModelSelector>,
    pub messages: Vec<ModelMessage>,
    pub requirements: ModelRequirements,
    pub inputs: Vec<ArtifactReference>,
}

impl ModelRequest {
    /// Checks a request: it must carry at least one message; then the verdict on its
    /// sampling parameters (given, as those are floating point) applies; then its
    /// requirements are checked. The first failure is returned.
    pub fn validate(&self, parameters: Result<(), ModelRequestError>) -> (r: Result<
        (),
        ModelRequestError,
    >)
        ensures
            self.messages@.len() == 0 ==> (r matches Err(e) && e.field@ == "messages"@
                && e.message@ == "must contain at least one message"@),
            self.messages@.len() != 0 && parameters is Err ==> r == parameters,
            self.messages@.len() != 0 && parameters is Ok ==> match requirements_error(
                self.requirements,
            ) {
                None => r is Ok,
                Some((f, m)) => (r matches Err(e) && e.field@ == f && e.message@ == m),
            },
    {
        if self.messages.len() == 0 {
            return Err(ModelRequestError::new("messages", "must contain at least one message"));
        }
        match parameters {
            Err(e) => Err(e),
            Ok(()) => self.requirements.validate(),
        }
    }
}

/// A rejected request field and why.
#[derive(Debug, PartialEq)]
pub struct ModelRequestError {
    pub field: String,
    pub message: String,
}

impl ModelRequestError {
    pub fn new(field: &str, message: &str) -> (r: Self)
        ensures
            r.field@ == field@,
            r.message@ == message@,
    {
        ModelRequestError { field: owned(field), message: owned(message) }
    }
}

#[derive(Debug, Clone, Copy, PartialEq, Eq, Structural)]
pub enum ModelResponseStatus {
    Success,
    Failed,
    Cancelled,
    TimedOut,
}

#[derive(Debug, Clone, Copy, PartialEq, Eq, Structural)]
pub enum FinishReason {
    Stop,
    Length,
    ToolCalls,
    Cancelled,
    TimedOut,
    Error,
}

#[derive(Debug, PartialEq)]
pub struct ResolvedModel {
    pub model_id: ModelId,
    pub role: Option<ModelRole>,
    pub backend: String,
    pub identity: String,
}

#[derive(Debug, Clone, Copy, PartialEq, Eq, Structural)]
pub enum CancellationReason {
    UserRequested,
    Timeout,
}

#[derive(Debug, Clone, Copy, PartialEq, Eq, Structural)]
pub struct CancellationInfo {
    pub reason: CancellationReason,
    pub at_ms: u64,
}

#[derive(Debug, Clone, Copy, PartialEq, Eq, Structural)]
pub struct ModelUsage {
    pub prompt_tokens: u32,
    pub completion_tokens: u32,
    pub total_tokens: u32,
}

/// One ordered piece of an in-progress model response.
#[derive(Debug, PartialEq)]
pub enum ModelChunk {
    TextDelta { text: String },
    /// A partial function call; later chunks may carry only argument text.
    ToolCallDelta {
        index: usize,
        id: Option<String>,
        function_name: Option<String>,
        arguments_delta: Option<String>,
    },
    Finished { finish_reason: FinishReason, usage: Option<ModelUsage> },
}

/// Structured failure detail. Failures are never communicated via output text.
#[derive(Debug, PartialEq)]
pub enum ModelExecutionError {
    ModelNotFound { model: String },
    WorkerUnavailable { worker: String },
    NoEligibleWorker { reason: String },
    BackendError { message: String },
    Timeout { after_ms: u64 },
    Cancelled,
    InvalidRequest { message: String },
}

/// The human-readable rendering of an execution error.
pub open spec fn execution_error_text(e: ModelExecutionError) -> Seq<char> {
    match e {
        ModelExecutionError::ModelNotFound { model } => "model '"@ + model@ + "' not found"@,
        ModelExecutionError::WorkerUnavailable { worker } => "worker '"@ + worker@
            + "' is unavailable"@,
        ModelExecutionError::NoEligibleWorker { reason } => "no eligible worker: "@ + reason@,
        ModelExecutionError::BackendError { message } => "backend error: "@ + message@,
        ModelExecutionError::Timeout { after_ms } => "timed out after "@ + crate::text::decimal(
            after_ms as nat,
        ) + "ms"@,
        ModelExecutionError::Cancelled => "cancelled"@,
        ModelExecutionError::InvalidRequest { message } => "invalid request: "@ + message@,
    }
}

impl ModelExecutionError {
    /// The error rendered as text.
    pub fn message(&self) -> (r: String)
        ensures
            r@ == execution_error_text(*self),
    {
        let mut v: Vec<char> = Vec::new();
        match self {
            ModelExecutionError::ModelNotFound { model } => {
                crate::text::push_str(&mut v, "model '");
                crate::text::push_str(&mut v, model.as_str());
                crate::text::push_str(&mut v, "' not found");
            },
            ModelExecutionError::WorkerUnavailable { worker } => {
                crate::text::push_str(&mut v, "worker '");
                crate::text::push_str(&mut v, worker.as_str());
                crate::text::push_str(&mut v, "' is unavailable");
            },
            ModelExecutionError::NoEligibleWorker { reason } => {
                crate::text::push_str(&mut v, "no eligible worker: ");
                crate::text::push_str(&mut v, reason.as_str());
            },
            ModelExecutionError::BackendError { message } => {
                crate::text::push_str(&mut v, "backend error: ");
                crate::text::push_str(&mut v, message.as_str());
            },
            ModelExecutionError::Timeout { after_ms } => {
                crate::text::push_str(&mut v, "timed out after ");
                let d = crate::text::decimal_chars(*after_ms);
                crate::text::push_all(&mut v, &d);
                crate::text::push_str(&mut v, "ms");
            },
            ModelExecutionError::Cancelled => {
                crate::text::push_str(&mut v, "cancelled");
            },
            ModelExecutionError::InvalidRequest { message } => {
                crate::text::push_str(&mut v, "invalid request: ");
                crate::text::push_str(&mut v, message.as_str());
            },
        }
        crate::text::string_of(v.as_slice())
    }
}

} // verus!
