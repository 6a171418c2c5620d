//! The `codebase-memory-mcp` provider, reached by running its `cli <tool>` subcommand
//! directly: the tool reads its JSON arguments on stdin, writes only its JSON result on
//! stdout and its diagnostics on stderr, and exits non-zero on failure. The decisions
//! over what a run gives back live here, so that a failed process, malformed output, an
//! oversized output and a timeout stay distinct whatever the tool does; spawning the
//! process, feeding it and reading its pipes are the host's.
use vstd::prelude::*;
use vstd::utf8::{decode_utf8, valid_utf8};
use crate::code_intelligence::error::ProviderError;
use crate::code_intelligence::operations::{tool_of, GraphOperation};
use crate::code_intelligence::provider::{ProviderHealth, ProviderMetadata};
use crate::execution::CodeGraphArtifact;
use crate::text::{chars_of, owned, push_all, push_str, slice_chars, string_of, trim, trim_chars};

verus! {

/// How long a tool run may take before it is killed, in milliseconds.
pub const DEFAULT_TIMEOUT: u64 = 30000;

/// How many bytes a tool may write on stdout or on stderr.
pub const DEFAULT_MAX_OUTPUT_BYTES: usize = 10 * 1024 * 1024;

/// The environment variable that names the provider executable.
pub const BINARY_PATH_VARIABLE: &'static str = "LAO_CODEBASE_MEMORY_MCP_PATH";

/// The text `String::from_utf8_lossy` makes of `bytes`: each invalid sequence replaced
/// by U+FFFD.
pub uninterp spec fn lossy_utf8(bytes: Seq<u8>) -> Seq<char>;

/// The message of the error `String::from_utf8` gives for bytes that are not UTF-8.
pub uninterp spec fn utf8_error_text(bytes: Seq<u8>) -> Seq<char>;

/// The message of the error `serde_json::from_str` gives for `text` as a JSON value, or
/// none when `text` is one JSON value.
pub uninterp spec fn json_error(text: Seq<char>) -> Option<Seq<char>>;

/// `String::from_utf8`: the decoded text when `bytes` is UTF-8, else the error's
/// message.
#[verifier::external_body]
fn utf8_string(bytes: Vec<u8>) -> (r: Result<String, String>)
    ensures
        r is Ok <==> valid_utf8(bytes@),
        r matches Ok(s) ==> s@ == decode_utf8(bytes@),
        r matches Err(m) ==> m@ == utf8_error_text(bytes@),
{
    match String::from_utf8(bytes) {
        Ok(s) => Ok(s),
        Err(e) => Err(format!("{}", e)),
    }
}

/// `String::from_utf8_lossy`, owned: a function of the bytes alone, and the decoded
/// text itself when the bytes are UTF-8.
#[verifier::external_body]
fn lossy_string(bytes: &Vec<u8>) -> (r: String)
    ensures
        r@ == lossy_utf8(bytes@),
        valid_utf8(bytes@) ==> r@ == decode_utf8(bytes@),
{
    String::from_utf8_lossy(bytes.as_slice()).into_owned()
}

/// `serde_json::from_str::<serde_json::Value>`: none when `text` parses as one JSON
/// value, else the parse error's message.
#[verifier::external_body]
fn json_parse_error(text: &str) -> (r: Option<String>)
    ensures
        match r {
            Some(m) => json_error(text@) == Some(m@),
            None => json_error(text@) is None,
        },
{
    match serde_json::from_str::<serde_json::Value>(text) {
        Ok(_) => None,
        Err(e) => Some(format!("{}", e)),
    }
}

/// The part of `s` after its last space: all of `s` when it holds none.
pub open spec fn after_last_space(s: Seq<char>) -> Seq<char>
    decreases s.len(),
{
    if s.len() == 0 {
        s
    } else if s.last() == ' ' {
        Seq::empty()
    } else {
        after_last_space(s.drop_last()).push(s.last())
    }
}

/// The part of `s` after its last space.
fn last_word(s: &Vec<char>) -> (r: Vec<char>)
    ensures
        r@ == after_last_space(s@),
{
    let n = s.len();
    let mut i = n;
    assert(s@.subrange(0, n as int) =~= s@);
    assert(s@.subrange(n as int, n as int) =~= Seq::<char>::empty());
    while i > 0 && s[i - 1] != ' '
        invariant
            i <= n == s@.len(),
            after_last_space(s@) == after_last_space(s@.subrange(0, i as int)) + s@.subrange(
                i as int,
                n as int,
            ),
        decreases i,
    {
        let ghost pre = s@.subrange(0, i as int);
        assert(pre.drop_last() =~= s@.subrange(0, i - 1));
        assert(after_last_space(pre) == after_last_space(s@.subrange(0, i - 1)).push(s@[i - 1]));
        assert(after_last_space(s@.subrange(0, i - 1)).push(s@[i - 1]) + s@.subrange(
            i as int,
            n as int,
        ) =~= after_last_space(s@.subrange(0, i - 1)) + s@.subrange(i - 1, n as int));
        i = i - 1;
    }
    assert(after_last_space(s@.subrange(0, i as int)) =~= Seq::<char>::empty());
    assert(Seq::<char>::empty() + s@.subrange(i as int, n as int) =~= s@.subrange(
        i as int,
        n as int,
    ));
    slice_chars(s, i, n)
}

/// The name of the provider executable on this platform.
pub fn binary_name(windows: bool) -> (r: &'static str)
    ensures
        r@ == (if windows {
            "codebase-memory-mcp.exe"@
        } else {
            "codebase-memory-mcp"@
        }),
{
    if windows {
        "codebase-memory-mcp.exe"
    } else {
        "codebase-memory-mcp"
    }
}

/// Where the provider executable is, decided in order of precedence: a path given
/// explicitly (with whether it is a file), else the path in `BINARY_PATH_VARIABLE`
/// (with whether it is a file), else the first directory on `PATH` that holds the
/// executable. A given path that is no file is not found, and nothing falls back past
/// it.
pub fn resolve_binary_path(
    explicit: Option<(String, bool)>,
    from_environment: Option<(String, bool)>,
    found_on_path: Option<String>,
    windows: bool,
) -> (r: Result<String, ProviderError>)
    ensures
        match explicit {
            Some((p, true)) => r matches Ok(b) && b@ == p@,
            Some((p, false)) => r matches Err(ProviderError::NotFound(m)) && m@ == p@
                + " does not exist"@,
            None => match from_environment {
                Some((p, true)) => r matches Ok(b) && b@ == p@,
                Some((p, false)) => r matches Err(ProviderError::NotFound(m)) && m@
                    == "LAO_CODEBASE_MEMORY_MCP_PATH="@ + p@ + " does not exist"@,
                None => match found_on_path {
                    Some(p) => r matches Ok(b) && b@ == p@,
                    None => r matches Err(ProviderError::NotFound(m)) && m@ == (if windows {
                        "codebase-memory-mcp.exe"@
                    } else {
                        "codebase-memory-mcp"@
                    }) + " not found on PATH; set LAO_CODEBASE_MEMORY_MCP_PATH"@,
                },
            },
        },
{
    match explicit {
        Some((p, is_file)) => {
            if is_file {
                Ok(p)
            } else {
                let mut v = chars_of(p.as_str());
                push_str(&mut v, " does not exist");
                Err(ProviderError::NotFound(string_of(v.as_slice())))
            }
        },
        None => match from_environment {
            Some((p, is_file)) => {
                if is_file {
                    Ok(p)
                } else {
                    let mut v: Vec<char> = Vec::new();
                    push_str(&mut v, "LAO_CODEBASE_MEMORY_MCP_PATH=");
                    push_str(&mut v, p.as_str());
                    push_str(&mut v, " does not exist");
                    Err(ProviderError::NotFound(string_of(v.as_slice())))
                }
            },
            None => match found_on_path {
                Some(p) => Ok(p),
                None => {
                    let mut v = chars_of(binary_name(windows));
                    push_str(&mut v, " not found on PATH; set LAO_CODEBASE_MEMORY_MCP_PATH");
                    Err(ProviderError::NotFound(string_of(v.as_slice())))
                },
            },
        },
    }
}

/// The version the executable reports from `--version`: the last space-separated word
/// of its trimmed stdout, when it exited successfully and wrote UTF-8.
pub fn version_from_output(success: bool, stdout: Vec<u8>) -> (r: Option<String>)
    ensures
        match r {
            Some(v) => success && valid_utf8(stdout@) && v@ == after_last_space(
                trim(decode_utf8(stdout@)),
            ),
            None => !success || !valid_utf8(stdout@),
        },
{
    if !success {
        return None;
    }
    match utf8_string(stdout) {
        Ok(text) => {
            let t = trim_chars(&chars_of(text.as_str()));
            let w = last_word(&t);
            Some(string_of(w.as_slice()))
        },
        Err(_) => None,
    }
}

/// The revision `git rev-parse HEAD` reports: its trimmed stdout, when it exited
/// successfully and wrote UTF-8.
pub fn revision_from_output(success: bool, stdout: Vec<u8>) -> (r: Option<String>)
    ensures
        match r {
            Some(v) => success && valid_utf8(stdout@) && v@ == trim(decode_utf8(stdout@)),
            None => !success || !valid_utf8(stdout@),
        },
{
    if !success {
        return None;
    }
    match utf8_string(stdout) {
        Ok(text) => {
            let t = trim_chars(&chars_of(text.as_str()));
            Some(string_of(t.as_slice()))
        },
        Err(_) => None,
    }
}

/// Whether the worktree is dirty, from `git status --porcelain`: dirty when it listed
/// anything, and also whenever it could not be run or failed, so that an unknown state
/// never counts as clean.
pub fn dirty_from_status(succeeded: bool, stdout: &Vec<u8>) -> (r: bool)
    ensures
        r == (!succeeded || stdout@.len() > 0),
{
    !succeeded || stdout.len() > 0
}

/// Appends what was read from a pipe to what was read before, refusing once the total
/// passes `cap`.
pub fn append_capped(buf: &mut Vec<u8>, chunk: &[u8], cap: usize) -> (r: Result<(), ProviderError>)
    requires
        old(buf)@.len() + chunk@.len() <= usize::MAX,
    ensures
        final(buf)@ == old(buf)@ + chunk@,
        r is Ok <==> final(buf)@.len() <= cap,
        r matches Err(e) ==> e == ProviderError::OutputTooLarge,
{
    let ghost b0 = buf@;
    let mut k: usize = 0;
    while k < chunk.len()
        invariant
            k <= chunk@.len(),
            buf@ == b0 + chunk@.subrange(0, k as int),
        decreases chunk@.len() - k,
    {
        buf.push(chunk[k]);
        k = k + 1;
        assert(buf@ =~= b0 + chunk@.subrange(0, k as int));
    }
    assert(chunk@.subrange(0, chunk@.len() as int) =~= chunk@);
    if buf.len() > cap {
        Err(ProviderError::OutputTooLarge)
    } else {
        Ok(())
    }
}

/// What polling a running tool found.
pub enum ChildPoll {
    /// It has exited.
    Exited,
    /// It is still running.
    Running,
    /// Polling failed, with the error's message.
    Failed(String),
}

/// What to do after polling a running tool.
#[derive(Debug, PartialEq)]
pub enum WaitStep {
    /// It has exited: its status is the run's.
    Finished,
    /// Sleep a little and poll again.
    Sleep,
    /// The time is up: kill it, reap it and report a timeout.
    KillForTimeout,
    /// Give up with this error.
    Fail(ProviderError),
}

/// The next step of waiting for a tool, `elapsed` milliseconds after it started with a
/// limit of `timeout` milliseconds.
pub fn wait_step(poll: ChildPoll, elapsed: u64, timeout: u64) -> (r: WaitStep)
    ensures
        match poll {
            ChildPoll::Exited => r == WaitStep::Finished,
            ChildPoll::Running => r == (if elapsed >= timeout {
                WaitStep::KillForTimeout
            } else {
                WaitStep::Sleep
            }),
            ChildPoll::Failed(m) => r matches WaitStep::Fail(ProviderError::SpawnFailed(t)) && t@
                == m@,
        },
{
    match poll {
        ChildPoll::Exited => WaitStep::Finished,
        ChildPoll::Running => {
            if elapsed >= timeout {
                WaitStep::KillForTimeout
            } else {
                WaitStep::Sleep
            }
        },
        ChildPoll::Failed(m) => WaitStep::Fail(ProviderError::SpawnFailed(m)),
    }
}

/// What a finished tool run gave back, from its exit status, its stderr text, its
/// stdout decoded as UTF-8 (or the decoding error) and the JSON parse error of that
/// text (none when it is one JSON value): a non-zero exit is a process failure with the
/// trimmed stderr; otherwise stdout that is not UTF-8, or not JSON, is malformed output;
/// otherwise the JSON text is the result.
pub fn tool_outcome(
    success: bool,
    code: Option<i32>,
    stderr_text: &str,
    stdout_text: Result<String, String>,
    json_problem: Option<String>,
) -> (r: Result<String, ProviderError>)
    ensures
        !success ==> (r matches Err(ProviderError::NonZeroExit { code: c, stderr: s }) && c == code
            && s@ == trim(stderr_text@)),
        success ==> match stdout_text {
            Err(m) => r matches Err(ProviderError::MalformedOutput(t)) && t@
                == "stdout is not valid UTF-8: "@ + m@,
            Ok(text) => match json_problem {
                Some(m) => r matches Err(ProviderError::MalformedOutput(t)) && t@
                    == "stdout is not valid JSON: "@ + m@,
                None => r matches Ok(p) && p@ == text@,
            },
        },
{
    if !success {
        let t = trim_chars(&chars_of(stderr_text));
        return Err(ProviderError::NonZeroExit { code, stderr: string_of(t.as_slice()) });
    }
    match stdout_text {
        Err(m) => {
            let mut v: Vec<char> = Vec::new();
            push_str(&mut v, "stdout is not valid UTF-8: ");
            push_str(&mut v, m.as_str());
            Err(ProviderError::MalformedOutput(string_of(v.as_slice())))
        },
        Ok(text) => match json_problem {
            Some(m) => {
                let mut v: Vec<char> = Vec::new();
                push_str(&mut v, "stdout is not valid JSON: ");
                push_str(&mut v, m.as_str());
                Err(ProviderError::MalformedOutput(string_of(v.as_slice())))
            },
            None => Ok(text),
        },
    }
}

/// What a finished tool run gave back, from its exit status and the bytes it wrote:
/// `tool_outcome` over the lossy text of stderr, the UTF-8 decoding of stdout and the
/// JSON check of the decoded text.
pub fn tool_result(success: bool, code: Option<i32>, stdout: Vec<u8>, stderr: Vec<u8>) -> (r: Result<
    String,
    ProviderError,
>)
    ensures
        !success ==> (r matches Err(ProviderError::NonZeroExit { code: c, stderr: s }) && c == code
            && s@ == trim(lossy_utf8(stderr@))),
        success && !valid_utf8(stdout@) ==> (r matches Err(ProviderError::MalformedOutput(t)) && t@
            == "stdout is not valid UTF-8: "@ + utf8_error_text(stdout@)),
        success && valid_utf8(stdout@) ==> match json_error(decode_utf8(stdout@)) {
            Some(m) => r matches Err(ProviderError::MalformedOutput(t)) && t@
                == "stdout is not valid JSON: "@ + m,
            None => r matches Ok(p) && p@ == decode_utf8(stdout@),
        },
{
    if !success {
        let stderr_text = lossy_string(&stderr);
        return tool_outcome(false, code, stderr_text.as_str(), Err(owned("")), None);
    }
    let decoded = utf8_string(stdout);
    let json_problem = match &decoded {
        Ok(text) => json_parse_error(text.as_str()),
        Err(_) => None,
    };
    tool_outcome(true, code, "", decoded, json_problem)
}

/// The provider as configured: where its executable is, the repository it answers
/// for, its time and output limits, and the version it reported.
pub struct CodebaseMemoryCliProvider {
    pub binary_path: String,
    pub repo_root: String,
    /// Milliseconds a run may take.
    pub timeout: u64,
    pub max_output_bytes: usize,
    pub version: Option<String>,
}

impl CodebaseMemoryCliProvider {
    /// The provider over `repo_root`, once its executable was found (`binary_path`)
    /// and asked for its version; a failed lookup is the error.
    pub fn new(
        repo_root: String,
        binary_path: Result<String, ProviderError>,
        version: Option<String>,
        timeout: u64,
        max_output_bytes: usize,
    ) -> (r: Result<Self, ProviderError>)
        ensures
            match binary_path {
                Ok(b) => r matches Ok(p) && p.binary_path@ == b@ && p.repo_root@ == repo_root@
                    && p.timeout == timeout && p.max_output_bytes == max_output_bytes && p.version
                    == version,
                Err(e) => r == Err::<Self, ProviderError>(e),
            },
    {
        match binary_path {
            Ok(b) => Ok(CodebaseMemoryCliProvider {
                binary_path: b,
                repo_root,
                timeout,
                max_output_bytes,
                version,
            }),
            Err(e) => Err(e),
        }
    }

    /// `new` with the default time and output limits.
    pub fn discover(
        repo_root: String,
        binary_path: Result<String, ProviderError>,
        version: Option<String>,
    ) -> (r: Result<Self, ProviderError>)
        ensures
            match binary_path {
                Ok(b) => r matches Ok(p) && p.binary_path@ == b@ && p.repo_root@ == repo_root@
                    && p.timeout == DEFAULT_TIMEOUT && p.max_output_bytes
                    == DEFAULT_MAX_OUTPUT_BYTES && p.version == version,
                Err(e) => r == Err::<Self, ProviderError>(e),
            },
    {
        Self::new(repo_root, binary_path, version, DEFAULT_TIMEOUT, DEFAULT_MAX_OUTPUT_BYTES)
    }

    /// The provider's name and reported version.
    pub fn metadata(&self) -> (r: ProviderMetadata)
        ensures
            r.name@ == "codebase-memory-mcp"@,
            r.version == self.version,
    {
        ProviderMetadata { name: owned("codebase-memory-mcp"), version: clone_version(&self.version) }
    }

    /// Whether the provider can be used, given whether its executable is a file: the
    /// detail names the executable and its version ("unknown version" when none was
    /// reported), or says it is not found. Never fails.
    pub fn health(&self, binary_is_file: bool) -> (r: Result<ProviderHealth, ProviderError>)
        ensures
            r matches Ok(h) && h.available == binary_is_file && h.detail@ == (if binary_is_file {
                self.binary_path@ + " ("@ + match self.version {
                    Some(v) => v@,
                    None => "unknown version"@,
                } + ")"@
            } else {
                self.binary_path@ + " not found"@
            }),
    {
        let mut v = chars_of(self.binary_path.as_str());
        if !binary_is_file {
            push_str(&mut v, " not found");
            return Ok(ProviderHealth { available: false, detail: string_of(v.as_slice()) });
        }
        push_str(&mut v, " (");
        match &self.version {
            Some(ver) => push_str(&mut v, ver.as_str()),
            None => push_str(&mut v, "unknown version"),
        }
        push_str(&mut v, ")");
        Ok(ProviderHealth { available: true, detail: string_of(v.as_slice()) })
    }

    /// The artifact of a query whose tool answered with `payload`, stamped with the
    /// live git state of the repository.
    pub fn artifact(
        &self,
        operation: GraphOperation,
        payload: String,
        git_revision: Option<String>,
        dirty: bool,
    ) -> (r: CodeGraphArtifact)
        ensures
            r.provider@ == "codebase-memory-mcp"@,
            r.provider_version == self.version,
            r.repo_root@ == self.repo_root@,
            r.git_revision == git_revision,
            r.dirty == dirty,
            r.indexed_at is None,
            r.operation@ == tool_of(operation),
            r.payload@ == payload@,
    {
        CodeGraphArtifact {
            provider: owned("codebase-memory-mcp"),
            provider_version: clone_version(&self.version),
            repo_root: self.repo_root.clone(),
            git_revision,
            dirty,
            indexed_at: None,
            operation: owned(operation.tool_name()),
            payload,
        }
    }
}

fn clone_version(v: &Option<String>) -> (r: Option<String>)
    ensures
        r == *v,
{
    match v {
        Some(s) => Some(s.clone()),
        None => None,
    }
}

} // verus!
