//! Prompt assembly for `run: local_llm` workflow steps.
//!
//! Deterministic ordering: the system message (if any), then one user message holding
//! the literal `prompt:` text followed by any upstream artifact under an explicit label.
//! An attachment is capped in size, and a cut is always reported, both inside the
//! message and in the returned flag.
use vstd::prelude::*;
use crate::execution::{Artifact, FileArtifact};
use crate::model::types::{MessageContent, MessageRole, ModelMessage};
use crate::text::{
    chars_of, decimal, decimal_chars, owned, push_all, push_str, signed_decimal, signed_decimal_chars,
    slice_chars, string_of,
};

verus! {

/// The most characters of an upstream artifact that a prompt carries.
pub const MAX_ATTACHMENT_CHARS: usize = 20000;

/// The label put in front of an attached artifact.
pub open spec fn attachment_label() -> Seq<char> {
    "--- Attached artifact (upstream step output) ---\n"@
}

/// An attached artifact as it appears in the prompt: whole when it fits, else its first
/// `MAX_ATTACHMENT_CHARS` characters followed by a marker that gives both counts.
pub open spec fn attachment_text(input: Seq<char>) -> Seq<char> {
    if input.len() > MAX_ATTACHMENT_CHARS {
        input.take(MAX_ATTACHMENT_CHARS as int) + "\n--- [truncated: "@ + decimal(
            MAX_ATTACHMENT_CHARS as nat,
        ) + " of "@ + decimal(input.len()) + " characters shown] ---"@
    } else {
        input
    }
}

/// The text of the user message: the prompt (or nothing), then, when an artifact is
/// attached, a blank line (only after a non-empty prompt), the label and the artifact.
pub open spec fn user_content(prompt: Option<Seq<char>>, input: Option<Seq<char>>) -> Seq<char> {
    let p = match prompt {
        Some(p) => p,
        None => Seq::<char>::empty(),
    };
    match input {
        None => p,
        Some(i) => (if p.len() > 0 {
            p + "\n\n"@
        } else {
            p
        }) + attachment_label() + attachment_text(i),
    }
}

pub open spec fn opt_view(s: Option<&str>) -> Option<Seq<char>> {
    match s {
        Some(t) => Some(t@),
        None => None,
    }
}

/// A plain-text message of the given role and text, with no tool calls.
pub open spec fn is_text_message(m: ModelMessage, role: MessageRole, text: Seq<char>) -> bool {
    &&& m.role == role
    &&& m.content matches MessageContent::Text(t) && t@ == text
    &&& m.tool_calls@.len() == 0
    &&& m.tool_call_id is None
}

/// The messages for a local-LLM step, and whether the attached artifact was cut to
/// `MAX_ATTACHMENT_CHARS` characters.
pub fn assemble_prompt(
    system: Option<&str>,
    prompt: Option<&str>,
    injected_input: Option<&str>,
) -> (r: (Vec<ModelMessage>, bool))
    ensures
        r.0@.len() == if system is Some {
            2int
        } else {
            1int
        },
        system matches Some(s) ==> is_text_message(r.0@[0], MessageRole::System, s@),
        is_text_message(
            r.0@[r.0@.len() - 1],
            MessageRole::User,
            user_content(opt_view(prompt), opt_view(injected_input)),
        ),
        r.1 == (injected_input matches Some(i) && i@.len() > MAX_ATTACHMENT_CHARS),
{
    let mut messages: Vec<ModelMessage> = Vec::new();
    match system {
        Some(s) => messages.push(ModelMessage::system(string_of(chars_of(s).as_slice()))),
        None => {},
    }
    let mut content: Vec<char> = Vec::new();
    match prompt {
        Some(p) => push_str(&mut content, p),
        None => {},
    }
    let ghost p = content@;
    assert(p == match opt_view(prompt) {
        Some(q) => q,
        None => Seq::<char>::empty(),
    });
    let mut truncated = false;
    match injected_input {
        Some(input) => {
            if content.len() > 0 {
                push_str(&mut content, "\n\n");
            }
            push_str(&mut content, "--- Attached artifact (upstream step output) ---\n");
            let ghost head = content@;
            assert(head == (if p.len() > 0 {
                p + "\n\n"@
            } else {
                p
            }) + attachment_label());
            let chars = chars_of(input);
            let count = chars.len();
            if count > MAX_ATTACHMENT_CHARS {
                let clipped = slice_chars(&chars, 0, MAX_ATTACHMENT_CHARS);
                assert(clipped@ =~= input@.take(MAX_ATTACHMENT_CHARS as int));
                push_all(&mut content, &clipped);
                push_str(&mut content, "\n--- [truncated: ");
                let shown = decimal_chars(MAX_ATTACHMENT_CHARS as u64);
                push_all(&mut content, &shown);
                push_str(&mut content, " of ");
                let total = decimal_chars(count as u64);
                push_all(&mut content, &total);
                push_str(&mut content, " characters shown] ---");
                truncated = true;
                assert(content@ =~= head + attachment_text(input@));
            } else {
                push_all(&mut content, &chars);
                assert(content@ =~= head + attachment_text(input@));
            }
        },
        None => {},
    }
    let user = ModelMessage::user(string_of(content.as_slice()));
    messages.push(user);
    (messages, truncated)
}

/// What `format!("{:?}", s)` gives for a string: `s` in double quotes with its
/// special characters escaped.
pub uninterp spec fn debug_quoted(s: Seq<char>) -> Seq<char>;

/// `format!("{:?}", s)` on a string slice: the quoted, escaped form of `s`, a function
/// of `s` alone.
#[verifier::external_body]
fn debug_str(s: &str) -> (r: String)
    ensures
        r@ == debug_quoted(s@),
{
    format!("{:?}", s)
}

/// The debug form of an optional string: `None`, or `Some(..)` around its quoted form.
pub open spec fn debug_opt_text(o: Option<String>) -> Seq<char> {
    match o {
        Some(s) => "Some("@ + debug_quoted(s@) + ")"@,
        None => "None"@,
    }
}

/// The debug form of an optional count.
pub open spec fn debug_opt_count(o: Option<u64>) -> Seq<char> {
    match o {
        Some(n) => "Some("@ + decimal(n as nat) + ")"@,
        None => "None"@,
    }
}

/// The debug form of a boolean.
pub open spec fn debug_bool(b: bool) -> Seq<char> {
    if b {
        "true"@
    } else {
        "false"@
    }
}

/// The debug form of a file artifact, as its derived `Debug` writes it.
pub open spec fn debug_file(f: FileArtifact) -> Seq<char> {
    "FileArtifact { path: "@ + debug_quoted(f.path@) + ", mime_type: "@ + debug_opt_text(
        f.mime_type,
    ) + ", size_bytes: "@ + debug_opt_count(f.size_bytes) + " }"@
}

/// The debug forms of files, separated by `, `.
pub open spec fn debug_files(fs: Seq<FileArtifact>) -> Seq<char>
    decreases fs.len(),
{
    if fs.len() == 0 {
        Seq::empty()
    } else if fs.len() == 1 {
        debug_file(fs[0])
    } else {
        debug_files(fs.drop_last()) + ", "@ + debug_file(fs.last())
    }
}

/// The labelled debug rendering of an artifact, as its derived `Debug` writes it: the
/// variant's name with its value in brackets.
pub open spec fn debug_rendering(a: Artifact) -> Seq<char> {
    match a {
        Artifact::Null => "Null"@,
        Artifact::Text(s) => "Text("@ + debug_quoted(s@) + ")"@,
        Artifact::Json(j) => "Json("@ + debug_quoted(j@) + ")"@,
        Artifact::Integer(n) => "Integer("@ + signed_decimal(n as int) + ")"@,
        Artifact::Boolean(b) => "Boolean("@ + debug_bool(b) + ")"@,
        Artifact::File(f) => "File("@ + debug_file(f) + ")"@,
        Artifact::FileSet(fs) => "FileSet(["@ + debug_files(fs@) + "])"@,
        Artifact::CommandResult(c) => "CommandResult(CommandResultArtifact { exit_code: "@
            + signed_decimal(c.exit_code as int) + ", stdout: "@ + debug_quoted(c.stdout@)
            + ", stderr: "@ + debug_quoted(c.stderr@) + " })"@,
        Artifact::CodeGraph(g) => "CodeGraph(CodeGraphArtifact { provider: "@ + debug_quoted(
            g.provider@,
        ) + ", provider_version: "@ + debug_opt_text(g.provider_version) + ", repo_root: "@
            + debug_quoted(g.repo_root@) + ", git_revision: "@ + debug_opt_text(g.git_revision)
            + ", dirty: "@ + debug_bool(g.dirty) + ", indexed_at: "@ + debug_opt_text(
            g.indexed_at,
        ) + ", operation: "@ + debug_quoted(g.operation@) + ", payload: "@ + debug_quoted(
            g.payload@,
        ) + " })"@,
    }
}

fn push_quoted(v: &mut Vec<char>, s: &str)
    ensures
        final(v)@ == old(v)@ + debug_quoted(s@),
{
    let q = debug_str(s);
    push_str(v, q.as_str());
}

fn push_opt_text(v: &mut Vec<char>, o: &Option<String>)
    ensures
        final(v)@ == old(v)@ + debug_opt_text(*o),
{
    let ghost v0 = v@;
    match o {
        Some(s) => {
            push_str(v, "Some(");
            push_quoted(v, s.as_str());
            push_str(v, ")");
            assert(v@ =~= v0 + debug_opt_text(*o));
        },
        None => {
            push_str(v, "None");
        },
    }
}

fn push_opt_count(v: &mut Vec<char>, o: Option<u64>)
    ensures
        final(v)@ == old(v)@ + debug_opt_count(o),
{
    let ghost v0 = v@;
    match o {
        Some(n) => {
            push_str(v, "Some(");
            push_all(v, &decimal_chars(n));
            push_str(v, ")");
            assert(v@ =~= v0 + debug_opt_count(o));
        },
        None => {
            push_str(v, "None");
        },
    }
}

fn push_bool(v: &mut Vec<char>, b: bool)
    ensures
        final(v)@ == old(v)@ + debug_bool(b),
{
    if b {
        push_str(v, "true");
    } else {
        push_str(v, "false");
    }
}

fn push_file(v: &mut Vec<char>, f: &FileArtifact)
    ensures
        final(v)@ == old(v)@ + debug_file(*f),
{
    let ghost v0 = v@;
    push_str(v, "FileArtifact { path: ");
    push_quoted(v, f.path.as_str());
    push_str(v, ", mime_type: ");
    push_opt_text(v, &f.mime_type);
    push_str(v, ", size_bytes: ");
    push_opt_count(v, f.size_bytes);
    push_str(v, " }");
    assert(v@ =~= v0 + debug_file(*f));
}

/// The labelled debug rendering of an artifact.
fn debug_text(artifact: &Artifact) -> (r: String)
    ensures
        r@ == debug_rendering(*artifact),
{
    let mut v: Vec<char> = Vec::new();
    match artifact {
        Artifact::Null => {
            push_str(&mut v, "Null");
        },
        Artifact::Text(s) => {
            push_str(&mut v, "Text(");
            push_quoted(&mut v, s.as_str());
            push_str(&mut v, ")");
        },
        Artifact::Json(j) => {
            push_str(&mut v, "Json(");
            push_quoted(&mut v, j.as_str());
            push_str(&mut v, ")");
        },
        Artifact::Integer(n) => {
            push_str(&mut v, "Integer(");
            push_all(&mut v, &signed_decimal_chars(*n));
            push_str(&mut v, ")");
        },
        Artifact::Boolean(b) => {
            push_str(&mut v, "Boolean(");
            push_bool(&mut v, *b);
            push_str(&mut v, ")");
        },
        Artifact::File(f) => {
            push_str(&mut v, "File(");
            push_file(&mut v, f);
            push_str(&mut v, ")");
        },
        Artifact::FileSet(fs) => {
            push_str(&mut v, "FileSet([");
            let ghost v0 = v@;
            let mut i: usize = 0;
            while i < fs.len()
                invariant
                    i <= fs@.len(),
                    v@ == v0 + debug_files(fs@.subrange(0, i as int)),
                decreases fs@.len() - i,
            {
                let ghost before = v@;
                if i > 0 {
                    push_str(&mut v, ", ");
                }
                push_file(&mut v, &fs[i]);
                proof {
                    let sub = fs@.subrange(0, i + 1);
                    assert(sub.drop_last() =~= fs@.subrange(0, i as int));
                    assert(sub.last() == fs@[i as int]);
                    if i == 0 {
                        assert(sub.len() == 1);
                        assert(debug_files(fs@.subrange(0, 0)) =~= Seq::<char>::empty());
                        assert(v@ =~= v0 + debug_files(sub));
                    } else {
                        assert(v@ =~= v0 + debug_files(sub));
                    }
                }
                i = i + 1;
            }
            assert(fs@.subrange(0, fs@.len() as int) =~= fs@);
            push_str(&mut v, "])");
        },
        Artifact::CommandResult(c) => {
            push_str(&mut v, "CommandResult(CommandResultArtifact { exit_code: ");
            push_all(&mut v, &signed_decimal_chars(c.exit_code as i64));
            push_str(&mut v, ", stdout: ");
            push_quoted(&mut v, c.stdout.as_str());
            push_str(&mut v, ", stderr: ");
            push_quoted(&mut v, c.stderr.as_str());
            push_str(&mut v, " })");
        },
        Artifact::CodeGraph(g) => {
            push_str(&mut v, "CodeGraph(CodeGraphArtifact { provider: ");
            push_quoted(&mut v, g.provider.as_str());
            push_str(&mut v, ", provider_version: ");
            push_opt_text(&mut v, &g.provider_version);
            push_str(&mut v, ", repo_root: ");
            push_quoted(&mut v, g.repo_root.as_str());
            push_str(&mut v, ", git_revision: ");
            push_opt_text(&mut v, &g.git_revision);
            push_str(&mut v, ", dirty: ");
            push_bool(&mut v, g.dirty);
            push_str(&mut v, ", indexed_at: ");
            push_opt_text(&mut v, &g.indexed_at);
            push_str(&mut v, ", operation: ");
            push_quoted(&mut v, g.operation.as_str());
            push_str(&mut v, ", payload: ");
            push_quoted(&mut v, g.payload.as_str());
            push_str(&mut v, " })");
        },
    }
    assert(v@ =~= debug_rendering(*artifact));
    string_of(v.as_slice())
}

/// The text an artifact passes on: text verbatim, JSON as its JSON text, null as
/// nothing, anything else as its labelled debug rendering.
pub open spec fn artifact_text(a: Artifact) -> Seq<char> {
    match a {
        Artifact::Text(s) => s@,
        Artifact::Json(j) => j@,
        Artifact::Null => Seq::empty(),
        _ => debug_rendering(a),
    }
}

/// An upstream artifact as the text a step passes on: text verbatim, JSON as its JSON
/// text, null as nothing, anything else as its labelled debug rendering.
pub fn artifact_to_text(artifact: &Artifact) -> (r: String)
    ensures
        match *artifact {
            Artifact::Text(s) => r@ == s@,
            Artifact::Json(j) => r@ == j@,
            Artifact::Null => r@ == Seq::<char>::empty(),
            _ => r@ == debug_rendering(*artifact),
        },
        r@ == artifact_text(*artifact),
{
    match artifact {
        Artifact::Text(s) => owned(s.as_str()),
        Artifact::Json(j) => owned(j.as_str()),
        Artifact::Null => String::new(),
        other => debug_text(other),
    }
}

} // verus!
