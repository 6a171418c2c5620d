//! Failure modes of a provider call: process failures (spawn, timeout, exit status),
//! output failures (malformed, too large) and host-side policy failures.
use vstd::prelude::*;
use crate::text::{decimal, push_all, push_str, signed_decimal, signed_decimal_chars, string_of};

verus! {

#[derive(Debug, PartialEq)]
pub enum ProviderError {
    NotFound(String),
    SpawnFailed(String),
    Timeout,
    NonZeroExit { code: Option<i32>, stderr: String },
    MalformedOutput(String),
    OutputTooLarge,
    UnsupportedOperation(String),
    Denied(String),
}

/// `{:?}` rendering of an optional exit code.
pub open spec fn exit_code_text(code: Option<i32>) -> Seq<char> {
    match code {
        Some(c) => "Some("@ + signed_decimal(c as int) + ")"@,
        None => "None"@,
    }
}

/// The readable message of a provider error.
pub open spec fn provider_error_text(e: ProviderError) -> Seq<char> {
    match e {
        ProviderError::NotFound(msg) => "provider executable not found: "@ + msg@,
        ProviderError::SpawnFailed(msg) => "failed to spawn provider process: "@ + msg@,
        ProviderError::Timeout => "provider query timed out"@,
        ProviderError::NonZeroExit { code, stderr } => "provider process exited with status "@
            + exit_code_text(code) + ": "@ + stderr@,
        ProviderError::MalformedOutput(msg) => "provider returned malformed output: "@ + msg@,
        ProviderError::OutputTooLarge => "provider output exceeded the configured size limit"@,
        ProviderError::UnsupportedOperation(op) => "operation '"@ + op@
            + "' is not in the code-graph operation allowlist"@,
        ProviderError::Denied(msg) => "code-graph access denied: "@ + msg@,
    }
}

impl ProviderError {
    /// The error rendered as text.
    pub fn message(&self) -> (r: String)
        ensures
            r@ == provider_error_text(*self),
    {
        let mut v: Vec<char> = Vec::new();
        match self {
            ProviderError::NotFound(msg) => {
                push_str(&mut v, "provider executable not found: ");
                push_str(&mut v, msg.as_str());
            },
            ProviderError::SpawnFailed(msg) => {
                push_str(&mut v, "failed to spawn provider process: ");
                push_str(&mut v, msg.as_str());
            },
            ProviderError::Timeout => {
                push_str(&mut v, "provider query timed out");
            },
            ProviderError::NonZeroExit { code, stderr } => {
                push_str(&mut v, "provider process exited with status ");
                match code {
                    Some(c) => {
                        push_str(&mut v, "Some(");
                        push_all(&mut v, &signed_decimal_chars(*c as i64));
                        push_str(&mut v, ")");
                    },
                    None => {
                        push_str(&mut v, "None");
                    },
                }
                push_str(&mut v, ": ");
                push_str(&mut v, stderr.as_str());
            },
            ProviderError::MalformedOutput(msg) => {
                push_str(&mut v, "provider returned malformed output: ");
                push_str(&mut v, msg.as_str());
            },
            ProviderError::OutputTooLarge => {
                push_str(&mut v, "provider output exceeded the configured size limit");
            },
            ProviderError::UnsupportedOperation(op) => {
                push_str(&mut v, "operation '");
                push_str(&mut v, op.as_str());
                push_str(&mut v, "' is not in the code-graph operation allowlist");
            },
            ProviderError::Denied(msg) => {
                push_str(&mut v, "code-graph access denied: ");
                push_str(&mut v, msg.as_str());
            },
        }
        string_of(v.as_slice())
    }
}

} // verus!
