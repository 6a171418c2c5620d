//! Structured plugin execution result (host side; plugins still answer with text).
use vstd::prelude::*;
use crate::text::{
    chars_of, decimal, decimal_chars, has_prefix, lowercase, owned, push_all, push_str, starts_with,
    string_of, to_lowercase, trim, trim_str,
};

verus! {

/// Plugin ABI v2 status: the plugin ran and its text is the output.
pub const LAO_STATUS_SUCCESS: u32 = 0;

/// Plugin ABI v2 status: the plugin rejected its input.
pub const LAO_STATUS_VALIDATION_FAILED: u32 = 1;

/// Plugin ABI v2 status: the plugin failed while running.
pub const LAO_STATUS_RUNTIME_ERROR: u32 = 2;

#[derive(Debug, Clone, Copy, PartialEq, Eq, Structural)]
pub enum PluginRunStatus {
    Success,
    ValidationFailed,
    RuntimeError,
    EmptyOutput,
    ErrorOutput,
}

#[derive(Debug, PartialEq)]
pub struct PluginRunResult {
    pub status: PluginRunStatus,
    pub output: Option<String>,
    pub error: Option<String>,
}

/// Output text that reports an error: after trimming and lowercasing it starts with
/// `error:`.
pub open spec fn reports_error(text: Seq<char>) -> bool {
    has_prefix(lowercase(trim(text)), "error:"@)
}

/// The text `display_error` shows for a result.
pub open spec fn error_text(r: PluginRunResult) -> Seq<char> {
    match r.error {
        Some(e) => e@,
        None => match r.output {
            Some(o) => o@,
            None => "unknown plugin error"@,
        },
    }
}

/// `plugin '<name>'<tail>`: how the host words a plugin's failure when the plugin
/// itself gave no text.
pub open spec fn about_plugin(name: Seq<char>, tail: Seq<char>) -> Seq<char> {
    "plugin '"@ + name + "'"@ + tail
}

fn plugin_message(name: &str, tail: &str) -> (r: String)
    ensures
        r@ == about_plugin(name@, tail@),
{
    let mut m = chars_of("plugin '");
    push_str(&mut m, name);
    push_str(&mut m, "'");
    push_str(&mut m, tail);
    string_of(m.as_slice())
}

impl PluginRunResult {
    pub fn success(output: String) -> (r: Self)
        ensures
            r.status == PluginRunStatus::Success,
            r.output == Some(output),
            r.error is None,
    {
        PluginRunResult { status: PluginRunStatus::Success, output: Some(output), error: None }
    }

    pub fn validation_failed(message: &str) -> (r: Self)
        ensures
            r.status == PluginRunStatus::ValidationFailed,
            r.output is None,
            r.error matches Some(e) && e@ == message@,
    {
        PluginRunResult {
            status: PluginRunStatus::ValidationFailed,
            output: None,
            error: Some(owned(message)),
        }
    }

    pub fn runtime_error(message: &str) -> (r: Self)
        ensures
            r.status == PluginRunStatus::RuntimeError,
            r.output is None,
            r.error matches Some(e) && e@ == message@,
    {
        PluginRunResult {
            status: PluginRunStatus::RuntimeError,
            output: None,
            error: Some(owned(message)),
        }
    }

    /// Maps an ABI v2 status code and the plugin's optional text to a result. A success
    /// without non-blank text is still empty output; a rejection or runtime error
    /// without text gets a message naming the plugin; an unknown code is a runtime
    /// error that names the code.
    pub fn from_status_code(status: u32, text: Option<String>, plugin_name: &str) -> (r: Self)
        ensures
            status == LAO_STATUS_SUCCESS ==> match text {
                Some(t) if trim(t@).len() != 0 => r.status == PluginRunStatus::Success && r.output
                    == Some(t) && r.error is None,
                _ => r.status == PluginRunStatus::EmptyOutput && r.output is None && (r.error matches Some(
                    e,
                ) && e@ == about_plugin(plugin_name@, " returned empty output"@)),
            },
            status == LAO_STATUS_VALIDATION_FAILED ==> r.status == PluginRunStatus::ValidationFailed
                && r.output is None && (r.error matches Some(e) && e@ == match text {
                Some(t) => t@,
                None => about_plugin(plugin_name@, " rejected input"@),
            }),
            status == LAO_STATUS_RUNTIME_ERROR ==> r.status == PluginRunStatus::RuntimeError
                && r.output is None && (r.error matches Some(e) && e@ == match text {
                Some(t) => t@,
                None => about_plugin(plugin_name@, " reported a runtime error"@),
            }),
            status != LAO_STATUS_SUCCESS && status != LAO_STATUS_VALIDATION_FAILED && status
                != LAO_STATUS_RUNTIME_ERROR ==> r.status == PluginRunStatus::RuntimeError
                && r.output is None && (r.error matches Some(e) && e@ == about_plugin(
                plugin_name@,
                " returned unknown status code "@ + decimal(status as nat),
            )),
    {
        if status == LAO_STATUS_SUCCESS {
            match text {
                Some(t) => {
                    let trimmed = trim_str(t.as_str());
                    if trimmed.as_str().unicode_len() != 0 {
                        return Self::success(t);
                    }
                },
                None => {},
            }
            PluginRunResult {
                status: PluginRunStatus::EmptyOutput,
                output: None,
                error: Some(plugin_message(plugin_name, " returned empty output")),
            }
        } else if status == LAO_STATUS_VALIDATION_FAILED {
            match text {
                Some(t) => Self::validation_failed(t.as_str()),
                None => Self::validation_failed(plugin_message(plugin_name, " rejected input").as_str()),
            }
        } else if status == LAO_STATUS_RUNTIME_ERROR {
            match text {
                Some(t) => Self::runtime_error(t.as_str()),
                None => Self::runtime_error(
                    plugin_message(plugin_name, " reported a runtime error").as_str(),
                ),
            }
        } else {
            let mut tail = chars_of(" returned unknown status code ");
            let code = decimal_chars(status as u64);
            push_all(&mut tail, &code);
            let tail_text = string_of(tail.as_slice());
            Self::runtime_error(plugin_message(plugin_name, tail_text.as_str()).as_str())
        }
    }

    /// Classifies a plugin's text answer: blank text is empty output, text starting
    /// with `error:` (any case, after trimming) is an error report, anything else is
    /// the successful output.
    pub fn from_plugin_text(output: String) -> (r: Self)
        ensures
            trim(output@).len() == 0 ==> (r.status == PluginRunStatus::EmptyOutput && r.output is None
                && (r.error matches Some(e) && e@ == "plugin returned empty output"@)),
            trim(output@).len() != 0 && reports_error(output@) ==> r.status
                == PluginRunStatus::ErrorOutput && r.output is None && r.error == Some(output),
            trim(output@).len() != 0 && !reports_error(output@) ==> r.status
                == PluginRunStatus::Success && r.output == Some(output) && r.error is None,
    {
        let trimmed = trim_str(output.as_str());
        if trimmed.as_str().unicode_len() == 0 {
            return PluginRunResult {
                status: PluginRunStatus::EmptyOutput,
                output: None,
                error: Some(owned("plugin returned empty output")),
            };
        }
        let lower = to_lowercase(trimmed.as_str());
        if starts_with(&chars_of(lower.as_str()), &chars_of("error:")) {
            return PluginRunResult { status: PluginRunStatus::ErrorOutput, output: None, error: Some(output) };
        }
        Self::success(output)
    }

    pub fn is_success(&self) -> (r: bool)
        ensures
            r == (self.status == PluginRunStatus::Success),
    {
        self.status == PluginRunStatus::Success
    }

    /// The error message, else the output, else a generic message.
    pub fn display_error(&self) -> (r: String)
        ensures
            r@ == error_text(*self),
    {
        match &self.error {
            Some(e) => e.clone(),
            None => match &self.output {
                Some(o) => o.clone(),
                None => owned("unknown plugin error"),
            },
        }
    }
}

} // verus!
