//! Trust policy for dangerous plugin capabilities.
//!
//! Default-deny: filesystem, shell, network and subprocess capabilities need an
//! explicit opt-in (the `[trust]` section of `lao.toml`, or `LAO_ALLOW_SHELL=1` for
//! the shell). Filesystem access also needs explicit `filesystem_roots`.
use vstd::prelude::*;
use crate::path_policy::{
    canonical, canonicalize_path, components, lemma_canonical_is_normal, path_within_roots,
    within_roots,
};
use crate::text::{
    chars_of, has_infix, has_prefix, lowercase, push_str, str_contains, str_eq, str_starts_with,
    slice_chars, string_of, to_lowercase, trim, trim_str, views,
};
use crate::workflow_types::Workflow;

verus! {

/// A class of capability that a plugin may need.
#[derive(Debug, Clone, Copy, PartialEq, Eq, Structural)]
pub enum CapabilityClass {
    FilesystemRead,
    FilesystemWrite,
    FilesystemEnumerate,
    Shell,
    Network,
    Subprocess,
}

/// The name of a capability class as it appears in messages.
pub open spec fn class_name(c: CapabilityClass) -> Seq<char> {
    match c {
        CapabilityClass::FilesystemRead => "FilesystemRead"@,
        CapabilityClass::FilesystemWrite => "FilesystemWrite"@,
        CapabilityClass::FilesystemEnumerate => "FilesystemEnumerate"@,
        CapabilityClass::Shell => "Shell"@,
        CapabilityClass::Network => "Network"@,
        CapabilityClass::Subprocess => "Subprocess"@,
    }
}

impl CapabilityClass {
    /// The name of the class, as `class_name` gives it.
    pub fn name(&self) -> (r: &'static str)
        ensures
            r@ == class_name(*self),
    {
        match self {
            CapabilityClass::FilesystemRead => "FilesystemRead",
            CapabilityClass::FilesystemWrite => "FilesystemWrite",
            CapabilityClass::FilesystemEnumerate => "FilesystemEnumerate",
            CapabilityClass::Shell => "Shell",
            CapabilityClass::Network => "Network",
            CapabilityClass::Subprocess => "Subprocess",
        }
    }
}

/// The class that a bundled plugin needs, by the plugin's name.
pub open spec fn plugin_class(name: Seq<char>) -> Option<CapabilityClass> {
    if name == "FileReadPlugin"@ {
        Some(CapabilityClass::FilesystemRead)
    } else if name == "FolderMapPlugin"@ {
        Some(CapabilityClass::FilesystemEnumerate)
    } else if name == "MarkdownReportPlugin"@ {
        Some(CapabilityClass::FilesystemWrite)
    } else if name == "ShellCommandPlugin"@ {
        Some(CapabilityClass::Shell)
    } else if name == "SummarizerPlugin"@ || name == "PromptDispatcherPlugin"@ {
        Some(CapabilityClass::Network)
    } else if name == "WhisperPlugin"@ {
        Some(CapabilityClass::Subprocess)
    } else {
        None
    }
}

/// The class that a capability name declared in a plugin manifest stands for, in
/// either its functional or its class form; unknown names stand for none.
pub open spec fn manifest_class(name: Seq<char>) -> Option<CapabilityClass> {
    if name == "read-file"@ || name == "file-read"@ || name == "file_read"@ || name
        == "filesystem_read"@ {
        Some(CapabilityClass::FilesystemRead)
    } else if name == "write-file"@ || name == "file-write"@ || name == "file_write"@ || name
        == "filesystem_write"@ || name == "markdown-report"@ {
        Some(CapabilityClass::FilesystemWrite)
    } else if name == "map-folder"@ || name == "list-folder"@ || name == "directory-list"@ || name
        == "directory_list"@ || name == "filesystem_enumerate"@ {
        Some(CapabilityClass::FilesystemEnumerate)
    } else if name == "run-shell"@ || name == "shell"@ || name == "shell-command"@ || name
        == "shell_execute"@ {
        Some(CapabilityClass::Shell)
    } else if name == "summarize"@ || name == "prompt-dispatch"@ || name == "network"@ || name
        == "http"@ {
        Some(CapabilityClass::Network)
    } else if name == "speech-to-text"@ || name == "subprocess"@ {
        Some(CapabilityClass::Subprocess)
    } else {
        None
    }
}

fn capability_class_for_plugin(plugin_name: &str) -> (r: Option<CapabilityClass>)
    ensures
        r == plugin_class(plugin_name@),
{
    if str_eq(plugin_name, "FileReadPlugin") {
        Some(CapabilityClass::FilesystemRead)
    } else if str_eq(plugin_name, "FolderMapPlugin") {
        Some(CapabilityClass::FilesystemEnumerate)
    } else if str_eq(plugin_name, "MarkdownReportPlugin") {
        Some(CapabilityClass::FilesystemWrite)
    } else if str_eq(plugin_name, "ShellCommandPlugin") {
        Some(CapabilityClass::Shell)
    } else if str_eq(plugin_name, "SummarizerPlugin") || str_eq(
        plugin_name,
        "PromptDispatcherPlugin",
    ) {
        Some(CapabilityClass::Network)
    } else if str_eq(plugin_name, "WhisperPlugin") {
        Some(CapabilityClass::Subprocess)
    } else {
        None
    }
}

pub(crate) fn capability_class_for_manifest(n: &str) -> (r: Option<CapabilityClass>)
    ensures
        r == manifest_class(n@),
{
    if str_eq(n, "read-file") || str_eq(n, "file-read") || str_eq(n, "file_read") || str_eq(
        n,
        "filesystem_read",
    ) {
        Some(CapabilityClass::FilesystemRead)
    } else if str_eq(n, "write-file") || str_eq(n, "file-write") || str_eq(n, "file_write")
        || str_eq(n, "filesystem_write") || str_eq(n, "markdown-report") {
        Some(CapabilityClass::FilesystemWrite)
    } else if str_eq(n, "map-folder") || str_eq(n, "list-folder") || str_eq(n, "directory-list")
        || str_eq(n, "directory_list") || str_eq(n, "filesystem_enumerate") {
        Some(CapabilityClass::FilesystemEnumerate)
    } else if str_eq(n, "run-shell") || str_eq(n, "shell") || str_eq(n, "shell-command") || str_eq(
        n,
        "shell_execute",
    ) {
        Some(CapabilityClass::Shell)
    } else if str_eq(n, "summarize") || str_eq(n, "prompt-dispatch") || str_eq(n, "network")
        || str_eq(n, "http") {
        Some(CapabilityClass::Network)
    } else if str_eq(n, "speech-to-text") || str_eq(n, "subprocess") {
        Some(CapabilityClass::Subprocess)
    } else {
        None
    }
}

/// The `[trust]` section of a configuration file, each entry optional.
pub struct TrustSection {
    pub allow_filesystem_read: Option<bool>,
    pub allow_filesystem_write: Option<bool>,
    pub allow_filesystem_enumerate: Option<bool>,
    pub allow_shell: Option<bool>,
    pub allow_network: Option<bool>,
    pub allow_subprocess: Option<bool>,
    pub allow_plugins: Option<Vec<String>>,
    pub filesystem_roots: Option<Vec<String>>,
    pub network_endpoints: Option<Vec<String>>,
}

/// What the runtime allows plugins to do. `allow_plugins` names plugins trusted
/// whatever their class; it is read as a set. `working_dir` is the directory that
/// relative paths are taken from, when it is known.
#[derive(Debug, Clone)]
pub struct TrustPolicy {
    pub allow_filesystem_read: bool,
    pub allow_filesystem_write: bool,
    pub allow_filesystem_enumerate: bool,
    pub allow_shell: bool,
    pub allow_network: bool,
    pub allow_subprocess: bool,
    pub allow_plugins: Vec<String>,
    /// Explicit filesystem roots (required for any filesystem capability).
    pub filesystem_roots: Vec<String>,
    /// Allowed network endpoint prefixes (host, host:port, or URL prefix).
    pub network_endpoints: Vec<String>,
    pub working_dir: Option<String>,
}

impl Default for TrustPolicy {
    /// Everything denied, nothing listed.
    fn default() -> (r: Self)
        ensures
            r.denies_everything(),
    {
        TrustPolicy {
            allow_filesystem_read: false,
            allow_filesystem_write: false,
            allow_filesystem_enumerate: false,
            allow_shell: false,
            allow_network: false,
            allow_subprocess: false,
            allow_plugins: Vec::new(),
            filesystem_roots: Vec::new(),
            network_endpoints: Vec::new(),
            working_dir: None,
        }
    }
}

/// `rel` joined onto `base` as `Path::join` does for a relative `rel`.
pub open spec fn join_path(base: Seq<char>, rel: Seq<char>) -> Seq<char> {
    if base.len() == 0 {
        rel
    } else if base.last() == '/' {
        base + rel
    } else {
        base + "/"@ + rel
    }
}

/// Where the part of `s` after its first `://` starts, searching from `i`; 0 when
/// there is none.
pub open spec fn scheme_end_from(s: Seq<char>, i: int) -> int
    decreases s.len() - i,
{
    if i < 0 || i + 3 > s.len() {
        0
    } else if s[i] == ':' && s[i + 1] == '/' && s[i + 2] == '/' {
        i + 3
    } else {
        scheme_end_from(s, i + 1)
    }
}

/// The first position from `i` on that holds `/`, `?` or `#`, else the length.
pub open spec fn authority_end_from(s: Seq<char>, i: int) -> int
    decreases s.len() - i,
{
    if i < 0 || i >= s.len() {
        s.len() as int
    } else if s[i] == '/' || s[i] == '?' || s[i] == '#' {
        i
    } else {
        authority_end_from(s, i + 1)
    }
}

/// The first position from `i` before `end` that holds `:`, else `end`.
pub open spec fn colon_from(s: Seq<char>, i: int, end: int) -> int
    decreases end - i,
{
    if i < 0 || i >= end {
        end
    } else if s[i] == ':' {
        i
    } else {
        colon_from(s, i + 1, end)
    }
}

/// The `host` or `host:port` part of an endpoint: after its scheme, up to its path,
/// query or fragment.
pub open spec fn endpoint_authority(ep: Seq<char>) -> Seq<char> {
    let a = scheme_end_from(ep, 0);
    ep.subrange(a, authority_end_from(ep, a))
}

/// The host of an endpoint: its authority without the port.
pub open spec fn endpoint_host(ep: Seq<char>) -> Seq<char> {
    let a = scheme_end_from(ep, 0);
    ep.subrange(a, colon_from(ep, a, authority_end_from(ep, a)))
}

/// An allowed endpoint admits `ep` (both already trimmed and lowercased): equal,
/// a URL prefix of it ending at a `/`, or its host or `host:port`.
pub open spec fn endpoint_admits(ep: Seq<char>, allowed: Seq<char>) -> bool {
    ep == allowed || has_prefix(ep, allowed + "/"@) || endpoint_authority(ep) == allowed
        || endpoint_host(ep) == allowed
}

proof fn lemma_scheme_end_bounds(s: Seq<char>, i: int)
    requires
        0 <= i,
    ensures
        0 <= scheme_end_from(s, i) <= s.len(),
    decreases s.len() - i,
{
    if i + 3 <= s.len() && !(s[i] == ':' && s[i + 1] == '/' && s[i + 2] == '/') {
        lemma_scheme_end_bounds(s, i + 1);
    }
}

proof fn lemma_authority_end_bounds(s: Seq<char>, i: int)
    requires
        0 <= i,
    ensures
        i <= authority_end_from(s, i) <= s.len() || (i > s.len() && authority_end_from(s, i)
            == s.len()),
    decreases s.len() - i,
{
    if i < s.len() && !(s[i] == '/' || s[i] == '?' || s[i] == '#') {
        lemma_authority_end_bounds(s, i + 1);
    }
}

proof fn lemma_colon_bounds(s: Seq<char>, i: int, end: int)
    requires
        0 <= i <= end,
    ensures
        i <= colon_from(s, i, end) <= end,
    decreases end - i,
{
    if i < end && s[i] != ':' {
        lemma_colon_bounds(s, i + 1, end);
    }
}

/// `LAO_ALLOW_SHELL` turns the shell on: `1`, or `true` in any ASCII case.
pub open spec fn shell_opt_in_value(v: Seq<char>) -> bool {
    v == "1"@ || (v.len() == 4 && (v[0] == 't' || v[0] == 'T') && (v[1] == 'r' || v[1] == 'R')
        && (v[2] == 'u' || v[2] == 'U') && (v[3] == 'e' || v[3] == 'E'))
}

impl TrustPolicy {
    /// No capability is allowed, and nothing is listed or known.
    pub open spec fn denies_everything(&self) -> bool {
        &&& !self.allow_filesystem_read
        &&& !self.allow_filesystem_write
        &&& !self.allow_filesystem_enumerate
        &&& !self.allow_shell
        &&& !self.allow_network
        &&& !self.allow_subprocess
        &&& self.allow_plugins@.len() == 0
        &&& self.filesystem_roots@.len() == 0
        &&& self.network_endpoints@.len() == 0
        &&& self.working_dir is None
    }

    /// The flag for `c`.
    pub open spec fn class_allowed(&self, c: CapabilityClass) -> bool {
        match c {
            CapabilityClass::FilesystemRead => self.allow_filesystem_read,
            CapabilityClass::FilesystemWrite => self.allow_filesystem_write,
            CapabilityClass::FilesystemEnumerate => self.allow_filesystem_enumerate,
            CapabilityClass::Shell => self.allow_shell,
            CapabilityClass::Network => self.allow_network,
            CapabilityClass::Subprocess => self.allow_subprocess,
        }
    }

    /// `name` is one of `allow_plugins`.
    pub open spec fn lists_plugin(&self, name: Seq<char>) -> bool {
        views(self.allow_plugins@).contains(name)
    }

    /// The plugin `name` may use a capability of class `c`.
    pub open spec fn plugin_allowed(&self, name: Seq<char>, c: CapabilityClass) -> bool {
        self.lists_plugin(name) || self.class_allowed(c)
    }

    /// What `require_capability` answers.
    pub open spec fn capability_verdict(&self, name: Seq<char>, c: CapabilityClass) -> Result<
        (),
        Seq<char>,
    > {
        if self.plugin_allowed(name, c) {
            Ok(())
        } else {
            Err("plugin '"@ + name + "' requires "@ + class_name(c)
                + " trust; configure lao.toml [trust]"@)
        }
    }

    /// Step `i` runs a bundled plugin that the policy does not trust.
    pub open spec fn step_untrusted(&self, runs: Seq<Seq<char>>, i: int) -> bool {
        match plugin_class(runs[i]) {
            Some(c) => !self.plugin_allowed(runs[i], c),
            None => false,
        }
    }

    /// The message for an untrusted step running `run`.
    pub open spec fn untrusted_step_message(run: Seq<char>) -> Seq<char> {
        "workflow uses untrusted plugin '"@ + run + "' ("@ + class_name(plugin_class(run)->0)
            + "); configure lao.toml [trust]"@
    }

    /// `p` as the process would open it: relative paths are taken from the working
    /// directory when it is known.
    pub open spec fn absolute_path(&self, p: Seq<char>) -> Seq<char> {
        if p.len() > 0 && p[0] == '/' {
            p
        } else {
            match self.working_dir {
                Some(w) => join_path(w@, p),
                None => p,
            }
        }
    }

    /// What `validate_filesystem_path` answers for `raw` and `c`.
    pub open spec fn filesystem_verdict(&self, raw: Seq<char>, c: CapabilityClass) -> Result<
        Seq<char>,
        Seq<char>,
    > {
        if !self.class_allowed(c) {
            Err("filesystem capability "@ + class_name(c) + " is not allowed by trust policy"@)
        } else if self.filesystem_roots@.len() == 0 {
            Err(
                "filesystem access denied: set trust.filesystem_roots in lao.toml (explicit roots only)"@,
            )
        } else {
            match canonical(raw) {
                Err(e) => Err(e),
                Ok(p) => {
                    let a = self.absolute_path(p);
                    if within_roots(a, self.filesystem_roots@) {
                        Ok(a)
                    } else {
                        Err("path '"@ + trim(raw) + "' is outside configured filesystem_roots"@)
                    }
                },
            }
        }
    }

    /// Some allowed endpoint admits `ep` (already trimmed and lowercased).
    pub open spec fn endpoint_listed(&self, ep: Seq<char>) -> bool {
        exists|i: int|
            0 <= i < self.network_endpoints@.len() && endpoint_admits(
                ep,
                lowercase(trim((#[trigger] self.network_endpoints@[i])@)),
            )
    }

    /// What `validate_network_endpoint` answers for `endpoint`.
    pub open spec fn network_verdict(&self, endpoint: Seq<char>) -> Result<(), Seq<char>> {
        if !self.allow_network && self.allow_plugins@.len() == 0 {
            Err("network access is not allowed by trust policy"@)
        } else if self.network_endpoints@.len() == 0 && !self.allow_network {
            Err("network access denied: set trust.network_endpoints or allow_network in lao.toml"@)
        } else if self.network_endpoints@.len() == 0 {
            Ok(())
        } else {
            let ep = lowercase(trim(endpoint));
            if self.endpoint_listed(ep) {
                Ok(())
            } else {
                Err("network endpoint '"@ + ep + "' is not in trust.network_endpoints"@)
            }
        }
    }

    /// What `validate_step_input` answers for a step of `plugin` reading `input`.
    pub open spec fn step_input_verdict(&self, plugin: Seq<char>, input: Seq<char>) -> Result<
        (),
        Seq<char>,
    > {
        if plugin == "FileReadPlugin"@ {
            match self.filesystem_verdict(input, CapabilityClass::FilesystemRead) {
                Ok(_) => Ok(()),
                Err(e) => Err(e),
            }
        } else if plugin == "FolderMapPlugin"@ {
            match self.filesystem_verdict(input, CapabilityClass::FilesystemEnumerate) {
                Ok(_) => Ok(()),
                Err(e) => Err(e),
            }
        } else if plugin == "SummarizerPlugin"@ {
            match self.capability_verdict(plugin, CapabilityClass::Network) {
                Err(e) => Err(e),
                Ok(_) => self.network_verdict("http://127.0.0.1:11434"@),
            }
        } else if plugin == "PromptDispatcherPlugin"@ {
            self.capability_verdict(plugin, CapabilityClass::Network)
        } else if plugin == "ShellCommandPlugin"@ {
            self.capability_verdict(plugin, CapabilityClass::Shell)
        } else {
            Ok(())
        }
    }

    /// A declared capability `cap` of `plugin` is denied by the policy.
    pub open spec fn manifest_denied(&self, plugin: Seq<char>, cap: Seq<char>) -> bool {
        match manifest_class(cap) {
            Some(c) => !self.plugin_allowed(plugin, c),
            None => false,
        }
    }

    /// The message for a denied declared capability.
    pub open spec fn denied_capability_message(plugin: Seq<char>, cap: Seq<char>) -> Seq<char> {
        "plugin '"@ + plugin + "' declares capability '"@ + cap + "' but trust policy denies "@
            + class_name(manifest_class(cap)->0)
    }

    /// Whether the flag of `class` is set.
    pub fn allows_class(&self, class: CapabilityClass) -> (r: bool)
        ensures
            r == self.class_allowed(class),
    {
        match class {
            CapabilityClass::FilesystemRead => self.allow_filesystem_read,
            CapabilityClass::FilesystemWrite => self.allow_filesystem_write,
            CapabilityClass::FilesystemEnumerate => self.allow_filesystem_enumerate,
            CapabilityClass::Shell => self.allow_shell,
            CapabilityClass::Network => self.allow_network,
            CapabilityClass::Subprocess => self.allow_subprocess,
        }
    }

    /// Whether `plugin_name` may use `class`: listed plugins may use anything,
    /// others what the class flag allows.
    pub fn allows_plugin(&self, plugin_name: &str, class: CapabilityClass) -> (r: bool)
        ensures
            r == self.plugin_allowed(plugin_name@, class),
    {
        let mut i: usize = 0;
        while i < self.allow_plugins.len()
            invariant
                i <= self.allow_plugins@.len(),
                forall|k: int| 0 <= k < i ==> (#[trigger] self.allow_plugins@[k])@ != plugin_name@,
            decreases self.allow_plugins@.len() - i,
        {
            if str_eq(self.allow_plugins[i].as_str(), plugin_name) {
                assert(views(self.allow_plugins@)[i as int] == plugin_name@);
                return true;
            }
            i = i + 1;
        }
        assert(!views(self.allow_plugins@).contains(plugin_name@)) by {
            if views(self.allow_plugins@).contains(plugin_name@) {
                let k = choose|k: int|
                    0 <= k < views(self.allow_plugins@).len() && views(
                        self.allow_plugins@,
                    )[k] == plugin_name@;
                assert(self.allow_plugins@[k]@ == plugin_name@);
            }
        }
        self.allows_class(class)
    }

    /// Fails unless `plugin_name` may use `class`.
    pub fn require_capability(&self, plugin_name: &str, class: CapabilityClass) -> (r: Result<
        (),
        String,
    >)
        ensures
            match r {
                Ok(()) => self.capability_verdict(plugin_name@, class) == Ok::<(), Seq<char>>(()),
                Err(e) => self.capability_verdict(plugin_name@, class) == Err::<(), Seq<char>>(
                    e@,
                ),
            },
    {
        if !self.allows_plugin(plugin_name, class) {
            let mut m: Vec<char> = Vec::new();
            push_str(&mut m, "plugin '");
            push_str(&mut m, plugin_name);
            push_str(&mut m, "' requires ");
            push_str(&mut m, class.name());
            push_str(&mut m, " trust; configure lao.toml [trust]");
            return Err(string_of(m.as_slice()));
        }
        Ok(())
    }

    /// Fails on the first step that runs a bundled plugin which the policy does not
    /// trust; steps of other plugins pass.
    pub fn validate_workflow(&self, workflow: &Workflow) -> (r: Result<(), String>)
        ensures
            ({
                let runs = workflow.steps@.map_values(|s: crate::workflow_types::WorkflowStep| s.run@);
                match r {
                    Ok(()) => forall|i: int| 0 <= i < runs.len() ==> !self.step_untrusted(runs, i),
                    Err(e) => exists|i: int|
                        0 <= i < runs.len() && self.step_untrusted(runs, i) && (forall|j: int|
                            0 <= j < i ==> !self.step_untrusted(runs, j)) && e@
                            == Self::untrusted_step_message(runs[i]),
                }
            }),
    {
        let ghost runs = workflow.steps@.map_values(
            |s: crate::workflow_types::WorkflowStep| s.run@,
        );
        let mut i: usize = 0;
        while i < workflow.steps.len()
            invariant
                i <= workflow.steps@.len(),
                runs == workflow.steps@.map_values(|s: crate::workflow_types::WorkflowStep| s.run@),
                forall|j: int| 0 <= j < i ==> !self.step_untrusted(runs, j),
            decreases workflow.steps@.len() - i,
        {
            let run = workflow.steps[i].run.as_str();
            assert(runs[i as int] == run@);
            if let Some(class) = capability_class_for_plugin(run) {
                if !self.allows_plugin(run, class) {
                    let mut m: Vec<char> = Vec::new();
                    push_str(&mut m, "workflow uses untrusted plugin '");
                    push_str(&mut m, run);
                    push_str(&mut m, "' (");
                    push_str(&mut m, class.name());
                    push_str(&mut m, "); configure lao.toml [trust]");
                    assert(self.step_untrusted(runs, i as int));
                    return Err(string_of(m.as_slice()));
                }
            }
            i = i + 1;
        }
        Ok(())
    }

    /// Normalizes `raw_path` and checks it against the roots for a filesystem
    /// capability of class `class`: the class must be allowed, roots must be
    /// configured, the path must normalize without climbing above its start, and
    /// the absolute result must lie under one of the roots. Returns that result.
    pub fn validate_filesystem_path(&self, raw_path: &str, class: CapabilityClass) -> (r: Result<
        String,
        String,
    >)
        ensures
            match r {
                Ok(p) => self.filesystem_verdict(raw_path@, class) == Ok::<Seq<char>, Seq<char>>(
                    p@,
                ),
                Err(e) => self.filesystem_verdict(raw_path@, class) == Err::<Seq<char>, Seq<char>>(
                    e@,
                ),
            },
    {
        proof {
            reveal_strlit("/");
        }
        if !self.allows_class(class) {
            let mut m: Vec<char> = Vec::new();
            push_str(&mut m, "filesystem capability ");
            push_str(&mut m, class.name());
            push_str(&mut m, " is not allowed by trust policy");
            return Err(string_of(m.as_slice()));
        }
        if self.filesystem_roots.len() == 0 {
            return Err(
                string_of(
                    chars_of(
                        "filesystem access denied: set trust.filesystem_roots in lao.toml (explicit roots only)",
                    ).as_slice(),
                ),
            );
        }
        let canonical_path = match canonicalize_path(raw_path) {
            Ok(p) => p,
            Err(e) => {
                return Err(e);
            },
        };
        let cv = chars_of(canonical_path.as_str());
        let absolute = if cv.len() > 0 && cv[0] == '/' {
            canonical_path
        } else {
            match &self.working_dir {
                Some(w) => {
                    let mut m = chars_of(w.as_str());
                    if m.len() > 0 && m[m.len() - 1] != '/' {
                        m.push('/');
                    }
                    push_str(&mut m, canonical_path.as_str());
                    proof {
                        let wv = w@;
                        if wv.len() == 0 {
                            assert(m@ =~= join_path(wv, cv@));
                        } else if wv.last() == '/' {
                            assert(m@ =~= join_path(wv, cv@));
                        } else {
                            assert(m@ =~= join_path(wv, cv@));
                        }
                    }
                    string_of(m.as_slice())
                },
                None => canonical_path,
            }
        };
        if !path_within_roots(absolute.as_str(), self.filesystem_roots.as_slice()) {
            let mut m: Vec<char> = Vec::new();
            push_str(&mut m, "path '");
            let t = trim_str(raw_path);
            push_str(&mut m, t.as_str());
            push_str(&mut m, "' is outside configured filesystem_roots");
            return Err(string_of(m.as_slice()));
        }
        Ok(absolute)
    }

    /// The same check as `validate_filesystem_path`, for a path taken from a step's
    /// parameters (such as a report's output path).
    pub fn validate_param_path(&self, path: &str, class: CapabilityClass) -> (r: Result<
        String,
        String,
    >)
        ensures
            match r {
                Ok(p) => self.filesystem_verdict(path@, class) == Ok::<Seq<char>, Seq<char>>(p@),
                Err(e) => self.filesystem_verdict(path@, class) == Err::<Seq<char>, Seq<char>>(e@),
            },
    {
        self.validate_filesystem_path(path, class)
    }
}

/// The normalized form of one configured root: what the filesystem resolved it to
/// when it could, else its lexical normalization, else nothing (the root is dropped).
pub open spec fn normalized_root(root: Seq<char>, resolved: Option<String>) -> Option<Seq<char>> {
    match resolved {
        Some(a) => Some(a@),
        None => match canonical(root) {
            Ok(p) => Some(p),
            Err(_) => None,
        },
    }
}

/// The entry of `resolved` for root `i`; none past its end.
pub open spec fn resolution(resolved: Seq<Option<String>>, i: int) -> Option<String> {
    if 0 <= i < resolved.len() {
        resolved[i]
    } else {
        None
    }
}

/// The normalized forms of the first `n` roots, in order, dropped ones left out.
pub open spec fn normalized_roots(roots: Seq<String>, resolved: Seq<Option<String>>, n: nat) -> Seq<
    Seq<char>,
>
    decreases n,
{
    if n == 0 {
        Seq::empty()
    } else {
        let prev = normalized_roots(roots, resolved, (n - 1) as nat);
        match normalized_root(roots[n - 1]@, resolution(resolved, n - 1)) {
            Some(p) => prev.push(p),
            None => prev,
        }
    }
}

/// The list `old` extended by the entries of a section, if it has any.
pub open spec fn extended(old: Seq<String>, more: Option<Vec<String>>) -> Seq<String> {
    match more {
        Some(v) => old + v@,
        None => old,
    }
}

/// Whether the value of `LAO_ALLOW_SHELL` turns the shell on: `1`, or `true` in
/// any ASCII case.
pub fn shell_opt_in(value: &str) -> (r: bool)
    ensures
        r == shell_opt_in_value(value@),
{
    if str_eq(value, "1") {
        return true;
    }
    let v = chars_of(value);
    if v.len() != 4 {
        return false;
    }
    let lower = ['t', 'r', 'u', 'e'];
    let upper = ['T', 'R', 'U', 'E'];
    let mut k: usize = 0;
    while k < 4
        invariant
            v@ == value@,
            value@ != "1"@,
            v@.len() == 4,
            k <= 4,
            lower@ == seq!['t', 'r', 'u', 'e'],
            upper@ == seq!['T', 'R', 'U', 'E'],
            forall|m: int| 0 <= m < k ==> v@[m] == lower@[m] || v@[m] == upper@[m],
        decreases 4 - k,
    {
        if v[k] != lower[k] && v[k] != upper[k] {
            return false;
        }
        k = k + 1;
    }
    true
}

fn scheme_end(ep: &Vec<char>) -> (r: usize)
    ensures
        r == scheme_end_from(ep@, 0),
{
    let n = ep.len();
    if n < 3 {
        return 0;
    }
    let mut i: usize = 0;
    while i <= n - 3
        invariant
            n == ep@.len(),
            n >= 3,
            scheme_end_from(ep@, 0) == scheme_end_from(ep@, i as int),
        decreases n - i,
    {
        if ep[i] == ':' && ep[i + 1] == '/' && ep[i + 2] == '/' {
            return i + 3;
        }
        i = i + 1;
    }
    0
}

/// The bounds of the authority of `ep`, and the end of its host.
fn authority_bounds(ep: &Vec<char>) -> (r: (usize, usize, usize))
    ensures
        r.0 == scheme_end_from(ep@, 0),
        r.1 == authority_end_from(ep@, r.0 as int),
        r.2 == colon_from(ep@, r.0 as int, r.1 as int),
        r.0 <= r.2 <= r.1 <= ep@.len(),
{
    let n = ep.len();
    let a = scheme_end(ep);
    proof {
        lemma_scheme_end_bounds(ep@, 0);
    }
    let mut e: usize = a;
    while e < n && ep[e] != '/' && ep[e] != '?' && ep[e] != '#'
        invariant
            n == ep@.len(),
            a <= e <= n,
            authority_end_from(ep@, a as int) == authority_end_from(ep@, e as int),
        decreases n - e,
    {
        e = e + 1;
    }
    let mut c: usize = a;
    while c < e && ep[c] != ':'
        invariant
            a <= c <= e <= n == ep@.len(),
            colon_from(ep@, a as int, e as int) == colon_from(ep@, c as int, e as int),
        decreases e - c,
    {
        c = c + 1;
    }
    (a, e, c)
}

/// Whether the allowed endpoint `allowed` admits `endpoint`: equal, a URL prefix of it
/// ending at a `/`, or its host or `host:port`. Both are taken as already trimmed and
/// lowercased.
pub fn endpoint_matches(endpoint: &str, allowed: &str) -> (r: bool)
    ensures
        r == endpoint_admits(endpoint@, allowed@),
{
    if str_eq(endpoint, allowed) {
        return true;
    }
    let mut with_slash = chars_of(allowed);
    with_slash.push('/');
    proof {
        reveal_strlit("/");
        assert(with_slash@ =~= allowed@ + "/"@);
    }
    let ws = string_of(with_slash.as_slice());
    if str_starts_with(endpoint, ws.as_str()) {
        return true;
    }
    let ep = chars_of(endpoint);
    let al = chars_of(allowed);
    let (a, e, c) = authority_bounds(&ep);
    let authority = slice_chars(&ep, a, e);
    let host = slice_chars(&ep, a, c);
    let by_authority = vec_eq(&authority, &al);
    let by_host = vec_eq(&host, &al);
    by_authority || by_host
}

fn vec_eq(x: &Vec<char>, y: &Vec<char>) -> (r: bool)
    ensures
        r == (x@ == y@),
{
    if x.len() != y.len() {
        return false;
    }
    let mut i: usize = 0;
    while i < x.len()
        invariant
            i <= x@.len() == y@.len(),
            forall|k: int| 0 <= k < i ==> x@[k] == y@[k],
        decreases x@.len() - i,
    {
        if x[i] != y[i] {
            return false;
        }
        i = i + 1;
    }
    assert(x@ =~= y@);
    true
}

impl TrustPolicy {
    /// Applies a configuration section: each flag it sets replaces the policy's,
    /// and its plugin, root and endpoint lists are appended to the policy's.
    pub fn merge_section(&mut self, section: TrustSection)
        ensures
            final(self).allow_filesystem_read == section.allow_filesystem_read.unwrap_or(
                old(self).allow_filesystem_read,
            ),
            final(self).allow_filesystem_write == section.allow_filesystem_write.unwrap_or(
                old(self).allow_filesystem_write,
            ),
            final(self).allow_filesystem_enumerate == section.allow_filesystem_enumerate.unwrap_or(
                old(self).allow_filesystem_enumerate,
            ),
            final(self).allow_shell == section.allow_shell.unwrap_or(old(self).allow_shell),
            final(self).allow_network == section.allow_network.unwrap_or(old(self).allow_network),
            final(self).allow_subprocess == section.allow_subprocess.unwrap_or(
                old(self).allow_subprocess,
            ),
            final(self).allow_plugins@ == extended(old(self).allow_plugins@, section.allow_plugins),
            final(self).filesystem_roots@ == extended(
                old(self).filesystem_roots@,
                section.filesystem_roots,
            ),
            final(self).network_endpoints@ == extended(
                old(self).network_endpoints@,
                section.network_endpoints,
            ),
            final(self).working_dir == old(self).working_dir,
    {
        if let Some(v) = section.allow_filesystem_read {
            self.allow_filesystem_read = v;
        }
        if let Some(v) = section.allow_filesystem_write {
            self.allow_filesystem_write = v;
        }
        if let Some(v) = section.allow_filesystem_enumerate {
            self.allow_filesystem_enumerate = v;
        }
        if let Some(v) = section.allow_shell {
            self.allow_shell = v;
        }
        if let Some(v) = section.allow_network {
            self.allow_network = v;
        }
        if let Some(v) = section.allow_subprocess {
            self.allow_subprocess = v;
        }
        if let Some(mut plugins) = section.allow_plugins {
            self.allow_plugins.append(&mut plugins);
        }
        if let Some(mut roots) = section.filesystem_roots {
            self.filesystem_roots.append(&mut roots);
        }
        if let Some(mut endpoints) = section.network_endpoints {
            self.network_endpoints.append(&mut endpoints);
        }
    }

    /// Replaces the roots by their normalized forms. `resolved[i]` is what the
    /// filesystem resolved root `i` to (`None` when it could not, or past the end of
    /// `resolved`); a root it could not resolve is normalized lexically, and one that
    /// does not normalize is dropped.
    pub fn normalize_roots(&mut self, resolved: &Vec<Option<String>>)
        ensures
            views(final(self).filesystem_roots@) == normalized_roots(
                old(self).filesystem_roots@,
                resolved@,
                old(self).filesystem_roots@.len(),
            ),
            final(self).allow_filesystem_read == old(self).allow_filesystem_read,
            final(self).allow_filesystem_write == old(self).allow_filesystem_write,
            final(self).allow_filesystem_enumerate == old(self).allow_filesystem_enumerate,
            final(self).allow_shell == old(self).allow_shell,
            final(self).allow_network == old(self).allow_network,
            final(self).allow_subprocess == old(self).allow_subprocess,
            final(self).allow_plugins@ == old(self).allow_plugins@,
            final(self).network_endpoints@ == old(self).network_endpoints@,
            final(self).working_dir == old(self).working_dir,
    {
        let mut out: Vec<String> = Vec::new();
        let mut i: usize = 0;
        let ghost roots = self.filesystem_roots@;
        while i < self.filesystem_roots.len()
            invariant
                i <= roots.len(),
                roots == self.filesystem_roots@,
                views(out@) == normalized_roots(roots, resolved@, i as nat),
            decreases roots.len() - i,
        {
            let ghost before = views(out@);
            let r: Option<String> = if i < resolved.len() {
                match &resolved[i] {
                    Some(a) => Some(a.clone()),
                    None => None,
                }
            } else {
                None
            };
            assert(r == resolution(resolved@, i as int));
            match r {
                Some(a) => {
                    out.push(a);
                },
                None => {
                    match canonicalize_path(self.filesystem_roots[i].as_str()) {
                        Ok(p) => {
                            out.push(p);
                        },
                        Err(_) => {},
                    }
                },
            }
            proof {
                let n = (i + 1) as nat;
                assert(normalized_roots(roots, resolved@, n) == match normalized_root(
                    roots[i as int]@,
                    resolution(resolved@, i as int),
                ) {
                    Some(p) => before.push(p),
                    None => before,
                });
                assert(views(out@) =~= normalized_roots(roots, resolved@, n));
            }
            i = i + 1;
        }
        self.filesystem_roots = out;
    }

    /// Checks a network endpoint: network must be allowed (or some plugin listed),
    /// and when endpoints are configured the trimmed, lowercased endpoint must be
    /// admitted by one of them. With network allowed and no endpoints listed, any
    /// endpoint passes.
    pub fn validate_network_endpoint(&self, endpoint: &str) -> (r: Result<(), String>)
        ensures
            match r {
                Ok(()) => self.network_verdict(endpoint@) == Ok::<(), Seq<char>>(()),
                Err(e) => self.network_verdict(endpoint@) == Err::<(), Seq<char>>(e@),
            },
    {
        if !self.allow_network && self.allow_plugins.len() == 0 {
            return Err(
                string_of(chars_of("network access is not allowed by trust policy").as_slice()),
            );
        }
        if self.network_endpoints.len() == 0 && !self.allow_network {
            return Err(
                string_of(
                    chars_of(
                        "network access denied: set trust.network_endpoints or allow_network in lao.toml",
                    ).as_slice(),
                ),
            );
        }
        if self.network_endpoints.len() == 0 {
            return Ok(());
        }
        let t = trim_str(endpoint);
        let ep = to_lowercase(t.as_str());
        let mut i: usize = 0;
        while i < self.network_endpoints.len()
            invariant
                i <= self.network_endpoints@.len(),
                self.network_endpoints@.len() > 0,
                self.allow_network || self.allow_plugins@.len() > 0,
                ep@ == lowercase(trim(endpoint@)),
                forall|k: int|
                    0 <= k < i ==> !endpoint_admits(
                        ep@,
                        lowercase(trim((#[trigger] self.network_endpoints@[k])@)),
                    ),
            decreases self.network_endpoints@.len() - i,
        {
            let et = trim_str(self.network_endpoints[i].as_str());
            let e = to_lowercase(et.as_str());
            if endpoint_matches(ep.as_str(), e.as_str()) {
                assert(endpoint_admits(
                    ep@,
                    lowercase(trim(self.network_endpoints@[i as int]@)),
                ));
                return Ok(());
            }
            i = i + 1;
        }
        let mut m: Vec<char> = Vec::new();
        push_str(&mut m, "network endpoint '");
        push_str(&mut m, ep.as_str());
        push_str(&mut m, "' is not in trust.network_endpoints");
        Err(string_of(m.as_slice()))
    }

    /// Checks a step's input before a known dangerous plugin runs: file readers and
    /// folder mappers have their path checked against the roots, network plugins
    /// need the network capability (the summarizer also its local endpoint), the
    /// shell plugin needs the shell capability. Other plugins pass.
    pub fn validate_step_input(&self, plugin_name: &str, input_text: &str) -> (r: Result<
        (),
        String,
    >)
        ensures
            match r {
                Ok(()) => self.step_input_verdict(plugin_name@, input_text@) == Ok::<
                    (),
                    Seq<char>,
                >(()),
                Err(e) => self.step_input_verdict(plugin_name@, input_text@) == Err::<
                    (),
                    Seq<char>,
                >(e@),
            },
    {
        if str_eq(plugin_name, "FileReadPlugin") {
            match self.validate_filesystem_path(input_text, CapabilityClass::FilesystemRead) {
                Ok(_) => Ok(()),
                Err(e) => Err(e),
            }
        } else if str_eq(plugin_name, "FolderMapPlugin") {
            match self.validate_filesystem_path(input_text, CapabilityClass::FilesystemEnumerate) {
                Ok(_) => Ok(()),
                Err(e) => Err(e),
            }
        } else if str_eq(plugin_name, "SummarizerPlugin") {
            match self.require_capability(plugin_name, CapabilityClass::Network) {
                Err(e) => Err(e),
                Ok(()) => self.validate_network_endpoint("http://127.0.0.1:11434"),
            }
        } else if str_eq(plugin_name, "PromptDispatcherPlugin") {
            self.require_capability(plugin_name, CapabilityClass::Network)
        } else if str_eq(plugin_name, "ShellCommandPlugin") {
            self.require_capability(plugin_name, CapabilityClass::Shell)
        } else {
            Ok(())
        }
    }

    /// Reconciles a plugin's declared manifest capabilities with the policy: each
    /// declared name that stands for a class must be allowed for the plugin; the
    /// first that is not fails. Unknown names are treated as safe.
    pub fn check_manifest_capabilities(&self, plugin_name: &str, capabilities: &[String]) -> (r:
        Result<(), String>)
        ensures
            ({
                let caps = views(capabilities@);
                match r {
                    Ok(()) => forall|i: int|
                        0 <= i < caps.len() ==> !self.manifest_denied(plugin_name@, caps[i]),
                    Err(e) => exists|i: int|
                        0 <= i < caps.len() && self.manifest_denied(plugin_name@, caps[i]) && (
                        forall|j: int|
                            0 <= j < i ==> !self.manifest_denied(plugin_name@, caps[j]))
                            && e@ == Self::denied_capability_message(plugin_name@, caps[i]),
                }
            }),
    {
        let ghost caps = views(capabilities@);
        let mut i: usize = 0;
        while i < capabilities.len()
            invariant
                i <= capabilities@.len(),
                caps == views(capabilities@),
                forall|j: int| 0 <= j < i ==> !self.manifest_denied(plugin_name@, caps[j]),
            decreases capabilities@.len() - i,
        {
            let cap = capabilities[i].as_str();
            assert(caps[i as int] == cap@);
            if let Some(class) = capability_class_for_manifest(cap) {
                if self.require_capability(plugin_name, class).is_err() {
                    let mut m: Vec<char> = Vec::new();
                    push_str(&mut m, "plugin '");
                    push_str(&mut m, plugin_name);
                    push_str(&mut m, "' declares capability '");
                    push_str(&mut m, cap);
                    push_str(&mut m, "' but trust policy denies ");
                    push_str(&mut m, class.name());
                    assert(self.manifest_denied(plugin_name@, caps[i as int]));
                    return Err(string_of(m.as_slice()));
                }
            }
            i = i + 1;
        }
        Ok(())
    }
}

/// Default deny: a policy that allows nothing and lists nothing lets no plugin use
/// any capability, refuses every filesystem path and every network endpoint.
pub proof fn lemma_default_denies(p: TrustPolicy, name: Seq<char>, c: CapabilityClass, raw: Seq<char>, endpoint: Seq<char>)
    requires
        p.denies_everything(),
    ensures
        !p.plugin_allowed(name, c),
        p.filesystem_verdict(raw, c) is Err,
        p.network_verdict(endpoint) is Err,
        p.capability_verdict(name, c) is Err,
{
    assert(!views(p.allow_plugins@).contains(name));
}

/// Filesystem access needs explicit roots: without any, every path is refused.
pub proof fn lemma_no_roots_no_access(p: TrustPolicy, raw: Seq<char>, c: CapabilityClass)
    requires
        p.filesystem_roots@.len() == 0,
    ensures
        p.filesystem_verdict(raw, c) is Err,
{
}

/// A path the policy accepts is the normalized path made absolute, and lies under one
/// of the configured roots.
pub proof fn lemma_accepted_paths_are_within_roots(p: TrustPolicy, raw: Seq<char>, c: CapabilityClass)
    requires
        p.filesystem_verdict(raw, c) is Ok,
    ensures
        p.class_allowed(c),
        canonical(raw) is Ok,
        p.filesystem_verdict(raw, c) == Ok::<Seq<char>, Seq<char>>(p.absolute_path(canonical(raw)->Ok_0)),
        within_roots(p.filesystem_verdict(raw, c)->Ok_0, p.filesystem_roots@),
{
}

/// A plugin named in `allow_plugins` may use every capability class.
pub proof fn lemma_listed_plugin_allowed(p: TrustPolicy, name: Seq<char>, c: CapabilityClass)
    requires
        p.lists_plugin(name),
    ensures
        p.plugin_allowed(name, c),
        p.capability_verdict(name, c) is Ok,
{
}

/// Plugins outside the bundled dangerous set pass the input check whatever the policy.
pub proof fn lemma_unknown_plugins_pass(p: TrustPolicy, plugin: Seq<char>, input: Seq<char>)
    requires
        plugin != "FileReadPlugin"@,
        plugin != "FolderMapPlugin"@,
        plugin != "SummarizerPlugin"@,
        plugin != "PromptDispatcherPlugin"@,
        plugin != "ShellCommandPlugin"@,
    ensures
        p.step_input_verdict(plugin, input) is Ok,
{
}

/// A filesystem path that the policy accepts for an absolute raw path is in normal
/// form, with no `.` or `..` component left to climb out of a root, and it lies under
/// one of the configured roots.
pub proof fn lemma_accepted_absolute_path_is_normal(
    policy: TrustPolicy,
    raw: Seq<char>,
    c: CapabilityClass,
)
    requires
        policy.filesystem_verdict(raw, c) is Ok,
        trim(raw).len() > 0 && trim(raw)[0] == '/',
    ensures
        !components(policy.filesystem_verdict(raw, c)->Ok_0).contains(".."@),
        !components(policy.filesystem_verdict(raw, c)->Ok_0).contains("."@),
        within_roots(policy.filesystem_verdict(raw, c)->Ok_0, policy.filesystem_roots@),
{
    lemma_canonical_is_normal(raw);
    let p = canonical(raw)->Ok_0;
    let cs = components(p);
    assert(policy.absolute_path(p) == p);
    if cs.contains("."@) {
        let k = choose|k: int| 0 <= k < cs.len() && cs[k] == "."@;
        if k == 0 {
            reveal_strlit("/");
            reveal_strlit(".");
            assert(cs[0] == "/"@);
            assert("/"@[0] != "."@[0]);
        }
    }
}

} // verus!
