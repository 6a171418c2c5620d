//! Coordinator-selection profiles. A remote profile never silently becomes an
//! embedded coordinator.
use vstd::prelude::*;

verus! {

/// How the tool reaches a coordinator: one embedded in the process, or a remote
/// one at a URL, with the name of the environment variable holding its token.
#[derive(Debug, Clone, PartialEq, Eq)]
pub enum Profile {
    Embedded,
    Remote { coordinator_url: String, token_env: Option<String> },
}

impl Profile {
    /// The URL and token variable of a remote profile; none for an embedded one.
    pub fn remote(&self) -> (r: Option<(&str, Option<&str>)>)
        ensures
            match self {
                Profile::Remote { coordinator_url, token_env } => r matches Some((u, t)) && u@
                    == coordinator_url@ && match token_env {
                    Some(v) => t matches Some(x) && x@ == v@,
                    None => t is None,
                },
                Profile::Embedded => r is None,
            },
    {
        match self {
            Profile::Remote { coordinator_url, token_env } => {
                let t = match token_env {
                    Some(v) => Some(v.as_str()),
                    None => None,
                };
                Some((coordinator_url.as_str(), t))
            },
            Profile::Embedded => None,
        }
    }
}

} // verus!
