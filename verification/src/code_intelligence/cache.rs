//! Keys for the on-disk cache of code-graph query results.
//!
//! A key covers the provider's name and version, the repository path, the git revision,
//! the operation and the query's arguments (as normalized JSON text), so that a change in
//! any of them addresses a different cache entry.
use vstd::prelude::*;
use vstd::utf8::encode_utf8;
use crate::code_intelligence::operations::{tool_of, GraphOperation};
use crate::code_intelligence::provider::ProviderMetadata;
use crate::text::{chars_of, push_str, string_of};
use crate::workflow_helpers::{fnv1a, fnv1a_of, hex, hex_chars};

verus! {

/// The text a cache key hashes: `name|version|repo|revision|tool|args`, an absent
/// version or revision written as nothing.
pub open spec fn cache_key_source(
    name: Seq<char>,
    version: Option<Seq<char>>,
    repo_root: Seq<char>,
    git_revision: Option<Seq<char>>,
    operation: GraphOperation,
    normalized_args: Seq<char>,
) -> Seq<char> {
    let v = match version {
        Some(v) => v,
        None => Seq::<char>::empty(),
    };
    let r = match git_revision {
        Some(r) => r,
        None => Seq::<char>::empty(),
    };
    name + "|"@ + v + "|"@ + repo_root + "|"@ + r + "|"@ + tool_of(operation) + "|"@
        + normalized_args
}

/// The cache key of a query: the lowercase hexadecimal FNV-1a hash of its
/// `cache_key_source` text, UTF-8 encoded.
pub fn cache_key(
    meta: &ProviderMetadata,
    repo_root: &str,
    git_revision: Option<&str>,
    operation: GraphOperation,
    normalized_args: &str,
) -> (r: String)
    ensures
        r@ == hex(
            fnv1a(
                encode_utf8(
                    cache_key_source(
                        meta.name@,
                        match meta.version {
                            Some(v) => Some(v@),
                            None => None,
                        },
                        repo_root@,
                        match git_revision {
                            Some(g) => Some(g@),
                            None => None,
                        },
                        operation,
                        normalized_args@,
                    ),
                ),
            ) as nat,
        ),
{
    let mut raw = chars_of(meta.name.as_str());
    push_str(&mut raw, "|");
    match &meta.version {
        Some(v) => push_str(&mut raw, v.as_str()),
        None => {},
    }
    push_str(&mut raw, "|");
    push_str(&mut raw, repo_root);
    push_str(&mut raw, "|");
    match git_revision {
        Some(g) => push_str(&mut raw, g),
        None => {},
    }
    push_str(&mut raw, "|");
    push_str(&mut raw, operation.tool_name());
    push_str(&mut raw, "|");
    push_str(&mut raw, normalized_args);
    let source = string_of(raw.as_slice());
    let h = fnv1a_of(source.as_str());
    let hx = hex_chars(h);
    string_of(hx.as_slice())
}

} // verus!
