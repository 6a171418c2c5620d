//! What a code-intelligence provider reports about itself.
use vstd::prelude::*;

verus! {

#[derive(Debug, PartialEq)]
pub struct ProviderMetadata {
    pub name: String,
    pub version: Option<String>,
}

#[derive(Debug, PartialEq)]
pub struct ProviderHealth {
    pub available: bool,
    pub detail: String,
}

} // verus!
