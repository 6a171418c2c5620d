//! Detection of Apple Silicon hosts.
use vstd::prelude::*;
use crate::text::str_eq;

verus! {

/// Whether a host with this operating system and architecture (as `std::env::consts`
/// names them) is an Apple Silicon Mac: macOS on a 64-bit ARM processor.
pub fn is_apple_silicon(os: &str, arch: &str) -> (r: bool)
    ensures
        r == (os@ == "macos"@ && arch@ == "aarch64"@),
{
    str_eq(os, "macos") && str_eq(arch, "aarch64")
}

} // verus!
