//! Which operating system the library runs on, by its `std::env::consts::OS` name.
use vstd::prelude::*;
use crate::text::str_eq;

verus! {

/// Questions about the host platform, asked of its operating system name.
pub struct Platform;

impl Platform {
    /// The system named `os` is Linux.
    pub fn is_linux(os: &str) -> (r: bool)
        ensures
            r == (os@ == "linux"@),
    {
        str_eq(os, "linux")
    }

    /// The system named `os` is macOS.
    pub fn is_macos(os: &str) -> (r: bool)
        ensures
            r == (os@ == "macos"@),
    {
        str_eq(os, "macos")
    }

    /// The system named `os` is Windows.
    pub fn is_windows(os: &str) -> (r: bool)
        ensures
            r == (os@ == "windows"@),
    {
        str_eq(os, "windows")
    }
}

/// At most one of the platform questions is answered yes for any name.
pub proof fn lemma_at_most_one_platform(os: Seq<char>)
    ensures
        !(os == "linux"@ && os == "macos"@),
        !(os == "linux"@ && os == "windows"@),
        !(os == "macos"@ && os == "windows"@),
{
    reveal_strlit("linux");
    reveal_strlit("macos");
    reveal_strlit("windows");
    if os == "linux"@ && os == "macos"@ {
        assert("linux"@[0] != "macos"@[0]);
    }
    if os == "linux"@ && os == "windows"@ {
        assert("linux"@.len() != "windows"@.len());
    }
    if os == "macos"@ && os == "windows"@ {
        assert("macos"@.len() != "windows"@.len());
    }
}

} // verus!
