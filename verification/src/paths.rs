//! The access rule applied to canonicalized file paths: a path is served
//! only from the user's home directory or from an external-drive mount
//! point of the running platform.  Canonicalization itself (resolving
//! `..` and symlinks) is an operating-system call made outside the
//! library; this module decides on its result.

use vstd::prelude::*;

use crate::text::{starts_with_spec, starts_with_str, str_equal};

verus! {

/// Whether a canonicalized path may be accessed: under the home directory
/// on every platform; under `/Volumes/` on macOS; under `/media/` or
/// `/mnt/` on Linux; on any drive letter but `C` on Windows.
pub open spec fn allowed_path(p: Seq<char>, home: Seq<char>, os: Seq<char>) -> bool {
    ||| starts_with_spec(p, home)
    ||| (os == "macos"@ && starts_with_spec(p, "/Volumes/"@))
    ||| (os == "linux"@ && (starts_with_spec(p, "/media/"@) || starts_with_spec(p, "/mnt/"@)))
    ||| (os == "windows"@ && p.len() >= 3 && p[0] != 'C' && p[0] != 'c' && p[1] == ':')
}

/// Decide `allowed_path` on a concrete canonicalized path.
pub fn is_allowed_path(p: &str, home: &str, os: &str) -> (r: bool)
    ensures
        r == allowed_path(p@, home@, os@),
{
    if starts_with_str(p, home) {
        return true;
    }
    if str_equal(os, "macos") && starts_with_str(p, "/Volumes/") {
        return true;
    }
    if str_equal(os, "linux") && (starts_with_str(p, "/media/") || starts_with_str(p, "/mnt/")) {
        return true;
    }
    if str_equal(os, "windows") && p.unicode_len() >= 3 {
        let drive = p.get_char(0);
        if drive != 'C' && drive != 'c' && p.get_char(1) == ':' {
            return true;
        }
    }
    false
}

} // verus!
