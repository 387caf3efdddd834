//! The listing rule of the directory tree shown in the file browser:
//! which entries appear, by name and kind.

use vstd::prelude::*;

use crate::text::{starts_with_spec, starts_with_str, str_equal};

verus! {

/// Whether `name` ends with `suffix`.
pub open spec fn ends_with_spec(s: Seq<char>, p: Seq<char>) -> bool {
    p.len() <= s.len() && s.subrange(s.len() - p.len(), s.len() as int) == p
}

/// Suffix test over characters, as `str::ends_with` decides it.
pub fn ends_with_str(s: &str, p: &str) -> (r: bool)
    ensures
        r == ends_with_spec(s@, p@),
{
    let ns = s.unicode_len();
    let np = p.unicode_len();
    if np > ns {
        return false;
    }
    let tail = s.substring_char(ns - np, ns);
    let eq = str_equal(tail, p);
    eq
}

/// Whether a directory entry is hidden or ignored: dot files and the
/// dependency and build directories common in worker projects.
pub open spec fn ignored_entry(name: Seq<char>) -> bool {
    ||| starts_with_spec(name, "."@)
    ||| name == "node_modules"@
    ||| name == "target"@
}

/// Whether a directory entry appears in the listing: not ignored, and a
/// directory or a Markdown file.
pub open spec fn listed_entry(name: Seq<char>, is_dir: bool) -> bool {
    !ignored_entry(name) && (is_dir || ends_with_spec(name, ".md"@) || ends_with_spec(
        name,
        ".markdown"@,
    ))
}

/// Decide `listed_entry` on a concrete directory entry.
pub fn is_listed_entry(name: &str, is_dir: bool) -> (r: bool)
    ensures
        r == listed_entry(name@, is_dir),
{
    if starts_with_str(name, ".") || str_equal(name, "node_modules") || str_equal(name, "target") {
        return false;
    }
    is_dir || ends_with_str(name, ".md") || ends_with_str(name, ".markdown")
}

} // verus!
