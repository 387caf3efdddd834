//! Sanitizing of diagnostics before they reach logs or error messages:
//! truncation, redaction of home-directory paths, and the neutral wording
//! used for I/O failures.

use vstd::prelude::*;

use crate::errors::ErrorKind;
use crate::text::{starts_with_spec, starts_with_str, trim_spec, trim_str, whitespace_char};

verus! {

/// How many characters of a worker's standard-error output are kept.
pub const MAX_STDERR_LEN: usize = 500;

/// A character that ends a redacted path token.
pub open spec fn path_stop_char(c: char) -> bool {
    whitespace_char(c) || c == ':' || c == '"' || c == '\''
}

/// Whether the characters after the `/` at index `i` spell the start of a
/// home-directory path (`/Users` or `/home/`).
pub open spec fn home_path_at(s: Seq<char>, i: int) -> bool {
    &&& 0 <= i
    &&& i + 6 <= s.len()
    &&& (s.subrange(i + 1, i + 6) == "Users"@ || s.subrange(i + 1, i + 6) == "home/"@)
}

/// Decide `path_stop_char` on a concrete character.
pub fn is_path_stop(c: char) -> (r: bool)
    ensures
        r == path_stop_char(c),
{
    c.is_whitespace() || c == ':' || c == '"' || c == '\''
}

/// The first index at or after `j` holding a path-stop character (or the end
/// of the sequence).
pub open spec fn path_token_end(s: Seq<char>, j: int) -> int
    decreases s.len() - j,
    when 0 <= j
{
    if j >= s.len() {
        s.len() as int
    } else if path_stop_char(s[j]) {
        j
    } else {
        path_token_end(s, j + 1)
    }
}

/// The end of a path token lies between its start and the end of the
/// sequence.
pub proof fn lemma_path_token_end_bounds(s: Seq<char>, j: int)
    requires
        0 <= j,
    ensures
        j <= path_token_end(s, j) <= s.len() || (j > s.len() && path_token_end(s, j) == s.len()),
    decreases s.len() - j,
{
    if j < s.len() && !path_stop_char(s[j]) {
        lemma_path_token_end_bounds(s, j + 1);
    }
}

/// The scrubbed form of `s` from index `i` on: every home-directory path is
/// replaced by the marker `<path>` up to the next stop character; all other
/// characters are kept.
pub open spec fn scrub_from(s: Seq<char>, i: int) -> Seq<char>
    decreases s.len() - i,
    when 0 <= i
    via scrub_from_decreases
{
    if i >= s.len() {
        Seq::empty()
    } else if s[i] == '/' && home_path_at(s, i) {
        "<path>"@ + scrub_from(s, path_token_end(s, i + 1))
    } else {
        seq![s[i]] + scrub_from(s, i + 1)
    }
}

#[via_fn]
proof fn scrub_from_decreases(s: Seq<char>, i: int) {
    lemma_path_token_end_bounds(s, i + 1);
}

/// What `sanitize_stderr` returns: the input truncated to
/// `MAX_STDERR_LEN` characters, scrubbed of home-directory paths, and
/// trimmed of surrounding whitespace.
pub open spec fn sanitize_stderr_spec(s: Seq<char>) -> Seq<char> {
    let t = if s.len() <= MAX_STDERR_LEN {
        s
    } else {
        s.take(MAX_STDERR_LEN as int)
    };
    trim_spec(scrub_from(t, 0))
}

/// The end of the path token is characterized by its first stop character.
proof fn lemma_path_token_end_at(s: Seq<char>, j: int, e: int)
    requires
        0 <= j <= e <= s.len(),
        forall|k: int| j <= k < e ==> !path_stop_char(s[k]),
        e == s.len() || path_stop_char(s[e]),
    ensures
        path_token_end(s, j) == e,
    decreases e - j,
{
    if j < e {
        lemma_path_token_end_at(s, j + 1, e);
    }
}

/// Truncate and sanitize standard-error output for use in error messages:
/// keeps at most `MAX_STDERR_LEN` characters, replaces home-directory
/// absolute paths by `<path>` for privacy, and trims the result.
pub fn sanitize_stderr(stderr_msg: &str) -> (r: String)
    ensures
        r@ == sanitize_stderr_spec(stderr_msg@),
{
    let full_len = stderr_msg.unicode_len();
    let truncated: String = if full_len <= MAX_STDERR_LEN {
        stderr_msg.to_owned()
    } else {
        stderr_msg.substring_char(0, MAX_STDERR_LEN).to_owned()
    };
    proof {
        if full_len > MAX_STDERR_LEN {
            assert(truncated@ =~= stderr_msg@.take(MAX_STDERR_LEN as int));
        }
    }
    let t = truncated.as_str();
    let n = t.unicode_len();
    let mut out = String::new();
    let mut i: usize = 0;
    while i < n
        invariant
            0 <= i <= n,
            n == t@.len(),
            n <= MAX_STDERR_LEN,
            scrub_from(t@, 0) == out@ + scrub_from(t@, i as int),
        decreases n - i,
    {
        let c = t.get_char(i);
        let redact = c == '/' && i + 6 <= n && (starts_with_str(
            t.substring_char(i + 1, i + 6),
            "Users",
        ) || starts_with_str(t.substring_char(i + 1, i + 6), "home/"));
        proof {
            reveal_strlit("Users");
            reveal_strlit("home/");
            if t@[i as int] == '/' && i + 6 <= n {
                let sub = t@.subrange(i + 1, i + 6);
                assert(sub.subrange(0, 5) =~= sub);
                assert(starts_with_spec(sub, "Users"@) <==> sub == "Users"@);
                assert(starts_with_spec(sub, "home/"@) <==> sub == "home/"@);
            }
            assert(redact == (t@[i as int] == '/' && home_path_at(t@, i as int)));
        }
        if redact {
            let ghost prev = out@;
            out.push_str("<path>");
            let mut j: usize = i + 1;
            while j < n && !is_path_stop(t.get_char(j))
                invariant
                    i + 1 <= j <= n,
                    n == t@.len(),
                    forall|k: int| i + 1 <= k < j ==> !path_stop_char(t@[k]),
                decreases n - j,
            {
                j = j + 1;
            }
            proof {
                lemma_path_token_end_at(t@, i + 1, j as int);
                assert(scrub_from(t@, i as int) == "<path>"@ + scrub_from(t@, j as int));
                assert(out@ + scrub_from(t@, j as int) =~= (prev + scrub_from(t@, i as int)));
            }
            i = j;
        } else {
            let ghost prev = out@;
            out.push(c);
            proof {
                assert(scrub_from(t@, i as int) == seq![t@[i as int]] + scrub_from(t@, i + 1));
                assert(out@ + scrub_from(t@, i + 1) =~= prev + scrub_from(t@, i as int));
            }
            i = i + 1;
        }
    }
    proof {
        assert(scrub_from(t@, n as int) =~= Seq::<char>::empty());
        assert(out@ =~= scrub_from(t@, 0));
    }
    trim_str(out.as_str())
}

/// The kind of an I/O failure, as far as error messages distinguish them.
#[derive(Debug, Clone, Copy, PartialEq, Eq, Structural)]
pub enum IoErrorKind {
    NotFound,
    PermissionDenied,
    AlreadyExists,
    Other,
}

/// What `sanitize_io_error` returns for each failure kind.
pub open spec fn io_error_message(kind: IoErrorKind) -> Seq<char> {
    match kind {
        IoErrorKind::NotFound => "File not found"@,
        IoErrorKind::PermissionDenied => "Permission denied"@,
        IoErrorKind::AlreadyExists => "File already exists"@,
        IoErrorKind::Other => "Operation failed"@,
    }
}

/// Sanitize an I/O failure to a neutral message that leaks neither file
/// system paths nor OS error details.
pub fn sanitize_io_error(kind: IoErrorKind) -> (r: String)
    ensures
        r@ == io_error_message(kind),
{
    match kind {
        IoErrorKind::NotFound => "File not found".to_owned(),
        IoErrorKind::PermissionDenied => "Permission denied".to_owned(),
        IoErrorKind::AlreadyExists => "File already exists".to_owned(),
        IoErrorKind::Other => "Operation failed".to_owned(),
    }
}

/// `\\?\`, the extended-length path prefix.
pub open spec fn unc_prefix() -> Seq<char> {
    "\\\\?\\"@
}

/// Strip the `\\?\` extended-length prefix that path canonicalization adds
/// on Windows; other paths are returned unchanged.
pub fn strip_unc_prefix(p: &str) -> (r: String)
    ensures
        starts_with_spec(p@, unc_prefix()) ==> r@ == p@.subrange(4, p@.len() as int),
        !starts_with_spec(p@, unc_prefix()) ==> r@ == p@,
{
    proof {
        reveal_strlit("\\\\?\\");
    }
    if starts_with_str(p, "\\\\?\\") {
        let n = p.unicode_len();
        p.substring_char(4, n).to_owned()
    } else {
        p.to_owned()
    }
}

/// The diagnostic a failed exchange carries: the sanitized standard-error
/// snapshot when there is one, the given fixed message otherwise.
pub open spec fn stderr_diag(raw: Seq<char>, fallback: Seq<char>) -> Seq<char> {
    if sanitize_stderr_spec(raw).len() == 0 {
        fallback
    } else {
        "Worker error: "@ + sanitize_stderr_spec(raw)
    }
}

/// The error returned when a response line cannot be read because the
/// worker terminated, built from a standard-error snapshot.
pub fn worker_terminated_error(raw_stderr: &str) -> (r: ErrorKind)
    ensures
        r matches ErrorKind::WorkerTerminated(d) && d@ == stderr_diag(
            raw_stderr@,
            "Worker process ended unexpectedly"@,
        ),
{
    let msg = sanitize_stderr(raw_stderr);
    if msg.as_str().unicode_len() == 0 {
        ErrorKind::WorkerTerminated("Worker process ended unexpectedly".to_owned())
    } else {
        let mut full = "Worker error: ".to_owned();
        full.push_str(msg.as_str());
        ErrorKind::WorkerTerminated(full)
    }
}

/// The error returned when writing to a worker's standard input fails,
/// built from a standard-error snapshot.
pub fn worker_write_failed_error(raw_stderr: &str) -> (r: ErrorKind)
    ensures
        r matches ErrorKind::WorkerWriteFailed(d) && d@ == stderr_diag(
            raw_stderr@,
            "Failed to write to worker (process may have exited)"@,
        ),
{
    let msg = sanitize_stderr(raw_stderr);
    if msg.as_str().unicode_len() == 0 {
        ErrorKind::WorkerWriteFailed("Failed to write to worker (process may have exited)".to_owned())
    } else {
        let mut full = "Worker error: ".to_owned();
        full.push_str(msg.as_str());
        ErrorKind::WorkerWriteFailed(full)
    }
}

/// Trimmed standard output of a version probe, or the trimmed standard
/// error when standard output is empty.
pub fn version_output(stdout: &str, stderr: &str) -> (r: String)
    ensures
        trim_spec(stdout@).len() > 0 ==> r@ == trim_spec(stdout@),
        trim_spec(stdout@).len() == 0 ==> r@ == trim_spec(stderr@),
{
    let so = trim_str(stdout);
    if so.as_str().unicode_len() > 0 {
        so
    } else {
        trim_str(stderr)
    }
}

} // verus!
