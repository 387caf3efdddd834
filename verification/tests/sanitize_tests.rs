use moraya_core::errors::ErrorKind;
use moraya_core::sanitize::{
    sanitize_io_error, sanitize_stderr, strip_unc_prefix, version_output, worker_terminated_error,
    worker_write_failed_error, IoErrorKind,
};

#[test]
fn home_paths_redacted() {
    assert_eq!(
        sanitize_stderr("error at /Users/bob/secret.txt: denied"),
        "error at <path>: denied"
    );
    assert_eq!(sanitize_stderr("read /home/alice/notes failed"), "read <path> failed");
}

#[test]
fn redaction_stops_at_quotes() {
    assert_eq!(sanitize_stderr("open \"/Users/bob/f\" failed"), "open \"<path>\" failed");
    assert_eq!(sanitize_stderr("open '/home/alice/f' failed"), "open '<path>' failed");
}

#[test]
fn other_paths_kept() {
    assert_eq!(sanitize_stderr("see /var/log/app.log"), "see /var/log/app.log");
    assert_eq!(sanitize_stderr("/usr/bin/env: not found"), "/usr/bin/env: not found");
}

#[test]
fn output_trimmed_and_truncated() {
    assert_eq!(sanitize_stderr("  spaced  "), "spaced");
    let long: String = std::iter::repeat('x').take(600).collect();
    let out = sanitize_stderr(&long);
    assert_eq!(out.chars().count(), 500);
}

#[test]
fn io_errors_neutralized() {
    assert_eq!(sanitize_io_error(IoErrorKind::NotFound), "File not found");
    assert_eq!(sanitize_io_error(IoErrorKind::PermissionDenied), "Permission denied");
    assert_eq!(sanitize_io_error(IoErrorKind::AlreadyExists), "File already exists");
    assert_eq!(sanitize_io_error(IoErrorKind::Other), "Operation failed");
}

#[test]
fn unc_prefix_stripped() {
    assert_eq!(strip_unc_prefix("\\\\?\\C:\\Users\\u"), "C:\\Users\\u");
    assert_eq!(strip_unc_prefix("/ordinary/path"), "/ordinary/path");
    assert_eq!(strip_unc_prefix(""), "");
}

#[test]
fn version_output_prefers_stdout() {
    assert_eq!(version_output("v1.2.3\n", "noise"), "v1.2.3");
    assert_eq!(version_output("  \n", "node v20\n"), "node v20");
    assert_eq!(version_output("", ""), "");
}

#[test]
fn terminated_error_uses_stderr_snapshot() {
    assert_eq!(
        worker_terminated_error(""),
        ErrorKind::WorkerTerminated("Worker process ended unexpectedly".to_string())
    );
    assert_eq!(
        worker_terminated_error("boom\n"),
        ErrorKind::WorkerTerminated("Worker error: boom".to_string())
    );
    assert_eq!(
        worker_terminated_error("fail at /Users/bob/x"),
        ErrorKind::WorkerTerminated("Worker error: fail at <path>".to_string())
    );
}

#[test]
fn write_failed_error_uses_stderr_snapshot() {
    assert_eq!(
        worker_write_failed_error(""),
        ErrorKind::WorkerWriteFailed(
            "Failed to write to worker (process may have exited)".to_string()
        )
    );
    assert_eq!(
        worker_write_failed_error("pipe closed"),
        ErrorKind::WorkerWriteFailed("Worker error: pipe closed".to_string())
    );
}
