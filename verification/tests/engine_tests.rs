use moraya_core::engine::{select_response, ReadEvent, ReadLimits, ReadStep, ResponseReader};
use moraya_core::errors::ErrorKind;

fn limits() -> ReadLimits {
    ReadLimits { max_line_bytes: 256 * 1024, max_iterations: 1000 }
}

#[test]
fn json_line_passes_through_verbatim() {
    let events = vec![ReadEvent::Line("{\"id\":1,\"method\":\"ping\"}\n".to_string())];
    assert_eq!(
        select_response(&events, limits()),
        Ok("{\"id\":1,\"method\":\"ping\"}".to_string())
    );
}

#[test]
fn banner_line_skipped_before_response() {
    let events = vec![
        ReadEvent::Line("npm warn config something\n".to_string()),
        ReadEvent::Line("{\"ok\":true}\n".to_string()),
    ];
    assert_eq!(select_response(&events, limits()), Ok("{\"ok\":true}".to_string()));
}

#[test]
fn blank_lines_skipped() {
    let events = vec![
        ReadEvent::Line("\n".to_string()),
        ReadEvent::Line("   \n".to_string()),
        ReadEvent::Line("{\"ok\":1}\n".to_string()),
    ];
    assert_eq!(select_response(&events, limits()), Ok("{\"ok\":1}".to_string()));
}

#[test]
fn oversize_line_aborts() {
    let small = ReadLimits { max_line_bytes: 16, max_iterations: 1000 };
    let long = format!("{{\"data\":\"{}\"}}\n", "x".repeat(64));
    let events = vec![ReadEvent::Line(long)];
    assert_eq!(select_response(&events, small), Err(ErrorKind::ResponseTooLarge));
}

#[test]
fn timeout_aborts() {
    let events = vec![ReadEvent::TimedOut];
    assert_eq!(select_response(&events, limits()), Err(ErrorKind::ResponseTimeout));
}

#[test]
fn eof_reports_termination_with_stderr() {
    let events = vec![ReadEvent::Eof { stderr: String::new() }];
    assert_eq!(
        select_response(&events, limits()),
        Err(ErrorKind::WorkerTerminated(
            "Worker process ended unexpectedly".to_string()
        ))
    );
    let events = vec![ReadEvent::Eof { stderr: "crash in /home/u/w".to_string() }];
    assert_eq!(
        select_response(&events, limits()),
        Err(ErrorKind::WorkerTerminated("Worker error: crash in <path>".to_string()))
    );
}

#[test]
fn read_error_reports_termination() {
    let events = vec![ReadEvent::ReadError { message: "broken pipe".to_string() }];
    assert_eq!(
        select_response(&events, limits()),
        Err(ErrorKind::WorkerTerminated(
            "Failed to read from worker: broken pipe".to_string()
        ))
    );
}

#[test]
fn iteration_limit_enforced() {
    let tight = ReadLimits { max_line_bytes: 1024, max_iterations: 2 };
    let events = vec![
        ReadEvent::Line("noise\n".to_string()),
        ReadEvent::Line("noise\n".to_string()),
        ReadEvent::Line("{\"late\":true}\n".to_string()),
    ];
    assert_eq!(select_response(&events, tight), Err(ErrorKind::IterationLimitExceeded));
}

#[test]
fn reader_steps_one_event_at_a_time() {
    let mut reader = ResponseReader::new(limits());
    assert!(!reader.exhausted());
    match reader.step(&ReadEvent::Line("ignored banner\n".to_string())) {
        ReadStep::Pending => {},
        _ => panic!("banner should be skipped"),
    }
    match reader.step(&ReadEvent::Line(" {\"a\":1} \n".to_string())) {
        ReadStep::Done(s) => assert_eq!(s, "{\"a\":1}"),
        _ => panic!("response should be accepted"),
    }
}
