//! The response-reading engine: the decision logic of the bounded read loop
//! of a request/response exchange.
//!
//! One dedicated background thread per worker performs the only blocking
//! read of the child's standard output and forwards each line, the
//! end-of-stream, or a read error through a channel.  The caller receives
//! from that channel with a timeout and feeds each arrival into this engine
//! as a [`ReadEvent`]; the engine decides, line by line, whether to keep
//! waiting, to accept a response, or to abort the exchange.

use vstd::prelude::*;

use crate::errors::ErrorKind;
use crate::sanitize::stderr_diag;
use crate::sanitize::worker_terminated_error;
use crate::text::{trim_spec, trim_str};
use vstd::string::StringSliceAdditionalSpecFns;

verus! {

/// The bounds enforced on a worker's response stream: a maximum accepted
/// line length in bytes and a maximum number of received lines before the
/// engine gives up.  Both must be enforced to prevent unbounded memory
/// growth or an infinite skip loop against a noisy child.
#[derive(Clone, Copy, PartialEq, Eq, Structural)]
pub struct ReadLimits {
    pub max_line_bytes: usize,
    pub max_iterations: usize,
}

/// The UTF-8 byte length of a string view.
pub open spec fn byte_len(s: Seq<char>) -> nat {
    vstd::utf8::encode_utf8(s).len()
}

/// What the channel from the background line reader can deliver, together
/// with the timeout of the timed receive.
pub enum ReadEvent {
    /// One line of the worker's standard output.
    Line(String),
    /// The worker's standard output reached end-of-stream (or the reader
    /// thread is gone); carries the standard-error snapshot taken at that
    /// moment.
    Eof { stderr: String },
    /// The reader thread reported an I/O error with this message.
    ReadError { message: String },
    /// No event arrived within the read timeout.
    TimedOut,
}

/// Whether a received line exceeds the configured maximum length.
pub open spec fn line_too_large(line: Seq<char>, limits: ReadLimits) -> bool {
    byte_len(line) as usize > limits.max_line_bytes
}

/// Whether a received line is accepted as a response: non-blank after
/// trimming, and shaped like a JSON object.  Anything else is incidental
/// standard-output noise and is skipped.
pub open spec fn line_accepted(line: Seq<char>) -> bool {
    trim_spec(line).len() > 0 && trim_spec(line)[0] == '{'
}

/// What one step of the read loop decides.
pub enum ReadStep {
    /// Keep receiving: the event was a skippable line.
    Pending,
    /// The trimmed response line.
    Done(String),
    /// The exchange failed; the worker must be torn down.
    Abort(ErrorKind),
}

/// The outcome the read loop reaches on a sequence of events, stated over
/// views.
pub enum ReadOutcome {
    /// A response line was accepted, with this trimmed content.
    Accepted(Seq<char>),
    /// A line exceeded the maximum length.
    TooLarge,
    /// The worker terminated or its stream failed, with this diagnostic.
    Terminated(Seq<char>),
    /// The timed receive expired.
    Timeout,
    /// Too many lines were received without an acceptable response.
    IterationLimit,
    /// The event sequence ran out while the engine was still waiting.
    Drained,
}

/// The message prefix of a read-error diagnostic.
pub open spec fn read_error_prefix() -> Seq<char> {
    "Failed to read from worker: "@
}

/// The outcome of the read loop on `events`, having already used `it` of
/// the allowed iterations.
pub open spec fn read_loop_spec(events: Seq<ReadEvent>, limits: ReadLimits, it: nat) -> ReadOutcome
    decreases events.len(),
{
    if it >= limits.max_iterations {
        ReadOutcome::IterationLimit
    } else if events.len() == 0 {
        ReadOutcome::Drained
    } else {
        match events[0] {
            ReadEvent::Line(l) => if line_too_large(l@, limits) {
                ReadOutcome::TooLarge
            } else if line_accepted(l@) {
                ReadOutcome::Accepted(trim_spec(l@))
            } else {
                read_loop_spec(events.drop_first(), limits, it + 1)
            },
            ReadEvent::Eof { stderr } => ReadOutcome::Terminated(
                stderr_diag(stderr@, "Worker process ended unexpectedly"@),
            ),
            ReadEvent::ReadError { message } => ReadOutcome::Terminated(
                read_error_prefix() + message@,
            ),
            ReadEvent::TimedOut => ReadOutcome::Timeout,
        }
    }
}

/// The state of one bounded read loop: its limits and how many events it
/// has consumed.
pub struct ResponseReader {
    pub limits: ReadLimits,
    pub iterations: usize,
}

impl ResponseReader {
    /// A fresh engine for one exchange.
    pub fn new(limits: ReadLimits) -> (r: ResponseReader)
        ensures
            r.limits == limits,
            r.iterations == 0,
    {
        ResponseReader { limits, iterations: 0 }
    }

    /// Whether the iteration budget is used up: the next event can only be
    /// answered with an iteration-limit failure.
    pub fn exhausted(&self) -> (r: bool)
        ensures
            r == (self.iterations >= self.limits.max_iterations),
    {
        self.iterations >= self.limits.max_iterations
    }

    /// Consume one event from the reader channel and decide how the
    /// exchange goes on.
    pub fn step(&mut self, event: &ReadEvent) -> (r: ReadStep)
        ensures
            final(self).limits == old(self).limits,
            final(self).iterations == if old(self).iterations < old(
                self,
            ).limits.max_iterations {
                old(self).iterations + 1
            } else {
                old(self).iterations as int
            },
            ({
                let limits = old(self).limits;
                if old(self).iterations >= limits.max_iterations {
                    r == ReadStep::Abort(ErrorKind::IterationLimitExceeded)
                } else {
                    match event {
                        ReadEvent::Line(l) => if line_too_large(l@, limits) {
                            r == ReadStep::Abort(ErrorKind::ResponseTooLarge)
                        } else if line_accepted(l@) {
                            r matches ReadStep::Done(t) && t@ == trim_spec(l@)
                        } else {
                            r == ReadStep::Pending
                        },
                        ReadEvent::Eof { stderr } => r matches ReadStep::Abort(
                            ErrorKind::WorkerTerminated(d),
                        ) && d@ == stderr_diag(stderr@, "Worker process ended unexpectedly"@),
                        ReadEvent::ReadError { message } => r matches ReadStep::Abort(
                            ErrorKind::WorkerTerminated(d),
                        ) && d@ == read_error_prefix() + message@,
                        ReadEvent::TimedOut => r == ReadStep::Abort(ErrorKind::ResponseTimeout),
                    }
                }
            }),
    {
        if self.iterations >= self.limits.max_iterations {
            return ReadStep::Abort(ErrorKind::IterationLimitExceeded);
        }
        self.iterations = self.iterations + 1;
        match event {
            ReadEvent::Line(line) => {
                if line.as_str().len() > self.limits.max_line_bytes {
                    return ReadStep::Abort(ErrorKind::ResponseTooLarge);
                }
                let trimmed = trim_str(line.as_str());
                if trimmed.as_str().unicode_len() == 0 {
                    return ReadStep::Pending;
                }
                if trimmed.as_str().get_char(0) == '{' {
                    ReadStep::Done(trimmed)
                } else {
                    ReadStep::Pending
                }
            },
            ReadEvent::Eof { stderr } => {
                ReadStep::Abort(worker_terminated_error(stderr.as_str()))
            },
            ReadEvent::ReadError { message } => {
                let mut d = "Failed to read from worker: ".to_owned();
                d.push_str(message.as_str());
                ReadStep::Abort(ErrorKind::WorkerTerminated(d))
            },
            ReadEvent::TimedOut => ReadStep::Abort(ErrorKind::ResponseTimeout),
        }
    }
}

/// Run the whole read loop on an already-collected sequence of events, as
/// the supervisor runs it against the live channel.
pub fn select_response(events: &Vec<ReadEvent>, limits: ReadLimits) -> (r: Result<String, ErrorKind>)
    ensures
        ({
            match read_loop_spec(events@, limits, 0) {
                ReadOutcome::Accepted(t) => r matches Ok(s) && s@ == t,
                ReadOutcome::TooLarge => r == Err::<String, ErrorKind>(ErrorKind::ResponseTooLarge),
                ReadOutcome::Terminated(d) => r matches Err(ErrorKind::WorkerTerminated(dd))
                    && dd@ == d,
                ReadOutcome::Timeout => r == Err::<String, ErrorKind>(ErrorKind::ResponseTimeout),
                ReadOutcome::IterationLimit => r == Err::<String, ErrorKind>(
                    ErrorKind::IterationLimitExceeded,
                ),
                ReadOutcome::Drained => r == Err::<String, ErrorKind>(ErrorKind::ResponseTimeout),
            }
        }),
{
    let mut reader = ResponseReader::new(limits);
    let n = events.len();
    let mut i: usize = 0;
    proof {
        assert(events@.skip(0) =~= events@);
    }
    while i < n
        invariant
            i <= n,
            n == events@.len(),
            reader.limits == limits,
            read_loop_spec(events@, limits, 0) == read_loop_spec(
                events@.skip(i as int),
                limits,
                reader.iterations as nat,
            ),
        decreases n - i,
    {
        let ghost pre = events@.skip(i as int);
        let ghost it0 = reader.iterations as nat;
        let event = &events[i];
        proof {
            assert(pre[0] == events@[i as int]);
            assert(pre.drop_first() =~= events@.skip(i + 1));
        }
        let step = reader.step(event);
        match step {
            ReadStep::Pending => {
                proof {
                    assert(read_loop_spec(pre, limits, it0) == read_loop_spec(
                        events@.skip(i + 1),
                        limits,
                        it0 + 1,
                    ));
                }
            },
            ReadStep::Done(s) => {
                proof {
                    assert(read_loop_spec(pre, limits, it0) == ReadOutcome::Accepted(s@));
                }
                return Ok(s);
            },
            ReadStep::Abort(e) => {
                return Err(e);
            },
        }
        i = i + 1;
    }
    proof {
        assert(events@.skip(n as int) =~= Seq::<ReadEvent>::empty());
    }
    if reader.exhausted() {
        Err(ErrorKind::IterationLimitExceeded)
    } else {
        Err(ErrorKind::ResponseTimeout)
    }
}

} // verus!
