//! The guarantees of the supervisor, stated and proved over the views
//! that the operation contracts use.

use vstd::prelude::*;

use crate::engine::{
    line_accepted, line_too_large, read_loop_spec, ReadEvent, ReadLimits, ReadOutcome,
};
use crate::text::{lemma_ws_prefix_at, lemma_ws_suffix_at, trim_spec, whitespace_char};

verus! {

/// After a successful connect, the worker is visible in the registry under
/// its identifier and its process id is on record in the PID table: the
/// maps a `connect_commit` produces contain the new worker.
pub proof fn lemma_connect_registers(
    workers: Map<Seq<char>, u64>,
    pids: Map<Seq<char>, u32>,
    id: Seq<char>,
    pid: u32,
    token: u64,
)
    ensures
        workers.insert(id, token).contains_key(id),
        workers.insert(id, token)[id] == token,
        pids.insert(id, pid).contains_key(id),
        pids.insert(id, pid)[id] == pid,
{
}

/// The registry and the PID table are independent: checking a worker out
/// of the registry (as a request/response exchange does for its blocking
/// phase) leaves every PID table entry in place.  A disconnect, which
/// signals through the PID table first, therefore always finds the process
/// id of a checked-out worker — it never waits on the exchange.
pub proof fn lemma_disconnect_reaches_checked_out_worker(
    workers: Map<Seq<char>, u64>,
    pids: Map<Seq<char>, u32>,
    id: Seq<char>,
)
    requires
        pids.contains_key(id),
    ensures
        !workers.remove(id).contains_key(id),
        pids.contains_key(id),
{
}

/// Trimming a string that has no surrounding whitespace returns it
/// unchanged.
pub proof fn lemma_trim_identity(s: Seq<char>)
    requires
        s.len() > 0,
        !whitespace_char(s[0]),
        !whitespace_char(s[s.len() - 1]),
    ensures
        trim_spec(s) == s,
{
    lemma_ws_prefix_at(s, 0);
    lemma_ws_suffix_at(s, s.len() as int);
    assert(s.subrange(0, s.len() as int) =~= s);
}

/// Round trip: a single well-shaped response line passes through the read
/// loop verbatim, up to trimming.  Together with `lemma_trim_identity`, a
/// line a worker echoes back without surrounding whitespace is returned
/// exactly as written.
pub proof fn lemma_response_passthrough(line: String, limits: ReadLimits)
    requires
        limits.max_iterations >= 1,
        !line_too_large(line@, limits),
        line_accepted(line@),
    ensures
        read_loop_spec(seq![ReadEvent::Line(line)], limits, 0) == ReadOutcome::Accepted(
            trim_spec(line@),
        ),
{
    assert(seq![ReadEvent::Line(line)][0] == ReadEvent::Line(line));
}

/// A line that is blank or not shaped like a JSON object is skipped: the
/// read loop goes on with the remaining events, having spent one
/// iteration.  Incidental standard-output noise never ends an exchange.
pub proof fn lemma_noise_skipped(
    noise: String,
    rest: Seq<ReadEvent>,
    limits: ReadLimits,
    it: nat,
)
    requires
        it < limits.max_iterations,
        !line_too_large(noise@, limits),
        !line_accepted(noise@),
    ensures
        read_loop_spec(seq![ReadEvent::Line(noise)] + rest, limits, it) == read_loop_spec(
            rest,
            limits,
            it + 1,
        ),
{
    let events = seq![ReadEvent::Line(noise)] + rest;
    assert(events[0] == ReadEvent::Line(noise));
    assert(events.drop_first() =~= rest);
}

/// A banner line followed by a well-shaped response yields exactly that
/// response: the banner is skipped, not treated as an error.
pub proof fn lemma_banner_then_response(
    noise: String,
    line: String,
    limits: ReadLimits,
)
    requires
        limits.max_iterations >= 2,
        !line_too_large(noise@, limits),
        !line_accepted(noise@),
        !line_too_large(line@, limits),
        line_accepted(line@),
    ensures
        read_loop_spec(
            seq![ReadEvent::Line(noise), ReadEvent::Line(line)],
            limits,
            0,
        ) == ReadOutcome::Accepted(trim_spec(line@)),
{
    let events = seq![ReadEvent::Line(noise), ReadEvent::Line(line)];
    assert(events =~= seq![ReadEvent::Line(noise)] + seq![ReadEvent::Line(line)]);
    lemma_noise_skipped(noise, seq![ReadEvent::Line(line)], limits, 0);
    lemma_response_passthrough_at(line, limits, 1);
}

/// `lemma_response_passthrough`, from any remaining iteration budget.
pub proof fn lemma_response_passthrough_at(line: String, limits: ReadLimits, it: nat)
    requires
        it < limits.max_iterations,
        !line_too_large(line@, limits),
        line_accepted(line@),
    ensures
        read_loop_spec(seq![ReadEvent::Line(line)], limits, it) == ReadOutcome::Accepted(
            trim_spec(line@),
        ),
{
    assert(seq![ReadEvent::Line(line)][0] == ReadEvent::Line(line));
}

/// Timeout: when no event arrives within the read timeout, the exchange
/// fails with the timeout outcome, whatever would have followed.
pub proof fn lemma_timeout_aborts(rest: Seq<ReadEvent>, limits: ReadLimits, it: nat)
    requires
        it < limits.max_iterations,
    ensures
        read_loop_spec(seq![ReadEvent::TimedOut] + rest, limits, it) == ReadOutcome::Timeout,
{
    let events = seq![ReadEvent::TimedOut] + rest;
    assert(events[0] == ReadEvent::TimedOut);
}

/// Size bound: a line over the configured maximum length ends the
/// exchange at once with the oversize outcome — it is never buffered or
/// skipped, whatever follows it.
pub proof fn lemma_oversize_aborts(
    line: String,
    rest: Seq<ReadEvent>,
    limits: ReadLimits,
    it: nat,
)
    requires
        it < limits.max_iterations,
        line_too_large(line@, limits),
    ensures
        read_loop_spec(seq![ReadEvent::Line(line)] + rest, limits, it) == ReadOutcome::TooLarge,
{
    let events = seq![ReadEvent::Line(line)] + rest;
    assert(events[0] == ReadEvent::Line(line));
}

} // verus!
