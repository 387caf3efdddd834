//! The worker registry and the PID table, with the "take out, operate, put
//! back" protocol of a request/response exchange.
//!
//! The registry maps worker identifiers to resident worker handles (here an
//! opaque handle token; the process plumbing that owns the real handles
//! lives outside the library).  The PID table is a separate map from worker
//! identifier to operating-system process id, consulted only for
//! out-of-band termination: because it is independent of the registry, a
//! disconnect never waits on a worker that is checked out for a blocking
//! exchange.

use vstd::prelude::*;

use crate::engine::{read_loop_spec, ReadEvent, ReadLimits, ReadOutcome, select_response};
use crate::errors::ErrorKind;
use crate::sanitize::{stderr_diag, worker_write_failed_error};
use crate::text::str_equal;

verus! {

/// An association list over identifier views; the model of both tables.
pub open spec fn assoc_map<V>(s: Seq<(Seq<char>, V)>) -> Map<Seq<char>, V>
    decreases s.len(),
{
    if s.len() == 0 {
        Map::empty()
    } else {
        assoc_map(s.drop_last()).insert(s.last().0, s.last().1)
    }
}

/// No key occurs twice.
pub open spec fn distinct_keys<V>(s: Seq<(Seq<char>, V)>) -> bool {
    forall|i: int, j: int| 0 <= i < j < s.len() ==> s[i].0 != s[j].0
}

/// A key is in the map exactly when some entry holds it.
pub proof fn lemma_assoc_contains<V>(s: Seq<(Seq<char>, V)>, k: Seq<char>)
    ensures
        assoc_map(s).contains_key(k) <==> exists|i: int| 0 <= i < s.len() && s[i].0 == k,
    decreases s.len(),
{
    if s.len() > 0 {
        lemma_assoc_contains(s.drop_last(), k);
        if assoc_map(s).contains_key(k) && s.last().0 != k {
            let i = choose|i: int| 0 <= i < s.drop_last().len() && s.drop_last()[i].0 == k;
            assert(s[i].0 == k);
        }
        if exists|i: int| 0 <= i < s.len() && s[i].0 == k {
            let i = choose|i: int| 0 <= i < s.len() && s[i].0 == k;
            if i < s.len() - 1 {
                assert(s.drop_last()[i].0 == k);
            }
        }
    }
}

/// With distinct keys, the map returns the value stored beside the key.
pub proof fn lemma_assoc_get<V>(s: Seq<(Seq<char>, V)>, i: int)
    requires
        distinct_keys(s),
        0 <= i < s.len(),
    ensures
        assoc_map(s).contains_key(s[i].0),
        assoc_map(s)[s[i].0] == s[i].1,
    decreases s.len(),
{
    if i == s.len() - 1 {
        lemma_assoc_contains(s, s[i].0);
    } else {
        assert(forall|a: int, b: int|
            0 <= a < b < s.drop_last().len() ==> s.drop_last()[a].0 != s.drop_last()[b].0);
        lemma_assoc_get(s.drop_last(), i);
        assert(s[i].0 != s.last().0);
    }
}

/// With distinct keys, removing the entry at an index removes exactly its
/// key from the map.
pub proof fn lemma_assoc_remove<V>(s: Seq<(Seq<char>, V)>, i: int)
    requires
        distinct_keys(s),
        0 <= i < s.len(),
    ensures
        distinct_keys(s.remove(i)),
        assoc_map(s.remove(i)) == assoc_map(s).remove(s[i].0),
    decreases s.len(),
{
    let k = s[i].0;
    if i == s.len() - 1 {
        assert(s.remove(i) =~= s.drop_last());
        lemma_assoc_contains(s.drop_last(), k);
        assert(!assoc_map(s.drop_last()).contains_key(k));
        assert(assoc_map(s.drop_last()).remove(k) =~= assoc_map(s.drop_last()));
        assert(assoc_map(s).remove(k) =~= assoc_map(s.drop_last()).insert(k, s.last().1).remove(
            k,
        ));
        assert(assoc_map(s.drop_last()).insert(k, s.last().1).remove(k) =~= assoc_map(
            s.drop_last(),
        ).remove(k));
    } else {
        let t = s.drop_last();
        assert(forall|a: int, b: int| 0 <= a < b < t.len() ==> t[a].0 != t[b].0);
        lemma_assoc_remove(t, i);
        assert(s.remove(i).drop_last() =~= t.remove(i));
        assert(s.remove(i).last() == s.last());
        assert(assoc_map(s.remove(i)) == assoc_map(t.remove(i)).insert(s.last().0, s.last().1));
        assert(k != s.last().0);
        assert(assoc_map(t).remove(k).insert(s.last().0, s.last().1) =~= assoc_map(t).insert(
            s.last().0,
            s.last().1,
        ).remove(k));
        assert(distinct_keys(s.remove(i))) by {
            assert forall|a: int, b: int| 0 <= a < b < s.remove(i).len() implies s.remove(
                i,
            )[a].0 != s.remove(i)[b].0 by {
                let a0 = if a < i {
                    a
                } else {
                    a + 1
                };
                let b0 = if b < i {
                    b
                } else {
                    b + 1
                };
                assert(s.remove(i)[a] == s[a0]);
                assert(s.remove(i)[b] == s[b0]);
            }
        }
    }
}

/// Appending a fresh entry inserts exactly its key.
pub proof fn lemma_assoc_push<V>(s: Seq<(Seq<char>, V)>, k: Seq<char>, v: V)
    requires
        distinct_keys(s),
        !assoc_map(s).contains_key(k),
    ensures
        distinct_keys(s.push((k, v))),
        assoc_map(s.push((k, v))) == assoc_map(s).insert(k, v),
{
    lemma_assoc_contains(s, k);
    assert(s.push((k, v)).drop_last() =~= s);
    assert(forall|a: int, b: int|
        0 <= a < b < s.push((k, v)).len() ==> s.push((k, v))[a].0 != s.push((k, v))[b].0);
}

impl Default for Supervisor {
    /// The same empty supervisor `new` builds.
    fn default() -> (r: Supervisor)
        ensures
            r.wf(),
            r.workers_view() == Map::<Seq<char>, u64>::empty(),
            r.pids_view() == Map::<Seq<char>, u32>::empty(),
    {
        Supervisor::new()
    }
}

/// A resident worker: its identifier and the opaque token under which the
/// process plumbing holds its real handles (child process, standard-input
/// writer, standard-error reader, line-channel receiver).
pub struct WorkerEntry {
    pub id: String,
    pub token: u64,
}

/// One PID table entry.
pub struct PidEntry {
    pub id: String,
    pub pid: u32,
}

/// The supervisor's shared state: the worker registry and the PID table.
pub struct Supervisor {
    workers: Vec<WorkerEntry>,
    pids: Vec<PidEntry>,
}

impl Supervisor {
    /// The registry pairs, over views.
    pub closed spec fn worker_pairs(&self) -> Seq<(Seq<char>, u64)> {
        self.workers@.map_values(|e: WorkerEntry| (e.id@, e.token))
    }

    /// The PID table pairs, over views.
    pub closed spec fn pid_pairs(&self) -> Seq<(Seq<char>, u32)> {
        self.pids@.map_values(|e: PidEntry| (e.id@, e.pid))
    }

    /// The registry as a map: worker identifier to handle token.
    pub closed spec fn workers_view(&self) -> Map<Seq<char>, u64> {
        assoc_map(self.worker_pairs())
    }

    /// The PID table as a map: worker identifier to process id.
    pub closed spec fn pids_view(&self) -> Map<Seq<char>, u32> {
        assoc_map(self.pid_pairs())
    }

    /// Well-formedness: at most one entry per worker identifier in each
    /// table.
    pub closed spec fn wf(&self) -> bool {
        distinct_keys(self.worker_pairs()) && distinct_keys(self.pid_pairs())
    }

    /// An empty supervisor: no workers, no PIDs.
    pub fn new() -> (r: Supervisor)
        ensures
            r.wf(),
            r.workers_view() == Map::<Seq<char>, u64>::empty(),
            r.pids_view() == Map::<Seq<char>, u32>::empty(),
    {
        let r = Supervisor { workers: Vec::new(), pids: Vec::new() };
        proof {
            assert(r.worker_pairs() =~= Seq::<(Seq<char>, u64)>::empty());
            assert(r.pid_pairs() =~= Seq::<(Seq<char>, u32)>::empty());
        }
        r
    }

    /// The index of the registry entry for `id`, if the worker is resident.
    fn find_worker(&self, id: &str) -> (r: Option<usize>)
        ensures
            match r {
                Some(i) => i < self.workers@.len() && self.workers@[i as int].id@ == id@,
                None => forall|i: int|
                    0 <= i < self.workers@.len() ==> self.workers@[i].id@ != id@,
            },
    {
        let n = self.workers.len();
        let mut i: usize = 0;
        while i < n
            invariant
                i <= n,
                n == self.workers@.len(),
                forall|k: int| 0 <= k < i ==> self.workers@[k].id@ != id@,
            decreases n - i,
        {
            if str_equal(self.workers[i].id.as_str(), id) {
                return Some(i);
            }
            i = i + 1;
        }
        None
    }

    /// The index of the PID table entry for `id`, if there is one.
    fn find_pid(&self, id: &str) -> (r: Option<usize>)
        ensures
            match r {
                Some(i) => i < self.pids@.len() && self.pids@[i as int].id@ == id@,
                None => forall|i: int| 0 <= i < self.pids@.len() ==> self.pids@[i].id@ != id@,
            },
    {
        let n = self.pids.len();
        let mut i: usize = 0;
        while i < n
            invariant
                i <= n,
                n == self.pids@.len(),
                forall|k: int| 0 <= k < i ==> self.pids@[k].id@ != id@,
            decreases n - i,
        {
            if str_equal(self.pids[i].id.as_str(), id) {
                return Some(i);
            }
            i = i + 1;
        }
        None
    }

    /// Whether a worker is resident (registered and not checked out).
    pub fn contains_worker(&self, id: &str) -> (r: bool)
        ensures
            r == self.workers_view().contains_key(id@),
    {
        proof {
            lemma_assoc_contains(self.worker_pairs(), id@);
        }
        match self.find_worker(id) {
            Some(i) => {
                proof {
                    assert(self.worker_pairs()[i as int].0 == id@);
                }
                true
            },
            None => {
                proof {
                    assert(forall|i: int|
                        0 <= i < self.worker_pairs().len() ==> self.worker_pairs()[i].0 != id@);
                }
                false
            },
        }
    }

    /// Take the worker for `id` out of the registry, if it is resident:
    /// from this moment no other operation observes it as connected, while
    /// the PID table is untouched — this is what keeps a concurrent
    /// disconnect from ever waiting on a checked-out worker.
    pub fn checkout_worker(&mut self, id: &str) -> (r: Option<u64>)
        requires
            old(self).wf(),
        ensures
            final(self).wf(),
            final(self).pids_view() == old(self).pids_view(),
            match r {
                Some(token) => {
                    &&& old(self).workers_view().contains_key(id@)
                    &&& token == old(self).workers_view()[id@]
                    &&& final(self).workers_view() == old(self).workers_view().remove(id@)
                },
                None => {
                    &&& !old(self).workers_view().contains_key(id@)
                    &&& final(self).workers_view() == old(self).workers_view()
                },
            },
    {
        proof {
            lemma_assoc_contains(self.worker_pairs(), id@);
        }
        match self.find_worker(id) {
            Some(i) => {
                proof {
                    lemma_assoc_get(self.worker_pairs(), i as int);
                    lemma_assoc_remove(self.worker_pairs(), i as int);
                }
                let ghost pre = *self;
                let entry = self.workers.remove(i);
                proof {
                    assert(self.worker_pairs() =~= pre.worker_pairs().remove(i as int));
                    assert(self.pid_pairs() =~= pre.pid_pairs());
                }
                Some(entry.token)
            },
            None => {
                proof {
                    assert(forall|i: int|
                        0 <= i < self.worker_pairs().len() ==> self.worker_pairs()[i].0 != id@);
                }
                None
            },
        }
    }

    /// Install (or replace) the resident worker for `id`.
    pub fn insert_worker(&mut self, id: &str, token: u64)
        requires
            old(self).wf(),
        ensures
            final(self).wf(),
            final(self).pids_view() == old(self).pids_view(),
            final(self).workers_view() == old(self).workers_view().insert(id@, token),
    {
        let _ = self.checkout_worker(id);
        let ghost mid = *self;
        proof {
            lemma_assoc_contains(self.worker_pairs(), id@);
            lemma_assoc_push(self.worker_pairs(), id@, token);
        }
        self.workers.push(WorkerEntry { id: id.to_owned(), token });
        proof {
            assert(self.worker_pairs() =~= mid.worker_pairs().push((id@, token)));
            assert(self.pid_pairs() =~= mid.pid_pairs());
            assert(final(self).workers_view() =~= old(self).workers_view().insert(id@, token));
        }
    }

    /// Record the operating-system process id for `id` in the PID table.
    pub fn set_pid(&mut self, id: &str, pid: u32)
        requires
            old(self).wf(),
        ensures
            final(self).wf(),
            final(self).workers_view() == old(self).workers_view(),
            final(self).pids_view() == old(self).pids_view().insert(id@, pid),
    {
        let _ = self.take_pid(id);
        let ghost mid = *self;
        proof {
            lemma_assoc_contains(self.pid_pairs(), id@);
            lemma_assoc_push(self.pid_pairs(), id@, pid);
        }
        self.pids.push(PidEntry { id: id.to_owned(), pid });
        proof {
            assert(self.pid_pairs() =~= mid.pid_pairs().push((id@, pid)));
            assert(self.worker_pairs() =~= mid.worker_pairs());
            assert(final(self).pids_view() =~= old(self).pids_view().insert(id@, pid));
        }
    }

    /// Remove and return the process id recorded for `id`: the first step
    /// of a disconnect, taken without ever touching the registry.
    pub fn take_pid(&mut self, id: &str) -> (r: Option<u32>)
        requires
            old(self).wf(),
        ensures
            final(self).wf(),
            final(self).workers_view() == old(self).workers_view(),
            match r {
                Some(pid) => {
                    &&& old(self).pids_view().contains_key(id@)
                    &&& pid == old(self).pids_view()[id@]
                    &&& final(self).pids_view() == old(self).pids_view().remove(id@)
                },
                None => {
                    &&& !old(self).pids_view().contains_key(id@)
                    &&& final(self).pids_view() == old(self).pids_view()
                },
            },
    {
        proof {
            lemma_assoc_contains(self.pid_pairs(), id@);
        }
        match self.find_pid(id) {
            Some(i) => {
                proof {
                    lemma_assoc_get(self.pid_pairs(), i as int);
                    lemma_assoc_remove(self.pid_pairs(), i as int);
                }
                let ghost pre = *self;
                let entry = self.pids.remove(i);
                proof {
                    assert(self.pid_pairs() =~= pre.pid_pairs().remove(i as int));
                    assert(self.worker_pairs() =~= pre.worker_pairs());
                }
                Some(entry.pid)
            },
            None => {
                proof {
                    assert(forall|i: int|
                        0 <= i < self.pid_pairs().len() ==> self.pid_pairs()[i].0 != id@);
                }
                None
            },
        }
    }

    /// All identifiers of resident workers, in registry order.
    pub fn list_active_worker_ids(&self) -> (r: Vec<String>)
        requires
            self.wf(),
        ensures
            r@.len() == self.worker_pairs().len(),
            forall|i: int| 0 <= i < r@.len() ==> r@[i]@ == self.worker_pairs()[i].0,
            forall|i: int, j: int| 0 <= i < j < r@.len() ==> #[trigger] r@[i]@ != #[trigger] r@[j]@,
            forall|i: int| 0 <= i < r@.len() ==> self.workers_view().contains_key(#[trigger] r@[i]@),
            forall|k: Seq<char>|
                self.workers_view().contains_key(k) ==> exists|i: int|
                    0 <= i < r@.len() && #[trigger] r@[i]@ == k,
    {
        let n = self.workers.len();
        let mut r: Vec<String> = Vec::new();
        let mut i: usize = 0;
        while i < n
            invariant
                i <= n,
                n == self.workers@.len(),
                r@.len() == i,
                forall|k: int| 0 <= k < i ==> r@[k]@ == self.workers@[k].id@,
            decreases n - i,
        {
            r.push(self.workers[i].id.clone());
            i = i + 1;
        }
        proof {
            assert forall|a: int, b: int| 0 <= a < b < r@.len() implies r@[a]@ != r@[b]@ by {
                assert(self.worker_pairs()[a].0 != self.worker_pairs()[b].0);
            }
            assert forall|k: Seq<char>| self.workers_view().contains_key(k) implies exists|j: int|
                0 <= j < r@.len() && #[trigger] r@[j]@ == k by {
                lemma_assoc_contains(self.worker_pairs(), k);
                let j = choose|j: int|
                    0 <= j < self.worker_pairs().len() && self.worker_pairs()[j].0 == k;
                assert(r@[j]@ == k);
            }
            assert forall|i: int| 0 <= i < r@.len() implies self.workers_view().contains_key(
                #[trigger] r@[i]@,
            ) by {
                lemma_assoc_contains(self.worker_pairs(), r@[i]@);
                assert(self.worker_pairs()[i].0 == r@[i]@);
            }
        }
        r
    }

    /// Commit a successful spawn: record the process id and install the
    /// worker, making it visible under `id`.  After this, the worker is
    /// resident and its PID is on record.
    pub fn connect_commit(&mut self, id: &str, pid: u32, token: u64)
        requires
            old(self).wf(),
        ensures
            final(self).wf(),
            final(self).workers_view() == old(self).workers_view().insert(id@, token),
            final(self).pids_view() == old(self).pids_view().insert(id@, pid),
            final(self).workers_view().contains_key(id@),
            final(self).pids_view()[id@] == pid,
    {
        self.set_pid(id, pid);
        self.insert_worker(id, token);
    }

    /// The bookkeeping of a disconnect: remove the PID table entry (for the
    /// out-of-band kill) and the registry entry (dropping the handles), in
    /// that order.  Never fails; each part is a no-op when absent.
    pub fn disconnect_bookkeeping(&mut self, id: &str) -> (r: (Option<u32>, Option<u64>))
        requires
            old(self).wf(),
        ensures
            final(self).wf(),
            final(self).workers_view() == old(self).workers_view().remove(id@),
            final(self).pids_view() == old(self).pids_view().remove(id@),
            r.0 matches Some(pid) ==> old(self).pids_view().contains_key(id@) && pid == old(
                self,
            ).pids_view()[id@],
            r.0 is None ==> !old(self).pids_view().contains_key(id@),
            r.1 matches Some(token) ==> old(self).workers_view().contains_key(id@) && token == old(
                self,
            ).workers_view()[id@],
            r.1 is None ==> !old(self).workers_view().contains_key(id@),
    {
        let pid = self.take_pid(id);
        let token = self.checkout_worker(id);
        proof {
            if !old(self).pids_view().contains_key(id@) {
                assert(final(self).pids_view() =~= old(self).pids_view().remove(id@));
            }
            if !old(self).workers_view().contains_key(id@) {
                assert(final(self).workers_view() =~= old(self).workers_view().remove(id@));
            }
        }
        (pid, token)
    }

    /// One whole request/response exchange against the registry, given the
    /// outcomes of the write and of the reads as values: look the worker
    /// up, fail `WorkerNotFound` if absent; tear it down on a write
    /// failure; otherwise run the read loop on the events, put the worker
    /// back on success and tear it down on any failure.
    pub fn run_exchange(
        &mut self,
        id: &str,
        write_ok: bool,
        stderr_snapshot: &str,
        events: &Vec<ReadEvent>,
        limits: ReadLimits,
    ) -> (r: Result<String, ErrorKind>)
        requires
            old(self).wf(),
        ensures
            final(self).wf(),
            !old(self).workers_view().contains_key(id@) ==> {
                &&& r == Err::<String, ErrorKind>(ErrorKind::WorkerNotFound)
                &&& final(self).workers_view() == old(self).workers_view()
                &&& final(self).pids_view() == old(self).pids_view()
            },
            old(self).workers_view().contains_key(id@) && !write_ok ==> {
                &&& r matches Err(ErrorKind::WorkerWriteFailed(d)) && d@ == stderr_diag(
                    stderr_snapshot@,
                    "Failed to write to worker (process may have exited)"@,
                )
                &&& final(self).workers_view() == old(self).workers_view().remove(id@)
                &&& final(self).pids_view() == old(self).pids_view().remove(id@)
            },
            old(self).workers_view().contains_key(id@) && write_ok ==> ({
                let torn_down = final(self).workers_view() == old(self).workers_view().remove(id@)
                    && final(self).pids_view() == old(self).pids_view().remove(id@);
                match read_loop_spec(events@, limits, 0) {
                    ReadOutcome::Accepted(t) => {
                        &&& r matches Ok(s) && s@ == t
                        &&& final(self).workers_view() == old(self).workers_view()
                        &&& final(self).pids_view() == old(self).pids_view()
                    },
                    ReadOutcome::TooLarge => r == Err::<String, ErrorKind>(
                        ErrorKind::ResponseTooLarge,
                    ) && torn_down,
                    ReadOutcome::Terminated(d) => (r matches Err(ErrorKind::WorkerTerminated(dd))
                        && dd@ == d) && torn_down,
                    ReadOutcome::Timeout => r == Err::<String, ErrorKind>(
                        ErrorKind::ResponseTimeout,
                    ) && torn_down,
                    ReadOutcome::IterationLimit => r == Err::<String, ErrorKind>(
                        ErrorKind::IterationLimitExceeded,
                    ) && torn_down,
                    ReadOutcome::Drained => r == Err::<String, ErrorKind>(
                        ErrorKind::ResponseTimeout,
                    ) && torn_down,
                }
            }),
    {
        let token = match self.checkout_worker(id) {
            None => {
                return Err(ErrorKind::WorkerNotFound);
            },
            Some(token) => token,
        };
        if !write_ok {
            let _ = self.take_pid(id);
            return Err(worker_write_failed_error(stderr_snapshot));
        }
        let result = select_response(events, limits);
        match result {
            Ok(line) => {
                self.insert_worker(id, token);
                proof {
                    assert(final(self).workers_view() =~= old(self).workers_view());
                }
                Ok(line)
            },
            Err(e) => {
                let _ = self.take_pid(id);
                proof {
                    if !old(self).pids_view().contains_key(id@) {
                        assert(self.pids_view() =~= old(self).pids_view().remove(id@));
                    }
                }
                Err(e)
            },
        }
    }
}

} // verus!
