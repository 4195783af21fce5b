use crate::channel::{DispatchChannel, Message};
use crate::error::{ThreadPoolCreationError, ThreadPoolSubmitError};
use crate::worker::{
    busy_pred, count_where, crashed_pred, exited_pred, lemma_count_all, lemma_count_none,
    lemma_count_partition, lemma_count_update, live_pred, WorkerStatus,
};
use vstd::prelude::*;

verus! {

/// `n` terminate messages.
pub open spec fn terminates<J>(n: nat) -> Seq<Message<J>> {
    Seq::new(n, |k: int| Message::Terminate)
}

/// `n` workers, all waiting for a message.
pub open spec fn idle_workers(n: nat) -> Seq<WorkerStatus> {
    Seq::new(n, |k: int| WorkerStatus::Idle)
}

/// The coordination state of a pool of `size` workers: the queue that carries
/// jobs and terminate messages to them, and where each of them stands.
///
/// Each job gets a ticket when it is submitted: tickets count up from zero, and
/// workers receive them in that order.
pub struct ThreadPool<J> {
    workers: Vec<WorkerStatus>,
    channel: DispatchChannel<Message<J>>,
    submitted: u64,
    handed: u64,
    completed: u64,
    closed: bool,
}

impl<J> ThreadPool<J> {
    /// The status of each worker; a worker's id is its index.
    pub closed spec fn workers(&self) -> Seq<WorkerStatus> {
        self.workers@
    }

    /// The messages not yet received, front first.
    pub closed spec fn queue(&self) -> Seq<Message<J>> {
        self.channel@
    }

    /// How many jobs were submitted.
    pub closed spec fn submitted(&self) -> nat {
        self.submitted as nat
    }

    /// How many jobs workers have received.
    pub closed spec fn handed(&self) -> nat {
        self.handed as nat
    }

    /// How many jobs have run to their end.
    pub closed spec fn completed(&self) -> nat {
        self.completed as nat
    }

    /// Whether shutdown has begun.
    pub closed spec fn is_closed(&self) -> bool {
        self.closed
    }

    /// Jobs submitted that no worker has received yet.
    pub open spec fn pending(&self) -> int {
        self.submitted() - self.handed()
    }

    /// Terminate messages that no worker has received yet.
    pub open spec fn terminates_queued(&self) -> int {
        self.queue().len() - self.pending()
    }

    /// The tickets that workers have received, in the order they received them.
    pub open spec fn handed_log(&self) -> Seq<u64> {
        Seq::new(self.handed(), |k: int| k as u64)
    }

    pub closed spec fn wf(&self) -> bool {
        let ws = self.workers@;
        let q = self.channel@;
        let pending = self.submitted - self.handed;
        &&& ws.len() >= 1
        &&& self.handed <= self.submitted
        &&& q.len() >= pending
        &&& forall|k: int|
            0 <= k < pending ==> #[trigger] q[k].job_ticket() == Some((self.handed + k) as u64)
        &&& forall|k: int| pending <= k < q.len() ==> #[trigger] q[k] is Terminate
        &&& !self.closed ==> q.len() == pending
        &&& !self.closed ==> forall|i: int| 0 <= i < ws.len() ==> #[trigger] ws[i].is_live()
        &&& self.closed ==> q.len() - pending + count_where(ws, exited_pred()) == ws.len()
        &&& count_where(ws, exited_pred()) > 0 ==> pending == 0
        &&& self.completed + count_where(ws, busy_pred()) + count_where(ws, crashed_pred())
            == self.handed
        &&& forall|i: int| 0 <= i < ws.len() && #[trigger] ws[i] is Busy ==> ws[i]->Busy_0 < self.handed
        &&& forall|i: int, j: int|
            0 <= i < ws.len() && 0 <= j < ws.len() && i != j && #[trigger] ws[i] is Busy
                && #[trigger] ws[j] is Busy ==> ws[i]->Busy_0 != ws[j]->Busy_0
    }

    proof fn lemma_open_has_no_exits(&self)
        requires
            self.wf(),
            !self.closed,
        ensures
            count_where(self.workers@, exited_pred()) == 0,
    {
        let ws = self.workers@;
        assert forall|i: int| 0 <= i < ws.len() implies !exited_pred()(ws[i]) by {
            assert(ws[i].is_live());
        }
        lemma_count_none(ws, exited_pred());
    }

    /// A pool of `size` idle workers, with an empty queue; an error where `size`
    /// is zero.
    pub fn new(size: usize) -> (r: Result<ThreadPool<J>, ThreadPoolCreationError>)
        ensures
            r is Ok <==> size >= 1,
            match r {
                Ok(p) => {
                    &&& p.wf()
                    &&& p.workers() == idle_workers(size as nat)
                    &&& p.queue().len() == 0
                    &&& p.submitted() == 0
                    &&& p.handed() == 0
                    &&& p.completed() == 0
                    &&& !p.is_closed()
                },
                Err(e) => e == ThreadPoolCreationError::ThreadPoolCreatedWithInvalidSize,
            },
    {
        if size < 1 {
            return Err(ThreadPoolCreationError::ThreadPoolCreatedWithInvalidSize);
        }
        let mut workers: Vec<WorkerStatus> = Vec::with_capacity(size);
        let mut i: usize = 0;
        while i < size
            invariant
                i <= size,
                workers@ == idle_workers(i as nat),
            decreases size - i,
        {
            workers.push(WorkerStatus::Idle);
            i = i + 1;
            assert(workers@ =~= idle_workers(i as nat));
        }
        let p = ThreadPool {
            workers,
            channel: DispatchChannel::new(),
            submitted: 0,
            handed: 0,
            completed: 0,
            closed: false,
        };
        proof {
            lemma_count_none(p.workers@, exited_pred());
            lemma_count_none(p.workers@, busy_pred());
            lemma_count_none(p.workers@, crashed_pred());
        }
        Ok(p)
    }

    /// Submits a job: it goes to the back of the queue under the next ticket,
    /// which is returned. Once shutdown has begun the job is refused and the
    /// pool is left as it was.
    pub fn execute(&mut self, job: J) -> (r: Result<u64, ThreadPoolSubmitError>)
        requires
            old(self).wf(),
            old(self).submitted() < u64::MAX,
        ensures
            final(self).wf(),
            old(self).is_closed() ==> r == Err::<u64, ThreadPoolSubmitError>(
                ThreadPoolSubmitError::ChannelClosed,
            ) && *final(self) == *old(self),
            !old(self).is_closed() ==> {
                &&& r == Ok::<u64, ThreadPoolSubmitError>(old(self).submitted() as u64)
                &&& final(self).queue() == old(self).queue().push(
                    Message::NewJob { ticket: old(self).submitted() as u64, job },
                )
                &&& final(self).submitted() == old(self).submitted() + 1
                &&& final(self).workers() == old(self).workers()
                &&& final(self).handed() == old(self).handed()
                &&& final(self).completed() == old(self).completed()
                &&& !final(self).is_closed()
            },
    {
        if self.closed {
            return Err(ThreadPoolSubmitError::ChannelClosed);
        }
        let ticket = self.submitted;
        self.channel.send(Message::NewJob { ticket, job });
        self.submitted = self.submitted + 1;
        proof {
            let q = self.channel@;
            old(self).lemma_open_has_no_exits();
            assert forall|k: int| 0 <= k < self.submitted - self.handed implies #[trigger] q[k].job_ticket()
                == Some((self.handed + k) as u64) by {
                if k < q.len() - 1 {
                    assert(q[k] == old(self).channel@[k]);
                }
            }
        }
        Ok(ticket)
    }

    /// Worker `id`, waiting, takes the message at the front of the queue: with a
    /// job it becomes busy with that job's ticket, with a terminate message it
    /// exits. Where the queue is empty nothing changes and `None` comes back: the
    /// worker waits for a message to arrive.
    ///
    /// Jobs are received in the order of their tickets, and all jobs submitted
    /// before shutdown come before any terminate message.
    pub fn next_message(&mut self, id: usize) -> (r: Option<Message<J>>)
        requires
            old(self).wf(),
            id < old(self).workers().len(),
            old(self).workers()[id as int] == WorkerStatus::Idle,
        ensures
            final(self).wf(),
            final(self).submitted() == old(self).submitted(),
            final(self).completed() == old(self).completed(),
            final(self).is_closed() == old(self).is_closed(),
            old(self).queue().len() == 0 ==> {
                &&& r is None
                &&& final(self).queue() == old(self).queue()
                &&& final(self).workers() == old(self).workers()
                &&& final(self).handed() == old(self).handed()
            },
            old(self).queue().len() > 0 ==> r == Some(old(self).queue()[0]) && final(self).queue()
                == old(self).queue().subrange(1, old(self).queue().len() as int),
            old(self).pending() > 0 ==> match r {
                Some(Message::NewJob { .. }) => true,
                _ => false,
            },
            match r {
                Some(Message::NewJob { ticket, .. }) => {
                    &&& ticket == old(self).handed()
                    &&& final(self).handed() == old(self).handed() + 1
                    &&& final(self).handed_log() == old(self).handed_log().push(ticket)
                    &&& final(self).workers() == old(self).workers().update(
                        id as int,
                        WorkerStatus::Busy(ticket),
                    )
                },
                Some(Message::Terminate) => {
                    &&& final(self).handed() == old(self).handed()
                    &&& final(self).workers() == old(self).workers().update(
                        id as int,
                        WorkerStatus::Exited,
                    )
                },
                None => true,
            },
    {
        let ghost ws = self.workers@;
        let ghost q = self.channel@;
        let m = self.channel.receive();
        match &m {
            Some(Message::NewJob { ticket, .. }) => {
                let t = *ticket;
                proof {
                    assert(q[0].job_ticket() == Some(t));
                    if self.submitted - self.handed == 0 {
                        assert(q[0] is Terminate);
                    }
                    lemma_count_update(ws, id as int, WorkerStatus::Busy(t), busy_pred());
                    lemma_count_update(ws, id as int, WorkerStatus::Busy(t), exited_pred());
                    lemma_count_update(ws, id as int, WorkerStatus::Busy(t), crashed_pred());
                }
                self.workers.set(id, WorkerStatus::Busy(t));
                self.handed = self.handed + 1;
                proof {
                    let q2 = self.channel@;
                    assert forall|k: int| 0 <= k < self.submitted - self.handed implies #[trigger] q2[k].job_ticket()
                        == Some((self.handed + k) as u64) by {
                        assert(q2[k] == q[k + 1]);
                    }
                    assert forall|k: int| self.submitted - self.handed <= k < q2.len() implies #[trigger] q2[k] is Terminate by {
                        assert(q2[k] == q[k + 1]);
                    }
                    assert(self.handed_log() =~= old(self).handed_log().push(t));
                }
            },
            Some(Message::Terminate) => {
                proof {
                    if self.submitted - self.handed > 0 {
                        assert(q[0].job_ticket() == Some(self.handed));
                    }
                    lemma_count_update(ws, id as int, WorkerStatus::Exited, busy_pred());
                    lemma_count_update(ws, id as int, WorkerStatus::Exited, exited_pred());
                    lemma_count_update(ws, id as int, WorkerStatus::Exited, crashed_pred());
                }
                self.workers.set(id, WorkerStatus::Exited);
                proof {
                    let q2 = self.channel@;
                    assert forall|k: int| 0 <= k < q2.len() implies #[trigger] q2[k] is Terminate by {
                        assert(q2[k] == q[k + 1]);
                    }
                }
            },
            None => {},
        }
        m
    }

    /// Worker `id` has run its job to the end and waits again.
    pub fn finish_job(&mut self, id: usize)
        requires
            old(self).wf(),
            id < old(self).workers().len(),
            old(self).workers()[id as int] is Busy,
        ensures
            final(self).wf(),
            final(self).workers() == old(self).workers().update(id as int, WorkerStatus::Idle),
            final(self).completed() == old(self).completed() + 1,
            final(self).queue() == old(self).queue(),
            final(self).submitted() == old(self).submitted(),
            final(self).handed() == old(self).handed(),
            final(self).is_closed() == old(self).is_closed(),
    {
        proof {
            let ws = self.workers@;
            lemma_count_update(ws, id as int, WorkerStatus::Idle, busy_pred());
            lemma_count_update(ws, id as int, WorkerStatus::Idle, exited_pred());
            lemma_count_update(ws, id as int, WorkerStatus::Idle, crashed_pred());
        }
        self.workers.set(id, WorkerStatus::Idle);
        self.completed = self.completed + 1;
    }

    /// Begins shutdown: one terminate message per worker goes to the back of the
    /// queue, behind every job already submitted, and no job is taken after this.
    /// A second call changes nothing.
    pub fn terminate_all(&mut self)
        requires
            old(self).wf(),
        ensures
            final(self).wf(),
            final(self).is_closed(),
            final(self).workers() == old(self).workers(),
            final(self).submitted() == old(self).submitted(),
            final(self).handed() == old(self).handed(),
            final(self).completed() == old(self).completed(),
            old(self).is_closed() ==> final(self).queue() == old(self).queue(),
            !old(self).is_closed() ==> final(self).queue() == old(self).queue() + terminates::<J>(
                old(self).workers().len(),
            ),
    {
        if self.closed {
            return;
        }
        proof {
            self.lemma_open_has_no_exits();
        }
        let ghost q0 = self.channel@;
        let n = self.workers.len();
        let mut i: usize = 0;
        while i < n
            invariant
                i <= n,
                n == self.workers@.len(),
                self.workers@ == old(self).workers@,
                self.submitted == old(self).submitted,
                self.handed == old(self).handed,
                self.completed == old(self).completed,
                !self.closed,
                q0 == old(self).channel@,
                self.channel@ == q0 + terminates::<J>(i as nat),
            decreases n - i,
        {
            self.channel.send(Message::Terminate);
            i = i + 1;
            assert(self.channel@ =~= q0 + terminates::<J>(i as nat));
        }
        self.closed = true;
        proof {
            let q = self.channel@;
            let pending = self.submitted - self.handed;
            assert forall|k: int| 0 <= k < pending implies #[trigger] q[k].job_ticket() == Some(
                (self.handed + k) as u64,
            ) by {
                assert(q[k] == q0[k]);
            }
        }
    }

    /// Worker `id` has been joined after shutdown began: either it had exited, or
    /// its thread died inside its job, which then never completes.
    pub fn record_join(&mut self, id: usize, panicked: bool)
        requires
            old(self).wf(),
            old(self).is_closed(),
            id < old(self).workers().len(),
            panicked ==> old(self).workers()[id as int] is Busy,
            !panicked ==> old(self).workers()[id as int] == WorkerStatus::Exited,
        ensures
            final(self).wf(),
            final(self).workers() == old(self).workers().update(
                id as int,
                if panicked {
                    WorkerStatus::Crashed
                } else {
                    WorkerStatus::Joined
                },
            ),
            final(self).queue() == old(self).queue(),
            final(self).submitted() == old(self).submitted(),
            final(self).handed() == old(self).handed(),
            final(self).completed() == old(self).completed(),
            final(self).is_closed(),
    {
        let s = if panicked {
            WorkerStatus::Crashed
        } else {
            WorkerStatus::Joined
        };
        proof {
            let ws = self.workers@;
            lemma_count_update(ws, id as int, s, busy_pred());
            lemma_count_update(ws, id as int, s, exited_pred());
            lemma_count_update(ws, id as int, s, crashed_pred());
        }
        self.workers.set(id, s);
    }

    /// How many workers the pool has.
    pub fn size(&self) -> (n: usize)
        ensures
            n == self.workers().len(),
    {
        self.workers.len()
    }

    /// Where worker `id` stands.
    pub fn worker_status(&self, id: usize) -> (s: WorkerStatus)
        requires
            id < self.workers().len(),
        ensures
            s == self.workers()[id as int],
    {
        self.workers[id]
    }

    /// How many jobs were submitted.
    pub fn submitted_count(&self) -> (n: u64)
        ensures
            n == self.submitted(),
    {
        self.submitted
    }

    /// How many jobs workers have received.
    pub fn handed_count(&self) -> (n: u64)
        ensures
            n == self.handed(),
    {
        self.handed
    }

    /// How many jobs have run to their end.
    pub fn completed_count(&self) -> (n: u64)
        ensures
            n == self.completed(),
    {
        self.completed
    }

    /// How many messages wait in the queue.
    pub fn queued_count(&self) -> (n: usize)
        ensures
            n == self.queue().len(),
    {
        self.channel.len()
    }

    /// Whether shutdown has begun.
    pub fn is_shutting_down(&self) -> (b: bool)
        ensures
            b == self.is_closed(),
    {
        self.closed
    }

    /// Whether every worker's thread has been joined.
    pub fn is_stopped(&self) -> (b: bool)
        ensures
            b == forall|i: int| 0 <= i < self.workers().len() ==> #[trigger] self.workers()[i].is_stopped(),
    {
        let mut i: usize = 0;
        while i < self.workers.len()
            invariant
                i <= self.workers@.len(),
                forall|k: int| 0 <= k < i ==> #[trigger] self.workers@[k].is_stopped(),
            decreases self.workers@.len() - i,
        {
            let s = self.workers[i];
            match s {
                WorkerStatus::Joined | WorkerStatus::Crashed => {},
                _ => {
                    assert(!self.workers()[i as int].is_stopped());
                    return false;
                },
            }
            i = i + 1;
        }
        true
    }

} // impl

} // verus!

verus! {

/// No job is ever with two workers: the tickets handed out are all different,
/// no two busy workers hold the same ticket, and a ticket that a worker holds is
/// no longer in the queue.
pub proof fn lemma_no_job_with_two_workers<J>(p: &ThreadPool<J>)
    requires
        p.wf(),
    ensures
        p.handed_log().no_duplicates(),
        forall|i: int, j: int|
            0 <= i < p.workers().len() && 0 <= j < p.workers().len() && i != j
                && #[trigger] p.workers()[i] is Busy && #[trigger] p.workers()[j] is Busy
                ==> p.workers()[i]->Busy_0 != p.workers()[j]->Busy_0,
        forall|i: int, k: int|
            0 <= i < p.workers().len() && 0 <= k < p.queue().len() && #[trigger] p.workers()[i] is Busy
                ==> #[trigger] p.queue()[k].job_ticket() != Some(p.workers()[i]->Busy_0),
{
    let log = p.handed_log();
    assert forall|a: int, b: int| 0 <= a < log.len() && 0 <= b < log.len() && a != b implies log[a]
        != log[b] by {
        assert(log[a] == a as u64 && log[b] == b as u64);
    }
    assert forall|i: int, k: int|
        0 <= i < p.workers().len() && 0 <= k < p.queue().len() && #[trigger] p.workers()[i] is Busy
            implies #[trigger] p.queue()[k].job_ticket() != Some(p.workers()[i]->Busy_0) by {
        let ws = p.workers@;
        let q = p.channel@;
        assert(ws[i] is Busy);
        if k < p.submitted - p.handed {
            assert(q[k].job_ticket() == Some((p.handed + k) as u64));
        } else {
            assert(q[k] is Terminate);
        }
    }
}

/// Once shutdown has begun, the queue holds a terminate message for every worker
/// that still takes messages, behind the jobs still to run: each such worker,
/// once it has drained the jobs ahead, receives one and exits. A worker whose
/// thread died in a job needs none, so it cannot hold shutdown up.
pub proof fn lemma_shutdown_reaches_every_worker<J>(p: &ThreadPool<J>)
    requires
        p.wf(),
        p.is_closed(),
    ensures
        p.pending() >= 0,
        p.terminates_queued() >= count_where(p.workers(), live_pred()),
        forall|k: int| 0 <= k < p.pending() ==> #[trigger] p.queue()[k] is NewJob,
        forall|k: int| p.pending() <= k < p.queue().len() ==> #[trigger] p.queue()[k] is Terminate,
{
    lemma_count_partition(p.workers@);
    assert forall|k: int| 0 <= k < p.pending() implies #[trigger] p.queue()[k] is NewJob by {
        assert(p.channel@[k].job_ticket() == Some((p.handed + k) as u64));
    }
}

/// Once every worker has exited and been joined, every job submitted was handed
/// out exactly once, in ticket order, and ran to its end; the queue is empty.
pub proof fn lemma_clean_stop_ran_every_job<J>(p: &ThreadPool<J>)
    requires
        p.wf(),
        forall|i: int| 0 <= i < p.workers().len() ==> #[trigger] p.workers()[i] == WorkerStatus::Joined,
    ensures
        p.handed() == p.submitted(),
        p.completed() == p.submitted(),
        p.handed_log() == Seq::new(p.submitted(), |k: int| k as u64),
        p.handed_log().no_duplicates(),
        p.queue().len() == 0,
{
    let ws = p.workers@;
    assert forall|i: int| 0 <= i < ws.len() implies exited_pred()(ws[i]) by {
        assert(p.workers()[i] == WorkerStatus::Joined);
    }
    assert forall|i: int| 0 <= i < ws.len() implies !busy_pred()(ws[i]) by {
        assert(p.workers()[i] == WorkerStatus::Joined);
    }
    assert forall|i: int| 0 <= i < ws.len() implies !crashed_pred()(ws[i]) by {
        assert(p.workers()[i] == WorkerStatus::Joined);
    }
    assert forall|i: int| 0 <= i < ws.len() implies !ws[i].is_live() by {
        assert(p.workers()[i] == WorkerStatus::Joined);
    }
    lemma_count_all(ws, exited_pred());
    lemma_count_none(ws, busy_pred());
    lemma_count_none(ws, crashed_pred());
    lemma_no_job_with_two_workers(p);
}

} // verus!
