use vstd::prelude::*;

verus! {

/// Where one worker stands in its life.
#[derive(Clone, Copy, Debug, PartialEq, Eq, Structural)]
pub enum WorkerStatus {
    /// Waiting for its next message.
    Idle,
    /// Running the job with this ticket.
    Busy(u64),
    /// Took a terminate message and left its loop.
    Exited,
    /// Left its loop and has been joined.
    Joined,
    /// Its thread died inside a job, and it has been joined.
    Crashed,
}

impl WorkerStatus {
    /// Its thread still takes messages, or will once its job ends.
    pub open spec fn is_live(self) -> bool {
        self is Idle || self is Busy
    }

    /// It has taken a terminate message.
    pub open spec fn has_exited(self) -> bool {
        self is Exited || self is Joined
    }

    /// Its thread is gone and has been joined.
    pub open spec fn is_stopped(self) -> bool {
        self is Joined || self is Crashed
    }
}

pub open spec fn live_pred() -> spec_fn(WorkerStatus) -> bool {
    |s: WorkerStatus| s.is_live()
}

pub open spec fn busy_pred() -> spec_fn(WorkerStatus) -> bool {
    |s: WorkerStatus| s is Busy
}

pub open spec fn exited_pred() -> spec_fn(WorkerStatus) -> bool {
    |s: WorkerStatus| s.has_exited()
}

pub open spec fn crashed_pred() -> spec_fn(WorkerStatus) -> bool {
    |s: WorkerStatus| s is Crashed
}

/// How many of the statuses satisfy `p`.
pub open spec fn count_where(ws: Seq<WorkerStatus>, p: spec_fn(WorkerStatus) -> bool) -> nat
    decreases ws.len(),
{
    if ws.len() == 0 {
        0
    } else {
        count_where(ws.drop_last(), p) + if p(ws.last()) {
            1nat
        } else {
            0nat
        }
    }
}

/// Changing one status moves the count by at most the two entries involved.
pub proof fn lemma_count_update(
    ws: Seq<WorkerStatus>,
    i: int,
    v: WorkerStatus,
    p: spec_fn(WorkerStatus) -> bool,
)
    requires
        0 <= i < ws.len(),
    ensures
        count_where(ws.update(i, v), p) + (if p(ws[i]) { 1nat } else { 0nat }) == count_where(ws, p)
            + (if p(v) { 1nat } else { 0nat }),
    decreases ws.len(),
{
    let ws2 = ws.update(i, v);
    if i == ws.len() - 1 {
        assert(ws2.drop_last() =~= ws.drop_last());
    } else {
        lemma_count_update(ws.drop_last(), i, v, p);
        assert(ws2.drop_last() =~= ws.drop_last().update(i, v));
    }
}

/// Where no status satisfies `p`, the count is zero.
pub proof fn lemma_count_none(ws: Seq<WorkerStatus>, p: spec_fn(WorkerStatus) -> bool)
    requires
        forall|i: int| 0 <= i < ws.len() ==> !p(ws[i]),
    ensures
        count_where(ws, p) == 0,
    decreases ws.len(),
{
    if ws.len() > 0 {
        lemma_count_none(ws.drop_last(), p);
    }
}

/// Where every status satisfies `p`, the count is the length.
pub proof fn lemma_count_all(ws: Seq<WorkerStatus>, p: spec_fn(WorkerStatus) -> bool)
    requires
        forall|i: int| 0 <= i < ws.len() ==> p(ws[i]),
    ensures
        count_where(ws, p) == ws.len(),
    decreases ws.len(),
{
    if ws.len() > 0 {
        lemma_count_all(ws.drop_last(), p);
    }
}

/// Every status is live, exited or crashed, and only one of these.
pub proof fn lemma_count_partition(ws: Seq<WorkerStatus>)
    ensures
        count_where(ws, live_pred()) + count_where(ws, exited_pred()) + count_where(
            ws,
            crashed_pred(),
        ) == ws.len(),
    decreases ws.len(),
{
    if ws.len() > 0 {
        lemma_count_partition(ws.drop_last());
    }
}

} // verus!
