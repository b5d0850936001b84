use vstd::prelude::*;

use crate::error::WaitError;

verus! {

/// The longest wait, in milliseconds, that one backend call can express.
pub const CHUNK_MAX_MS: u32 = 0xFFFF_FFFF;

/// `CHUNK_MAX_MS` as a mathematical integer.
pub open spec fn chunk_max() -> nat {
    CHUNK_MAX_MS as nat
}

/// The length of the next backend wait when `remaining` milliseconds are left.
pub open spec fn chunk_of(remaining: nat) -> nat {
    if remaining > chunk_max() {
        chunk_max()
    } else {
        remaining
    }
}

/// Whether the backend wait issued with `remaining` milliseconds left is the last one.
pub open spec fn is_last_chunk(remaining: nat) -> bool {
    remaining <= chunk_max()
}

/// Where a wait stands.
#[derive(Clone, Copy, Debug, PartialEq, Eq, Structural)]
pub enum Phase {
    /// Created; the child has not been checked yet.
    Ready,
    /// A backend wait of `chunk_of(remaining_ms)` milliseconds was issued.
    Waiting,
    /// A final step was handed out; nothing more is to be done.
    Finished,
}

/// What the caller is to do next.
#[derive(Clone, Copy, Debug, PartialEq, Eq, Structural)]
pub enum Step {
    /// The child had already exited when checked: return the status that the check read.
    UseCheckedStatus,
    /// Call the backend with a bounded wait of this many milliseconds.
    Wait(u32),
    /// The backend saw the child exit before the last chunk: collect its status with a blocking wait.
    CollectBlocking,
    /// The backend saw the child exit in the last chunk: collect its status without blocking;
    /// the child is known to have exited, so finding it still running breaks the backend's contract.
    CollectNow,
    /// Give up with this error.
    Fail(WaitError),
}

/// The decisions of one wait with a timeout on one child.
///
/// The caller checks whether the child has already exited, passes that to `start`, and then
/// performs each `Step::Wait` with the backend, handing its outcome to `on_backend`, until a
/// step other than `Step::Wait` comes back.
#[derive(Clone, Copy, Debug)]
pub struct Waiter {
    /// Milliseconds of the timeout not yet covered by chunks that timed out.
    pub remaining_ms: u128,
    pub phase: Phase,
}

/// A wait of `timeout_ms` milliseconds in all, before the child is checked.
pub open spec fn fresh(timeout_ms: u128) -> Waiter {
    Waiter { remaining_ms: timeout_ms, phase: Phase::Ready }
}

/// The state and step after a backend wait is issued with `remaining` milliseconds left.
pub open spec fn issue(remaining: u128) -> (Waiter, Step) {
    (Waiter { remaining_ms: remaining, phase: Phase::Waiting }, Step::Wait(chunk_of(remaining as nat) as u32))
}

impl Waiter {
    /// The state and step after the check of whether the child had already exited.
    pub open spec fn start_spec(self, exited: bool) -> (Waiter, Step) {
        if exited {
            (Waiter { phase: Phase::Finished, ..self }, Step::UseCheckedStatus)
        } else {
            issue(self.remaining_ms)
        }
    }

    /// The state and step after the backend wait of the current chunk reports `outcome`.
    pub open spec fn advance_spec(self, outcome: Result<(), WaitError>) -> (Waiter, Step) {
        let done = Waiter { phase: Phase::Finished, ..self };
        let last = is_last_chunk(self.remaining_ms as nat);
        match outcome {
            Ok(()) => (done, if last { Step::CollectNow } else { Step::CollectBlocking }),
            Err(e) => if e == WaitError::TimedOut && !last {
                issue((self.remaining_ms - CHUNK_MAX_MS) as u128)
            } else {
                (done, Step::Fail(e))
            },
        }
    }

    /// A wait that may last `timeout_ms` milliseconds in all.
    pub fn new(timeout_ms: u128) -> (w: Waiter)
        ensures
            w == fresh(timeout_ms),
    {
        Waiter { remaining_ms: timeout_ms, phase: Phase::Ready }
    }

    /// Issues the first backend wait, unless `exited` says that the check found the child
    /// already exited: then the checked status is the answer and no backend call is made.
    pub fn start(&mut self, exited: bool) -> (s: Step)
        requires
            old(self).phase == Phase::Ready,
        ensures
            (*final(self), s) == old(self).start_spec(exited),
            exited <==> s == Step::UseCheckedStatus,
    {
        if exited {
            self.phase = Phase::Finished;
            Step::UseCheckedStatus
        } else {
            self.issue_chunk()
        }
    }

    fn issue_chunk(&mut self) -> (s: Step)
        ensures
            (*final(self), s) == issue(old(self).remaining_ms),
    {
        self.phase = Phase::Waiting;
        if self.remaining_ms > CHUNK_MAX_MS as u128 {
            Step::Wait(CHUNK_MAX_MS)
        } else {
            Step::Wait(self.remaining_ms as u32)
        }
    }

    /// Decides what follows the backend wait of the current chunk: a report of exit leads to
    /// collecting the status, a timeout before the last chunk to the next chunk, and anything
    /// else ends the wait with that error.
    pub fn on_backend(&mut self, outcome: Result<(), WaitError>) -> (s: Step)
        requires
            old(self).phase == Phase::Waiting,
        ensures
            (*final(self), s) == old(self).advance_spec(outcome),
            final(self).remaining_ms <= old(self).remaining_ms,
    {
        let last = self.remaining_ms <= CHUNK_MAX_MS as u128;
        match outcome {
            Ok(()) => {
                self.phase = Phase::Finished;
                if last {
                    Step::CollectNow
                } else {
                    Step::CollectBlocking
                }
            },
            Err(e) => {
                if e == WaitError::TimedOut && !last {
                    self.remaining_ms = self.remaining_ms - CHUNK_MAX_MS as u128;
                    self.issue_chunk()
                } else {
                    self.phase = Phase::Finished;
                    Step::Fail(e)
                }
            },
        }
    }
}

/// The sum of a sequence of wait lengths.
pub open spec fn total(waits: Seq<nat>) -> nat
    decreases waits.len(),
{
    if waits.len() == 0 {
        0
    } else {
        waits[0] + total(waits.drop_first())
    }
}

/// How a wait runs against a child that exits `exit_at` milliseconds after the wait began,
/// when `elapsed` milliseconds have passed and the state is `w` with step `s`: a backend wait of
/// `c` milliseconds reports exit when the child exits before it ends, and times out otherwise.
/// The result is the final step and the lengths of the backend waits issued from here on.
pub open spec fn settle(w: Waiter, s: Step, elapsed: nat, exit_at: nat) -> (Step, Seq<nat>)
    decreases w.remaining_ms,
{
    match s {
        Step::Wait(c) => {
            let exits = exit_at <= elapsed + c as nat;
            let next = w.advance_spec(if exits { Ok(()) } else { Err(WaitError::TimedOut) });
            if !exits && next.0.remaining_ms < w.remaining_ms {
                let rest = settle(next.0, next.1, elapsed + c as nat, exit_at);
                (rest.0, seq![c as nat].add(rest.1))
            } else {
                (next.1, seq![c as nat])
            }
        },
        _ => (s, Seq::empty()),
    }
}

/// Whether a step ends the wait with the child's exit status.
pub open spec fn collects(s: Step) -> bool {
    s == Step::CollectNow || s == Step::CollectBlocking
}

proof fn lemma_settle_issued(r: u128, e: nat, x: nat)
    ensures
        ({
            let (end, waits) = settle(issue(r).0, issue(r).1, e, x);
            &&& waits.len() >= 1
            &&& forall|i: int| 0 <= i < waits.len() ==> waits[i] <= chunk_max()
            &&& forall|i: int| 0 <= i < waits.len() - 1 ==> waits[i] == chunk_max()
            &&& r > 0 ==> forall|i: int| 0 <= i < waits.len() ==> waits[i] > 0
            &&& x <= e + r ==> collects(end) && x <= e + total(waits) && (waits.len() > 1 ==> e
                + total(waits) - waits.last() < x)
            &&& x > e + r ==> end == Step::Fail(WaitError::TimedOut) && total(waits) == r
        }),
    decreases r,
{
    let w = issue(r).0;
    let s = issue(r).1;
    let c = chunk_of(r as nat);
    assert(s == Step::Wait(c as u32));
    let exits = x <= e + c;
    let next = w.advance_spec(if exits { Ok(()) } else { Err(WaitError::TimedOut) });
    let (end, waits) = settle(w, s, e, x);
    if !exits && next.0.remaining_ms < w.remaining_ms {
        let nr = (r - CHUNK_MAX_MS) as u128;
        assert(next == issue(nr));
        lemma_settle_issued(nr, e + c, x);
        let rest = settle(next.0, next.1, e + c, x);
        assert(waits == seq![c as nat].add(rest.1));
        assert(waits.len() == rest.1.len() + 1);
        assert forall|i: int| 0 < i < waits.len() implies waits[i] == rest.1[i - 1] by {}
        assert(waits.drop_first() =~= rest.1);
        assert(waits.last() == rest.1.last());
        assert(total(waits) == c + total(rest.1));
        if rest.1.len() == 1 {
            assert(rest.1.drop_first() =~= Seq::<nat>::empty());
            assert(total(Seq::<nat>::empty()) == 0);
            assert(total(rest.1) == rest.1.last());
        }
    } else {
        assert(waits == seq![c as nat]);
        assert(waits.drop_first() =~= Seq::<nat>::empty());
        assert(total(Seq::<nat>::empty()) == 0);
        assert(total(waits) == c);
    }
}

/// A wait with a timeout of `timeout_ms` milliseconds on a child that was running when checked
/// and exits `exit_at` milliseconds later ends with the child's status exactly when
/// `exit_at <= timeout_ms`, and otherwise with `WaitError::TimedOut`. It ends in the backend wait
/// during which the child exits; when it times out, its backend waits add up to the whole timeout.
pub proof fn lemma_outcome_follows_exit_time(timeout_ms: u128, exit_at: nat)
    ensures
        ({
            let (w, s) = fresh(timeout_ms).start_spec(false);
            let (end, waits) = settle(w, s, 0, exit_at);
            &&& exit_at <= timeout_ms ==> collects(end) && exit_at <= total(waits) && (waits.len()
                > 1 ==> total(waits) - waits.last() < exit_at)
            &&& exit_at > timeout_ms ==> end == Step::Fail(WaitError::TimedOut) && total(waits)
                == timeout_ms
        }),
{
    lemma_settle_issued(timeout_ms, 0, exit_at);
}

/// However long the timeout, the backend waits that a wait issues each fit in one backend call,
/// all but the last are of the largest length, and none is empty unless the timeout is zero;
/// so a timeout at a multiple of the largest length gets no extra empty wait.
pub proof fn lemma_chunks_are_bounded(timeout_ms: u128, exit_at: nat)
    ensures
        ({
            let (w, s) = fresh(timeout_ms).start_spec(false);
            let waits = settle(w, s, 0, exit_at).1;
            &&& waits.len() >= 1
            &&& forall|i: int| 0 <= i < waits.len() ==> waits[i] <= chunk_max()
            &&& forall|i: int| 0 <= i < waits.len() - 1 ==> waits[i] == chunk_max()
            &&& timeout_ms > 0 ==> forall|i: int| 0 <= i < waits.len() ==> waits[i] > 0
        }),
{
    lemma_settle_issued(timeout_ms, 0, exit_at);
}

/// A child found already exited is answered from that check alone, whatever the timeout: no
/// backend wait is issued, so asking twice gives the status that the check reads each time.
pub proof fn lemma_exited_child_needs_no_wait(first_ms: u128, second_ms: u128)
    ensures
        fresh(first_ms).start_spec(true).1 == Step::UseCheckedStatus,
        fresh(first_ms).start_spec(true).1 == fresh(second_ms).start_spec(true).1,
{
}

/// A timeout of zero on a running child issues one backend wait of zero milliseconds, and when
/// that wait reports a timeout the wait ends with `WaitError::TimedOut`.
pub proof fn lemma_zero_timeout_times_out()
    ensures
        ({
            let (w, s) = fresh(0).start_spec(false);
            &&& s == Step::Wait(0)
            &&& w.advance_spec(Err(WaitError::TimedOut)).1 == Step::Fail(WaitError::TimedOut)
        }),
{
}

/// A timeout longer than one backend wait on a child that exits during the second backend wait
/// ends with the child's status after exactly two backend waits.
pub proof fn lemma_exit_in_second_chunk(timeout_ms: u128, exit_at: nat)
    requires
        timeout_ms > chunk_max(),
        chunk_max() < exit_at <= timeout_ms,
        exit_at <= 2 * chunk_max(),
    ensures
        ({
            let (w, s) = fresh(timeout_ms).start_spec(false);
            let (end, waits) = settle(w, s, 0, exit_at);
            collects(end) && waits.len() == 2
        }),
{
    lemma_settle_issued(timeout_ms, 0, exit_at);
    let (w, s) = fresh(timeout_ms).start_spec(false);
    let waits = settle(w, s, 0, exit_at).1;
    if waits.len() > 2 {
        assert(waits[0] == chunk_max() && waits[1] == chunk_max());
        lemma_total_of_full_prefix(waits);
    } else if waits.len() == 1 {
        lemma_total_drop_last(waits);
        assert(waits.drop_last() =~= Seq::<nat>::empty());
    }
}

proof fn lemma_total_of_full_prefix(waits: Seq<nat>)
    requires
        waits.len() > 2,
        waits[0] == chunk_max(),
        waits[1] == chunk_max(),
    ensures
        total(waits) - waits.last() >= 2 * chunk_max(),
    decreases waits.len(),
{
    lemma_total_drop_last(waits);
    let head = waits.drop_last().take(2);
    lemma_total_at_least_prefix(waits.drop_last(), 2);
    assert(head.drop_first().drop_first() =~= Seq::<nat>::empty());
    assert(total(Seq::<nat>::empty()) == 0);
    assert(total(head.drop_first()) == head[1]);
    assert(total(head) == head[0] + head[1]);
}

proof fn lemma_total_drop_last(waits: Seq<nat>)
    requires
        waits.len() > 0,
    ensures
        total(waits) == total(waits.drop_last()) + waits.last(),
    decreases waits.len(),
{
    if waits.len() == 1 {
        assert(waits.drop_first() =~= Seq::<nat>::empty());
        assert(waits.drop_last() =~= Seq::<nat>::empty());
        assert(total(Seq::<nat>::empty()) == 0);
    } else {
        lemma_total_drop_last(waits.drop_first());
        assert(waits.drop_first().drop_last() =~= waits.drop_last().drop_first());
    }
}

proof fn lemma_total_at_least_prefix(waits: Seq<nat>, n: nat)
    requires
        n <= waits.len(),
    ensures
        total(waits) >= total(waits.take(n as int)),
    decreases n,
{
    if n > 0 {
        lemma_total_at_least_prefix(waits.drop_first(), (n - 1) as nat);
        assert(waits.take(n as int).drop_first() =~= waits.drop_first().take(n - 1));
    }
}

} // verus!
