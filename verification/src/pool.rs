//! The queue of files to look up and the bookkeeping of the workers that
//! drain it.
//!
//! The workers themselves run elsewhere, in parallel. Each of them, holding
//! the pool under a lock, claims a file, works on it with the lock released,
//! and reports how it went. What is decided here is which file a worker gets,
//! when a worker is through, and that in the end every file has been handed out
//! once and has one outcome.

use vstd::prelude::*;
use crate::error::SubError;
use crate::show::Show;

verus! {

/// The number of workers that look files up at the same time. It is kept
/// small so as not to flood the catalog.
pub const THREAD_COUNT: usize = 4;

/// The files that no worker has claimed yet.
pub struct WorkQueue {
    items: Vec<Show>,
}

impl View for WorkQueue {
    type V = Seq<Show>;

    closed spec fn view(&self) -> Seq<Show> {
        self.items@
    }
}

impl WorkQueue {
    /// A queue that holds `shows`.
    pub fn new(shows: Vec<Show>) -> (queue: WorkQueue)
        ensures
            queue@ == shows@,
    {
        WorkQueue { items: shows }
    }

    /// The number of files that are left.
    pub fn len(&self) -> (n: usize)
        ensures
            n == self@.len(),
    {
        self.items.len()
    }

    /// Whether no file is left.
    pub fn is_empty(&self) -> (empty: bool)
        ensures
            empty == (self@.len() == 0),
    {
        self.items.len() == 0
    }

    /// Takes the last file out of the queue and hands it over; `None` where
    /// the queue is empty. A file that was handed over is in the queue no more.
    /// Only files that qualify for a lookup come out of a queue.
    pub fn claim_next(&mut self) -> (claimed: Option<Show>)
        ensures
            old(self)@.len() == 0 ==> claimed is None && final(self)@ == old(self)@,
            old(self)@.len() > 0 ==> claimed == Some(old(self)@.last()) && final(self)@ == old(
                self
            )@.drop_last(),
            claimed matches Some(show) ==> show.is_qualified(),
    {
        let claimed = self.items.pop();
        proof {
            match &claimed {
                Some(show) => {
                    use_type_invariant(show);
                },
                None => {},
            }
        }
        claimed
    }
}

/// How the lookup of one file ended.
pub type Outcome = Result<(), SubError>;

/// What a worker is doing.
#[derive(Debug, Clone, Copy, PartialEq, Eq)]
pub enum WorkerState {
    /// It holds no file and has not been told that the queue is empty.
    Idle,
    /// It works on the file of this number.
    Busy(usize),
    /// It found the queue empty and has stopped.
    Done,
}

/// What a worker is told when it asks for work.
#[derive(Debug)]
pub enum Claim {
    /// The file to work on, and its number in the list that the pool was made
    /// with.
    Work(usize, Show),
    /// No file is left: the worker stops.
    Finished,
    /// The worker is unknown, or still has a file to report on.
    Refused,
}

/// The queue, the state of each worker, and the outcome of each file.
pub struct WorkerPool {
    queue: WorkQueue,
    workers: Vec<WorkerState>,
    outcomes: Vec<Option<Outcome>>,
    initial: Ghost<Seq<Show>>,
}

/// Whether a worker in this state is busy with the file of number `id`.
pub open spec fn holds(state: WorkerState, id: int) -> bool {
    state matches WorkerState::Busy(k) && k == id
}

/// Whether some worker is busy with the file of number `id`.
pub open spec fn busy_with(workers: Seq<WorkerState>, id: int) -> bool {
    exists|w: int| 0 <= w < workers.len() && holds(#[trigger] workers[w], id)
}

/// How many steps a worker in this state still has to take by itself: a busy
/// one reports and then finds the queue empty, an idle one finds it empty.
pub open spec fn weight(state: WorkerState) -> nat {
    match state {
        WorkerState::Idle => 1,
        WorkerState::Busy(_) => 2,
        WorkerState::Done => 0,
    }
}

/// The sum of the workers' weights.
pub open spec fn weights(workers: Seq<WorkerState>) -> nat
    decreases workers.len(),
{
    if workers.len() == 0 {
        0
    } else {
        weights(workers.drop_last()) + weight(workers.last())
    }
}

proof fn lemma_weights_update(workers: Seq<WorkerState>, w: int, state: WorkerState)
    requires
        0 <= w < workers.len(),
    ensures
        weights(workers.update(w, state)) + weight(workers[w]) == weights(workers) + weight(state),
    decreases workers.len(),
{
    let updated = workers.update(w, state);
    if w == workers.len() - 1 {
        assert(updated.drop_last() =~= workers.drop_last());
    } else {
        lemma_weights_update(workers.drop_last(), w, state);
        assert(updated.drop_last() =~= workers.drop_last().update(w, state));
    }
}

proof fn lemma_weights_zero(workers: Seq<WorkerState>)
    ensures
        weights(workers) == 0 <==> forall|w: int|
            0 <= w < workers.len() ==> #[trigger] workers[w] is Done,
    decreases workers.len(),
{
    if workers.len() > 0 {
        lemma_weights_zero(workers.drop_last());
        if weights(workers) == 0 {
            assert forall|w: int| 0 <= w < workers.len() implies #[trigger] workers[w] is Done by {
                if w < workers.len() - 1 {
                    assert(workers.drop_last()[w] is Done);
                }
            }
        }
        if forall|w: int| 0 <= w < workers.len() ==> #[trigger] workers[w] is Done {
            assert forall|w: int| 0 <= w < workers.len() - 1 implies #[trigger] workers.drop_last()[w] is Done by {
                assert(workers[w] is Done);
            }
            assert(workers.last() == workers[workers.len() - 1]);
        }
    }
}

impl WorkerPool {
    /// The files that the pool was made with. A file's number is its index
    /// here.
    pub closed spec fn candidates(&self) -> Seq<Show> {
        self.initial@
    }

    /// The files that no worker has claimed yet: a prefix of the candidates.
    pub closed spec fn remaining(&self) -> Seq<Show> {
        self.queue@
    }

    /// The state of each worker.
    pub closed spec fn workers(&self) -> Seq<WorkerState> {
        self.workers@
    }

    /// The outcome of each file, by its number; `None` until it is reported.
    pub closed spec fn outcomes(&self) -> Seq<Option<Outcome>> {
        self.outcomes@
    }

    /// Every worker has found the queue empty and stopped.
    pub open spec fn all_done(&self) -> bool {
        forall|w: int| 0 <= w < self.workers().len() ==> #[trigger] self.workers()[w] is Done
    }

    /// The number of claims and reports that are still to come before
    /// every worker has stopped.
    pub open spec fn steps_left(&self) -> nat {
        2 * self.remaining().len() + weights(self.workers())
    }

    /// What holds of a pool at all times: each file is in exactly one place.
    /// It is still in the queue, with no outcome; or one worker is busy with
    /// it, with no outcome yet; or it has its outcome. And once a worker has
    /// stopped, the queue is empty.
    pub closed spec fn wf(&self) -> bool {
        let left = self.queue@.len() as int;
        let total = self.initial@.len() as int;
        &&& self.outcomes@.len() == total
        &&& left <= total
        &&& self.queue@ == self.initial@.take(left)
        &&& forall|w: int|
            0 <= w < self.workers@.len() ==> (#[trigger] self.workers@[w] matches WorkerState::Busy(
                id,
            ) ==> left <= id < total && self.outcomes@[id as int] is None)
        &&& forall|w1: int, w2: int|
            0 <= w1 < w2 < self.workers@.len() && #[trigger] self.workers@[w1] is Busy
                ==> self.workers@[w1] != #[trigger] self.workers@[w2]
        &&& forall|id: int|
            left <= id < total ==> #[trigger] self.outcomes@[id] is Some || busy_with(
                self.workers@,
                id,
            )
        &&& forall|id: int| 0 <= id < left ==> #[trigger] self.outcomes@[id] is None
        &&& left > 0 ==> forall|w: int|
            0 <= w < self.workers@.len() ==> !(#[trigger] self.workers@[w] is Done)
    }

    /// A pool of `workers` idle workers over `shows`, none of them looked up
    /// yet.
    pub fn new(shows: Vec<Show>, workers: usize) -> (pool: WorkerPool)
        ensures
            pool.wf(),
            pool.candidates() == shows@,
            pool.remaining() == shows@,
            pool.workers() == Seq::new(workers as nat, |w: int| WorkerState::Idle),
            pool.outcomes() == Seq::new(shows@.len(), |id: int| None::<Outcome>),
    {
        let ghost initial = shows@;
        let total: usize = shows.len();
        let mut states: Vec<WorkerState> = Vec::new();
        let mut w: usize = 0;
        while w < workers
            invariant
                w <= workers,
                states@ == Seq::new(w as nat, |k: int| WorkerState::Idle),
            decreases workers - w,
        {
            states.push(WorkerState::Idle);
            w = w + 1;
            proof {
                assert(states@ =~= Seq::new(w as nat, |k: int| WorkerState::Idle));
            }
        }
        let mut outcomes: Vec<Option<Outcome>> = Vec::new();
        let mut id: usize = 0;
        while id < total
            invariant
                id <= total,
                outcomes@ == Seq::new(id as nat, |k: int| None::<Outcome>),
            decreases total - id,
        {
            outcomes.push(None);
            id = id + 1;
            proof {
                assert(outcomes@ =~= Seq::new(id as nat, |k: int| None::<Outcome>));
            }
        }
        let pool = WorkerPool {
            queue: WorkQueue::new(shows),
            workers: states,
            outcomes,
            initial: Ghost(initial),
        };
        proof {
            assert(pool.queue@ =~= initial.take(initial.len() as int));
        }
        pool
    }

    /// The number of workers.
    pub fn worker_count(&self) -> (n: usize)
        ensures
            n == self.workers().len(),
    {
        self.workers.len()
    }

    /// The number of files that the pool was made with.
    pub fn total(&self) -> (n: usize)
        requires
            self.wf(),
        ensures
            n == self.candidates().len(),
    {
        self.outcomes.len()
    }

    /// Whether every worker has stopped.
    pub fn finished(&self) -> (done: bool)
        ensures
            done == self.all_done(),
    {
        let mut w: usize = 0;
        while w < self.workers.len()
            invariant
                w <= self.workers@.len(),
                forall|k: int| 0 <= k < w ==> #[trigger] self.workers@[k] is Done,
            decreases self.workers@.len() - w,
        {
            match self.workers[w] {
                WorkerState::Done => {},
                _ => {
                    return false;
                },
            }
            w = w + 1;
        }
        true
    }

    /// The outcome of the file of number `id`; `None` where it has none yet,
    /// or where there is no such file.
    pub fn outcome_of(&self, id: usize) -> (outcome: &Option<Outcome>)
        ensures
            id < self.outcomes().len() ==> *outcome == self.outcomes()[id as int],
            id >= self.outcomes().len() ==> *outcome is None,
    {
        if id < self.outcomes.len() {
            &self.outcomes[id]
        } else {
            &None
        }
    }

    /// Worker `worker` asks for work. An idle worker gets the last file of the
    /// queue, or is told to stop where the queue is empty. A worker that has
    /// stopped is told so again. Any other request is refused and changes
    /// nothing.
    pub fn claim(&mut self, worker: usize) -> (claim: Claim)
        requires
            old(self).wf(),
        ensures
            final(self).wf(),
            final(self).candidates() == old(self).candidates(),
            final(self).outcomes() == old(self).outcomes(),
            match claim {
                Claim::Work(id, show) => {
                    &&& worker < old(self).workers().len()
                    &&& old(self).workers()[worker as int] is Idle
                    &&& old(self).remaining().len() > 0
                    &&& id == old(self).remaining().len() - 1
                    &&& show == old(self).candidates()[id as int]
                    &&& show.is_qualified()
                    &&& final(self).remaining() == old(self).remaining().drop_last()
                    &&& final(self).workers() == old(self).workers().update(
                        worker as int,
                        WorkerState::Busy(id),
                    )
                    &&& final(self).steps_left() + 1 == old(self).steps_left()
                },
                Claim::Finished => {
                    &&& worker < old(self).workers().len()
                    &&& !(old(self).workers()[worker as int] is Busy)
                    &&& old(self).remaining().len() == 0
                    &&& final(self).remaining() == old(self).remaining()
                    &&& final(self).workers() == old(self).workers().update(
                        worker as int,
                        WorkerState::Done,
                    )
                    &&& old(self).workers()[worker as int] is Idle ==> final(self).steps_left() + 1
                        == old(self).steps_left()
                },
                Claim::Refused => {
                    &&& worker >= old(self).workers().len() || old(self).workers()[worker as int] is Busy
                    &&& final(self).remaining() == old(self).remaining()
                    &&& final(self).workers() == old(self).workers()
                },
            },
    {
        if worker >= self.workers.len() {
            return Claim::Refused;
        }
        match self.workers[worker] {
            WorkerState::Busy(_) => Claim::Refused,
            WorkerState::Done => {
                proof {
                    assert(self.workers@.update(worker as int, WorkerState::Done) =~= self.workers@);
                }
                Claim::Finished
            },
            WorkerState::Idle => {
                match self.queue.claim_next() {
                    None => {
                        proof {
                            lemma_weights_update(self.workers@, worker as int, WorkerState::Done);
                        }
                        self.workers.set(worker, WorkerState::Done);
                        proof {
                            let before = old(self).workers@;
                            let after = self.workers@;
                            assert forall|id: int|
                                0 <= id < self.initial@.len() implies #[trigger] self.outcomes@[id] is Some
                                || busy_with(after, id) by {
                                if !(self.outcomes@[id] is Some) {
                                    let k = choose|k: int|
                                        0 <= k < before.len() && holds(#[trigger] before[k], id);
                                    assert(after[k] == before[k]);
                                }
                            }
                        }
                        Claim::Finished
                    },
                    Some(show) => {
                        let id: usize = self.queue.len();
                        proof {
                            lemma_weights_update(
                                self.workers@,
                                worker as int,
                                WorkerState::Busy(id),
                            );
                        }
                        self.workers.set(worker, WorkerState::Busy(id));
                        proof {
                            let before = old(self).workers@;
                            let after = self.workers@;
                            let total = self.initial@.len() as int;
                            assert(self.queue@ =~= self.initial@.take(id as int));
                            assert(show == self.initial@[id as int]);
                            assert forall|i: int| id <= i < total implies #[trigger] self.outcomes@[i] is Some
                                || busy_with(after, i) by {
                                if i == id {
                                    assert(holds(after[worker as int], i));
                                } else if !(self.outcomes@[i] is Some) {
                                    let k = choose|k: int|
                                        0 <= k < before.len() && holds(#[trigger] before[k], i);
                                    assert(after[k] == before[k]);
                                }
                            }
                            assert forall|w1: int, w2: int|
                                0 <= w1 < w2 < after.len() && #[trigger] after[w1] is Busy implies after[w1]
                                != #[trigger] after[w2] by {
                                if w1 != worker && w2 != worker {
                                    assert(before[w1] is Busy);
                                    assert(before[w1] != before[w2]);
                                } else if w1 == worker {
                                    if before[w2] is Busy {
                                    }
                                } else {
                                    assert(before[w1] is Busy);
                                }
                            }
                        }
                        Claim::Work(id, show)
                    },
                }
            },
        }
    }

    /// Worker `worker` reports how the lookup of its file ended. The report of
    /// a busy worker is kept as the outcome of that file, which had none, and
    /// the worker is idle again. Any other report is dropped and changes
    /// nothing.
    pub fn report(&mut self, worker: usize, outcome: Outcome) -> (accepted: bool)
        requires
            old(self).wf(),
        ensures
            final(self).wf(),
            final(self).candidates() == old(self).candidates(),
            final(self).remaining() == old(self).remaining(),
            accepted <==> worker < old(self).workers().len() && old(self).workers()[worker as int] is Busy,
            accepted ==> {
                let id = old(self).workers()[worker as int]->Busy_0 as int;
                &&& 0 <= id < old(self).outcomes().len()
                &&& old(self).outcomes()[id] is None
                &&& final(self).outcomes() == old(self).outcomes().update(id, Some(outcome))
                &&& final(self).workers() == old(self).workers().update(
                    worker as int,
                    WorkerState::Idle,
                )
                &&& final(self).steps_left() + 1 == old(self).steps_left()
            },
            !accepted ==> final(self).outcomes() == old(self).outcomes() && final(self).workers()
                == old(self).workers(),
    {
        if worker >= self.workers.len() {
            return false;
        }
        match self.workers[worker] {
            WorkerState::Busy(id) => {
                proof {
                    lemma_weights_update(self.workers@, worker as int, WorkerState::Idle);
                }
                self.outcomes.set(id, Some(outcome));
                self.workers.set(worker, WorkerState::Idle);
                proof {
                    let before = old(self).workers@;
                    let after = self.workers@;
                    let left = self.queue@.len() as int;
                    let total = self.initial@.len() as int;
                    assert forall|w: int| 0 <= w < after.len() implies (#[trigger] after[w] matches WorkerState::Busy(
                        other,
                    ) ==> left <= other < total && self.outcomes@[other as int] is None) by {
                        if w != worker && after[w] is Busy {
                            assert(before[w] == after[w]);
                            if w < worker {
                                assert(before[w] != before[worker as int]);
                            } else {
                                assert(before[worker as int] != before[w]);
                            }
                        }
                    }
                    assert forall|i: int| left <= i < total implies #[trigger] self.outcomes@[i] is Some
                        || busy_with(after, i) by {
                        if i != id && !(self.outcomes@[i] is Some) {
                            assert(old(self).outcomes@[i] == self.outcomes@[i]);
                            let k = choose|k: int|
                                0 <= k < before.len() && holds(#[trigger] before[k], i);
                            assert(after[k] == before[k]);
                        }
                    }
                    assert forall|w1: int, w2: int|
                        0 <= w1 < w2 < after.len() && #[trigger] after[w1] is Busy implies after[w1]
                        != #[trigger] after[w2] by {
                        assert(before[w1] is Busy);
                        assert(before[w1] != before[w2]);
                    }
                }
                true
            },
            _ => false,
        }
    }
}

proof fn lemma_weights_idle(n: nat)
    ensures
        weights(Seq::new(n, |w: int| WorkerState::Idle)) == n,
    decreases n,
{
    if n > 0 {
        lemma_weights_idle((n - 1) as nat);
        assert(Seq::new(n, |w: int| WorkerState::Idle).drop_last() =~= Seq::new(
            (n - 1) as nat,
            |w: int| WorkerState::Idle,
        ));
    }
}

/// A new pool of N workers over K files is 2K + N steps away from its end:
/// a claim and a report for each file, and for each worker the claim that
/// finds the queue empty.
pub proof fn lemma_steps_at_start(pool: WorkerPool, files: nat, workers: nat)
    requires
        pool.remaining().len() == files,
        pool.workers() == Seq::new(workers, |w: int| WorkerState::Idle),
    ensures
        pool.steps_left() == 2 * files + workers,
{
    lemma_weights_idle(workers);
}

/// No step is left exactly when every worker has stopped, in a pool that has
/// a worker at all.
pub proof fn lemma_steps_left_zero(pool: WorkerPool)
    requires
        pool.wf(),
        pool.workers().len() > 0,
    ensures
        pool.steps_left() == 0 <==> pool.all_done(),
{
    lemma_weights_zero(pool.workers());
    if pool.all_done() {
        assert(pool.workers()[0] is Done);
    }
}

/// Each file is in exactly one place: still in the queue, or in the hands of
/// exactly one worker, or reported with its outcome. The queue holds the
/// files whose numbers are below its length, so a file that has left it does
/// not come out of it again.
pub proof fn lemma_one_place(pool: WorkerPool, id: int)
    requires
        pool.wf(),
        0 <= id < pool.candidates().len(),
    ensures
        pool.outcomes().len() == pool.candidates().len(),
        pool.remaining().len() <= pool.candidates().len(),
        pool.remaining() == pool.candidates().take(pool.remaining().len() as int),
        id < pool.remaining().len() ==> pool.outcomes()[id] is None && !busy_with(
            pool.workers(),
            id,
        ),
        busy_with(pool.workers(), id) ==> pool.outcomes()[id] is None,
        id >= pool.remaining().len() ==> pool.outcomes()[id] is Some || busy_with(
            pool.workers(),
            id,
        ),
        forall|w1: int, w2: int|
            0 <= w1 < pool.workers().len() && 0 <= w2 < pool.workers().len()
                && holds(#[trigger] pool.workers()[w1], id)
                && holds(#[trigger] pool.workers()[w2], id) ==> w1 == w2,
{
    if busy_with(pool.workers(), id) {
        let w = choose|w: int|
            0 <= w < pool.workers().len() && holds(#[trigger] pool.workers()[w], id);
        assert(pool.workers()[w] is Busy);
    }
    assert forall|w1: int, w2: int|
        0 <= w1 < pool.workers().len() && 0 <= w2 < pool.workers().len()
            && holds(#[trigger] pool.workers()[w1], id)
            && holds(#[trigger] pool.workers()[w2], id) implies w1 == w2 by {
        if w1 < w2 {
            assert(pool.workers()[w1] is Busy);
            assert(pool.workers()[w1] != pool.workers()[w2]);
        } else if w2 < w1 {
            assert(pool.workers()[w2] is Busy);
            assert(pool.workers()[w2] != pool.workers()[w1]);
        }
    }
}

/// When every worker of a pool has stopped, and the pool has a worker at all,
/// the queue is empty and every file has its outcome.
pub proof fn lemma_all_done_all_reported(pool: WorkerPool)
    requires
        pool.wf(),
        pool.workers().len() > 0,
        pool.all_done(),
    ensures
        pool.remaining().len() == 0,
        pool.outcomes().len() == pool.candidates().len(),
        forall|id: int|
            0 <= id < pool.candidates().len() ==> #[trigger] pool.outcomes()[id] is Some,
{
    assert(pool.workers()[0] is Done);
    assert forall|id: int| 0 <= id < pool.candidates().len() implies #[trigger] pool.outcomes()[id] is Some by {
        if busy_with(pool.workers(), id) {
            let w = choose|w: int|
                0 <= w < pool.workers().len() && holds(#[trigger] pool.workers()[w], id);
            assert(pool.workers()[w] is Done);
        }
    }
}

} // verus!
