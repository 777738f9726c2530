use crate::counter::{claim_step, WorkCounter};
use vstd::prelude::*;

verus! {

/// Where a worker of the pool stands.
#[derive(Debug, Clone, Copy, PartialEq, Eq, Structural)]
pub enum WorkerState {
    /// Claiming units and executing them.
    Running,
    /// Its last claim found no unit left.
    Exhausted,
    /// Finished its last request and left the pool.
    Terminated,
}

/// The pool's bookkeeping: the shared counter and the state of each worker.
/// The indices claimed so far are kept as ghost history.
pub struct Dispatcher {
    counter: WorkCounter,
    workers: Vec<WorkerState>,
    claimed: Ghost<Seq<u64>>,
}

impl Dispatcher {
    pub closed spec fn states(&self) -> Seq<WorkerState> {
        self.workers@
    }

    /// The indices handed out so far, in the order they were claimed.
    pub closed spec fn claimed(&self) -> Seq<u64> {
        self.claimed@
    }

    pub closed spec fn units(&self) -> u64 {
        self.counter.total_units()
    }

    pub closed spec fn wf(&self) -> bool {
        &&& self.counter.wf()
        &&& self.claimed@ == Seq::new(
            (self.counter.next_index() - 1) as nat,
            |j: int| (j + 1) as u64,
        )
        &&& (exists|w: int|
            0 <= w < self.workers@.len() && #[trigger] self.workers@[w]
                != WorkerState::Running) ==> self.counter.next_index()
            == self.counter.total_units() + 1
    }

    /// A pool of `tasks` running workers over `total` units, none claimed.
    pub fn new(total: u64, tasks: usize) -> (d: Dispatcher)
        requires
            total < u64::MAX,
        ensures
            d.wf(),
            d.units() == total,
            d.states() == Seq::new(tasks as nat, |w: int| WorkerState::Running),
            d.claimed().len() == 0,
    {
        let mut workers: Vec<WorkerState> = Vec::new();
        let mut i: usize = 0;
        while i < tasks
            invariant
                i <= tasks,
                workers@ == Seq::new(i as nat, |w: int| WorkerState::Running),
            decreases tasks - i,
        {
            workers.push(WorkerState::Running);
            i = i + 1;
            proof {
                assert(workers@ =~= Seq::new(i as nat, |w: int| WorkerState::Running));
            }
        }
        let d = Dispatcher { counter: WorkCounter::new(total), workers, claimed: Ghost(Seq::empty()) };
        proof {
            assert(d.claimed@ =~= Seq::new(0, |j: int| (j + 1) as u64));
        }
        d
    }

    /// The number of workers.
    pub fn tasks(&self) -> (r: usize)
        ensures
            r == self.states().len(),
    {
        self.workers.len()
    }

    /// Running worker `w` claims its next unit. When none is left the
    /// worker becomes exhausted; a failed unit is never handed out again.
    pub fn claim_for(&mut self, w: usize) -> (r: Option<u64>)
        requires
            old(self).wf(),
            w < old(self).states().len(),
            old(self).states()[w as int] == WorkerState::Running,
        ensures
            final(self).wf(),
            final(self).units() == old(self).units(),
            r matches Some(i) ==> {
                &&& i == old(self).claimed().len() + 1
                &&& final(self).claimed() == old(self).claimed().push(i)
                &&& final(self).states() == old(self).states()
            },
            r is None ==> {
                &&& final(self).claimed() == old(self).claimed()
                &&& final(self).states() == old(self).states().update(
                    w as int,
                    WorkerState::Exhausted,
                )
            },
            r is None <==> old(self).claimed().len() == old(self).units(),
    {
        let r = self.counter.claim();
        match r {
            Some(i) => {
                proof {
                    let c = self.claimed@.push(i);
                    assert(c =~= Seq::new(
                        (self.counter.next_index() - 1) as nat,
                        |j: int| (j + 1) as u64,
                    ));
                    self.claimed@ = c;
                }
            },
            None => {
                self.workers.set(w, WorkerState::Exhausted);
                proof {
                    assert(self.workers@[w as int] != WorkerState::Running);
                }
            },
        }
        r
    }

    /// Exhausted worker `w` has finished its last request and leaves.
    pub fn terminate(&mut self, w: usize)
        requires
            old(self).wf(),
            w < old(self).states().len(),
            old(self).states()[w as int] == WorkerState::Exhausted,
        ensures
            final(self).wf(),
            final(self).units() == old(self).units(),
            final(self).claimed() == old(self).claimed(),
            final(self).states() == old(self).states().update(w as int, WorkerState::Terminated),
    {
        proof {
            assert(self.workers@[w as int] != WorkerState::Running);
        }
        self.workers.set(w, WorkerState::Terminated);
        proof {
            assert(self.workers@[w as int] != WorkerState::Running);
        }
    }

    /// Whether every worker has left the pool: the run is over.
    pub fn all_terminated(&self) -> (r: bool)
        ensures
            r == forall|w: int|
                0 <= w < self.states().len() ==> #[trigger] self.states()[w]
                    == WorkerState::Terminated,
    {
        let mut i: usize = 0;
        while i < self.workers.len()
            invariant
                i <= self.workers@.len(),
                forall|w: int| 0 <= w < i ==> #[trigger] self.workers@[w] == WorkerState::Terminated,
            decreases self.workers@.len() - i,
        {
            if self.workers[i] != WorkerState::Terminated {
                return false;
            }
            i = i + 1;
        }
        true
    }
}

/// However many workers share the pool and however their claims
/// interleave, once any of them has found the counter exhausted (in
/// particular once all have terminated) the indices handed out are exactly
/// `1..=N`, each once and in increasing order.
pub proof fn lemma_pool_claims_each_unit_once(d: &Dispatcher)
    requires
        d.wf(),
        exists|w: int| 0 <= w < d.states().len() && #[trigger] d.states()[w] != WorkerState::Running,
    ensures
        d.claimed() == Seq::new(d.units() as nat, |j: int| (j + 1) as u64),
        d.claimed().no_duplicates(),
{
    let s = d.claimed();
    assert forall|a: int, b: int| 0 <= a < s.len() && 0 <= b < s.len() && a != b implies s[a]
        != s[b] by {}
}

} // verus!
