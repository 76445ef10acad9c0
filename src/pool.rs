use vstd::prelude::*;

verus! {

/// Why a pool cannot be made.
#[derive(Clone, Copy, Debug, PartialEq, Eq, Structural)]
pub enum PoolError {
    /// A pool needs at least one worker.
    ZeroSize,
}

/// The bookkeeping of a worker pool: which submitted jobs wait in the queue,
/// which job each worker is running, and which jobs have finished.
///
/// Jobs are numbered in order of submission. Whoever drives the workers
/// reports each step here and runs the job that a step hands out.
pub struct PoolState {
    queue: Vec<u64>,
    workers: Vec<Option<u64>>,
    submitted: u64,
    finished: Ghost<Set<u64>>,
}

impl PoolState {
    /// Jobs waiting, oldest first.
    pub closed spec fn queued(&self) -> Seq<u64> {
        self.queue@
    }

    /// What each worker is running, if anything.
    pub closed spec fn running(&self) -> Seq<Option<u64>> {
        self.workers@
    }

    /// How many jobs have been submitted.
    pub closed spec fn submitted(&self) -> nat {
        self.submitted as nat
    }

    /// The jobs that have run to completion.
    pub closed spec fn finished(&self) -> Set<u64> {
        self.finished@
    }

    /// Whether worker `w` runs job `id`.
    pub open spec fn runs(&self, w: int, id: u64) -> bool {
        0 <= w < self.running().len() && self.running()[w] == Some(id)
    }

    /// Every submitted job is in exactly one place: queued once, run by one
    /// worker, or finished. Nothing else is anywhere.
    pub open spec fn wf(&self) -> bool {
        &&& self.running().len() > 0
        &&& forall|i: int, j: int|
            0 <= i < self.queued().len() && 0 <= j < self.queued().len() && i != j
                ==> self.queued()[i] != self.queued()[j]
        &&& forall|v: int, w: int, id: u64| #[trigger] self.runs(v, id) && #[trigger] self.runs(w, id) ==> v == w
        &&& forall|id: u64| #[trigger] self.queued().contains(id) ==> id < self.submitted()
        &&& forall|w: int, id: u64| #[trigger] self.runs(w, id) ==> id < self.submitted()
            && !self.queued().contains(id) && !self.finished().contains(id)
        &&& forall|id: u64| #[trigger] self.finished().contains(id) ==> id < self.submitted()
            && !self.queued().contains(id)
        &&& forall|id: u64|
            id < self.submitted() ==> #[trigger] self.queued().contains(id) || self.finished().contains(id)
                || exists|w: int| #[trigger] self.runs(w, id)
    }

    /// A pool of `size` idle workers with nothing submitted.
    pub fn new(size: usize) -> (r: Result<Self, PoolError>)
        ensures
            size == 0 <==> r is Err,
            r matches Ok(p) ==> {
                &&& p.wf()
                &&& p.running() == Seq::new(size as nat, |w: int| None::<u64>)
                &&& p.queued() == Seq::<u64>::empty()
                &&& p.submitted() == 0
                &&& p.finished() == Set::<u64>::empty()
            },
    {
        if size == 0 {
            return Err(PoolError::ZeroSize);
        }
        let mut workers: Vec<Option<u64>> = Vec::new();
        let mut i: usize = 0;
        while i < size
            invariant
                i <= size,
                workers@ == Seq::new(i as nat, |w: int| None::<u64>),
            decreases size - i,
        {
            workers.push(None);
            i = i + 1;
            assert(workers@ =~= Seq::new(i as nat, |w: int| None::<u64>));
        }
        let p = PoolState { queue: Vec::new(), workers, submitted: 0, finished: Ghost(Set::empty()) };
        assert forall|w: int, id: u64| #[trigger] p.runs(w, id) implies false by {}
        Ok(p)
    }

    /// The number of workers.
    pub fn size(&self) -> (n: usize)
        ensures
            n == self.running().len(),
    {
        self.workers.len()
    }

    /// How many jobs have been submitted.
    pub fn submitted_count(&self) -> (n: u64)
        ensures
            n == self.submitted(),
    {
        self.submitted
    }

    /// Accepts a new job, which joins the back of the queue. Returns its
    /// number.
    pub fn submit(&mut self) -> (id: u64)
        requires
            old(self).wf(),
            old(self).submitted() < u64::MAX,
        ensures
            final(self).wf(),
            id == old(self).submitted(),
            final(self).submitted() == old(self).submitted() + 1,
            final(self).queued() == old(self).queued().push(id),
            final(self).running() == old(self).running(),
            final(self).finished() == old(self).finished(),
    {
        let id = self.submitted;
        self.queue.push(id);
        self.submitted = id + 1;
        proof {
            let q0 = old(self).queued();
            assert forall|v: int, w: int, x: u64| #[trigger] self.runs(v, x) && #[trigger] self.runs(w, x)
                implies v == w by {
                assert(old(self).runs(v, x) && old(self).runs(w, x));
            }
            assert forall|i: int, j: int|
                0 <= i < self.queued().len() && 0 <= j < self.queued().len() && i != j
                    implies self.queued()[i] != self.queued()[j] by {
                if i < q0.len() && j < q0.len() {
                } else if i < q0.len() {
                    assert(q0.contains(q0[i]));
                } else {
                    assert(q0.contains(q0[j]));
                }
            }
            assert forall|x: u64| #[trigger] self.queued().contains(x) implies x < self.submitted() by {
                let i = choose|i: int| 0 <= i < self.queued().len() && self.queued()[i] == x;
                if i < q0.len() {
                    assert(q0.contains(x));
                }
            }
            assert forall|w: int, x: u64| #[trigger] self.runs(w, x) implies x < self.submitted()
                && !self.queued().contains(x) && !self.finished().contains(x) by {
                assert(old(self).runs(w, x));
                if self.queued().contains(x) {
                    let i = choose|i: int| 0 <= i < self.queued().len() && self.queued()[i] == x;
                    if i < q0.len() {
                        assert(q0.contains(x));
                    }
                }
            }
            assert forall|x: u64| #[trigger] self.finished().contains(x) implies x < self.submitted()
                && !self.queued().contains(x) by {
                assert(old(self).finished().contains(x));
                assert(x < id);
                if self.queued().contains(x) {
                    let i = choose|i: int| 0 <= i < self.queued().len() && self.queued()[i] == x;
                    if i < q0.len() {
                        assert(q0.contains(x));
                    }
                }
            }
            assert forall|x: u64| x < self.submitted() implies #[trigger] self.queued().contains(x)
                || self.finished().contains(x) || exists|w: int| #[trigger] self.runs(w, x) by {
                if x == id {
                    assert(self.queued()[q0.len() as int] == x);
                } else if q0.contains(x) {
                    let i = choose|i: int| 0 <= i < q0.len() && q0[i] == x;
                    assert(self.queued()[i] == x);
                } else if !old(self).finished().contains(x) {
                    let w = choose|w: int| #[trigger] old(self).runs(w, x);
                    assert(self.runs(w, x));
                }
            }
        }
        id
    }

    /// Hands the oldest queued job, if any, to idle worker `w`.
    pub fn dispatch(&mut self, w: usize) -> (r: Option<u64>)
        requires
            old(self).wf(),
            w < old(self).running().len(),
            old(self).running()[w as int] is None,
        ensures
            final(self).wf(),
            final(self).submitted() == old(self).submitted(),
            final(self).finished() == old(self).finished(),
            old(self).queued().len() == 0 ==> r is None && final(self).queued() == old(self).queued()
                && final(self).running() == old(self).running(),
            old(self).queued().len() > 0 ==> {
                &&& r == Some(old(self).queued()[0])
                &&& final(self).queued() == old(self).queued().drop_first()
                &&& final(self).running() == old(self).running().update(w as int, r)
            },
    {
        if self.queue.len() == 0 {
            return None;
        }
        let id = self.queue.remove(0);
        self.workers.set(w, Some(id));
        proof {
            let q0 = old(self).queued();
            assert(q0.contains(id));
            assert(self.queued() =~= q0.drop_first());
            assert forall|x: u64| #[trigger] self.queued().contains(x) implies q0.contains(x) && x != id by {
                let i = choose|i: int| 0 <= i < self.queued().len() && self.queued()[i] == x;
                assert(q0[i + 1] == x);
            }
            assert forall|v: int, u: int, x: u64| #[trigger] self.runs(v, x) && #[trigger] self.runs(u, x)
                implies v == u by {
                if v != w && u != w {
                    assert(old(self).runs(v, x) && old(self).runs(u, x));
                } else if v != w {
                    assert(old(self).runs(v, x));
                } else if u != w {
                    assert(old(self).runs(u, x));
                }
            }
            assert forall|v: int, x: u64| #[trigger] self.runs(v, x) implies x < self.submitted()
                && !self.queued().contains(x) && !self.finished().contains(x) by {
                if v != w {
                    assert(old(self).runs(v, x));
                } else {
                    assert(!old(self).finished().contains(id));
                }
                if self.queued().contains(x) {
                    assert(q0.contains(x) && x != id);
                }
            }
            assert forall|x: u64| #[trigger] self.finished().contains(x) implies x < self.submitted()
                && !self.queued().contains(x) by {
                assert(old(self).finished().contains(x));
                if self.queued().contains(x) {
                    assert(q0.contains(x));
                }
            }
            assert forall|x: u64| x < self.submitted() implies #[trigger] self.queued().contains(x)
                || self.finished().contains(x) || exists|v: int| #[trigger] self.runs(v, x) by {
                if x == id {
                    assert(self.runs(w as int, x));
                } else if q0.contains(x) {
                    let i = choose|i: int| 0 <= i < q0.len() && q0[i] == x;
                    assert(i != 0);
                    assert(self.queued()[i - 1] == x);
                } else if !old(self).finished().contains(x) {
                    let v = choose|v: int| #[trigger] old(self).runs(v, x);
                    assert(v != w);
                    assert(self.runs(v, x));
                }
            }
        }
        Some(id)
    }

    /// Records that worker `w` has finished its job, which it returns; the
    /// worker is idle again.
    pub fn complete(&mut self, w: usize) -> (id: u64)
        requires
            old(self).wf(),
            w < old(self).running().len(),
            old(self).running()[w as int] is Some,
        ensures
            final(self).wf(),
            old(self).running()[w as int] == Some(id),
            !old(self).finished().contains(id),
            final(self).finished() == old(self).finished().insert(id),
            final(self).running() == old(self).running().update(w as int, None),
            final(self).queued() == old(self).queued(),
            final(self).submitted() == old(self).submitted(),
    {
        let id = self.workers[w].unwrap();
        self.workers.set(w, None);
        self.finished = Ghost(self.finished@.insert(id));
        proof {
            assert(old(self).runs(w as int, id));
            assert forall|v: int, u: int, x: u64| #[trigger] self.runs(v, x) && #[trigger] self.runs(u, x)
                implies v == u by {
                assert(old(self).runs(v, x) && old(self).runs(u, x));
            }
            assert forall|v: int, x: u64| #[trigger] self.runs(v, x) implies x < self.submitted()
                && !self.queued().contains(x) && !self.finished().contains(x) by {
                assert(old(self).runs(v, x));
                assert(x != id);
            }
            assert forall|x: u64| x < self.submitted() implies #[trigger] self.queued().contains(x)
                || self.finished().contains(x) || exists|v: int| #[trigger] self.runs(v, x) by {
                if x != id && !old(self).queued().contains(x) && !old(self).finished().contains(x) {
                    let v = choose|v: int| #[trigger] old(self).runs(v, x);
                    assert(v != w);
                    assert(self.runs(v, x));
                }
            }
        }
        id
    }

    /// The job that worker `w` is running, if any.
    pub fn job_of(&self, w: usize) -> (r: Option<u64>)
        requires
            w < self.running().len(),
        ensures
            r == self.running()[w as int],
    {
        self.workers[w]
    }

    /// Runs the pool's bookkeeping until it is idle: it repeatedly finishes
    /// a running job, or hands the oldest queued job to an idle worker, and
    /// returns the jobs in the order they finished. Every job that was
    /// outstanding finishes, each exactly once, and nothing else does.
    pub fn drain(&mut self) -> (order: Vec<u64>)
        requires
            old(self).wf(),
        ensures
            final(self).wf(),
            final(self).queued().len() == 0,
            forall|w: int| 0 <= w < final(self).running().len() ==> final(self).running()[w] is None,
            final(self).running().len() == old(self).running().len(),
            final(self).submitted() == old(self).submitted(),
            forall|id: u64| final(self).finished().contains(id) <==> id < final(self).submitted(),
            order@.no_duplicates(),
            forall|id: u64|
                order@.contains(id) <==> id < old(self).submitted() && !old(self).finished().contains(
                    id,
                ),
    {
        let mut order: Vec<u64> = Vec::new();
        loop
            invariant
                self.wf(),
                self.running().len() == old(self).running().len(),
                self.submitted() == old(self).submitted(),
                old(self).finished().subset_of(self.finished()),
                order@.no_duplicates(),
                forall|id: u64|
                    order@.contains(id) <==> self.finished().contains(id) && !old(self).finished().contains(
                        id,
                    ),
            ensures
                self.wf(),
                self.queued().len() == 0,
                forall|w: int| 0 <= w < self.running().len() ==> self.running()[w] is None,
                forall|id: u64| self.finished().contains(id) <==> id < self.submitted(),
                self.running().len() == old(self).running().len(),
                self.submitted() == old(self).submitted(),
                old(self).finished().subset_of(self.finished()),
                order@.no_duplicates(),
                forall|id: u64|
                    order@.contains(id) <==> self.finished().contains(id) && !old(self).finished().contains(
                        id,
                    ),
            decreases 2 * self.queued().len() + busy(self.running()),
        {
            let n = self.workers.len();
            let mut w: usize = 0;
            while w < n && self.job_of(w).is_none()
                invariant
                    n == self.running().len(),
                    w <= n,
                    forall|v: int| 0 <= v < w ==> self.running()[v] is None,
                decreases n - w,
            {
                w = w + 1;
            }
            if w < n {
                let ghost before = self.running();
                let ghost fin = self.finished();
                let id = self.complete(w);
                proof {
                    lemma_busy_update(before, w as int, None);
                    assert forall|x: u64| order@.push(id).contains(x) <==> self.finished().contains(x)
                        && !old(self).finished().contains(x) by {
                        assert(self.finished().contains(x) <==> fin.contains(x) || x == id);
                        assert(order@.contains(x) <==> fin.contains(x) && !old(self).finished().contains(x));
                        if x == id {
                            assert(!fin.contains(id));
                            assert(!old(self).finished().contains(id));
                            assert(order@.push(id)[order@.len() as int] == x);
                        } else {
                            if order@.push(id).contains(x) {
                                let i = choose|i: int| 0 <= i < order@.push(id).len() && order@.push(id)[i] == x;
                                assert(i < order@.len());
                                assert(order@[i] == x);
                                assert(order@.contains(x));
                            }
                            if order@.contains(x) {
                                let i = choose|i: int| 0 <= i < order@.len() && order@[i] == x;
                                assert(order@.push(id)[i] == x);
                            }
                        }
                    }
                    assert forall|i: int, j: int|
                        0 <= i < order@.push(id).len() && 0 <= j < order@.push(id).len() && i != j
                            implies order@.push(id)[i] != order@.push(id)[j] by {
                        if i < order@.len() && j < order@.len() {
                        } else if i < order@.len() {
                            assert(order@.contains(order@[i]));
                        } else {
                            assert(order@.contains(order@[j]));
                        }
                    }
                }
                order.push(id);
            } else if self.queue.len() > 0 {
                let ghost before = self.running();
                proof {
                    assert(self.running()[0] is None);
                }
                let _ = self.dispatch(0);
                proof {
                    lemma_busy_update(before, 0, self.running()[0]);
                }
            } else {
                proof {
                    law_every_job_runs(*self);
                }
                break;
            }
        }
        order
    }

    /// The number of workers running a job.
    pub fn busy_count(&self) -> (n: usize)
        ensures
            n == busy(self.running()),
    {
        let mut n: usize = 0;
        let mut i: usize = 0;
        while i < self.workers.len()
            invariant
                i <= self.workers@.len(),
                n == busy(self.workers@.take(i as int)),
                n <= i,
            decreases self.workers@.len() - i,
        {
            assert(self.workers@.take(i + 1).drop_last() =~= self.workers@.take(i as int));
            if self.workers[i].is_some() {
                n = n + 1;
            }
            i = i + 1;
        }
        assert(self.workers@.take(i as int) =~= self.workers@);
        n
    }
}

/// How many entries of `s` hold a job.
pub open spec fn busy(s: Seq<Option<u64>>) -> nat
    decreases s.len(),
{
    if s.len() == 0 {
        0
    } else {
        busy(s.drop_last()) + if s.last() is Some {
            1nat
        } else {
            0nat
        }
    }
}

proof fn lemma_busy_bounded(s: Seq<Option<u64>>)
    ensures
        busy(s) <= s.len(),
    decreases s.len(),
{
    if s.len() > 0 {
        lemma_busy_bounded(s.drop_last());
    }
}

proof fn lemma_busy_update(s: Seq<Option<u64>>, w: int, x: Option<u64>)
    requires
        0 <= w < s.len(),
    ensures
        busy(s.update(w, x)) + (if s[w] is Some { 1int } else { 0int }) == busy(s) + (if x is Some {
            1int
        } else {
            0int
        }),
    decreases s.len(),
{
    let t = s.update(w, x);
    if w == s.len() - 1 {
        assert(t.drop_last() =~= s.drop_last());
    } else {
        lemma_busy_update(s.drop_last(), w, x);
        assert(t.drop_last() =~= s.drop_last().update(w, x));
    }
}

/// A pool never has more jobs running than it has workers, and no job runs
/// on two workers.
pub proof fn law_bounded_concurrency(p: PoolState)
    requires
        p.wf(),
    ensures
        busy(p.running()) <= p.running().len(),
        forall|v: int, w: int, id: u64| p.runs(v, id) && p.runs(w, id) ==> v == w,
{
    lemma_busy_bounded(p.running());
}

/// Once the queue is empty and every worker is idle, the jobs that have
/// finished are exactly the jobs that were submitted: each ran, and since a
/// job is finished only by the worker that took it from the queue, each ran
/// once.
pub proof fn law_every_job_runs(p: PoolState)
    requires
        p.wf(),
        p.queued().len() == 0,
        forall|w: int| 0 <= w < p.running().len() ==> p.running()[w] is None,
    ensures
        forall|id: u64| p.finished().contains(id) <==> id < p.submitted(),
{
    assert forall|id: u64| id < p.submitted() implies p.finished().contains(id) by {
        assert(!p.queued().contains(id));
        if !p.finished().contains(id) {
            let w = choose|w: int| #[trigger] p.runs(w, id);
            assert(p.running()[w] is None);
        }
    }
}

} // verus!
