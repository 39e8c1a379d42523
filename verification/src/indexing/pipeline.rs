//! The order of the pipeline: work that is done side by side is handed on in
//! the order in which it came in, and the resume checkpoint follows what was
//! written without a gap.

use std::collections::BTreeMap;
use vstd::prelude::*;

verus! {

broadcast use vstd::std_specs::btree::group_btree_axioms;

/// Bounds running jobs AND completed results waiting for an earlier one, and
/// hands the results on in the order in which the jobs were submitted. (Sorting
/// by stream ordinal, not by block number, preserves microfork replay.)
pub struct Sequencer<T> {
    limit: u64,
    submitted: u64,
    emitted: u64,
    ready: BTreeMap<u64, T>,
    closed: bool,
    /// The results of all jobs that are complete.
    results: Ghost<Map<u64, T>>,
}

/// What a sequencer has seen: how many jobs were submitted and handed on, the
/// results of those that are complete, and whether more will come.
pub struct SequencerModel<T> {
    pub limit: nat,
    pub submitted: nat,
    pub emitted: nat,
    pub results: Map<u64, T>,
    pub closed: bool,
}

impl<T> SequencerModel<T> {
    /// The jobs that are submitted and not yet handed on.
    pub open spec fn outstanding(self) -> nat {
        (self.submitted - self.emitted) as nat
    }

    /// Whether a job is running: submitted, and not complete.
    pub open spec fn is_running(self, ordinal: u64) -> bool {
        ordinal < self.submitted && !self.results.contains_key(ordinal)
    }

    /// Only submitted jobs are complete; all that were handed on are; and no
    /// more are outstanding than the limit says.
    pub open spec fn consistent(self) -> bool {
        &&& self.limit > 0
        &&& self.emitted <= self.submitted <= u64::MAX
        &&& self.outstanding() <= self.limit
        &&& forall|k: u64| #[trigger] self.results.contains_key(k) ==> k < self.submitted
        &&& forall|k: u64| k < self.emitted ==> #[trigger] self.results.contains_key(k)
    }
}

impl<T> View for Sequencer<T> {
    type V = SequencerModel<T>;

    closed spec fn view(&self) -> SequencerModel<T> {
        SequencerModel {
            limit: self.limit as nat,
            submitted: self.submitted as nat,
            emitted: self.emitted as nat,
            results: self.results@,
            closed: self.closed,
        }
    }
}

impl<T> Sequencer<T> {
    /// What waits is what is complete and not yet handed on.
    pub closed spec fn waiting(&self) -> bool {
        &&& forall|k: u64| #[trigger]
            self.ready@.contains_key(k) <==> k >= self.emitted && self.results@.contains_key(k)
        &&& forall|k: u64| #[trigger]
            self.ready@.contains_key(k) ==> self.ready@[k] == self.results@[k]
    }

    pub open spec fn well_formed(&self) -> bool {
        self@.consistent() && self.waiting()
    }

    /// At most `limit` jobs are outstanding; there must be room for one.
    pub fn new(limit: usize) -> (r: Option<Self>)
        ensures
            r is Some <==> limit > 0,
            r matches Some(s) ==> s.well_formed() && s@ == (SequencerModel::<T> {
                limit: limit as nat,
                submitted: 0,
                emitted: 0,
                results: Map::empty(),
                closed: false,
            }),
    {
        if limit == 0 {
            return None;
        }
        Some(
            Sequencer {
                limit: limit as u64,
                submitted: 0,
                emitted: 0,
                ready: BTreeMap::new(),
                closed: false,
                results: Ghost(Map::empty()),
            },
        )
    }

    /// Whether another job can be taken.
    pub fn wants_input(&self) -> (r: bool)
        requires
            self.well_formed(),
        ensures
            r == (!self@.closed && self@.outstanding() < self@.limit),
    {
        !self.closed && self.submitted - self.emitted < self.limit
    }

    /// Takes a job, if there is room for it, and gives it its ordinal.
    pub fn submit(&mut self) -> (r: Option<u64>)
        requires
            old(self).well_formed(),
        ensures
            final(self).well_formed(),
            r is Some <==> !old(self)@.closed && old(self)@.outstanding() < old(self)@.limit
                && old(self)@.submitted < u64::MAX,
            match r {
                Some(ordinal) => ordinal == old(self)@.submitted && final(self)@ == (
                SequencerModel { submitted: old(self)@.submitted + 1, ..old(self)@ }),
                None => final(self)@ == old(self)@,
            },
    {
        if !self.wants_input() || self.submitted == u64::MAX {
            return None;
        }
        let ordinal: u64 = self.submitted;
        self.submitted = self.submitted + 1;
        Some(ordinal)
    }

    /// No more jobs will come.
    pub fn close(&mut self)
        requires
            old(self).well_formed(),
        ensures
            final(self).well_formed(),
            final(self)@ == (SequencerModel { closed: true, ..old(self)@ }),
    {
        self.closed = true;
    }

    /// A job is complete.
    pub fn complete(&mut self, ordinal: u64, result: T)
        requires
            old(self).well_formed(),
            old(self)@.is_running(ordinal),
        ensures
            final(self).well_formed(),
            final(self)@ == (SequencerModel {
                results: old(self)@.results.insert(ordinal, result),
                ..old(self)@
            }),
    {
        assert(ordinal >= self.emitted);
        self.ready.insert(ordinal, result);
        self.results = Ghost(self.results@.insert(ordinal, result));
    }

    /// Hands on the next result, if it is there.
    pub fn next_ready(&mut self) -> (r: Option<T>)
        requires
            old(self).well_formed(),
        ensures
            final(self).well_formed(),
            match r {
                Some(result) => {
                    &&& old(self)@.emitted < old(self)@.submitted
                    &&& old(self)@.results.contains_key(old(self)@.emitted as u64)
                    &&& result == old(self)@.results[old(self)@.emitted as u64]
                    &&& final(self)@ == (SequencerModel {
                        emitted: old(self)@.emitted + 1,
                        ..old(self)@
                    })
                },
                None => {
                    &&& old(self)@.emitted < old(self)@.submitted ==> !old(
                        self,
                    )@.results.contains_key(old(self)@.emitted as u64)
                    &&& final(self)@ == old(self)@
                },
            },
    {
        let key: u64 = self.emitted;
        match self.ready.remove(&key) {
            Some(result) => {
                assert(self.results@.contains_key(key));
                self.emitted = self.emitted + 1;
                Some(result)
            },
            None => None,
        }
    }

    /// Whether all that came in was handed on, and no more will come.
    pub fn is_finished(&self) -> (r: bool)
        requires
            self.well_formed(),
        ensures
            r == (self@.closed && self@.emitted == self@.submitted),
    {
        self.closed && self.emitted == self.submitted
    }
}

/// There is always something to wait for: while not all is handed on, either
/// the next result is there, or its job is running, or another job can be
/// taken.
pub proof fn law_sequencer_goes_on<T>(s: SequencerModel<T>)
    requires
        s.consistent(),
        !(s.closed && s.emitted == s.submitted),
    ensures
        s.emitted < s.submitted ==> s.results.contains_key(s.emitted as u64) || s.is_running(
            s.emitted as u64,
        ),
        s.emitted == s.submitted ==> !s.closed && s.outstanding() < s.limit,
{
}

// ---------------------------------------------------------------------------
// The writer
// ---------------------------------------------------------------------------

/// A bulk request that is complete: how far its documents reach, and whether
/// they were written.
pub struct Written<E> {
    pub max_block: u32,
    pub result: Result<(), E>,
}

/// What a confirmed batch asks for.
pub enum Confirmed<E> {
    /// The next batch is not complete.
    Nothing,
    /// The next batch is written, and the checkpoint stays.
    Same,
    /// The next batch is written: the checkpoint moves here.
    Checkpoint(u32),
    /// The next batch failed: nothing more is to be confirmed.
    Failed(E),
}

/// Confirms bulk requests in the order in which they were submitted, so that
/// the checkpoint never moves past one that is still in flight or that failed,
/// even though a later one may already have landed by the time an earlier one
/// is confirmed.
pub struct Writer<E> {
    jobs: Sequencer<Written<E>>,
    checkpoint: u32,
    failed: bool,
}

/// The highest block among the first `n` batches; zero if there is none.
pub open spec fn highest<E>(results: Map<u64, Written<E>>, n: nat) -> u32
    decreases n,
{
    if n == 0 {
        0
    } else {
        let before = highest(results, (n - 1) as nat);
        let next = results[(n - 1) as u64].max_block;
        if next > before {
            next
        } else {
            before
        }
    }
}

impl<E> Writer<E> {
    pub closed spec fn jobs(&self) -> SequencerModel<Written<E>> {
        self.jobs@
    }

    pub closed spec fn checkpoint(&self) -> u32 {
        self.checkpoint
    }

    /// Whether a batch failed.
    pub closed spec fn failed(&self) -> bool {
        self.failed
    }

    /// How many batches are confirmed: all that were handed on, but for one
    /// that failed.
    pub open spec fn confirmed(&self) -> nat {
        if self.failed() {
            (self.jobs().emitted - 1) as nat
        } else {
            self.jobs().emitted
        }
    }

    pub closed spec fn waiting(&self) -> bool {
        self.jobs.waiting()
    }

    /// Every confirmed batch was written, and the checkpoint is the highest
    /// block among them.
    pub open spec fn well_formed(&self) -> bool {
        &&& self.jobs().consistent() && self.waiting()
        &&& self.failed() ==> self.jobs().emitted > 0
        &&& forall|k: u64|
            k < self.confirmed() ==> (#[trigger] self.jobs().results[k]).result is Ok
        &&& self.checkpoint() == highest(self.jobs().results, self.confirmed())
    }

    /// At most `concurrency` batches are in flight or wait for an earlier one;
    /// there must be room for one.
    pub fn new(concurrency: usize) -> (r: Option<Self>)
        ensures
            r is Some <==> concurrency > 0,
            r matches Some(w) ==> {
                &&& w.well_formed()
                &&& !w.failed()
                &&& w.checkpoint() == 0
                &&& w.jobs() == (SequencerModel::<Written<E>> {
                    limit: concurrency as nat,
                    submitted: 0,
                    emitted: 0,
                    results: Map::empty(),
                    closed: false,
                })
            },
    {
        match Sequencer::new(concurrency) {
            Some(jobs) => Some(Writer { jobs, checkpoint: 0, failed: false }),
            None => None,
        }
    }

    /// Whether another batch can be taken. After a failure none is.
    pub fn wants_input(&self) -> (r: bool)
        requires
            self.well_formed(),
        ensures
            r == (!self.failed() && !self.jobs().closed && self.jobs().outstanding()
                < self.jobs().limit),
    {
        !self.failed && self.jobs.wants_input()
    }

    /// Takes a batch, if there is room for it, and gives it its ordinal.
    pub fn submit(&mut self) -> (r: Option<u64>)
        requires
            old(self).well_formed(),
        ensures
            final(self).well_formed(),
            final(self).checkpoint() == old(self).checkpoint(),
            final(self).failed() == old(self).failed(),
            r is Some <==> !old(self).failed() && !old(self).jobs().closed && old(
                self,
            ).jobs().outstanding() < old(self).jobs().limit && old(self).jobs().submitted
                < u64::MAX,
            match r {
                Some(ordinal) => ordinal == old(self).jobs().submitted && final(self).jobs() == (
                SequencerModel { submitted: old(self).jobs().submitted + 1, ..old(self).jobs() }),
                None => final(self).jobs() == old(self).jobs(),
            },
    {
        if self.failed {
            return None;
        }
        self.jobs.submit()
    }

    /// No more batches will come.
    pub fn close(&mut self)
        requires
            old(self).well_formed(),
        ensures
            final(self).well_formed(),
            final(self).checkpoint() == old(self).checkpoint(),
            final(self).failed() == old(self).failed(),
            final(self).jobs() == (SequencerModel { closed: true, ..old(self).jobs() }),
    {
        self.jobs.close();
    }

    /// A batch is complete, in whatever order.
    pub fn complete(&mut self, ordinal: u64, written: Written<E>)
        requires
            old(self).well_formed(),
            old(self).jobs().is_running(ordinal),
        ensures
            final(self).well_formed(),
            final(self).checkpoint() == old(self).checkpoint(),
            final(self).failed() == old(self).failed(),
            final(self).jobs() == (SequencerModel {
                results: old(self).jobs().results.insert(ordinal, written),
                ..old(self).jobs()
            }),
    {
        let ghost before = self.jobs().results;
        let ghost after = before.insert(ordinal, written);
        let ghost n = self.confirmed();
        assert(ordinal >= self.jobs().emitted);
        self.jobs.complete(ordinal, written);
        proof {
            lemma_highest_same(before, after, n);
            assert forall|k: u64| k < n implies (#[trigger] after[k]).result is Ok by {
                assert(before[k].result is Ok);
            }
        }
    }

    /// Confirms the next batch, if it is complete.
    pub fn confirm(&mut self) -> (r: Confirmed<E>)
        requires
            old(self).well_formed(),
        ensures
            final(self).well_formed(),
            ({
                let n = old(self).confirmed();
                let results = old(self).jobs().results;
                match r {
                    Confirmed::Nothing => {
                        &&& final(self).jobs() == old(self).jobs()
                        &&& final(self).checkpoint() == old(self).checkpoint()
                        &&& final(self).failed() == old(self).failed()
                        &&& old(self).failed() || n == old(self).jobs().submitted
                            || !results.contains_key(n as u64)
                    },
                    Confirmed::Same => {
                        &&& !old(self).failed() && !final(self).failed()
                        &&& results.contains_key(n as u64) && results[n as u64].result is Ok
                        &&& results[n as u64].max_block <= old(self).checkpoint()
                        &&& final(self).confirmed() == n + 1
                        &&& final(self).checkpoint() == old(self).checkpoint()
                    },
                    Confirmed::Checkpoint(block) => {
                        &&& !old(self).failed() && !final(self).failed()
                        &&& results.contains_key(n as u64) && results[n as u64].result is Ok
                        &&& block == results[n as u64].max_block > old(self).checkpoint()
                        &&& final(self).confirmed() == n + 1
                        &&& final(self).checkpoint() == block
                    },
                    Confirmed::Failed(e) => {
                        &&& !old(self).failed() && final(self).failed()
                        &&& results.contains_key(n as u64) && results[n as u64].result == Err::<
                            (),
                            E,
                        >(e)
                        &&& final(self).confirmed() == n
                        &&& final(self).checkpoint() == old(self).checkpoint()
                    },
                }
            }),
            final(self).jobs().results == old(self).jobs().results,
            final(self).jobs().submitted == old(self).jobs().submitted,
            final(self).jobs().limit == old(self).jobs().limit,
            final(self).jobs().closed == old(self).jobs().closed,
    {
        if self.failed {
            return Confirmed::Nothing;
        }
        match self.jobs.next_ready() {
            None => Confirmed::Nothing,
            Some(written) => match written.result {
                Err(e) => {
                    self.failed = true;
                    Confirmed::Failed(e)
                },
                Ok(_) => {
                    if written.max_block > self.checkpoint {
                        self.checkpoint = written.max_block;
                        Confirmed::Checkpoint(written.max_block)
                    } else {
                        Confirmed::Same
                    }
                },
            },
        }
    }

    /// Whether every batch is confirmed, and no more will come.
    pub fn is_finished(&self) -> (r: bool)
        requires
            self.well_formed(),
        ensures
            r == (!self.failed() && self.jobs().closed && self.confirmed()
                == self.jobs().submitted),
    {
        !self.failed && self.jobs.is_finished()
    }
}

proof fn lemma_highest_same<E>(a: Map<u64, Written<E>>, b: Map<u64, Written<E>>, n: nat)
    requires
        n <= u64::MAX,
        forall|k: u64| k < n ==> #[trigger] a[k] == b[k],
    ensures
        highest(a, n) == highest(b, n),
    decreases n,
{
    if n > 0 {
        lemma_highest_same(a, b, (n - 1) as nat);
        assert(a[(n - 1) as u64] == b[(n - 1) as u64]);
    }
}

proof fn lemma_highest_bounds<E>(results: Map<u64, Written<E>>, n: nat)
    requires
        n <= u64::MAX,
    ensures
        forall|k: u64| k < n ==> (#[trigger] results[k]).max_block <= highest(results, n),
        highest(results, n) == 0 || exists|k: u64|
            k < n && (#[trigger] results[k]).max_block == highest(results, n),
    decreases n,
{
    if n > 0 {
        lemma_highest_bounds(results, (n - 1) as nat);
        let last = (n - 1) as u64;
        assert forall|k: u64| k < n implies (#[trigger] results[k]).max_block <= highest(
            results,
            n,
        ) by {
            if k < n - 1 {
                assert(results[k].max_block <= highest(results, (n - 1) as nat));
            } else {
                assert(k == last);
            }
        }
        if results[last].max_block == highest(results, n) {
        } else if highest(results, n) != 0 {
            let k = choose|k: u64|
                k < n - 1 && (#[trigger] results[k]).max_block == highest(
                    results,
                    (n - 1) as nat,
                );
            assert(results[k].max_block == highest(results, n));
        }
    }
}

/// The checkpoint is safe to resume from: it is the highest block of the
/// batches that were written without a gap from the first on. None of them
/// failed, and no block of a batch that is in flight or failed has moved it.
pub proof fn law_checkpoint_is_confirmed<E>(w: Writer<E>)
    requires
        w.well_formed(),
    ensures
        forall|k: u64|
            k < w.confirmed() ==> (#[trigger] w.jobs().results[k]).result is Ok
                && w.jobs().results[k].max_block <= w.checkpoint(),
        w.checkpoint() == 0 || exists|k: u64|
            k < w.confirmed() && (#[trigger] w.jobs().results[k]).max_block == w.checkpoint(),
{
    lemma_highest_bounds(w.jobs().results, w.confirmed());
}

} // verus!
