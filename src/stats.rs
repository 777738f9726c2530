use quantiles::ckms::CKMS;
use vstd::multiset::Multiset;
use vstd::prelude::*;

verus! {

#[verifier::external_type_specification]
#[verifier::external_body]
#[verifier::reject_recursive_types(T)]
pub struct ExCkms<T: Copy + PartialEq>(CKMS<T>);

/// Every value inserted into a sketch over its lifetime, as a multiset.
/// The sketch answers its approximate quantile queries over these values.
pub uninterp spec fn sketch_samples(s: CKMS<u32>) -> Multiset<u32>;

/// Relies on `CKMS::insert`: the value joins the inserted values. The
/// sketch keeps its ranks and rank sums as `u32`, so it holds fewer than
/// `u32::MAX` values.
#[verifier::external_body]
fn sketch_insert(s: &mut CKMS<u32>, v: u32)
    requires
        sketch_samples(*old(s)).len() < u32::MAX,
    ensures
        sketch_samples(*final(s)) == sketch_samples(*old(s)).insert(v),
{
    s.insert(v);
}

/// Relies on `CKMS::count`: the number of values inserted over the
/// sketch's lifetime.
#[verifier::external_body]
fn sketch_count(s: &CKMS<u32>) -> (r: usize)
    ensures
        r as nat == sketch_samples(*s).len(),
{
    s.count()
}

/// Whether an HTTP exchange counts as a success: a response arrived and
/// its status is in the 2xx class.
pub open spec fn is_success(status: Option<u16>) -> bool {
    match status {
        Some(code) => 200 <= code <= 299,
        None => false,
    }
}

/// Classifies one exchange by its response status (`None` when no response
/// arrived: the connection, the name lookup or the timeout failed).
pub fn exchange_succeeded(status: Option<u16>) -> (r: bool)
    ensures
        r == is_success(status),
{
    match status {
        Some(code) => 200 <= code && code <= 299,
        None => false,
    }
}

/// The value a latency takes in the sketch: microseconds, held at
/// `u32::MAX` (a little over 71 minutes) for anything longer.
pub open spec fn sketch_value(latency_us: u64) -> u32 {
    if latency_us > u32::MAX as u64 {
        u32::MAX
    } else {
        latency_us as u32
    }
}

/// One finished work unit, as the run's ghost history records it.
pub struct Completion {
    pub index: u64,
    pub latency_us: u64,
    pub ok: bool,
}

/// A failed work unit: its index, the status if a response arrived, and
/// the client's description of the failure.
#[derive(Debug)]
pub struct ErrorRecord {
    pub index: u64,
    pub status: Option<u16>,
    pub message: String,
}

/// The latencies of the successful completions, in completion order.
pub open spec fn ok_latencies(log: Seq<Completion>) -> Seq<u64>
    decreases log.len(),
{
    if log.len() == 0 {
        Seq::empty()
    } else {
        let rest = ok_latencies(log.drop_last());
        if log.last().ok {
            rest.push(log.last().latency_us)
        } else {
            rest
        }
    }
}

/// The indices of the failed completions, in completion order.
pub open spec fn failed_indices(log: Seq<Completion>) -> Seq<u64>
    decreases log.len(),
{
    if log.len() == 0 {
        Seq::empty()
    } else {
        let rest = failed_indices(log.drop_last());
        if log.last().ok {
            rest
        } else {
            rest.push(log.last().index)
        }
    }
}

/// The sum of a sequence of latencies.
pub open spec fn sum(s: Seq<u64>) -> int
    decreases s.len(),
{
    if s.len() == 0 {
        0
    } else {
        sum(s.drop_last()) + s.last()
    }
}

/// The values the sketch receives for a sequence of latencies.
pub open spec fn sketch_values(s: Seq<u64>) -> Multiset<u32>
    decreases s.len(),
{
    if s.len() == 0 {
        Multiset::empty()
    } else {
        sketch_values(s.drop_last()).insert(sketch_value(s.last()))
    }
}

/// The aggregates of one run of `N` work units: successful latencies go
/// into the quantile sketch and the latency total, failures are kept as
/// records. No individual latency is kept.
pub struct RunStats {
    count: u64,
    sketch: CKMS<u32>,
    latency_total_us: u128,
    successes: u64,
    errors: Vec<ErrorRecord>,
    log: Ghost<Seq<Completion>>,
}

impl RunStats {
    /// The units recorded so far, in the order they finished.
    pub closed spec fn completed(&self) -> Seq<Completion> {
        self.log@
    }

    /// `N`, the number of units the run is made of.
    pub closed spec fn units(&self) -> u64 {
        self.count
    }

    pub closed spec fn spec_sketch(&self) -> CKMS<u32> {
        self.sketch
    }

    pub closed spec fn spec_errors(&self) -> Seq<ErrorRecord> {
        self.errors@
    }

    pub closed spec fn total_us(&self) -> int {
        self.latency_total_us as int
    }

    pub closed spec fn success_count(&self) -> int {
        self.successes as int
    }

    pub closed spec fn wf(&self) -> bool {
        &&& self.log@.len() <= self.count
        &&& self.count < u32::MAX
        &&& sketch_samples(self.sketch) == sketch_values(ok_latencies(self.log@))
        &&& self.latency_total_us as int == sum(ok_latencies(self.log@))
        &&& self.successes as int == ok_latencies(self.log@).len()
        &&& self.errors@.len() == failed_indices(self.log@).len()
        &&& forall|j: int|
            0 <= j < self.errors@.len() ==> #[trigger] self.errors@[j].index
                == failed_indices(self.log@)[j]
    }

    /// Starts the aggregates of a run of `count` units on `sketch`, which
    /// must be empty; `None` if it already holds values. The sketch counts
    /// in `u32`, which bounds `count`.
    pub fn new(count: u64, sketch: CKMS<u32>) -> (r: Option<RunStats>)
        requires
            count < u32::MAX,
        ensures
            r is Some <==> sketch_samples(sketch).len() == 0,
            r matches Some(s) ==> {
                &&& s.wf()
                &&& sketch_samples(s.spec_sketch()) == Multiset::<u32>::empty()
                &&& s.units() == count
                &&& s.completed().len() == 0
                &&& s.spec_errors().len() == 0
                &&& s.total_us() == 0
            },
    {
        if sketch_count(&sketch) != 0 {
            return None;
        }
        proof {
            assert(sketch_samples(sketch) =~= Multiset::empty());
        }
        Some(
            RunStats {
                count,
                sketch,
                latency_total_us: 0,
                successes: 0,
                errors: Vec::new(),
                log: Ghost(Seq::empty()),
            },
        )
    }

    /// Folds one finished unit into the aggregates. A success adds its
    /// latency to the sketch and to the total; a failure adds one error
    /// record and no latency. Returns whether the unit succeeded.
    pub fn record(&mut self, index: u64, status: Option<u16>, latency_us: u64, message: String) -> (ok: bool)
        requires
            old(self).wf(),
            old(self).completed().len() < old(self).units(),
        ensures
            final(self).wf(),
            ok == is_success(status),
            final(self).units() == old(self).units(),
            final(self).completed() == old(self).completed().push(
                (Completion { index, latency_us, ok }),
            ),
            ok ==> final(self).spec_errors() == old(self).spec_errors(),
            !ok ==> final(self).spec_errors() == old(self).spec_errors().push(
                (ErrorRecord { index, status, message }),
            ),
            sketch_samples(final(self).spec_sketch()) == if ok {
                sketch_samples(old(self).spec_sketch()).insert(sketch_value(latency_us))
            } else {
                sketch_samples(old(self).spec_sketch())
            },
            final(self).total_us() == old(self).total_us() + if ok { latency_us as int } else { 0 },
    {
        let ok = exchange_succeeded(status);
        let ghost c = Completion { index, latency_us, ok };
        let ghost old_log = self.log@;
        let ghost new_log = old_log.push(c);
        proof {
            assert(new_log.drop_last() =~= old_log);
        }
        if ok {
            let v: u32 = if latency_us > u32::MAX as u64 {
                u32::MAX
            } else {
                latency_us as u32
            };
            proof {
                assert(ok_latencies(new_log) == ok_latencies(old_log).push(latency_us));
                assert(ok_latencies(new_log).drop_last() =~= ok_latencies(old_log));
                lemma_ok_latencies_bounded(old_log);
                lemma_sum_bounded(ok_latencies(old_log));
                lemma_sketch_values_len(ok_latencies(old_log));
                assert(ok_latencies(old_log).len() * u64::MAX <= u64::MAX as int * u64::MAX) by (nonlinear_arith)
                    requires
                        ok_latencies(old_log).len() <= u64::MAX,
                ;
            }
            sketch_insert(&mut self.sketch, v);
            self.latency_total_us = self.latency_total_us + latency_us as u128;
            self.successes = self.successes + 1;
        } else {
            proof {
                assert(failed_indices(new_log) == failed_indices(old_log).push(index));
            }
            self.errors.push(ErrorRecord { index, status, message });
        }
        self.log = Ghost(new_log);
        ok
    }

    /// `N`, the number of units of the run.
    pub fn count(&self) -> (r: u64)
        ensures
            r == self.units(),
    {
        self.count
    }

    /// The number of successful units so far.
    pub fn successes(&self) -> (r: u64)
        requires
            self.wf(),
        ensures
            r == ok_latencies(self.completed()).len(),
    {
        self.successes
    }

    /// The failures recorded so far, in the order they were recorded.
    pub fn errors(&self) -> (r: &Vec<ErrorRecord>)
        ensures
            r@ == self.spec_errors(),
    {
        &self.errors
    }

    /// The sum of the successful latencies, in microseconds.
    pub fn latency_total_us(&self) -> (r: u128)
        requires
            self.wf(),
        ensures
            r == sum(ok_latencies(self.completed())),
    {
        self.latency_total_us
    }

    /// The running mean: the latency total spread over all `N` units, in
    /// whole microseconds (rounded down).
    pub fn mean_latency_us(&self) -> (r: u128)
        requires
            self.wf(),
            self.units() > 0,
        ensures
            r == sum(ok_latencies(self.completed())) / (self.units() as int),
    {
        self.latency_total_us / (self.count as u128)
    }

    /// The quantile sketch, for the final queries.
    pub fn sketch(&self) -> (r: &CKMS<u32>)
        ensures
            *r == self.spec_sketch(),
    {
        &self.sketch
    }

    /// Whether the run failed: at least one unit did not succeed.
    pub fn run_failed(&self) -> (r: bool)
        requires
            self.wf(),
        ensures
            r == (failed_indices(self.completed()).len() > 0),
            r == (self.spec_errors().len() > 0),
    {
        self.errors.len() > 0
    }
}

/// The latency total is the exact sum of the successful latencies, so the
/// running mean (that total over `N`) is the arithmetic mean over all `N`
/// units with no rounding but the final division.
pub proof fn lemma_running_mean_exact(s: &RunStats)
    requires
        s.wf(),
    ensures
        s.total_us() == sum(ok_latencies(s.completed())),
        s.success_count() == ok_latencies(s.completed()).len(),
{
}

/// The sketch holds the latencies of the successful units and nothing
/// else: one value per success, none for a failure.
pub proof fn lemma_sketch_holds_successes(s: &RunStats)
    requires
        s.wf(),
    ensures
        sketch_samples(s.spec_sketch()) == sketch_values(ok_latencies(s.completed())),
        sketch_samples(s.spec_sketch()).len() == ok_latencies(s.completed()).len(),
{
    lemma_sketch_values_len(ok_latencies(s.completed()));
}

/// Every recorded unit is counted once: as a success or as an error.
pub proof fn lemma_every_unit_accounted(s: &RunStats)
    requires
        s.wf(),
    ensures
        s.success_count() + s.spec_errors().len() == s.completed().len(),
{
    lemma_split_counts(s.completed());
}

/// The order in which units finish does not change what the run reports:
/// two runs that finished the same completions in any order (one worker or
/// many) end with the same success and failure counts, the same latency
/// total and the same values in the quantile sketch.
pub proof fn lemma_totals_independent_of_order(a: Seq<Completion>, b: Seq<Completion>)
    requires
        a.to_multiset() == b.to_multiset(),
    ensures
        ok_latencies(a).len() == ok_latencies(b).len(),
        failed_indices(a).len() == failed_indices(b).len(),
        sum(ok_latencies(a)) == sum(ok_latencies(b)),
        sketch_values(ok_latencies(a)) == sketch_values(ok_latencies(b)),
    decreases a.len(),
{
    vstd::seq_lib::to_multiset_len(a);
    vstd::seq_lib::to_multiset_len(b);
    if a.len() == 0 {
        assert(b =~= a);
    } else {
        let x = a.last();
        let a0 = a.drop_last();
        assert(a0.push(x) =~= a);
        vstd::seq_lib::to_multiset_build(a0, x);
        vstd::seq_lib::to_multiset_contains(b, x);
        assert(b.contains(x));
        let j = choose|j: int| 0 <= j < b.len() && b[j] == x;
        let b0 = b.remove(j);
        vstd::seq_lib::to_multiset_remove(b, j);
        assert(b0.to_multiset() =~= a0.to_multiset());
        lemma_totals_independent_of_order(a0, b0);
        lemma_remove_one(b, j);
        assert(a.remove(a.len() - 1) =~= a0);
        lemma_remove_one(a, a.len() - 1);
    }
}

/// Taking one completion out of a history takes out exactly its share.
proof fn lemma_remove_one(b: Seq<Completion>, j: int)
    requires
        0 <= j < b.len(),
    ensures
        ok_latencies(b).len() == ok_latencies(b.remove(j)).len() + if b[j].ok { 1int } else { 0 },
        failed_indices(b).len() == failed_indices(b.remove(j)).len() + if b[j].ok { 0int } else { 1 },
        sum(ok_latencies(b)) == sum(ok_latencies(b.remove(j))) + if b[j].ok { b[j].latency_us as int } else { 0 },
        sketch_values(ok_latencies(b)) == if b[j].ok {
            sketch_values(ok_latencies(b.remove(j))).insert(sketch_value(b[j].latency_us))
        } else {
            sketch_values(ok_latencies(b.remove(j)))
        },
    decreases b.len(),
{
    let b1 = b.drop_last();
    if b.last().ok {
        assert(ok_latencies(b).drop_last() =~= ok_latencies(b1));
    }
    if j == b.len() - 1 {
        assert(b.remove(j) =~= b1);
    } else {
        let r = b.remove(j);
        lemma_remove_one(b1, j);
        assert(r.drop_last() =~= b1.remove(j));
        assert(r.last() == b.last());
        if b.last().ok {
            assert(ok_latencies(r).drop_last() =~= ok_latencies(b1.remove(j)));
            if b[j].ok {
                let m = sketch_values(ok_latencies(b1.remove(j)));
                let u = sketch_value(b[j].latency_us);
                let w = sketch_value(b.last().latency_us);
                assert(m.insert(u).insert(w) =~= m.insert(w).insert(u));
            }
        }
    }
}

/// The successes and the failures of a history make up all of it.
proof fn lemma_split_counts(log: Seq<Completion>)
    ensures
        ok_latencies(log).len() + failed_indices(log).len() == log.len(),
    decreases log.len(),
{
    if log.len() > 0 {
        lemma_split_counts(log.drop_last());
    }
}

/// No more latencies than completions, each of them a `u64`.
proof fn lemma_ok_latencies_bounded(log: Seq<Completion>)
    ensures
        ok_latencies(log).len() <= log.len(),
    decreases log.len(),
{
    if log.len() > 0 {
        lemma_ok_latencies_bounded(log.drop_last());
    }
}

/// The sketch receives one value per latency.
proof fn lemma_sketch_values_len(s: Seq<u64>)
    ensures
        sketch_values(s).len() == s.len(),
    decreases s.len(),
{
    if s.len() > 0 {
        lemma_sketch_values_len(s.drop_last());
    }
}

/// A sum of `u64` values is at most their number times `u64::MAX`.
proof fn lemma_sum_bounded(s: Seq<u64>)
    ensures
        0 <= sum(s) <= s.len() * u64::MAX,
    decreases s.len(),
{
    if s.len() > 0 {
        lemma_sum_bounded(s.drop_last());
        assert(sum(s.drop_last()) + s.last() <= s.len() * u64::MAX) by (nonlinear_arith)
            requires
                sum(s.drop_last()) <= (s.len() - 1) * u64::MAX,
                s.last() <= u64::MAX,
        ;
    }
}

} // verus!
