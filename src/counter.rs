use vstd::prelude::*;

verus! {

/// What one claim does to a counter whose next index is `next`, out of
/// `total` units: the index handed out, if any, and the next index after.
pub open spec fn claim_step(next: u64, total: u64) -> (u64, Option<u64>) {
    if next <= total {
        ((next + 1) as u64, Some(next))
    } else {
        (next, None)
    }
}

/// Where a counter standing at `next` stands after `k` successive claims,
/// and what those claims returned, in order.
pub open spec fn claim_run(next: u64, total: u64, k: nat) -> (u64, Seq<Option<u64>>)
    decreases k,
{
    if k == 0 {
        (next, Seq::empty())
    } else {
        let (mid, earlier) = claim_run(next, total, (k - 1) as nat);
        let (after, r) = claim_step(mid, total);
        (after, earlier.push(r))
    }
}

/// The results of `k` successive claims on a fresh counter of `total` units,
/// whichever workers made them.
pub open spec fn claims(total: u64, k: nat) -> Seq<Option<u64>> {
    claim_run(1, total, k).1
}

/// The indices handed out, in order, by a sequence of claim results.
pub open spec fn handed_out(s: Seq<Option<u64>>) -> Seq<u64>
    decreases s.len(),
{
    if s.len() == 0 {
        Seq::empty()
    } else {
        let rest = handed_out(s.drop_last());
        match s.last() {
            Some(i) => rest.push(i),
            None => rest,
        }
    }
}

/// The shared source of work-unit indices: it hands out `1..=total`, each
/// index once and in increasing order, and nothing after that.
pub struct WorkCounter {
    next: u64,
    total: u64,
}

impl WorkCounter {
    pub closed spec fn next_index(&self) -> u64 {
        self.next
    }

    pub closed spec fn total_units(&self) -> u64 {
        self.total
    }

    /// The counter never moves past one beyond the last unit.
    pub open spec fn wf(&self) -> bool {
        &&& 1 <= self.next_index() <= self.total_units() as int + 1
        &&& self.total_units() < u64::MAX
    }

    /// A counter for `total` units, about to hand out index 1.
    pub fn new(total: u64) -> (c: WorkCounter)
        requires
            total < u64::MAX,
        ensures
            c.wf(),
            c.next_index() == 1,
            c.total_units() == total,
    {
        WorkCounter { next: 1, total }
    }

    /// The number of units this counter hands out.
    pub fn total(&self) -> (r: u64)
        ensures
            r == self.total_units(),
    {
        self.total
    }

    /// Claims the next unit: its index, or `None` once all are taken.
    pub fn claim(&mut self) -> (r: Option<u64>)
        requires
            old(self).wf(),
        ensures
            final(self).wf(),
            final(self).total_units() == old(self).total_units(),
            (final(self).next_index(), r) == claim_step(
                old(self).next_index(),
                old(self).total_units(),
            ),
    {
        if self.next <= self.total {
            let i = self.next;
            self.next = self.next + 1;
            Some(i)
        } else {
            None
        }
    }
}

/// After `k` claims a fresh counter stands at `min(k, total) + 1`, and the
/// `j`-th claim returned `j + 1` while units were left, `None` after.
pub proof fn lemma_claims_from_fresh(total: u64, k: nat)
    requires
        total < u64::MAX,
    ensures
        claim_run(1, total, k).0 == (if k <= total { k as int + 1 } else { total as int + 1 }),
        claims(total, k).len() == k,
        forall|j: int|
            0 <= j < k ==> #[trigger] claims(total, k)[j] == (if j < total {
                Some((j + 1) as u64)
            } else {
                None::<u64>
            }),
    decreases k,
{
    if k > 0 {
        lemma_claims_from_fresh(total, (k - 1) as nat);
    }
}

/// Every index from 1 to `total` is handed out exactly once, in increasing
/// order, by the first `k >= total` claims on a fresh counter, however those
/// claims are spread over workers; every later claim finds the counter
/// exhausted.
pub proof fn lemma_each_unit_claimed_once(total: u64, k: nat)
    requires
        total < u64::MAX,
        k >= total,
    ensures
        handed_out(claims(total, k)) == Seq::new(total as nat, |j: int| (j + 1) as u64),
        handed_out(claims(total, k)).no_duplicates(),
        forall|j: int| total <= j < k ==> #[trigger] claims(total, k)[j] is None,
{
    lemma_handed_out_prefix(total, k);
    lemma_claims_from_fresh(total, k);
    let s = handed_out(claims(total, k));
    assert(s =~= Seq::new(total as nat, |j: int| (j + 1) as u64));
    assert forall|a: int, b: int| 0 <= a < s.len() && 0 <= b < s.len() && a != b implies s[a]
        != s[b] by {}
}

/// The indices handed out by the first `k` claims are `1..=min(k, total)`.
proof fn lemma_handed_out_prefix(total: u64, k: nat)
    requires
        total < u64::MAX,
    ensures
        handed_out(claims(total, k)) =~= Seq::new(
            if k <= total { k } else { total as nat },
            |j: int| (j + 1) as u64,
        ),
    decreases k,
{
    if k > 0 {
        lemma_handed_out_prefix(total, (k - 1) as nat);
        lemma_claims_from_fresh(total, k);
        lemma_claims_from_fresh(total, (k - 1) as nat);
        let s = claims(total, k);
        assert(s.drop_last() =~= claims(total, (k - 1) as nat));
    }
}

} // verus!
