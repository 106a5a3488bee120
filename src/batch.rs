use vstd::prelude::*;
use crate::release::CheckError;

verus! {

/// The failures among the outcomes, in the outcomes' order.
pub open spec fn failures_of(outcomes: Seq<Result<(), CheckError>>) -> Seq<CheckError>
    decreases outcomes.len(),
{
    if outcomes.len() == 0 {
        Seq::empty()
    } else {
        let before = failures_of(outcomes.drop_last());
        match outcomes.last() {
            Ok(()) => before,
            Err(e) => before.push(e),
        }
    }
}

/// The outcomes held by filled slots.
pub open spec fn outcomes_of(slots: Seq<Option<Result<(), CheckError>>>) -> Seq<Result<(), CheckError>> {
    slots.map_values(|o: Option<Result<(), CheckError>>| o->0)
}

/// Every slot holds an outcome.
pub open spec fn all_filled(slots: Seq<Option<Result<(), CheckError>>>) -> bool {
    forall|i: int| 0 <= i < slots.len() ==> (#[trigger] slots[i]) is Some
}

/// The run's result: success where no release failed, else every failure in
/// the order in which the releases were submitted.
pub open spec fn batch_report(slots: Seq<Option<Result<(), CheckError>>>) -> Result<(), Seq<CheckError>> {
    let failures = failures_of(outcomes_of(slots));
    if failures.len() == 0 {
        Ok(())
    } else {
        Err(failures)
    }
}

/// Slots for `n` releases, none completed.
pub open spec fn empty_slots(n: nat) -> Seq<Option<Result<(), CheckError>>> {
    Seq::new(n, |i: int| None)
}

/// The slots after the completions of `run`, in the order they came, each
/// a slot and the outcome recorded there.
pub open spec fn apply_run(
    slots: Seq<Option<Result<(), CheckError>>>,
    run: Seq<(nat, Result<(), CheckError>)>,
) -> Seq<Option<Result<(), CheckError>>>
    decreases run.len(),
{
    if run.len() == 0 {
        slots
    } else {
        apply_run(slots, run.drop_last()).update(run.last().0 as int, Some(run.last().1))
    }
}

/// Each of the `n` releases completes exactly once in `run`.
pub open spec fn complete_run(n: nat, run: Seq<(nat, Result<(), CheckError>)>) -> bool {
    &&& forall|i: int| 0 <= i < run.len() ==> (#[trigger] run[i]).0 < n
    &&& forall|i: int, j: int|
        0 <= i < run.len() && 0 <= j < run.len() && i != j ==> (#[trigger] run[i]).0 != (
        #[trigger] run[j]).0
    &&& forall|s: nat| s < n ==> #[trigger] completes_slot(run, s)
}

/// Some completion of `run` is for `slot`.
pub open spec fn completes_slot(run: Seq<(nat, Result<(), CheckError>)>, slot: nat) -> bool {
    exists|i: int| 0 <= i < run.len() && (#[trigger] run[i]).0 == slot
}

/// Two runs give each release the same outcome.
pub open spec fn same_outcomes(
    a: Seq<(nat, Result<(), CheckError>)>,
    b: Seq<(nat, Result<(), CheckError>)>,
) -> bool {
    forall|i: int, j: int|
        0 <= i < a.len() && 0 <= j < b.len() && (#[trigger] a[i]).0 == (#[trigger] b[j]).0 ==> a[i].1
            == b[j].1
}

proof fn lemma_apply_run_slot(
    slots: Seq<Option<Result<(), CheckError>>>,
    run: Seq<(nat, Result<(), CheckError>)>,
)
    requires
        forall|i: int| 0 <= i < run.len() ==> (#[trigger] run[i]).0 < slots.len(),
        forall|i: int, j: int|
            0 <= i < run.len() && 0 <= j < run.len() && i != j ==> (#[trigger] run[i]).0 != (
            #[trigger] run[j]).0,
    ensures
        apply_run(slots, run).len() == slots.len(),
        forall|i: int|
            0 <= i < run.len() ==> apply_run(slots, run)[(#[trigger] run[i]).0 as int] == Some(
                run[i].1,
            ),
        forall|s: int|
            0 <= s < slots.len() && (forall|i: int| 0 <= i < run.len() ==> (#[trigger] run[i]).0 != s)
                ==> apply_run(slots, run)[s] == slots[s],
    decreases run.len(),
{
    if run.len() > 0 {
        let rest = run.drop_last();
        assert forall|i: int, j: int|
            0 <= i < rest.len() && 0 <= j < rest.len() && i != j implies (#[trigger] rest[i]).0 != (
            #[trigger] rest[j]).0 by {
            assert(rest[i] == run[i] && rest[j] == run[j]);
        }
        lemma_apply_run_slot(slots, rest);
        assert forall|i: int|
            0 <= i < run.len() implies apply_run(slots, run)[(#[trigger] run[i]).0 as int] == Some(
            run[i].1,
        ) by {
            if i < run.len() - 1 {
                assert(rest[i] == run[i]);
                assert(run[i].0 != run[run.len() - 1].0);
            }
        }
        assert forall|s: int|
            0 <= s < slots.len() && (forall|i: int| 0 <= i < run.len() ==> (#[trigger] run[i]).0 != s)
                implies apply_run(slots, run)[s] == slots[s] by {
            assert(run[run.len() - 1].0 != s);
            assert forall|i: int| 0 <= i < rest.len() implies (#[trigger] rest[i]).0 != s by {
                assert(rest[i] == run[i]);
            }
        }
    }
}

/// Whatever order the releases complete in, once each has completed every
/// slot holds the outcome of the release submitted in that position, so the
/// batch result lists failures in submission order, not completion order.
pub proof fn lemma_slots_follow_submission(n: nat, run: Seq<(nat, Result<(), CheckError>)>)
    requires
        complete_run(n, run),
    ensures
        apply_run(empty_slots(n), run).len() == n,
        all_filled(apply_run(empty_slots(n), run)),
        forall|i: int|
            0 <= i < run.len() ==> apply_run(empty_slots(n), run)[(#[trigger] run[i]).0 as int]
                == Some(run[i].1),
{
    lemma_apply_run_slot(empty_slots(n), run);
    let filled = apply_run(empty_slots(n), run);
    assert forall|s: int| 0 <= s < filled.len() implies (#[trigger] filled[s]) is Some by {
        assert(completes_slot(run, s as nat));
        let i = choose|i: int| 0 <= i < run.len() && (#[trigger] run[i]).0 == s as nat;
        assert(filled[run[i].0 as int] == Some(run[i].1));
    }
}

/// Two runs of a batch whose releases meet the same responses give the same
/// result: the same classification and the same failures in the same order,
/// even where the releases complete in a different order.
pub proof fn lemma_repeated_runs_agree(
    n: nat,
    a: Seq<(nat, Result<(), CheckError>)>,
    b: Seq<(nat, Result<(), CheckError>)>,
)
    requires
        complete_run(n, a),
        complete_run(n, b),
        same_outcomes(a, b),
    ensures
        apply_run(empty_slots(n), a) == apply_run(empty_slots(n), b),
        batch_report(apply_run(empty_slots(n), a)) == batch_report(apply_run(empty_slots(n), b)),
{
    lemma_slots_follow_submission(n, a);
    lemma_slots_follow_submission(n, b);
    let fa = apply_run(empty_slots(n), a);
    let fb = apply_run(empty_slots(n), b);
    assert forall|s: int| 0 <= s < n implies fa[s] == fb[s] by {
        assert(completes_slot(a, s as nat));
        assert(completes_slot(b, s as nat));
        let i = choose|i: int| 0 <= i < a.len() && (#[trigger] a[i]).0 == s as nat;
        let j = choose|j: int| 0 <= j < b.len() && (#[trigger] b[j]).0 == s as nat;
        assert(fa[a[i].0 as int] == Some(a[i].1));
        assert(fb[b[j].0 as int] == Some(b[j].1));
    }
    assert(fa =~= fb);
}

proof fn lemma_failures_prefix(outcomes: Seq<Result<(), CheckError>>, k: int)
    requires
        0 <= k <= outcomes.len(),
    ensures
        failures_of(outcomes.take(k)).len() <= failures_of(outcomes).len(),
        failures_of(outcomes.take(k)) == failures_of(outcomes).take(
            failures_of(outcomes.take(k)).len() as int,
        ),
    decreases outcomes.len(),
{
    if k == outcomes.len() {
        assert(outcomes.take(k) =~= outcomes);
        assert(failures_of(outcomes) =~= failures_of(outcomes).take(
            failures_of(outcomes).len() as int,
        ));
    } else {
        let rest = outcomes.drop_last();
        assert(rest.take(k) =~= outcomes.take(k));
        lemma_failures_prefix(rest, k);
        let p = failures_of(outcomes.take(k));
        assert(failures_of(outcomes).take(p.len() as int) =~= failures_of(rest).take(p.len() as int));
    }
}

/// A failing release never hides another: where the releases in positions
/// `a` and `b` both fail, both failures are reported, `a`'s first.
pub proof fn lemma_every_failure_reported(outcomes: Seq<Result<(), CheckError>>, a: int, b: int)
    requires
        0 <= a < b < outcomes.len(),
        outcomes[a] is Err,
        outcomes[b] is Err,
    ensures
        exists|i: int, j: int|
            0 <= i < j < failures_of(outcomes).len() && failures_of(outcomes)[i] == outcomes[a]->Err_0
                && failures_of(outcomes)[j] == outcomes[b]->Err_0,
{
    let fs = failures_of(outcomes);
    assert(outcomes.take(a + 1).drop_last() =~= outcomes.take(a));
    assert(outcomes.take(b + 1).drop_last() =~= outcomes.take(b));
    lemma_failures_prefix(outcomes, a + 1);
    lemma_failures_prefix(outcomes, b + 1);
    assert(outcomes.take(b).take(a + 1) =~= outcomes.take(a + 1));
    lemma_failures_prefix(outcomes.take(b), a + 1);
    let i = failures_of(outcomes.take(a)).len() as int;
    let j = failures_of(outcomes.take(b)).len() as int;
    assert(failures_of(outcomes.take(a + 1))[i] == outcomes[a]->Err_0);
    assert(fs[i] == outcomes[a]->Err_0);
    assert(failures_of(outcomes.take(b + 1))[j] == outcomes[b]->Err_0);
    assert(fs[j] == outcomes[b]->Err_0);
}

/// The results of a batch of releases, one slot per release in submission
/// order, filled as each release's check completes, in any order.
pub struct Collector {
    slots: Vec<Option<Result<(), CheckError>>>,
}

impl View for Collector {
    type V = Seq<Option<Result<(), CheckError>>>;

    closed spec fn view(&self) -> Self::V {
        self.slots@
    }
}

impl Collector {
    /// A collector for `n` releases, none completed.
    pub fn new(n: usize) -> (c: Collector)
        ensures
            c@.len() == n,
            forall|i: int| 0 <= i < n ==> (#[trigger] c@[i]) is None,
    {
        let mut slots: Vec<Option<Result<(), CheckError>>> = Vec::new();
        let mut i: usize = 0;
        while i < n
            invariant
                i <= n,
                slots@.len() == i,
                forall|j: int| 0 <= j < i ==> (#[trigger] slots@[j]) is None,
            decreases n - i,
        {
            slots.push(None);
            i = i + 1;
        }
        Collector { slots }
    }

    /// The number of releases.
    pub fn len(&self) -> (r: usize)
        ensures
            r == self@.len(),
    {
        self.slots.len()
    }

    /// Whether the release in `slot` has completed.
    pub fn is_completed(&self, slot: usize) -> (r: bool)
        requires
            slot < self@.len(),
        ensures
            r == self@[slot as int] is Some,
    {
        self.slots[slot].is_some()
    }

    /// Records the result of the release submitted in position `slot`.
    /// Earlier failures do not stop later releases from being recorded.
    pub fn complete(&mut self, slot: usize, outcome: Result<(), CheckError>)
        requires
            slot < old(self)@.len(),
            old(self)@[slot as int] is None,
        ensures
            final(self)@ == old(self)@.update(slot as int, Some(outcome)),
    {
        self.slots.set(slot, Some(outcome));
    }

    /// Whether every release has completed.
    pub fn is_full(&self) -> (r: bool)
        ensures
            r == all_filled(self@),
    {
        let mut i: usize = 0;
        while i < self.slots.len()
            invariant
                i <= self@.len(),
                forall|j: int| 0 <= j < i ==> (#[trigger] self@[j]) is Some,
            decreases self@.len() - i,
        {
            if self.slots[i].is_none() {
                return false;
            }
            i = i + 1;
        }
        true
    }

    /// The batch result: success where every release succeeded, else all the
    /// failures, in submission order.
    pub fn finish(self) -> (r: Result<(), Vec<CheckError>>)
        requires
            all_filled(self@),
        ensures
            match batch_report(self@) {
                Ok(()) => r is Ok,
                Err(failures) => r matches Err(fs) && fs@ == failures,
            },
    {
        let ghost all = self@;
        let mut slots = self.slots;
        let n: usize = slots.len();
        let mut failures: Vec<CheckError> = Vec::new();
        let mut k: usize = 0;
        while slots.len() > 0
            invariant
                all_filled(all),
                all.len() == n,
                k <= all.len(),
                slots@ == all.subrange(k as int, all.len() as int),
                slots@.len() == all.len() - k,
                failures@ == failures_of(outcomes_of(all).subrange(0, k as int)),
            decreases slots@.len(),
        {
            let slot = slots.remove(0);
            proof {
                assert(all[k as int] is Some);
                assert(outcomes_of(all).subrange(0, k + 1).drop_last() =~= outcomes_of(all).subrange(
                    0,
                    k as int,
                ));
            }
            match slot {
                Some(Err(e)) => failures.push(e),
                _ => {},
            }
            k = k + 1;
        }
        assert(outcomes_of(all).subrange(0, k as int) =~= outcomes_of(all));
        if failures.len() == 0 {
            Ok(())
        } else {
            Err(failures)
        }
    }
}

} // verus!
