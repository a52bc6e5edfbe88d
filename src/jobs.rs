//! Job bookkeeping: which submissions are in flight, and how many workers
//! are free.

use std::collections::BTreeSet;

use vstd::prelude::*;

verus! {

broadcast use vstd::std_specs::btree::group_btree_axioms;

/// What the jobs manager does with a submission that arrives.
#[derive(Clone, Copy, Debug, PartialEq, Eq, Structural)]
pub enum Dispatch {
    /// Mark it in flight and hand it to the pool.
    Launch,
    /// The same id is already in flight: log an error and drop it.
    DropDuplicate,
}

/// The ids of the submissions that a pool worker is processing.
pub struct JobsLedger {
    pub in_progress: BTreeSet<i64>,
}

/// One input of the jobs manager's loop.
#[derive(Clone, Copy, Debug, PartialEq, Eq, Structural)]
pub enum JobEvent {
    /// A submission with this id arrived.
    Submitted(i64),
    /// The pool finished the submission with this id.
    Completed(i64),
}

/// The in-flight set after an event.
pub open spec fn ledger_step(s: Set<i64>, e: JobEvent) -> Set<i64> {
    match e {
        JobEvent::Submitted(id) => s.insert(id),
        JobEvent::Completed(id) => s.remove(id),
    }
}

/// The in-flight set after a sequence of events.
pub open spec fn ledger_run(s: Set<i64>, evs: Seq<JobEvent>) -> Set<i64>
    decreases evs.len(),
{
    if evs.len() == 0 {
        s
    } else {
        ledger_step(ledger_run(s, evs.drop_last()), evs.last())
    }
}

/// Whether the event at index `k` launches a job: a submission whose id is
/// not in flight.
pub open spec fn launches_at(s: Set<i64>, evs: Seq<JobEvent>, k: int) -> bool {
    evs[k] matches JobEvent::Submitted(id) && !ledger_run(s, evs.take(k)).contains(id)
}

impl JobsLedger {
    /// The ids in flight.
    pub open spec fn view(&self) -> Set<i64> {
        self.in_progress@
    }

    /// A ledger with nothing in flight.
    pub fn new() -> (r: JobsLedger)
        ensures
            r.view() == Set::<i64>::empty(),
    {
        JobsLedger { in_progress: BTreeSet::new() }
    }

    /// A submission arrived: it is launched unless its id is in flight.
    pub fn on_submission(&mut self, id: i64) -> (r: Dispatch)
        ensures
            old(self).view().contains(id) ==> r == Dispatch::DropDuplicate && final(self).view() == old(
                self,
            ).view(),
            !old(self).view().contains(id) ==> r == Dispatch::Launch && final(self).view() == old(
                self,
            ).view().insert(id),
    {
        if self.in_progress.contains(&id) {
            Dispatch::DropDuplicate
        } else {
            self.in_progress.insert(id);
            Dispatch::Launch
        }
    }

    /// The pool finished a submission: its result is forwarded once and its
    /// id leaves the in-flight set.
    pub fn on_completed(&mut self, id: i64)
        ensures
            final(self).view() == old(self).view().remove(id),
    {
        self.in_progress.remove(&id);
    }

    /// Whether a submission with this id is in flight.
    pub fn is_in_progress(&self, id: i64) -> (r: bool)
        ensures
            r == self.view().contains(id),
    {
        self.in_progress.contains(&id)
    }
}

/// Workers of the pool that are not busy.
pub fn free_workers(max_count: usize, active_count: usize) -> (r: usize)
    ensures
        r == if active_count <= max_count { max_count - active_count } else { 0 },
{
    if active_count <= max_count {
        max_count - active_count
    } else {
        0
    }
}

/// Once a submission is launched, its id stays in flight until the event
/// that completes it, and no submission with that id is launched again
/// before then: each launched submission yields exactly one processing and
/// one result.
pub proof fn lemma_single_flight(s: Set<i64>, evs: Seq<JobEvent>, i: int, j: int, id: i64)
    requires
        0 <= i < j <= evs.len(),
        evs[i] == JobEvent::Submitted(id),
        launches_at(s, evs, i),
        forall|k: int| i < k < j ==> evs[k] != JobEvent::Completed(id),
    ensures
        ledger_run(s, evs.take(j)).contains(id),
        forall|k: int| i < k < j ==> !(#[trigger] launches_at(s, evs, k) && evs[k] == JobEvent::Submitted(
            id,
        )),
    decreases j - i,
{
    if j == i + 1 {
        assert(evs.take(j).drop_last() =~= evs.take(i));
        assert(evs.take(j).last() == evs[i]);
    } else {
        lemma_single_flight(s, evs, i, j - 1, id);
        assert(evs.take(j).drop_last() =~= evs.take(j - 1));
        assert(evs.take(j).last() == evs[j - 1]);
        assert forall|k: int| i < k < j implies !(#[trigger] launches_at(s, evs, k) && evs[k]
            == JobEvent::Submitted(id)) by {
            if k == j - 1 {
                assert(ledger_run(s, evs.take(j - 1)).contains(id));
            }
        }
    }
}

/// The event that completes a submission takes its id out of flight, so
/// the id is in flight during its processing and at no other time.
pub proof fn lemma_completion_clears(s: Set<i64>, evs: Seq<JobEvent>, j: int, id: i64)
    requires
        0 <= j < evs.len(),
        evs[j] == JobEvent::Completed(id),
    ensures
        !ledger_run(s, evs.take(j + 1)).contains(id),
{
    assert(evs.take(j + 1).drop_last() =~= evs.take(j));
    assert(evs.take(j + 1).last() == evs[j]);
}

/// A submission with this id was launched and its completion has not
/// arrived since.
pub open spec fn outstanding(evs: Seq<JobEvent>, id: i64) -> bool {
    exists|i: int|
        0 <= i < evs.len() && #[trigger] launches_at(Set::empty(), evs, i) && evs[i]
            == JobEvent::Submitted(id) && forall|k: int| i < k < evs.len() ==> evs[k]
            != JobEvent::Completed(id)
}

proof fn lemma_launches_prefix(evs: Seq<JobEvent>, i: int)
    requires
        0 <= i < evs.len() - 1,
    ensures
        launches_at(Set::empty(), evs, i) == launches_at(Set::empty(), evs.drop_last(), i),
{
    assert(evs.drop_last().take(i) =~= evs.take(i));
}

/// Starting with nothing in flight, the in-flight set holds exactly the ids
/// that were launched and whose completion has not arrived since.
pub proof fn lemma_in_flight_exact(evs: Seq<JobEvent>, id: i64)
    ensures
        ledger_run(Set::empty(), evs).contains(id) <==> outstanding(evs, id),
    decreases evs.len(),
{
    if evs.len() == 0 {
        return;
    }
    let p = evs.drop_last();
    let n = p.len() as int;
    let e = evs.last();
    lemma_in_flight_exact(p, id);
    assert(evs.take(n) =~= p);
    assert(evs[n] == e);
    if outstanding(p, id) {
        let i = choose|i: int|
            0 <= i < p.len() && #[trigger] launches_at(Set::empty(), p, i) && p[i]
                == JobEvent::Submitted(id) && forall|k: int| i < k < p.len() ==> p[k]
                != JobEvent::Completed(id);
        lemma_launches_prefix(evs, i);
        if e != JobEvent::Completed(id) {
            assert(launches_at(Set::empty(), evs, i));
            assert(forall|k: int| i < k < evs.len() ==> evs[k] != JobEvent::Completed(id)) by {
                assert forall|k: int| i < k < evs.len() implies evs[k] != JobEvent::Completed(id) by {
                    if k < n {
                        assert(evs[k] == p[k]);
                    }
                }
            }
            assert(outstanding(evs, id));
        }
    }
    if outstanding(evs, id) {
        let i = choose|i: int|
            0 <= i < evs.len() && #[trigger] launches_at(Set::empty(), evs, i) && evs[i]
                == JobEvent::Submitted(id) && forall|k: int| i < k < evs.len() ==> evs[k]
                != JobEvent::Completed(id);
        if i < n {
            lemma_launches_prefix(evs, i);
            assert(p[i] == evs[i]);
            assert forall|k: int| i < k < p.len() implies p[k] != JobEvent::Completed(id) by {
                assert(p[k] == evs[k]);
            }
            assert(launches_at(Set::empty(), p, i));
            assert(outstanding(p, id));
        }
    }
    if e == JobEvent::Submitted(id) && !ledger_run(Set::empty(), p).contains(id) {
        assert(launches_at(Set::empty(), evs, n));
        assert(outstanding(evs, id));
    }
}

} // verus!
