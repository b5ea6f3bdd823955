use vstd::prelude::*;
use crate::color::Color;

verus! {

/// Where one unit of work stands.
#[derive(Clone, Copy, Debug, PartialEq, Eq, Structural)]
pub enum Slot {
    Waiting,
    /// Dispatched, holding this many workers of the budget.
    Running(usize),
    Finished,
}

/// What the coordinator should do next.
#[derive(Clone, Copy, Debug, PartialEq, Eq, Structural)]
pub enum Action {
    /// Start job `job`, handing it `allot` workers of the budget.
    Dispatch { job: usize, allot: usize },
    /// Block until some running job reports.
    Await,
    /// Every job has reported.
    Done,
}

/// A bounded pool of workers shared by jobs dispatched in index order.
/// Each job takes `min(available, cap)` workers when it starts and returns
/// them when its result is observed.
pub struct Pool {
    pub total: usize,
    pub available: usize,
    pub cap: usize,
    pub next: usize,
    pub running: usize,
    pub slots: Vec<Slot>,
    pub results: Vec<Color>,
}

pub open spec fn allot_of(s: Slot) -> int {
    match s {
        Slot::Running(k) => k as int,
        _ => 0,
    }
}

/// Workers held by running jobs.
pub open spec fn held(s: Seq<Slot>) -> int
    decreases s.len(),
{
    if s.len() == 0 { 0 } else { held(s.drop_last()) + allot_of(s.last()) }
}

pub open spec fn running_count(s: Seq<Slot>) -> int
    decreases s.len(),
{
    if s.len() == 0 { 0 } else { running_count(s.drop_last()) + if s.last() is Running { 1int } else { 0 } }
}

pub open spec fn min_usize(a: usize, b: usize) -> usize {
    if a <= b { a } else { b }
}

impl Pool {
    pub open spec fn wf(&self) -> bool {
        &&& self.slots.len() == self.results.len()
        &&& self.next <= self.slots.len()
        &&& self.total >= 1
        &&& self.cap >= 1
        &&& self.available + held(self.slots@) == self.total
        &&& self.running == running_count(self.slots@)
        &&& forall|k: int| 0 <= k < self.next ==> !(#[trigger] self.slots@[k] is Waiting)
        &&& forall|k: int| self.next <= k < self.slots.len() ==> #[trigger] self.slots@[k] is Waiting
        &&& forall|k: int| 0 <= k < self.slots.len() ==> allot_of(#[trigger] self.slots@[k]) >= 0
            && (self.slots@[k] is Running ==> allot_of(self.slots@[k]) >= 1)
    }

    pub open spec fn action_spec(&self) -> Action {
        if self.next < self.slots.len() {
            if self.available > 0 {
                Action::Dispatch { job: self.next, allot: min_usize(self.available, self.cap) }
            } else {
                Action::Await
            }
        } else if self.running > 0 {
            Action::Await
        } else {
            Action::Done
        }
    }
}

proof fn lemma_update(s: Seq<Slot>, i: int, v: Slot)
    requires
        0 <= i < s.len(),
    ensures
        held(s.update(i, v)) == held(s) - allot_of(s[i]) + allot_of(v),
        running_count(s.update(i, v)) == running_count(s) - (if s[i] is Running { 1int } else { 0 })
            + (if v is Running { 1int } else { 0 }),
    decreases s.len(),
{
    let u = s.update(i, v);
    if i == s.len() - 1 {
        assert(u.drop_last() =~= s.drop_last());
    } else {
        lemma_update(s.drop_last(), i, v);
        assert(u.drop_last() =~= s.drop_last().update(i, v));
    }
}

proof fn lemma_held_nonneg(s: Seq<Slot>)
    requires
        forall|k: int| 0 <= k < s.len() ==> allot_of(#[trigger] s[k]) >= 0,
    ensures
        (forall|k: int| 0 <= k < s.len() ==> (#[trigger] s[k] is Running ==> allot_of(s[k]) >= 1))
            ==> running_count(s) <= held(s),
        held(s) >= 0,
        held(s) > 0 ==> running_count(s) > 0,
        0 <= running_count(s) <= s.len(),
    decreases s.len(),
{
    if s.len() > 0 {
        let rest = s.drop_last();
        assert forall|k: int| 0 <= k < rest.len() implies allot_of(#[trigger] rest[k]) >= 0 by {
            assert(rest[k] == s[k]);
        }
        lemma_held_nonneg(rest);
        assert(allot_of(s[s.len() - 1]) >= 0);
        if forall|k: int| 0 <= k < s.len() ==> (#[trigger] s[k] is Running ==> allot_of(s[k]) >= 1) {
            assert forall|k: int| 0 <= k < rest.len() && #[trigger] rest[k] is Running implies allot_of(rest[k]) >= 1 by {
                assert(rest[k] == s[k]);
            }
            assert(s.last() == s[s.len() - 1]);
        }
    }
}

proof fn lemma_none_running(s: Seq<Slot>)
    requires
        running_count(s) == 0,
        forall|k: int| 0 <= k < s.len() ==> allot_of(#[trigger] s[k]) >= 0,
    ensures
        forall|k: int| 0 <= k < s.len() ==> !(#[trigger] s[k] is Running),
    decreases s.len(),
{
    if s.len() > 0 {
        let rest = s.drop_last();
        assert forall|k: int| 0 <= k < rest.len() implies allot_of(#[trigger] rest[k]) >= 0 by {
            assert(rest[k] == s[k]);
        }
        lemma_held_nonneg(rest);
        lemma_none_running(rest);
        assert forall|k: int| 0 <= k < s.len() implies !(#[trigger] s[k] is Running) by {
            if k < rest.len() {
                assert(rest[k] == s[k]);
            }
        }
    }
}

/// The workers handed out never exceed the budget.
pub proof fn lemma_budget_bounded(p: &Pool)
    requires
        p.wf(),
    ensures
        p.available <= p.total,
        0 <= held(p.slots@) <= p.total,
{
    lemma_held_nonneg(p.slots@);
}

impl Pool {
    /// A pool for `jobs` jobs sharing `total` workers, each job taking at most `cap`.
    pub fn new(jobs: usize, total: usize, cap: usize) -> (r: Pool)
        requires
            total >= 1,
            cap >= 1,
        ensures
            r.wf(),
            r.slots.len() == jobs,
            r.total == total,
            r.available == total,
            r.cap == cap,
            r.next == 0,
            r.running == 0,
    {
        let mut slots: Vec<Slot> = Vec::new();
        let mut results: Vec<Color> = Vec::new();
        let mut i: usize = 0;
        while i < jobs
            invariant
                i <= jobs,
                slots.len() == i,
                results.len() == i,
                forall|k: int| 0 <= k < i ==> #[trigger] slots@[k] == Slot::Waiting,
            decreases jobs - i,
        {
            slots.push(Slot::Waiting);
            results.push(Color { r: 0, g: 0, b: 0 });
            i = i + 1;
        }
        proof {
            lemma_all_waiting(slots@);
        }
        Pool { total, available: total, cap, next: 0, running: 0, slots, results }
    }

    /// The coordinator's next step. It waits only while some job is running,
    /// and is done only when every job has finished.
    pub fn next_action(&self) -> (r: Action)
        requires
            self.wf(),
        ensures
            r == self.action_spec(),
            r is Await ==> self.running > 0,
            r is Done ==> forall|k: int| 0 <= k < self.slots.len() ==> #[trigger] self.slots@[k] is Finished,
    {
        proof {
            lemma_held_nonneg(self.slots@);
        }
        if self.next < self.slots.len() {
            if self.available > 0 {
                let allot = if self.available <= self.cap { self.available } else { self.cap };
                Action::Dispatch { job: self.next, allot }
            } else {
                Action::Await
            }
        } else if self.running > 0 {
            Action::Await
        } else {
            proof {
                lemma_none_running(self.slots@);
            }
            Action::Done
        }
    }

    /// Starts the next job in index order, taking its share of the budget.
    pub fn dispatch(&mut self) -> (r: (usize, usize))
        requires
            old(self).wf(),
            old(self).next < old(self).slots.len(),
            old(self).available > 0,
        ensures
            final(self).wf(),
            r.0 == old(self).next,
            r.1 == min_usize(old(self).available, old(self).cap),
            r.1 >= 1,
            final(self).available == old(self).available - r.1,
            final(self).slots@ == old(self).slots@.update(r.0 as int, Slot::Running(r.1)),
            final(self).next == old(self).next + 1,
            final(self).running == old(self).running + 1,
            final(self).results == old(self).results,
            final(self).total == old(self).total,
            final(self).cap == old(self).cap,
    {
        let job = self.next;
        let allot = if self.available <= self.cap { self.available } else { self.cap };
        proof {
            lemma_update(self.slots@, job as int, Slot::Running(allot));
            lemma_held_nonneg(self.slots@);
        }
        self.slots.set(job, Slot::Running(allot));
        self.available = self.available - allot;
        self.next = self.next + 1;
        self.running = self.running + 1;
        (job, allot)
    }

    /// Records the result of running job `job` and takes back its workers.
    pub fn complete(&mut self, job: usize, color: Color)
        requires
            old(self).wf(),
            job < old(self).slots.len(),
            old(self).slots@[job as int] is Running,
        ensures
            final(self).wf(),
            final(self).available == old(self).available + allot_of(old(self).slots@[job as int]),
            final(self).slots@ == old(self).slots@.update(job as int, Slot::Finished),
            final(self).results@ == old(self).results@.update(job as int, color),
            final(self).next == old(self).next,
            final(self).running == old(self).running - 1,
            final(self).total == old(self).total,
            final(self).cap == old(self).cap,
    {
        let allot = match self.slots[job] {
            Slot::Running(k) => k,
            _ => 0,
        };
        proof {
            lemma_update(self.slots@, job as int, Slot::Finished);
            lemma_held_nonneg(self.slots@.update(job as int, Slot::Finished));
        }
        self.slots.set(job, Slot::Finished);
        self.results.set(job, color);
        self.available = self.available + allot;
        self.running = self.running - 1;
    }
}

proof fn lemma_all_waiting(s: Seq<Slot>)
    requires
        forall|k: int| 0 <= k < s.len() ==> #[trigger] s[k] == Slot::Waiting,
    ensures
        held(s) == 0,
        running_count(s) == 0,
    decreases s.len(),
{
    if s.len() > 0 {
        let rest = s.drop_last();
        assert forall|k: int| 0 <= k < rest.len() implies #[trigger] rest[k] == Slot::Waiting by {
            assert(rest[k] == s[k]);
        }
        lemma_all_waiting(rest);
        assert(s[s.len() - 1] == Slot::Waiting);
    }
}

/// Column and row of cell `index` of a grid `width` cells wide, filled row by row.
pub fn grid_position(index: usize, width: usize) -> (r: (usize, usize))
    requires
        width > 0,
    ensures
        r.0 == index % width,
        r.1 == index / width,
        r.0 < width,
{
    (index % width, index / width)
}

} // verus!
