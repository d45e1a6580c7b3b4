use vstd::prelude::*;

verus! {

// The shared timer wheel: deadlines keyed by a caller-chosen generational
// id, fired in ascending deadline order with ties broken by insertion
// order, with idempotent cancellation.

/// One scheduled timer: the caller's id, the deadline, and the insertion
/// counter that breaks deadline ties.
#[derive(Debug, Clone, Copy, PartialEq, Eq, Structural)]
pub struct TimerEntry {
    pub id: u64,
    pub deadline: u64,
    pub order: u64,
}

/// Entry `a` fires no later than entry `b`: earlier deadline, or the same
/// deadline and earlier insertion.
pub open spec fn fires_before(a: TimerEntry, b: TimerEntry) -> bool {
    a.deadline < b.deadline || (a.deadline == b.deadline && a.order < b.order)
}

/// Whether some entry carries the id.
pub open spec fn timers_have_id(es: Seq<TimerEntry>, id: u64) -> bool {
    exists|i: int| 0 <= i < es.len() && es[i].id == id
}

/// The wheel is sorted by firing order.
pub open spec fn timers_sorted(es: Seq<TimerEntry>) -> bool {
    forall|i: int, j: int|
        0 <= i < j < es.len() ==> fires_before(#[trigger] es[i], #[trigger] es[j])
}

/// Every insertion counter sits below the next one to be handed out.
pub open spec fn orders_below(es: Seq<TimerEntry>, bound: u64) -> bool {
    forall|i: int| 0 <= i < es.len() ==> (#[trigger] es[i]).order < bound
}

/// The timer wheel.
pub struct TimeoutManager {
    entries: Vec<TimerEntry>,
    next_order: u64,
}

impl TimeoutManager {
    /// The scheduled timers, in firing order.
    pub closed spec fn timers(&self) -> Seq<TimerEntry> {
        self.entries@
    }

    pub closed spec fn next_order_spec(&self) -> u64 {
        self.next_order
    }

    /// The wheel is sorted by firing order and every insertion counter is
    /// below the next one to be handed out.
    pub open spec fn wf(&self) -> bool {
        &&& timers_sorted(self.timers())
        &&& orders_below(self.timers(), self.next_order_spec())
    }

    pub fn new() -> (r: Self)
        ensures
            r.wf(),
            r.timers() == Seq::<TimerEntry>::empty(),
    {
        let r = TimeoutManager { entries: Vec::new(), next_order: 0 };
        proof {
            assert(r.timers() =~= Seq::<TimerEntry>::empty());
        }
        r
    }

    /// Schedules a timer under a fresh id. Among timers with the same
    /// deadline the new one fires last.
    pub fn schedule(&mut self, id: u64, deadline: u64) -> (r: bool)
        requires
            old(self).wf(),
        ensures
            final(self).wf(),
            timers_have_id(old(self).timers(), id) || old(self).next_order_spec() == u64::MAX
                ==> r == false && final(self).timers() == old(self).timers(),
            !timers_have_id(old(self).timers(), id) && old(self).next_order_spec() < u64::MAX
                ==> r == true && exists|i: int|
                #![auto]
                0 <= i <= old(self).timers().len() && final(self).timers() == old(self).timers().insert(
                    i,
                    TimerEntry { id, deadline, order: old(self).next_order_spec() },
                ),
            forall|x: u64| #[trigger]
                timers_have_id(final(self).timers(), x) <==> (timers_have_id(
                    old(self).timers(),
                    x,
                ) || (r && x == id)),
    {
        if self.next_order == u64::MAX {
            return false;
        }
        let mut i: usize = 0;
        let mut found = false;
        while i < self.entries.len()
            invariant
                i <= self.entries@.len(),
                found <==> exists|j: int| 0 <= j < i && self.entries@[j].id == id,
            decreases self.entries@.len() - i,
        {
            if self.entries[i].id == id {
                found = true;
            }
            i += 1;
        }
        if found {
            return false;
        }
        let entry = TimerEntry { id, deadline, order: self.next_order };
        let mut pos: usize = 0;
        while pos < self.entries.len() && self.entries[pos].deadline <= deadline
            invariant
                pos <= self.entries@.len(),
                forall|j: int| 0 <= j < pos ==> (#[trigger] self.entries@[j]).deadline
                    <= deadline,
            decreases self.entries@.len() - pos,
        {
            pos += 1;
        }
        let ghost pre = self.entries@;
        self.entries.insert(pos, entry);
        self.next_order = self.next_order + 1;
        proof {
            assert(self.entries@ == pre.insert(pos as int, entry));
            assert forall|a: int, b: int| 0 <= a < b < self.entries@.len() implies fires_before(
                self.entries@[a],
                self.entries@[b],
            ) by {
                if a < pos && b == pos {
                    assert(self.entries@[a] == pre[a]);
                } else if a == pos && b > pos {
                    assert(self.entries@[b] == pre[b - 1]);
                } else if a < pos && b > pos {
                    assert(self.entries@[a] == pre[a]);
                    assert(self.entries@[b] == pre[b - 1]);
                } else if a > pos && b > pos {
                    assert(self.entries@[a] == pre[a - 1]);
                    assert(self.entries@[b] == pre[b - 1]);
                } else if a < pos && b < pos {
                    assert(self.entries@[a] == pre[a]);
                    assert(self.entries@[b] == pre[b]);
                }
            }
            assert forall|x: u64| #[trigger]
                timers_have_id(self.entries@, x) <==> (timers_have_id(pre, x) || x
                    == id) by {
                if timers_have_id(self.entries@, x) {
                    let j = choose|j: int|
                        0 <= j < self.entries@.len() && self.entries@[j].id == x;
                    if j < pos {
                        assert(pre[j].id == x);
                    } else if j > pos {
                        assert(pre[j - 1].id == x);
                    }
                }
                if timers_have_id(pre, x) {
                    let j = choose|j: int| 0 <= j < pre.len() && pre[j].id == x;
                    if j < pos {
                        assert(self.entries@[j].id == x);
                    } else {
                        assert(self.entries@[j + 1].id == x);
                    }
                }
                if x == id {
                    assert(self.entries@[pos as int].id == x);
                }
            }
        }
        true
    }

    /// Cancels the timer with the given id, if one is scheduled; cancelling
    /// an absent id changes nothing.
    pub fn cancel(&mut self, id: u64)
        requires
            old(self).wf(),
        ensures
            final(self).wf(),
            !timers_have_id(old(self).timers(), id)
                ==> final(self).timers() == old(self).timers(),
            timers_have_id(old(self).timers(), id) ==> exists|i: int|
                #![auto]
                0 <= i < old(self).timers().len() && old(self).timers()[i].id == id
                    && final(self).timers() == old(self).timers().remove(i),
            !timers_have_id(final(self).timers(), id) || timers_have_id(
                old(self).timers(),
                id,
            ),
    {
        let mut i: usize = 0;
        while i < self.entries.len()
            invariant
                *self == *old(self),
                self.wf(),
                i <= self.entries@.len(),
                forall|j: int| 0 <= j < i ==> (#[trigger] self.entries@[j]).id != id,
            decreases self.entries@.len() - i,
        {
            if self.entries[i].id == id {
                let ghost pre = self.entries@;
                let _ = self.entries.remove(i);
                proof {
                    assert(self.entries@ == pre.remove(i as int));
                    assert forall|a: int, b: int|
                        0 <= a < b < self.entries@.len() implies fires_before(
                        self.entries@[a],
                        self.entries@[b],
                    ) by {
                        if b < i {
                            assert(self.entries@[a] == pre[a]);
                            assert(self.entries@[b] == pre[b]);
                        } else if a < i {
                            assert(self.entries@[a] == pre[a]);
                            assert(self.entries@[b] == pre[b + 1]);
                        } else {
                            assert(self.entries@[a] == pre[a + 1]);
                            assert(self.entries@[b] == pre[b + 1]);
                        }
                    }
                    assert forall|k: int|
                        0 <= k < self.entries@.len() implies (
                        #[trigger] self.entries@[k]).order < self.next_order_spec() by {
                        if k < i {
                            assert(self.entries@[k] == pre[k]);
                        } else {
                            assert(self.entries@[k] == pre[k + 1]);
                        }
                    }
                }
                return ;
            }
            i += 1;
        }
    }

    /// Fires every timer whose deadline has passed: their ids come back in
    /// ascending deadline order, ties in insertion order, and leave the
    /// wheel.
    pub fn advance(&mut self, now: u64) -> (r: Vec<u64>)
        requires
            old(self).wf(),
        ensures
            final(self).wf(),
            r@.len() <= old(self).timers().len(),
            final(self).timers() == old(self).timers().skip(r@.len() as int),
            forall|k: int|
                0 <= k < r@.len() ==> r@[k] == (#[trigger] old(self).timers()[k]).id
                    && old(self).timers()[k].deadline <= now,
            r@.len() < old(self).timers().len() ==> old(self).timers()[
                r@.len() as int
            ].deadline > now,
    {
        let ghost start = self.entries@;
        let mut fired: Vec<u64> = Vec::new();
        proof {
            assert(start.skip(0) =~= start);
        }
        while self.entries.len() > 0 && self.entries[0].deadline <= now
            invariant
                self.wf(),
                fired@.len() <= start.len(),
                self.entries@ == start.skip(fired@.len() as int),
                forall|k: int|
                    0 <= k < fired@.len() ==> fired@[k] == (#[trigger] start[k]).id
                        && start[k].deadline <= now,
            decreases self.entries@.len(),
        {
            let ghost pre = self.entries@;
            let e = self.entries.remove(0);
            fired.push(e.id);
            proof {
                assert(self.entries@ =~= start.skip(fired@.len() as int));
                assert(e == pre[0]);
                assert(pre[0] == start[fired@.len() - 1]);
                assert forall|a: int, b: int|
                    0 <= a < b < self.entries@.len() implies fires_before(
                    self.entries@[a],
                    self.entries@[b],
                ) by {
                    assert(self.entries@[a] == pre[a + 1]);
                    assert(self.entries@[b] == pre[b + 1]);
                }
                assert forall|k: int|
                    0 <= k < self.entries@.len() implies (#[trigger] self.entries@[k]).order
                    < self.next_order_spec() by {
                    assert(self.entries@[k] == pre[k + 1]);
                }
            }
        }
        fired
    }
}

} // verus!
