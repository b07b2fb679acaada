//! Savings goals with priorities: an owner's goals can be listed from the highest priority
//! down.
use vstd::prelude::*;
use crate::fees::Address;
use crate::text::copy_bytes;

verus! {

/// A savings goal with a priority.
pub struct Goal {
    pub id: u64,
    pub owner: Address,
    pub name: Vec<u8>,
    pub target_amount: i128,
    pub saved_amount: i128,
    /// Higher is more urgent.
    pub priority: u32,
}

/// Whether `a` is a copy of `b`.
pub open spec fn same_goal(a: Goal, b: Goal) -> bool {
    a.id == b.id && a.owner == b.owner && a.name@ == b.name@ && a.target_amount == b.target_amount
        && a.saved_amount == b.saved_amount && a.priority == b.priority
}

/// The ids, in creation order, of the goals of `gs` owned by `owner`.
pub open spec fn goal_ids_of(gs: Seq<Goal>, owner: Address) -> Seq<u64>
    decreases gs.len(),
{
    if gs.len() == 0 {
        Seq::empty()
    } else {
        let rest = goal_ids_of(gs.drop_last(), owner);
        if gs.last().owner == owner { rest.push(gs.last().id) } else { rest }
    }
}

/// The ids of a list of goals.
pub open spec fn ids_of(gs: Seq<Goal>) -> Seq<u64> {
    gs.map_values(|g: Goal| g.id)
}

/// Whether `gs` runs from the highest priority down.
pub open spec fn by_priority(gs: Seq<Goal>) -> bool {
    forall|i: int, j: int| 0 <= i < j < gs.len() ==> (#[trigger] gs[i]).priority >= (#[trigger] gs[j]).priority
}

/// State of the goals contract: goal `k` is at position `k - 1`.
pub struct GoalsContract {
    pub goals: Vec<Goal>,
}

impl GoalsContract {
    /// Ids follow positions.
    pub open spec fn wf(&self) -> bool {
        forall|i: int| 0 <= i < self.goals@.len() ==> (#[trigger] self.goals@[i]).id == i + 1
    }

    /// No goals.
    pub fn new() -> (r: GoalsContract)
        ensures
            r.wf(),
            r.goals@.len() == 0,
    {
        GoalsContract { goals: Vec::new() }
    }

    /// Creates a goal for `owner` with nothing saved and returns its id, the next in sequence.
    pub fn create_goal(&mut self, owner: Address, name: Vec<u8>, target_amount: i128, priority: u32) -> (r: u64)
        requires
            old(self).wf(),
            old(self).goals@.len() < u64::MAX,
        ensures
            final(self).wf(),
            r == old(self).goals@.len() + 1,
            final(self).goals@ == old(self).goals@.push(Goal {
                id: r, owner, name, target_amount, saved_amount: 0, priority,
            }),
    {
        let id = self.goals.len() as u64 + 1;
        self.goals.push(Goal { id, owner, name, target_amount, saved_amount: 0, priority });
        id
    }

    /// A copy of the goal at position `i`.
    fn copy_goal(&self, i: usize) -> (r: Goal)
        requires
            i < self.goals@.len(),
        ensures
            same_goal(r, self.goals@[i as int]),
    {
        let g = &self.goals[i];
        Goal {
            id: g.id,
            owner: g.owner,
            name: copy_bytes(&g.name),
            target_amount: g.target_amount,
            saved_amount: g.saved_amount,
            priority: g.priority,
        }
    }

    /// The goals of `owner` from the highest priority down.
    pub fn get_goals_by_priority(&self, owner: Address) -> (r: Vec<Goal>)
        requires
            self.wf(),
        ensures
            by_priority(r@),
            ids_of(r@).to_multiset() == goal_ids_of(self.goals@, owner).to_multiset(),
            forall|k: int| 0 <= k < r@.len() ==> 1 <= (#[trigger] r@[k]).id <= self.goals@.len()
                && same_goal(r@[k], self.goals@[r@[k].id - 1]),
    {
        let mut r: Vec<Goal> = Vec::new();
        let mut i: usize = 0;
        assert(ids_of(r@) =~= goal_ids_of(self.goals@.take(0), owner));
        while i < self.goals.len()
            invariant
                self.wf(),
                i <= self.goals@.len(),
                by_priority(r@),
                ids_of(r@).to_multiset() == goal_ids_of(self.goals@.take(i as int), owner).to_multiset(),
                forall|k: int| 0 <= k < r@.len() ==> 1 <= (#[trigger] r@[k]).id <= self.goals@.len()
                    && same_goal(r@[k], self.goals@[r@[k].id - 1]),
            decreases self.goals@.len() - i,
        {
            proof {
                assert(self.goals@.take(i as int + 1).drop_last() =~= self.goals@.take(i as int));
            }
            if self.goals[i].owner == owner {
                let g = self.copy_goal(i);
                let p = self.goals[i].priority;
                let mut pos: usize = 0;
                while pos < r.len() && r[pos].priority >= p
                    invariant
                        pos <= r@.len(),
                        forall|k: int| 0 <= k < pos ==> (#[trigger] r@[k]).priority >= p,
                    decreases r@.len() - pos,
                {
                    pos = pos + 1;
                }
                let ghost before = r@;
                let ghost gg = g;
                r.insert(pos, g);
                proof {
                    assert(r@ == before.insert(pos as int, gg));
                    assert(ids_of(r@) =~= ids_of(before).insert(pos as int, gg.id));
                    vstd::seq_lib::to_multiset_insert(ids_of(before), pos as int, gg.id);
                    vstd::seq_lib::to_multiset_build(goal_ids_of(self.goals@.take(i as int), owner), gg.id);
                    assert forall|a: int, b: int| 0 <= a < b < r@.len() implies
                        (#[trigger] r@[a]).priority >= (#[trigger] r@[b]).priority by {
                        if b < pos {
                            assert(r@[a] == before[a] && r@[b] == before[b]);
                        } else if b == pos {
                            assert(r@[a] == before[a]);
                        } else if a == pos {
                            assert(r@[b] == before[b - 1]);
                            assert(before[pos as int].priority < p);
                            if b - 1 > pos {
                                assert(before[pos as int].priority >= before[b - 1].priority);
                            }
                        } else if a < pos {
                            assert(r@[a] == before[a] && r@[b] == before[b - 1]);
                        } else {
                            assert(r@[a] == before[a - 1] && r@[b] == before[b - 1]);
                        }
                    }
                    assert forall|k: int| 0 <= k < r@.len() implies 1 <= (#[trigger] r@[k]).id <= self.goals@.len()
                        && same_goal(r@[k], self.goals@[r@[k].id - 1]) by {
                        if k < pos {
                            assert(r@[k] == before[k]);
                        } else if k > pos {
                            assert(r@[k] == before[k - 1]);
                        }
                    }
                }
            }
            i = i + 1;
        }
        assert(self.goals@.take(self.goals@.len() as int) =~= self.goals@);
        r
    }
}

} // verus!
