//! Savings goals with atomic batch contributions: a batch is applied only when every entry
//! passes, counting what earlier entries of the same batch add to the same goal, and no goal
//! ever holds more than its target.
use vstd::prelude::*;
use std::collections::HashMap;
use crate::fees::Address;

verus! {

broadcast use vstd::std_specs::hash::group_hash_axioms;

/// A savings goal.
#[derive(Clone, Copy, Debug, PartialEq, Eq, Structural)]
pub struct SavingsGoal {
    pub id: u32,
    pub owner: Address,
    pub target_amount: i128,
    pub saved_amount: i128,
    pub created_at: u64,
}

/// What the entries before position `n` of a batch add to goal `g`.
pub open spec fn pending_before(ids: Seq<u32>, amounts: Seq<i128>, n: int, g: u32) -> int
    decreases n,
{
    if n <= 0 {
        0
    } else {
        pending_before(ids, amounts, n - 1, g) + if ids[n - 1] == g { amounts[n - 1] as int } else { 0 }
    }
}

/// Check of entry `i` of a batch, given what earlier entries add.
pub open spec fn entry_check(goals: Map<u32, SavingsGoal>, ids: Seq<u32>, amounts: Seq<i128>, i: int) -> Result<(), &'static str> {
    let g = ids[i];
    if amounts[i] <= 0 {
        Err("invalid_contribution_amount")
    } else if !goals.contains_key(g) {
        Err("invalid_goal_id")
    } else if goals[g].saved_amount + pending_before(ids, amounts, i + 1, g) > goals[g].target_amount {
        Err("over_contribution")
    } else {
        Ok(())
    }
}

/// The first failing check among the first `n` entries of a batch.
pub open spec fn batch_check(goals: Map<u32, SavingsGoal>, ids: Seq<u32>, amounts: Seq<i128>, n: int) -> Result<(), &'static str>
    decreases n,
{
    if n <= 0 {
        Ok(())
    } else if batch_check(goals, ids, amounts, n - 1) is Err {
        batch_check(goals, ids, amounts, n - 1)
    } else {
        entry_check(goals, ids, amounts, n - 1)
    }
}

/// Whether every goal of the batch belongs to `user`.
pub open spec fn owned_by(goals: Map<u32, SavingsGoal>, ids: Seq<u32>, user: Address) -> bool {
    forall|k: int| 0 <= k < ids.len() ==> goals[#[trigger] ids[k]].owner == user
}

/// The (goal, amount) pairs, in order, of the entries among the first `n` after which their
/// goal reaches its target exactly.
pub open spec fn milestones(goals: Map<u32, SavingsGoal>, ids: Seq<u32>, amounts: Seq<i128>, n: int) -> Seq<(u32, i128)>
    decreases n,
{
    if n <= 0 {
        Seq::empty()
    } else {
        let rest = milestones(goals, ids, amounts, n - 1);
        let g = ids[n - 1];
        if goals[g].saved_amount + pending_before(ids, amounts, n, g) == goals[g].target_amount {
            rest.push((g, amounts[n - 1]))
        } else {
            rest
        }
    }
}

/// Goals after a whole batch is applied.
pub open spec fn after_batch(goals: Map<u32, SavingsGoal>, ids: Seq<u32>, amounts: Seq<i128>) -> Map<u32, SavingsGoal> {
    Map::new(|g: u32| goals.contains_key(g), |g: u32| SavingsGoal {
        saved_amount: (goals[g].saved_amount + pending_before(ids, amounts, ids.len() as int, g)) as i128,
        ..goals[g]
    })
}

/// With positive amounts, what a batch adds to a goal only grows along the batch.
proof fn lemma_pending_mono(ids: Seq<u32>, amounts: Seq<i128>, j: int, n: int, g: u32)
    requires
        0 <= j <= n <= ids.len(),
        forall|k: int| 0 <= k < n ==> #[trigger] amounts[k] > 0,
    ensures
        0 <= pending_before(ids, amounts, j, g) <= pending_before(ids, amounts, n, g),
    decreases n - j,
{
    if j < n {
        lemma_pending_mono(ids, amounts, j, n - 1, g);
    } else {
        lemma_pending_nonneg(ids, amounts, n, g);
    }
}

/// With positive amounts, what a batch adds is never negative.
proof fn lemma_pending_nonneg(ids: Seq<u32>, amounts: Seq<i128>, n: int, g: u32)
    requires
        0 <= n <= ids.len(),
        forall|k: int| 0 <= k < n ==> #[trigger] amounts[k] > 0,
    ensures
        pending_before(ids, amounts, n, g) >= 0,
    decreases n,
{
    if n > 0 {
        lemma_pending_nonneg(ids, amounts, n - 1, g);
    }
}

/// A passing prefix has positive amounts and keeps every goal it names within target.
proof fn lemma_batch_prefix(goals: Map<u32, SavingsGoal>, ids: Seq<u32>, amounts: Seq<i128>, n: int)
    requires
        0 <= n <= ids.len(),
        batch_check(goals, ids, amounts, n) is Ok,
    ensures
        forall|k: int| 0 <= k < n ==> #[trigger] entry_check(goals, ids, amounts, k) is Ok,
    decreases n,
{
    if n > 0 {
        lemma_batch_prefix(goals, ids, amounts, n - 1);
    }
}

/// Once a prefix fails, the whole batch fails the same way.
proof fn lemma_batch_err(goals: Map<u32, SavingsGoal>, ids: Seq<u32>, amounts: Seq<i128>, m: int, n: int)
    requires
        0 <= m <= n,
        batch_check(goals, ids, amounts, m) is Err,
    ensures
        batch_check(goals, ids, amounts, n) == batch_check(goals, ids, amounts, m),
    decreases n - m,
{
    if m < n {
        lemma_batch_err(goals, ids, amounts, m, n - 1);
    }
}

/// State of the savings contract.
pub struct SavingsContract {
    pub goals: HashMap<u32, SavingsGoal>,
}

impl SavingsContract {
    /// Every goal is stored under its id, has a positive target and holds between zero and
    /// its target.
    pub open spec fn wf(&self) -> bool {
        forall|g: u32| #[trigger] self.goals@.contains_key(g) ==> {
            &&& self.goals@[g].id == g
            &&& self.goals@[g].target_amount > 0
            &&& 0 <= self.goals@[g].saved_amount <= self.goals@[g].target_amount
        }
    }

    /// No goals.
    pub fn new() -> (r: SavingsContract)
        ensures
            r.wf(),
            r.goals@.len() == 0,
    {
        SavingsContract { goals: HashMap::new() }
    }

    /// Creates goal `goal_id` for `owner` with a positive target and nothing saved.
    pub fn create_goal(&mut self, owner: Address, goal_id: u32, target_amount: i128, now: u64) -> (r: Result<(), &'static str>)
        requires
            old(self).wf(),
        ensures
            final(self).wf(),
            target_amount <= 0 ==> r == Err::<(), &'static str>("invalid_target_amount"),
            target_amount > 0 && old(self).goals@.contains_key(goal_id) ==> r == Err::<(), &'static str>("goal_already_exists"),
            r is Err ==> final(self).goals@ == old(self).goals@,
            target_amount > 0 && !old(self).goals@.contains_key(goal_id) ==> r is Ok
                && final(self).goals@ == old(self).goals@.insert(goal_id, SavingsGoal {
                    id: goal_id, owner, target_amount, saved_amount: 0, created_at: now,
                }),
    {
        if target_amount <= 0 {
            return Err("invalid_target_amount");
        }
        if self.goals.contains_key(&goal_id) {
            return Err("goal_already_exists");
        }
        self.goals.insert(goal_id, SavingsGoal { id: goal_id, owner, target_amount, saved_amount: 0, created_at: now });
        Ok(())
    }

    /// Goal `goal_id`, if it exists.
    pub fn get_goal(&self, goal_id: u32) -> (r: Option<SavingsGoal>)
        ensures
            self.goals@.contains_key(goal_id) ==> r == Some(self.goals@[goal_id]),
            !self.goals@.contains_key(goal_id) ==> r is None,
    {
        match self.goals.get(&goal_id) {
            Some(g) => Some(*g),
            None => None,
        }
    }

    /// Contributes `amounts[k]` of `user` to goal `goal_ids[k]` for every `k`, atomically:
    /// nothing changes unless every entry is positive, names an existing goal of `user`, and
    /// keeps that goal within its target counting the earlier entries. Returns the (goal,
    /// amount) entries after which their goal reached its target exactly.
    #[verifier::loop_isolation(false)]
    pub fn batch_contribute(&mut self, user: Address, goal_ids: &Vec<u32>, amounts: &Vec<i128>) -> (r: Result<Vec<(u32, i128)>, &'static str>)
        requires
            old(self).wf(),
        ensures
            final(self).wf(),
            goal_ids@.len() != amounts@.len() ==> r == Err::<Vec<(u32, i128)>, &'static str>("goal_amount_mismatch"),
            goal_ids@.len() == amounts@.len() ==> {
                let g = old(self).goals@;
                let n = goal_ids@.len() as int;
                if batch_check(g, goal_ids@, amounts@, n) is Err {
                    r == Err::<Vec<(u32, i128)>, &'static str>(batch_check(g, goal_ids@, amounts@, n)->Err_0)
                } else if !owned_by(g, goal_ids@, user) {
                    r == Err::<Vec<(u32, i128)>, &'static str>("invalid_goal_owner")
                } else {
                    (r matches Ok(v) && v@ == milestones(g, goal_ids@, amounts@, n))
                        && final(self).goals@ == after_batch(g, goal_ids@, amounts@)
                }
            },
            r is Err ==> final(self).goals@ == old(self).goals@,
    {
        if goal_ids.len() != amounts.len() {
            return Err("goal_amount_mismatch");
        }
        let ghost g0 = self.goals@;
        let ghost ids = goal_ids@;
        let ghost amts = amounts@;
        let n = goal_ids.len();
        let mut i: usize = 0;
        while i < n
            invariant
                i <= n,
                n == ids.len(),
                ids.len() == amts.len(),
                self.goals@ == g0,
                batch_check(g0, ids, amts, i as int) is Ok,
            decreases n - i,
        {
            let gid = goal_ids[i];
            let a = amounts[i];
            proof { lemma_batch_prefix(g0, ids, amts, i as int); }
            if a <= 0 {
                proof { lemma_batch_err(g0, ids, amts, i as int + 1, n as int); }
                return Err("invalid_contribution_amount");
            }
            let goal = match self.goals.get(&gid) {
                Some(goal) => *goal,
                None => {
                    proof { lemma_batch_err(g0, ids, amts, i as int + 1, n as int); }
                    return Err("invalid_goal_id");
                },
            };
            assert forall|k: int| 0 <= k < i + 1 implies #[trigger] amts[k] > 0 by {
                if k < i {
                    assert(entry_check(g0, ids, amts, k) is Ok);
                }
            }
            let mut acc: i128 = 0;
            let mut j: usize = 0;
            while j <= i
                invariant
                    j <= i + 1,
                    acc == pending_before(ids, amts, j as int, gid),
                    0 <= acc,
                    goal.saved_amount + acc <= goal.target_amount,
                    goal == g0[gid],
                    g0.contains_key(gid),
                    forall|k: int| 0 <= k < i + 1 ==> #[trigger] amts[k] > 0,
                decreases i + 1 - j,
            {
                if goal_ids[j] == gid {
                    if amounts[j] > goal.target_amount - goal.saved_amount - acc {
                        proof {
                            lemma_pending_mono(ids, amts, j as int + 1, i as int + 1, gid);
                            lemma_batch_err(g0, ids, amts, i as int + 1, n as int);
                        }
                        return Err("over_contribution");
                    }
                    acc = acc + amounts[j];
                }
                j = j + 1;
            }
            i = i + 1;
        }
        proof { lemma_batch_prefix(g0, ids, amts, n as int); }
        let mut k: usize = 0;
        while k < n
            invariant
                k <= n,
                self.goals@ == g0,
                forall|m: int| 0 <= m < k ==> g0[#[trigger] ids[m]].owner == user,
            decreases n - k,
        {
            let gid = goal_ids[k];
            assert(entry_check(g0, ids, amts, k as int) is Ok);
            let owner = match self.goals.get(&gid) {
                Some(goal) => goal.owner,
                None => { return Err("invalid_goal_id"); },
            };
            if owner != user {
                return Err("invalid_goal_owner");
            }
            k = k + 1;
        }
        let mut reached: Vec<(u32, i128)> = Vec::new();
        let mut i: usize = 0;
        while i < n
            invariant
                i <= n,
                self.wf(),
                reached@ == milestones(g0, ids, amts, i as int),
                forall|g: u32| #[trigger] self.goals@.contains_key(g) == g0.contains_key(g),
                forall|g: u32| #[trigger] self.goals@.contains_key(g) ==> self.goals@[g] == (SavingsGoal {
                    saved_amount: (g0[g].saved_amount + pending_before(ids, amts, i as int, g)) as i128,
                    ..g0[g]
                }),
            decreases n - i,
        {
            let gid = goal_ids[i];
            let a = amounts[i];
            assert(entry_check(g0, ids, amts, i as int) is Ok);
            let mut goal = match self.goals.get(&gid) {
                Some(goal) => *goal,
                None => { return Err("invalid_goal_id"); },
            };
            proof {
                assert forall|k: int| 0 <= k < i + 1 implies #[trigger] amts[k] > 0 by {
                    assert(entry_check(g0, ids, amts, k) is Ok);
                }
                lemma_pending_nonneg(ids, amts, i as int + 1, gid);
            }
            goal.saved_amount = goal.saved_amount + a;
            self.goals.insert(gid, goal);
            if goal.saved_amount == goal.target_amount {
                reached.push((gid, a));
            }
            i = i + 1;
        }
        proof {
            assert(self.goals@ =~= after_batch(g0, ids, amts));
        }
        Ok(reached)
    }
}

} // verus!
