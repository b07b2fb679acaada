//! Savings rewards and limits: a completed goal pays its reward once per user; contributions
//! are grouped into daily, weekly or monthly buckets; an early withdrawal pays a penalty.
use vstd::prelude::*;
use std::collections::HashMap;
use crate::fee_math::trunc_div;
use crate::fees::Address;

verus! {

broadcast use vstd::std_specs::hash::group_hash_axioms;

/// Length of a contribution period.
#[derive(Clone, Copy, Debug, PartialEq, Eq, Structural)]
pub enum ContributionPeriod {
    Daily,
    Weekly,
    Monthly,
}

/// Seconds in a period (a month counts thirty days).
pub open spec fn period_seconds(p: ContributionPeriod) -> u64 {
    match p {
        ContributionPeriod::Daily => 86_400,
        ContributionPeriod::Weekly => 604_800,
        ContributionPeriod::Monthly => 2_592_000,
    }
}

/// Index of the period of kind `period` holding `timestamp`.
pub fn current_bucket(period: ContributionPeriod, timestamp: u64) -> (r: u64)
    ensures
        r == timestamp / period_seconds(period),
{
    match period {
        ContributionPeriod::Daily => timestamp / 86_400,
        ContributionPeriod::Weekly => timestamp / 604_800,
        ContributionPeriod::Monthly => timestamp / 2_592_000,
    }
}

/// A savings goal as the reward logic sees it.
#[derive(Clone, Copy, Debug, PartialEq, Eq, Structural)]
pub struct SavingsGoal {
    pub id: u64,
    pub target_amount: i128,
    pub saved_amount: i128,
    pub completed: bool,
}

/// Goals, the reward per completed goal, and the rewards already claimed.
pub struct RewardState {
    pub goals: HashMap<u64, SavingsGoal>,
    /// Reward per completed goal; none set means zero.
    pub reward_amount: Option<i128>,
    /// (user, goal) pairs whose reward was paid.
    pub claimed: Vec<(Address, u64)>,
}

impl RewardState {
    /// The reward per completed goal.
    pub open spec fn reward(&self) -> i128 {
        match self.reward_amount {
            Some(r) => r,
            None => 0,
        }
    }

    /// Whether `user` claimed the reward of goal `goal_id`.
    pub open spec fn has_claimed(&self, user: Address, goal_id: u64) -> bool {
        self.claimed@.contains((user, goal_id))
    }

    /// No goals, no reward set, nothing claimed.
    pub fn new() -> (r: RewardState)
        ensures
            r.goals@.len() == 0,
            r.reward_amount is None,
            r.claimed@.len() == 0,
    {
        RewardState { goals: HashMap::new(), reward_amount: None, claimed: Vec::new() }
    }

    /// Whether `user` claimed the reward of goal `goal_id`.
    fn claimed_already(&self, user: Address, goal_id: u64) -> (r: bool)
        ensures
            r == self.has_claimed(user, goal_id),
    {
        let mut i: usize = 0;
        while i < self.claimed.len()
            invariant
                i <= self.claimed@.len(),
                forall|j: int| 0 <= j < i ==> self.claimed@[j] != (user, goal_id),
            decreases self.claimed@.len() - i,
        {
            let (u, g) = self.claimed[i];
            if u == user && g == goal_id {
                assert(self.claimed@[i as int] == (user, goal_id));
                return true;
            }
            i = i + 1;
        }
        false
    }

    /// Pays `user` the reward of completed goal `goal_id`, once.
    pub fn claim_reward(&mut self, user: Address, goal_id: u64) -> (r: Result<i128, &'static str>)
        ensures
            !old(self).goals@.contains_key(goal_id) ==> r == Err::<i128, &'static str>("Goal not found"),
            old(self).goals@.contains_key(goal_id) && !old(self).goals@[goal_id].completed
                ==> r == Err::<i128, &'static str>("Goal not completed"),
            old(self).goals@.contains_key(goal_id) && old(self).goals@[goal_id].completed && old(self).has_claimed(user, goal_id)
                ==> r == Err::<i128, &'static str>("Reward already claimed"),
            r is Err ==> *final(self) == *old(self),
            old(self).goals@.contains_key(goal_id) && old(self).goals@[goal_id].completed && !old(self).has_claimed(user, goal_id) ==> {
                &&& r == Ok::<i128, &'static str>(old(self).reward())
                &&& final(self).claimed@ == old(self).claimed@.push((user, goal_id))
                &&& final(self).goals == old(self).goals
                &&& final(self).reward_amount == old(self).reward_amount
            },
    {
        let completed = match self.goals.get(&goal_id) {
            Some(g) => g.completed,
            None => { return Err("Goal not found"); },
        };
        if !completed {
            return Err("Goal not completed");
        }
        if self.claimed_already(user, goal_id) {
            return Err("Reward already claimed");
        }
        let reward = match self.reward_amount {
            Some(r) => r,
            None => 0,
        };
        self.claimed.push((user, goal_id));
        Ok(reward)
    }
}

/// How an early withdrawal is split.
#[derive(Clone, Copy, Debug, PartialEq, Eq, Structural)]
pub struct PenaltySplit {
    /// What the user receives.
    pub withdrawable: i128,
    /// What goes to the treasury.
    pub penalty: i128,
}

/// Splits a withdrawal of `amount` under a penalty of `penalty_percent` percent: the penalty
/// is `amount * penalty_percent / 100`, truncated, and the user keeps the rest.
pub fn apply_penalty_withdrawal(amount: i128, penalty_percent: u32) -> (r: PenaltySplit)
    requires
        i128::MIN <= amount * penalty_percent <= i128::MAX,
        i128::MIN <= amount - trunc_div(amount * penalty_percent, 100) <= i128::MAX,
    ensures
        r.penalty == trunc_div(amount * penalty_percent, 100),
        r.withdrawable == amount - r.penalty,
        amount >= 0 && penalty_percent <= 100 ==> 0 <= r.penalty <= amount && 0 <= r.withdrawable <= amount,
{
    let penalty: i128 = amount * (penalty_percent as i128) / 100;
    proof {
        if amount >= 0 && penalty_percent <= 100 {
            let p: int = amount * penalty_percent;
            assert(0 <= p <= amount * 100) by (nonlinear_arith)
                requires amount >= 0, penalty_percent <= 100, p == amount * penalty_percent;
            vstd::arithmetic::div_mod::lemma_div_is_ordered(p, amount * 100, 100);
            vstd::arithmetic::div_mod::lemma_div_by_multiple(amount as int, 100);
            assert(amount * 100 == (amount as int) * 100);
            vstd::arithmetic::div_mod::lemma_div_pos_is_pos(p, 100);
        }
    }
    PenaltySplit { withdrawable: amount - penalty, penalty }
}

} // verus!
