//! Shared budgets: members pool contributions into a budget and spend from it under
//! per-member spending rules. Every contribution is recorded, a budget's total contributed is
//! the sum of its recorded contributions, and its balance never exceeds that total.
use vstd::prelude::*;
use crate::fees::Address;
use crate::shared::contains_address;
use crate::text::copy_bytes;

verus! {

/// Most members a budget may have.
pub const MAX_BUDGET_MEMBERS: u32 = 20;

/// Most spending rules a budget may have.
pub const MAX_SPENDING_RULES: u32 = 10;

/// Errors of the shared-budget contract.
#[derive(Copy, Clone, Debug, PartialEq, Eq, Structural)]
pub enum SharedBudgetError {
    NotInitialized,
    Unauthorized,
    BudgetNotFound,
    MemberAlreadyExists,
    MemberNotFound,
    RuleNotFound,
    InvalidAmount,
    InsufficientBalance,
    InvalidPercentage,
    BudgetAlreadyActive,
    BudgetNotActive,
    TooManyMembers,
    TooManyRules,
}

/// Contract error code of each error.
pub open spec fn budget_error_code(e: SharedBudgetError) -> u32 {
    match e {
        SharedBudgetError::NotInitialized => 1,
        SharedBudgetError::Unauthorized => 2,
        SharedBudgetError::BudgetNotFound => 3,
        SharedBudgetError::MemberAlreadyExists => 4,
        SharedBudgetError::MemberNotFound => 5,
        SharedBudgetError::RuleNotFound => 6,
        SharedBudgetError::InvalidAmount => 7,
        SharedBudgetError::InsufficientBalance => 8,
        SharedBudgetError::InvalidPercentage => 9,
        SharedBudgetError::BudgetAlreadyActive => 10,
        SharedBudgetError::BudgetNotActive => 11,
        SharedBudgetError::TooManyMembers => 12,
        SharedBudgetError::TooManyRules => 13,
    }
}

impl SharedBudgetError {
    /// The contract error code of this error.
    pub fn code(&self) -> (r: u32)
        ensures
            r == budget_error_code(*self),
    {
        match self {
            SharedBudgetError::NotInitialized => 1,
            SharedBudgetError::Unauthorized => 2,
            SharedBudgetError::BudgetNotFound => 3,
            SharedBudgetError::MemberAlreadyExists => 4,
            SharedBudgetError::MemberNotFound => 5,
            SharedBudgetError::RuleNotFound => 6,
            SharedBudgetError::InvalidAmount => 7,
            SharedBudgetError::InsufficientBalance => 8,
            SharedBudgetError::InvalidPercentage => 9,
            SharedBudgetError::BudgetAlreadyActive => 10,
            SharedBudgetError::BudgetNotActive => 11,
            SharedBudgetError::TooManyMembers => 12,
            SharedBudgetError::TooManyRules => 13,
        }
    }
}

/// A spending rule of a budget.
pub struct BudgetSpendingRule {
    /// The member the rule applies to.
    pub applicable_to: Address,
    /// Share of the total contributed, in percent, that the member may spend at once.
    pub percentage_threshold: u32,
    /// Whether spending beyond the threshold is allowed pending approval.
    pub requires_approval: bool,
    pub description: Vec<u8>,
}

/// A shared budget.
pub struct Budget {
    pub id: u64,
    pub name: Vec<u8>,
    pub creator: Address,
    pub token: Address,
    pub members: Vec<Address>,
    pub balance: i128,
    pub total_contributed: i128,
    pub spending_rules: Vec<BudgetSpendingRule>,
    pub is_active: bool,
    pub created_at: u64,
}

/// A recorded contribution.
pub struct BudgetContribution {
    pub budget_id: u64,
    pub contributor: Address,
    pub amount: i128,
    pub memo: Option<Vec<u8>>,
    pub timestamp: u64,
}

/// Whether an amount may be contributed or spent: it must be positive.
pub open spec fn valid_budget_amount(amount: i128) -> bool {
    amount > 0
}

/// Whether a percentage threshold is at most one hundred.
pub open spec fn valid_percentage(p: u32) -> bool {
    p <= 100
}

/// Checks an amount: it must be positive.
pub fn validate_amount(amount: i128) -> (r: Result<(), ()>)
    ensures
        r is Ok <==> valid_budget_amount(amount),
{
    if amount <= 0 { Err(()) } else { Ok(()) }
}

/// Checks a percentage threshold: at most one hundred.
pub fn validate_percentage(p: u32) -> (r: Result<(), ()>)
    ensures
        r is Ok <==> valid_percentage(p),
{
    if p > 100 { Err(()) } else { Ok(()) }
}

/// Sum of the amounts of the contributions of `cs` to budget `id`.
pub open spec fn contributed_to(cs: Seq<BudgetContribution>, id: u64) -> int
    decreases cs.len(),
{
    if cs.len() == 0 {
        0
    } else {
        contributed_to(cs.drop_last(), id) + if cs.last().budget_id == id { cs.last().amount as int } else { 0 }
    }
}

/// The contributions of `cs` to budget `id`, in order.
pub open spec fn contributions_to(cs: Seq<BudgetContribution>, id: u64) -> Seq<BudgetContribution>
    decreases cs.len(),
{
    if cs.len() == 0 {
        Seq::empty()
    } else {
        let rest = contributions_to(cs.drop_last(), id);
        if cs.last().budget_id == id { rest.push(cs.last()) } else { rest }
    }
}

/// Whether `c` is a copy of `d`.
pub open spec fn same_contribution(c: BudgetContribution, d: BudgetContribution) -> bool {
    &&& c.budget_id == d.budget_id && c.contributor == d.contributor && c.amount == d.amount
    &&& c.timestamp == d.timestamp
    &&& c.memo is Some <==> d.memo is Some
    &&& c.memo is Some ==> c.memo->0@ == d.memo->0@
}

/// Whether some rule of `rules` has a threshold above one hundred.
pub open spec fn has_bad_percentage(rules: Seq<BudgetSpendingRule>) -> bool {
    exists|k: int| 0 <= k < rules.len() && !valid_percentage((#[trigger] rules[k]).percentage_threshold)
}

/// Whether some rule of `rules` forbids `spender` spending `amount`, `thresholds[k]` being the
/// amount rule `k` allows.
pub open spec fn rule_forbids(rules: Seq<BudgetSpendingRule>, thresholds: Seq<i128>, spender: Address, amount: i128) -> bool {
    exists|k: int| 0 <= k < rules.len() && (#[trigger] rules[k]).applicable_to == spender
        && amount > thresholds[k] && !rules[k].requires_approval
}

/// Budget utilisation as (percent spent, total spent, spent per member, balance).
pub open spec fn utilization(total: i128, balance: i128, members: nat) -> (u32, i128, i128, i128) {
    let spent = total - balance;
    (
        if total > 0 { (spent * 100 / (total as int)) as u32 } else { 0 },
        spent as i128,
        if members > 0 { (spent / (members as int)) as i128 } else { 0 },
        balance,
    )
}

/// A budget no contribution names has nothing contributed.
proof fn lemma_contributed_to_absent(cs: Seq<BudgetContribution>, id: u64)
    requires
        forall|k: int| 0 <= k < cs.len() ==> (#[trigger] cs[k]).budget_id != id,
    ensures
        contributed_to(cs, id) == 0,
        contributions_to(cs, id).len() == 0,
    decreases cs.len(),
{
    if cs.len() > 0 {
        assert forall|k: int| 0 <= k < cs.drop_last().len() implies (#[trigger] cs.drop_last()[k]).budget_id != id by {
            assert(cs.drop_last()[k] == cs[k]);
        }
        lemma_contributed_to_absent(cs.drop_last(), id);
    }
}

/// Recording one more contribution adds its amount to its budget only.
proof fn lemma_contributed_to_push(cs: Seq<BudgetContribution>, c: BudgetContribution, id: u64)
    ensures
        contributed_to(cs.push(c), id) == contributed_to(cs, id) + if c.budget_id == id { c.amount as int } else { 0 },
        contributions_to(cs.push(c), id) == if c.budget_id == id { contributions_to(cs, id).push(c) } else { contributions_to(cs, id) },
{
    assert(cs.push(c).drop_last() =~= cs);
}

/// State of the shared-budget contract: budget `k` and contribution `k` are at position `k - 1`.
pub struct SharedBudgetContract {
    pub admin: Option<Address>,
    pub budgets: Vec<Budget>,
    pub contributions: Vec<BudgetContribution>,
}

impl SharedBudgetContract {
    /// Ids follow positions; every contribution is to an existing budget; each budget's total
    /// is the sum of its contributions and its balance lies between zero and that total.
    pub open spec fn wf(&self) -> bool {
        &&& forall|i: int| 0 <= i < self.budgets@.len() ==> (#[trigger] self.budgets@[i]).id == i + 1
        &&& forall|k: int| 0 <= k < self.contributions@.len() ==>
            1 <= (#[trigger] self.contributions@[k]).budget_id <= self.budgets@.len()
        &&& forall|i: int| 0 <= i < self.budgets@.len() ==>
            (#[trigger] self.budgets@[i]).total_contributed == contributed_to(self.contributions@, (i + 1) as u64)
        &&& forall|i: int| 0 <= i < self.budgets@.len() ==>
            0 <= (#[trigger] self.budgets@[i]).balance <= self.budgets@[i].total_contributed
    }

    /// Whether budget `id` exists.
    pub open spec fn has_budget(&self, id: u64) -> bool {
        1 <= id <= self.budgets@.len()
    }

    /// Budget `id` (meaningful when it exists).
    pub open spec fn budget(&self, id: u64) -> Budget {
        self.budgets@[id - 1]
    }

    /// Admin check used where the caller is not the budget's creator.
    pub open spec fn admin_check(&self, caller: Address) -> Result<(), SharedBudgetError> {
        match self.admin {
            None => Err(SharedBudgetError::NotInitialized),
            Some(a) => if a != caller { Err(SharedBudgetError::Unauthorized) } else { Ok(()) },
        }
    }

    /// Creator-or-admin check for budget `id`.
    pub open spec fn manager_check(&self, id: u64, caller: Address) -> Result<(), SharedBudgetError> {
        if caller == self.budget(id).creator { Ok(()) } else { self.admin_check(caller) }
    }

    /// Budgets that differ from `old` only at position `k`.
    pub open spec fn only_changed(&self, old: &Self, k: int) -> bool {
        &&& self.budgets@.len() == old.budgets@.len()
        &&& forall|j: int| 0 <= j < self.budgets@.len() && j != k ==> self.budgets@[j] == old.budgets@[j]
        &&& self.contributions == old.contributions
        &&& self.admin == old.admin
    }

    /// An uninitialised contract without budgets.
    pub fn new() -> (r: SharedBudgetContract)
        ensures
            r.wf(),
            r.admin is None,
            r.budgets@.len() == 0,
            r.contributions@.len() == 0,
    {
        SharedBudgetContract { admin: None, budgets: Vec::new(), contributions: Vec::new() }
    }

    /// Sets the admin; fails with "Contract already initialized" when one is set.
    pub fn initialize(&mut self, admin: Address) -> (r: Result<(), &'static str>)
        requires
            old(self).wf(),
        ensures
            final(self).wf(),
            old(self).admin is Some ==> r == Err::<(), &'static str>("Contract already initialized") && *final(self) == *old(self),
            old(self).admin is None ==> r is Ok && *final(self) == (SharedBudgetContract { admin: Some(admin), ..*old(self) }),
    {
        if self.admin.is_some() {
            return Err("Contract already initialized");
        }
        self.admin = Some(admin);
        Ok(())
    }

    /// Checks that `caller` is the admin.
    fn require_admin(&self, caller: Address) -> (r: Result<(), SharedBudgetError>)
        ensures
            r == self.admin_check(caller),
    {
        match self.admin {
            None => Err(SharedBudgetError::NotInitialized),
            Some(a) => if a != caller { Err(SharedBudgetError::Unauthorized) } else { Ok(()) },
        }
    }

    /// Position of budget `id`.
    fn budget_slot(&self, id: u64) -> (r: Result<usize, SharedBudgetError>)
        ensures
            r matches Ok(i) ==> self.has_budget(id) && i == id - 1,
            r is Err ==> !self.has_budget(id) && r == Err::<usize, SharedBudgetError>(SharedBudgetError::BudgetNotFound),
    {
        if id >= 1 && id - 1 < self.budgets.len() as u64 {
            Ok((id - 1) as usize)
        } else {
            Err(SharedBudgetError::BudgetNotFound)
        }
    }

    /// Creates an active budget with zero balance and returns its id; no initialisation is
    /// needed.
    #[verifier::loop_isolation(false)]
    pub fn create_budget(&mut self, creator: Address, budget_name: Vec<u8>, members: Vec<Address>, token: Address, spending_rules: Vec<BudgetSpendingRule>, now: u64) -> (r: Result<u64, SharedBudgetError>)
        requires
            old(self).wf(),
            old(self).budgets@.len() < u64::MAX,
        ensures
            final(self).wf(),
            members@.len() > MAX_BUDGET_MEMBERS ==> r == Err::<u64, SharedBudgetError>(SharedBudgetError::TooManyMembers),
            members@.len() <= MAX_BUDGET_MEMBERS && spending_rules@.len() > MAX_SPENDING_RULES
                ==> r == Err::<u64, SharedBudgetError>(SharedBudgetError::TooManyRules),
            members@.len() <= MAX_BUDGET_MEMBERS && spending_rules@.len() <= MAX_SPENDING_RULES && has_bad_percentage(spending_rules@)
                ==> r == Err::<u64, SharedBudgetError>(SharedBudgetError::InvalidPercentage),
            r is Err ==> *final(self) == *old(self),
            members@.len() <= MAX_BUDGET_MEMBERS && spending_rules@.len() <= MAX_SPENDING_RULES && !has_bad_percentage(spending_rules@) ==> {
                let id = (old(self).budgets@.len() + 1) as u64;
                &&& r == Ok::<u64, SharedBudgetError>(id)
                &&& final(self).budgets@ == old(self).budgets@.push(Budget {
                    id,
                    name: budget_name,
                    creator,
                    token,
                    members,
                    balance: 0,
                    total_contributed: 0,
                    spending_rules,
                    is_active: true,
                    created_at: now,
                })
                &&& final(self).contributions == old(self).contributions
                &&& final(self).admin == old(self).admin
            },
    {
        if members.len() > MAX_BUDGET_MEMBERS as usize {
            return Err(SharedBudgetError::TooManyMembers);
        }
        if spending_rules.len() > MAX_SPENDING_RULES as usize {
            return Err(SharedBudgetError::TooManyRules);
        }
        let mut k: usize = 0;
        while k < spending_rules.len()
            invariant
                k <= spending_rules@.len(),
                members@.len() <= MAX_BUDGET_MEMBERS,
                spending_rules@.len() <= MAX_SPENDING_RULES,
                forall|j: int| 0 <= j < k ==> valid_percentage((#[trigger] spending_rules@[j]).percentage_threshold),
            decreases spending_rules@.len() - k,
        {
            if validate_percentage(spending_rules[k].percentage_threshold).is_err() {
                assert(!valid_percentage(spending_rules@[k as int].percentage_threshold));
                return Err(SharedBudgetError::InvalidPercentage);
            }
            k = k + 1;
        }
        let ghost old_self = *self;
        let id = self.budgets.len() as u64 + 1;
        self.budgets.push(Budget {
            id,
            name: budget_name,
            creator,
            token,
            members,
            balance: 0,
            total_contributed: 0,
            spending_rules,
            is_active: true,
            created_at: now,
        });
        proof {
            lemma_contributed_to_absent(self.contributions@, id);
            assert forall|i: int| 0 <= i < self.budgets@.len() implies
                (#[trigger] self.budgets@[i]).total_contributed == contributed_to(self.contributions@, (i + 1) as u64) by {
                if i < old_self.budgets@.len() {
                    assert(self.budgets@[i] == old_self.budgets@[i]);
                }
            }
            assert forall|i: int| 0 <= i < self.budgets@.len() implies
                0 <= (#[trigger] self.budgets@[i]).balance <= self.budgets@[i].total_contributed by {
                if i < old_self.budgets@.len() {
                    assert(self.budgets@[i] == old_self.budgets@[i]);
                }
            }
            assert forall|i: int| 0 <= i < self.budgets@.len() implies (#[trigger] self.budgets@[i]).id == i + 1 by {
                if i < old_self.budgets@.len() {
                    assert(self.budgets@[i] == old_self.budgets@[i]);
                }
            }
        }
        Ok(id)
    }

    /// Records a contribution of `amount` to active budget `budget_id` (the tokens having
    /// moved to the contract) and credits the budget.
    pub fn contribute_to_budget(&mut self, contributor: Address, budget_id: u64, amount: i128, memo: Option<Vec<u8>>, now: u64) -> (r: Result<(), SharedBudgetError>)
        requires
            old(self).wf(),
            old(self).has_budget(budget_id) && valid_budget_amount(amount)
                ==> old(self).budget(budget_id).total_contributed + amount <= i128::MAX,
        ensures
            final(self).wf(),
            !valid_budget_amount(amount) ==> r == Err::<(), SharedBudgetError>(SharedBudgetError::InvalidAmount),
            valid_budget_amount(amount) && !old(self).has_budget(budget_id) ==> r == Err::<(), SharedBudgetError>(SharedBudgetError::BudgetNotFound),
            valid_budget_amount(amount) && old(self).has_budget(budget_id) && !old(self).budget(budget_id).is_active
                ==> r == Err::<(), SharedBudgetError>(SharedBudgetError::BudgetNotActive),
            r is Err ==> *final(self) == *old(self),
            valid_budget_amount(amount) && old(self).has_budget(budget_id) && old(self).budget(budget_id).is_active ==> {
                let b = old(self).budget(budget_id);
                &&& r is Ok
                &&& final(self).budgets@ == old(self).budgets@.update(budget_id - 1, Budget {
                    balance: (b.balance + amount) as i128,
                    total_contributed: (b.total_contributed + amount) as i128,
                    ..b
                })
                &&& final(self).contributions@ == old(self).contributions@.push(BudgetContribution {
                    budget_id, contributor, amount, memo, timestamp: now,
                })
                &&& final(self).admin == old(self).admin
            },
    {
        if validate_amount(amount).is_err() {
            return Err(SharedBudgetError::InvalidAmount);
        }
        let i = self.budget_slot(budget_id)?;
        if !self.budgets[i].is_active {
            return Err(SharedBudgetError::BudgetNotActive);
        }
        let ghost old_self = *self;
        let mut b = self.budgets.remove(i);
        b.balance = b.balance + amount;
        b.total_contributed = b.total_contributed + amount;
        self.budgets.insert(i, b);
        let c = BudgetContribution { budget_id, contributor, amount, memo, timestamp: now };
        let ghost cg = c;
        self.contributions.push(c);
        proof {
            assert(self.budgets@ =~= old_self.budgets@.update(i as int, b));
            assert forall|j: int| 0 <= j < self.budgets@.len() implies
                (#[trigger] self.budgets@[j]).total_contributed == contributed_to(self.contributions@, (j + 1) as u64) by {
                lemma_contributed_to_push(old_self.contributions@, cg, (j + 1) as u64);
            }
            assert forall|k: int| 0 <= k < self.contributions@.len() implies
                1 <= (#[trigger] self.contributions@[k]).budget_id <= self.budgets@.len() by {
                if k < old_self.contributions@.len() {
                    assert(self.contributions@[k] == old_self.contributions@[k]);
                }
            }
        }
        Ok(())
    }

    /// Spends `amount` from budget `budget_id` for member `spender` (the tokens then leave the
    /// contract). `thresholds[k]` is the amount spending rule `k` of the budget allows.
    #[verifier::loop_isolation(false)]
    pub fn spend_from_budget(&mut self, spender: Address, budget_id: u64, amount: i128, thresholds: &Vec<i128>) -> (r: Result<(), SharedBudgetError>)
        requires
            old(self).wf(),
            old(self).has_budget(budget_id) ==> thresholds@.len() == old(self).budget(budget_id).spending_rules@.len(),
        ensures
            final(self).wf(),
            r == old(self).spend_check(spender, budget_id, amount, thresholds@),
            r is Err ==> *final(self) == *old(self),
            r is Ok ==> {
                let b = old(self).budget(budget_id);
                &&& final(self).budgets@ == old(self).budgets@.update(budget_id - 1, Budget { balance: (b.balance - amount) as i128, ..b })
                &&& final(self).contributions == old(self).contributions
                &&& final(self).admin == old(self).admin
            },
    {
        if validate_amount(amount).is_err() {
            return Err(SharedBudgetError::InvalidAmount);
        }
        let i = self.budget_slot(budget_id)?;
        if !self.budgets[i].is_active {
            return Err(SharedBudgetError::BudgetNotActive);
        }
        if !contains_address(self.budgets[i].members.as_slice(), spender) {
            return Err(SharedBudgetError::MemberNotFound);
        }
        if self.budgets[i].balance < amount {
            return Err(SharedBudgetError::InsufficientBalance);
        }
        let mut k: usize = 0;
        while k < self.budgets[i].spending_rules.len()
            invariant
                i < self.budgets@.len(),
                k <= self.budgets@[i as int].spending_rules@.len(),
                thresholds@.len() == self.budgets@[i as int].spending_rules@.len(),
                forall|j: int| 0 <= j < k ==> !((#[trigger] self.budgets@[i as int].spending_rules@[j]).applicable_to == spender
                    && amount > thresholds@[j] && !self.budgets@[i as int].spending_rules@[j].requires_approval),
            decreases self.budgets@[i as int].spending_rules@.len() - k,
        {
            let rule = &self.budgets[i].spending_rules[k];
            if rule.applicable_to == spender && amount > thresholds[k] && !rule.requires_approval {
                return Err(SharedBudgetError::Unauthorized);
            }
            k = k + 1;
        }
        let ghost old_self = *self;
        let mut b = self.budgets.remove(i);
        b.balance = b.balance - amount;
        self.budgets.insert(i, b);
        proof {
            assert(self.budgets@ =~= old_self.budgets@.update(i as int, b));
        }
        Ok(())
    }

    /// Outcome of a spending request.
    pub open spec fn spend_check(&self, spender: Address, budget_id: u64, amount: i128, thresholds: Seq<i128>) -> Result<(), SharedBudgetError> {
        if !valid_budget_amount(amount) {
            Err(SharedBudgetError::InvalidAmount)
        } else if !self.has_budget(budget_id) {
            Err(SharedBudgetError::BudgetNotFound)
        } else if !self.budget(budget_id).is_active {
            Err(SharedBudgetError::BudgetNotActive)
        } else if !self.budget(budget_id).members@.contains(spender) {
            Err(SharedBudgetError::MemberNotFound)
        } else if self.budget(budget_id).balance < amount {
            Err(SharedBudgetError::InsufficientBalance)
        } else if rule_forbids(self.budget(budget_id).spending_rules@, thresholds, spender, amount) {
            Err(SharedBudgetError::Unauthorized)
        } else {
            Ok(())
        }
    }

    /// Hands budget `budget_id` from its creator to `new_owner`; nothing changes when they are
    /// the same account.
    pub fn transfer_budget_ownership(&mut self, current_owner: Address, budget_id: u64, new_owner: Address) -> (r: Result<(), SharedBudgetError>)
        requires
            old(self).wf(),
        ensures
            final(self).wf(),
            !old(self).has_budget(budget_id) ==> r == Err::<(), SharedBudgetError>(SharedBudgetError::BudgetNotFound),
            old(self).has_budget(budget_id) && current_owner != old(self).budget(budget_id).creator
                ==> r == Err::<(), SharedBudgetError>(SharedBudgetError::Unauthorized),
            old(self).has_budget(budget_id) && current_owner == old(self).budget(budget_id).creator ==> r is Ok,
            r is Err || current_owner == new_owner ==> *final(self) == *old(self),
            r is Ok ==> final(self).budgets@ == old(self).budgets@.update(budget_id - 1,
                Budget { creator: new_owner, ..old(self).budget(budget_id) })
                && final(self).contributions == old(self).contributions && final(self).admin == old(self).admin,
    {
        let i = self.budget_slot(budget_id)?;
        if current_owner != self.budgets[i].creator {
            return Err(SharedBudgetError::Unauthorized);
        }
        if current_owner == new_owner {
            assert(self.budgets@ =~= self.budgets@.update(i as int, Budget { creator: new_owner, ..self.budgets@[i as int] }));
            return Ok(());
        }
        let ghost old_self = *self;
        let mut b = self.budgets.remove(i);
        b.creator = new_owner;
        self.budgets.insert(i, b);
        proof {
            assert(self.budgets@ =~= old_self.budgets@.update(i as int, b));
        }
        Ok(())
    }

    /// Adds `new_member` to budget `budget_id` (its creator or the admin).
    pub fn add_member_to_budget(&mut self, caller: Address, budget_id: u64, new_member: Address) -> (r: Result<(), SharedBudgetError>)
        requires
            old(self).wf(),
        ensures
            final(self).wf(),
            !old(self).has_budget(budget_id) ==> r == Err::<(), SharedBudgetError>(SharedBudgetError::BudgetNotFound),
            old(self).has_budget(budget_id) ==> {
                let b = old(self).budget(budget_id);
                if old(self).manager_check(budget_id, caller) is Err {
                    r == Err::<(), SharedBudgetError>(old(self).manager_check(budget_id, caller)->Err_0)
                } else if b.members@.contains(new_member) {
                    r == Err::<(), SharedBudgetError>(SharedBudgetError::MemberAlreadyExists)
                } else if b.members@.len() >= MAX_BUDGET_MEMBERS {
                    r == Err::<(), SharedBudgetError>(SharedBudgetError::TooManyMembers)
                } else {
                    r is Ok
                }
            },
            r is Err ==> *final(self) == *old(self),
            r is Ok ==> {
                let b = old(self).budget(budget_id);
                &&& final(self).only_changed(old(self), budget_id - 1)
                &&& final(self).budgets@[budget_id - 1].members@ == b.members@.push(new_member)
                &&& final(self).budgets@[budget_id - 1].spending_rules == b.spending_rules
                &&& final(self).budgets@[budget_id - 1].creator == b.creator
                &&& final(self).budgets@[budget_id - 1].balance == b.balance
                &&& final(self).budgets@[budget_id - 1].total_contributed == b.total_contributed
                &&& final(self).budgets@[budget_id - 1].is_active == b.is_active
                &&& final(self).budgets@[budget_id - 1].id == b.id
            },
    {
        let i = self.budget_slot(budget_id)?;
        if caller != self.budgets[i].creator {
            self.require_admin(caller)?;
        }
        if contains_address(self.budgets[i].members.as_slice(), new_member) {
            return Err(SharedBudgetError::MemberAlreadyExists);
        }
        if self.budgets[i].members.len() >= MAX_BUDGET_MEMBERS as usize {
            return Err(SharedBudgetError::TooManyMembers);
        }
        let ghost old_self = *self;
        let mut b = self.budgets.remove(i);
        b.members.push(new_member);
        self.budgets.insert(i, b);
        proof {
            assert(self.budgets@ =~= old_self.budgets@.update(i as int, b));
        }
        Ok(())
    }

    /// Adds a spending rule to budget `budget_id` (its creator or the admin).
    pub fn add_spending_rule(&mut self, caller: Address, budget_id: u64, rule: BudgetSpendingRule) -> (r: Result<(), SharedBudgetError>)
        requires
            old(self).wf(),
        ensures
            final(self).wf(),
            !old(self).has_budget(budget_id) ==> r == Err::<(), SharedBudgetError>(SharedBudgetError::BudgetNotFound),
            old(self).has_budget(budget_id) ==> {
                let b = old(self).budget(budget_id);
                if old(self).manager_check(budget_id, caller) is Err {
                    r == Err::<(), SharedBudgetError>(old(self).manager_check(budget_id, caller)->Err_0)
                } else if !valid_percentage(rule.percentage_threshold) {
                    r == Err::<(), SharedBudgetError>(SharedBudgetError::InvalidPercentage)
                } else if b.spending_rules@.len() >= MAX_SPENDING_RULES {
                    r == Err::<(), SharedBudgetError>(SharedBudgetError::TooManyRules)
                } else {
                    r is Ok
                }
            },
            r is Err ==> *final(self) == *old(self),
            r is Ok ==> {
                let b = old(self).budget(budget_id);
                &&& final(self).only_changed(old(self), budget_id - 1)
                &&& final(self).budgets@[budget_id - 1].spending_rules@ == b.spending_rules@.push(rule)
                &&& final(self).budgets@[budget_id - 1].members == b.members
                &&& final(self).budgets@[budget_id - 1].creator == b.creator
                &&& final(self).budgets@[budget_id - 1].balance == b.balance
                &&& final(self).budgets@[budget_id - 1].total_contributed == b.total_contributed
                &&& final(self).budgets@[budget_id - 1].is_active == b.is_active
                &&& final(self).budgets@[budget_id - 1].id == b.id
            },
    {
        let i = self.budget_slot(budget_id)?;
        if caller != self.budgets[i].creator {
            self.require_admin(caller)?;
        }
        if validate_percentage(rule.percentage_threshold).is_err() {
            return Err(SharedBudgetError::InvalidPercentage);
        }
        if self.budgets[i].spending_rules.len() >= MAX_SPENDING_RULES as usize {
            return Err(SharedBudgetError::TooManyRules);
        }
        let ghost old_self = *self;
        let mut b = self.budgets.remove(i);
        b.spending_rules.push(rule);
        self.budgets.insert(i, b);
        proof {
            assert(self.budgets@ =~= old_self.budgets@.update(i as int, b));
        }
        Ok(())
    }

    /// Budget `budget_id`.
    pub fn get_budget(&self, budget_id: u64) -> (r: Result<&Budget, SharedBudgetError>)
        ensures
            self.has_budget(budget_id) ==> r == Ok::<&Budget, SharedBudgetError>(&self.budgets@[budget_id - 1]),
            !self.has_budget(budget_id) ==> r == Err::<&Budget, SharedBudgetError>(SharedBudgetError::BudgetNotFound),
    {
        let i = self.budget_slot(budget_id)?;
        Ok(&self.budgets[i])
    }

    /// Whether `member` is a member of budget `budget_id`.
    pub fn is_budget_member(&self, budget_id: u64, member: Address) -> (r: bool)
        ensures
            r == (self.has_budget(budget_id) && self.budget(budget_id).members@.contains(member)),
    {
        match self.budget_slot(budget_id) {
            Ok(i) => contains_address(self.budgets[i].members.as_slice(), member),
            Err(_) => false,
        }
    }

    /// Role of `account` in budget `budget_id`: "OWNER" for its creator, "MEMBER" for a
    /// member, "NONE" otherwise.
    pub fn get_member_role(&self, budget_id: u64, account: Address) -> (r: Result<&'static str, SharedBudgetError>)
        ensures
            !self.has_budget(budget_id) ==> r == Err::<&'static str, SharedBudgetError>(SharedBudgetError::BudgetNotFound),
            self.has_budget(budget_id) ==> r == Ok::<&'static str, SharedBudgetError>(
                if account == self.budget(budget_id).creator { "OWNER" }
                else if self.budget(budget_id).members@.contains(account) { "MEMBER" }
                else { "NONE" }),
    {
        let i = self.budget_slot(budget_id)?;
        if account == self.budgets[i].creator {
            return Ok("OWNER");
        }
        if contains_address(self.budgets[i].members.as_slice(), account) {
            Ok("MEMBER")
        } else {
            Ok("NONE")
        }
    }

    /// Utilisation of budget `budget_id`: (percent of the contributions spent, total spent,
    /// spent per member, remaining balance).
    pub fn get_budget_utilization(&self, budget_id: u64) -> (r: Result<(u32, i128, i128, i128), SharedBudgetError>)
        requires
            self.wf(),
            self.has_budget(budget_id) ==> (self.budget(budget_id).total_contributed - self.budget(budget_id).balance) * 100 <= i128::MAX,
        ensures
            !self.has_budget(budget_id) ==> r == Err::<(u32, i128, i128, i128), SharedBudgetError>(SharedBudgetError::BudgetNotFound),
            self.has_budget(budget_id) ==> r == Ok::<(u32, i128, i128, i128), SharedBudgetError>(utilization(
                self.budget(budget_id).total_contributed, self.budget(budget_id).balance, self.budget(budget_id).members@.len())),
    {
        let i = self.budget_slot(budget_id)?;
        let b = &self.budgets[i];
        let total_spent = b.total_contributed - b.balance;
        let utilization_percent: u32 = if b.total_contributed > 0 {
            proof {
                assert(total_spent * 100 / (b.total_contributed as int) <= 100) by {
                    vstd::arithmetic::div_mod::lemma_div_is_ordered(total_spent * 100, b.total_contributed * 100, b.total_contributed as int);
                    vstd::arithmetic::div_mod::lemma_div_by_multiple(100, b.total_contributed as int);
                    assert(b.total_contributed * 100 == 100 * (b.total_contributed as int));
                }
                vstd::arithmetic::div_mod::lemma_div_pos_is_pos(total_spent * 100, b.total_contributed as int);
            }
            (total_spent * 100 / b.total_contributed) as u32
        } else {
            0
        };
        let member_count = b.members.len();
        let avg: i128 = if member_count > 0 {
            proof {
                vstd::arithmetic::div_mod::lemma_div_pos_is_pos(total_spent as int, member_count as int);
                vstd::arithmetic::div_mod::lemma_div_is_ordered_by_denominator(total_spent as int, 1, member_count as int);
            }
            total_spent / (member_count as i128)
        } else {
            0
        };
        Ok((utilization_percent, total_spent, avg, b.balance))
    }

    /// Contribution `contribution_id`; a missing one is reported as `RuleNotFound`.
    pub fn get_contribution(&self, contribution_id: u64) -> (r: Result<&BudgetContribution, SharedBudgetError>)
        ensures
            1 <= contribution_id <= self.contributions@.len() ==> r == Ok::<&BudgetContribution, SharedBudgetError>(&self.contributions@[contribution_id - 1]),
            !(1 <= contribution_id <= self.contributions@.len()) ==> r == Err::<&BudgetContribution, SharedBudgetError>(SharedBudgetError::RuleNotFound),
    {
        if contribution_id < 1 || contribution_id - 1 >= self.contributions.len() as u64 {
            return Err(SharedBudgetError::RuleNotFound);
        }
        Ok(&self.contributions[(contribution_id - 1) as usize])
    }

    /// All contributions to budget `budget_id`, in the order they were made.
    pub fn get_contributions(&self, budget_id: u64) -> (r: Result<Vec<BudgetContribution>, SharedBudgetError>)
        ensures
            !self.has_budget(budget_id) ==> r is Err && r == Err::<Vec<BudgetContribution>, SharedBudgetError>(SharedBudgetError::BudgetNotFound),
            self.has_budget(budget_id) ==> (r matches Ok(v) && v@.len() == contributions_to(self.contributions@, budget_id).len()
                && forall|k: int| 0 <= k < v@.len() ==> same_contribution(#[trigger] v@[k], contributions_to(self.contributions@, budget_id)[k])),
    {
        let _ = self.budget_slot(budget_id)?;
        let mut v: Vec<BudgetContribution> = Vec::new();
        let mut i: usize = 0;
        while i < self.contributions.len()
            invariant
                i <= self.contributions@.len(),
                v@.len() == contributions_to(self.contributions@.take(i as int), budget_id).len(),
                forall|k: int| 0 <= k < v@.len() ==> same_contribution(#[trigger] v@[k], contributions_to(self.contributions@.take(i as int), budget_id)[k]),
            decreases self.contributions@.len() - i,
        {
            proof {
                assert(self.contributions@.take(i as int + 1) =~= self.contributions@.take(i as int).push(self.contributions@[i as int]));
                lemma_contributed_to_push(self.contributions@.take(i as int), self.contributions@[i as int], budget_id);
            }
            let c = &self.contributions[i];
            if c.budget_id == budget_id {
                let memo = match &c.memo {
                    Some(m) => Some(copy_bytes(m)),
                    None => None,
                };
                v.push(BudgetContribution { budget_id: c.budget_id, contributor: c.contributor, amount: c.amount, memo, timestamp: c.timestamp });
            }
            i = i + 1;
        }
        assert(self.contributions@.take(self.contributions@.len() as int) =~= self.contributions@);
        Ok(v)
    }

    /// The admin; fails with "Contract not initialized" before `initialize`.
    pub fn get_admin(&self) -> (r: Result<Address, &'static str>)
        ensures
            self.admin matches Some(a) ==> r == Ok::<Address, &'static str>(a),
            self.admin is None ==> r == Err::<Address, &'static str>("Contract not initialized"),
    {
        match self.admin {
            Some(a) => Ok(a),
            None => Err("Contract not initialized"),
        }
    }

    /// Replaces the admin (current admin only).
    pub fn set_admin(&mut self, current_admin: Address, new_admin: Address) -> (r: Result<(), SharedBudgetError>)
        requires
            old(self).wf(),
        ensures
            final(self).wf(),
            r == old(self).admin_check(current_admin),
            r is Err ==> *final(self) == *old(self),
            r is Ok ==> *final(self) == (SharedBudgetContract { admin: Some(new_admin), ..*old(self) }),
    {
        self.require_admin(current_admin)?;
        self.admin = Some(new_admin);
        Ok(())
    }

    /// Number of budgets created.
    pub fn get_total_budgets_created(&self) -> (r: u64)
        requires
            self.budgets@.len() <= u64::MAX,
        ensures
            r == self.budgets@.len(),
    {
        self.budgets.len() as u64
    }

    /// Number of contributions recorded.
    pub fn get_total_contribs_processed(&self) -> (r: u64)
        requires
            self.contributions@.len() <= u64::MAX,
        ensures
            r == self.contributions@.len(),
    {
        self.contributions.len() as u64
    }
}

} // verus!
