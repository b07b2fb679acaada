//! Fee escrow: fees are collected into per-cycle pending buckets held in escrow, then
//! released to the treasury or rolled over to a later cycle; the stored escrow balance can
//! be reconciled against the collected and released totals at any time.
use vstd::prelude::*;
use std::collections::HashMap;
use crate::fee_math::{FeeContractError, MAX_FEE_BPS};
use crate::fees::Address;
use crate::text::bytes_eq;

verus! {

broadcast use vstd::std_specs::hash::group_hash_axioms;

/// Largest batch accepted by a batched collection.
pub const MAX_BATCH_SIZE: u32 = 100;

/// Default fee rate (5%).
pub const DEFAULT_FEE_BPS: u32 = 500;

/// Default minimum fee.
pub const DEFAULT_MIN_FEE: i128 = 0;

/// Default maximum fee.
pub const DEFAULT_MAX_FEE: i128 = 1_000_000;

/// Configuration of the escrow contract.
#[derive(Copy, Clone, Debug, PartialEq, Eq, Structural)]
pub struct FeeConfig {
    pub admin: Address,
    pub token: Address,
    pub treasury: Address,
    pub fee_bps: u32,
    pub min_fee: i128,
    pub max_fee: i128,
    pub is_locked: bool,
    pub current_cycle: u64,
}

/// Running totals of the escrow.
#[derive(Copy, Clone, Debug, PartialEq, Eq, Structural)]
pub struct FeeStats {
    pub escrow_balance: i128,
    pub total_collected: i128,
    pub total_released: i128,
    pub total_batch_calls: u64,
}

/// Outcome of a batched collection.
#[derive(Copy, Clone, Debug, PartialEq, Eq, Structural)]
pub struct BatchFeeResult {
    pub batch_size: u32,
    pub total_amount: i128,
    pub cycle: u64,
    pub pending_fees: i128,
}

/// Stored escrow balance compared with `total_collected - total_released`.
#[derive(Copy, Clone, Debug, PartialEq, Eq, Structural)]
pub struct ReconciliationResult {
    pub stored_balance: i128,
    pub calculated_balance: i128,
    pub discrepancy: i128,
    pub is_reconciled: bool,
}

/// Fees pending in one cycle.
#[derive(Copy, Clone, Debug, PartialEq, Eq, Structural)]
pub struct PendingEntry {
    pub cycle: u64,
    pub amount: i128,
}

/// Pending fees of `cycle` in `s` (zero when the cycle has no entry).
pub open spec fn pending_in(s: Seq<PendingEntry>, cycle: u64) -> i128 {
    if exists|i: int| 0 <= i < s.len() && (#[trigger] s[i]).cycle == cycle {
        s[choose|i: int| 0 <= i < s.len() && (#[trigger] s[i]).cycle == cycle].amount
    } else {
        0
    }
}

/// Sum of all pending fees.
pub open spec fn pending_total(s: Seq<PendingEntry>) -> int
    decreases s.len(),
{
    if s.len() == 0 { 0 } else { pending_total(s.drop_last()) + s.last().amount }
}

/// Sum of a list of amounts.
pub open spec fn amount_sum(s: Seq<i128>) -> int
    decreases s.len(),
{
    if s.len() == 0 { 0 } else { amount_sum(s.drop_last()) + s.last() }
}

/// Whether an amount is acceptable for collection under `min_fee`.
pub open spec fn collectable(amount: i128, min_fee: i128) -> bool {
    amount > 0 && amount >= min_fee
}

/// The escrow contract's state.
pub struct FeeLedger {
    pub config: Option<FeeConfig>,
    pub stats: FeeStats,
    pub pending: Vec<PendingEntry>,
    pub last_active: HashMap<Address, u64>,
    pub tiers: HashMap<Address, Vec<u8>>,
}

impl FeeLedger {
    /// Invariant: cycles appear once, pending amounts are non-negative and the stored escrow
    /// balance equals everything collected minus everything released.
    pub open spec fn wf(&self) -> bool {
        &&& forall|i: int, j: int| 0 <= i < self.pending@.len() && 0 <= j < self.pending@.len() && i != j
            ==> (#[trigger] self.pending@[i]).cycle != (#[trigger] self.pending@[j]).cycle
        &&& forall|i: int| 0 <= i < self.pending@.len() ==> (#[trigger] self.pending@[i]).amount >= 0
        &&& self.stats.escrow_balance == self.stats.total_collected - self.stats.total_released
    }

    /// The escrow balance equals the sum of the pending fees of all cycles.
    pub open spec fn escrow_matches_pending(&self) -> bool {
        pending_total(self.pending@) == self.stats.escrow_balance
    }

    /// Pending fees of `cycle`.
    pub open spec fn pending_of(&self, cycle: u64) -> i128 {
        pending_in(self.pending@, cycle)
    }

    /// A fresh, unconfigured escrow.
    pub fn new() -> (r: FeeLedger)
        ensures
            r.wf(),
            r.escrow_matches_pending(),
            r.config is None,
            r.stats == (FeeStats { escrow_balance: 0, total_collected: 0, total_released: 0, total_batch_calls: 0 }),
            forall|c: u64| r.pending_of(c) == 0,
            r.pending@.len() == 0,
            r.last_active@ == Map::<Address, u64>::empty(),
            r.tiers@ == Map::<Address, Vec<u8>>::empty(),
    {
        FeeLedger {
            config: None,
            stats: FeeStats { escrow_balance: 0, total_collected: 0, total_released: 0, total_batch_calls: 0 },
            pending: Vec::new(),
            last_active: HashMap::new(),
            tiers: HashMap::new(),
        }
    }
}

} // verus!

verus! {

/// Cycles in `s` are distinct.
pub open spec fn distinct_cycles(s: Seq<PendingEntry>) -> bool {
    forall|i: int, j: int| 0 <= i < s.len() && 0 <= j < s.len() && i != j
        ==> (#[trigger] s[i]).cycle != (#[trigger] s[j]).cycle
}

/// With distinct cycles, the pending amount of a present cycle is its entry's amount.
proof fn lemma_pending_in_at(s: Seq<PendingEntry>, i: int)
    requires
        distinct_cycles(s),
        0 <= i < s.len(),
    ensures
        pending_in(s, s[i].cycle) == s[i].amount,
{
    let c = s[i].cycle;
    assert(exists|k: int| 0 <= k < s.len() && (#[trigger] s[k]).cycle == c);
    let k = choose|k: int| 0 <= k < s.len() && (#[trigger] s[k]).cycle == c;
    assert(k == i);
}

/// Replacing the amount of entry `i` changes the total by the difference.
proof fn lemma_total_update(s: Seq<PendingEntry>, i: int, e: PendingEntry)
    requires
        0 <= i < s.len(),
    ensures
        pending_total(s.update(i, e)) == pending_total(s) - s[i].amount + e.amount,
    decreases s.len(),
{
    if i == s.len() - 1 {
        assert(s.update(i, e).drop_last() =~= s.drop_last());
    } else {
        lemma_total_update(s.drop_last(), i, e);
        assert(s.update(i, e).drop_last() =~= s.drop_last().update(i, e));
    }
}

/// Pending amounts of other cycles are unaffected by changing entry `i` (keeping its cycle).
proof fn lemma_pending_in_update_other(s: Seq<PendingEntry>, i: int, e: PendingEntry, c: u64)
    requires
        distinct_cycles(s),
        0 <= i < s.len(),
        e.cycle == s[i].cycle,
        c != e.cycle,
    ensures
        pending_in(s.update(i, e), c) == pending_in(s, c),
        distinct_cycles(s.update(i, e)),
{
    let t = s.update(i, e);
    assert(distinct_cycles(t));
    if exists|k: int| 0 <= k < s.len() && (#[trigger] s[k]).cycle == c {
        let k = choose|k: int| 0 <= k < s.len() && (#[trigger] s[k]).cycle == c;
        lemma_pending_in_at(s, k);
        assert(t[k] == s[k]);
        lemma_pending_in_at(t, k);
    } else {
        assert forall|k: int| 0 <= k < t.len() implies (#[trigger] t[k]).cycle != c by {
            if k != i {
                assert(t[k] == s[k]);
            }
        }
    }
}

/// Pending amounts of other cycles are unaffected by appending an entry for a new cycle.
proof fn lemma_pending_in_push_other(s: Seq<PendingEntry>, e: PendingEntry, c: u64)
    requires
        distinct_cycles(s),
        forall|k: int| 0 <= k < s.len() ==> (#[trigger] s[k]).cycle != e.cycle,
        c != e.cycle,
    ensures
        pending_in(s.push(e), c) == pending_in(s, c),
        distinct_cycles(s.push(e)),
        pending_in(s.push(e), e.cycle) == e.amount,
        pending_total(s.push(e)) == pending_total(s) + e.amount,
{
    let t = s.push(e);
    assert(t.drop_last() =~= s);
    assert(distinct_cycles(t));
    lemma_pending_in_at(t, s.len() as int);
    if exists|k: int| 0 <= k < s.len() && (#[trigger] s[k]).cycle == c {
        let k = choose|k: int| 0 <= k < s.len() && (#[trigger] s[k]).cycle == c;
        lemma_pending_in_at(s, k);
        assert(t[k] == s[k]);
        lemma_pending_in_at(t, k);
    } else {
        assert forall|k: int| 0 <= k < t.len() implies (#[trigger] t[k]).cycle != c by {
            if k < s.len() {
                assert(t[k] == s[k]);
            }
        }
    }
}

/// A cycle without an entry has nothing pending.
proof fn lemma_pending_in_absent(s: Seq<PendingEntry>, c: u64)
    requires
        forall|k: int| 0 <= k < s.len() ==> (#[trigger] s[k]).cycle != c,
    ensures
        pending_in(s, c) == 0,
{
}

/// Pending totals are non-negative when every amount is.
proof fn lemma_total_nonneg(s: Seq<PendingEntry>)
    requires
        forall|i: int| 0 <= i < s.len() ==> (#[trigger] s[i]).amount >= 0,
    ensures
        pending_total(s) >= 0,
    decreases s.len(),
{
    if s.len() > 0 {
        lemma_total_nonneg(s.drop_last());
    }
}

impl FeeLedger {
    /// Index of the entry of `cycle`, if any.
    fn find_cycle(&self, cycle: u64) -> (r: Option<usize>)
        ensures
            r matches Some(i) ==> i < self.pending@.len() && self.pending@[i as int].cycle == cycle,
            r is None ==> forall|k: int| 0 <= k < self.pending@.len() ==> (#[trigger] self.pending@[k]).cycle != cycle,
    {
        let mut i: usize = 0;
        while i < self.pending.len()
            invariant
                i <= self.pending@.len(),
                forall|k: int| 0 <= k < i ==> (#[trigger] self.pending@[k]).cycle != cycle,
            decreases self.pending@.len() - i,
        {
            if self.pending[i].cycle == cycle {
                return Some(i);
            }
            i = i + 1;
        }
        None
    }

    /// Pending fees of `cycle` (zero if none).
    pub fn read_pending_fees(&self, cycle: u64) -> (r: i128)
        requires
            self.wf(),
        ensures
            r == self.pending_of(cycle),
    {
        match self.find_cycle(cycle) {
            Some(i) => {
                proof { lemma_pending_in_at(self.pending@, i as int); }
                self.pending[i].amount
            },
            None => 0,
        }
    }

    /// Sets the pending fees of `cycle` to `amount` (non-negative), leaving other cycles alone.
    fn write_pending_fees(&mut self, cycle: u64, amount: i128)
        requires
            old(self).wf(),
            amount >= 0,
        ensures
            final(self).wf(),
            final(self).pending_of(cycle) == amount,
            forall|c: u64| c != cycle ==> final(self).pending_of(c) == old(self).pending_of(c),
            pending_total(final(self).pending@) == pending_total(old(self).pending@) - old(self).pending_of(cycle) + amount,
            final(self).config == old(self).config,
            final(self).stats == old(self).stats,
            final(self).last_active@ == old(self).last_active@,
            final(self).tiers@ == old(self).tiers@,
    {
        let e = PendingEntry { cycle, amount };
        match self.find_cycle(cycle) {
            Some(i) => {
                let ghost s = self.pending@;
                proof {
                    lemma_pending_in_at(s, i as int);
                    lemma_total_update(s, i as int, e);
                }
                self.pending.set(i, e);
                proof {
                    assert(self.pending@ == s.update(i as int, e));
                    assert forall|c: u64| c != cycle implies self.pending_of(c) == old(self).pending_of(c) by {
                        lemma_pending_in_update_other(s, i as int, e, c);
                    }
                    lemma_pending_in_update_other(s, i as int, e, if cycle == 0 { 1 } else { 0 });
                    lemma_pending_in_at(self.pending@, i as int);
                }
            },
            None => {
                let ghost s = self.pending@;
                proof {
                    lemma_pending_in_absent(s, cycle);
                }
                self.pending.push(e);
                proof {
                    assert forall|c: u64| c != cycle implies self.pending_of(c) == old(self).pending_of(c) by {
                        lemma_pending_in_push_other(s, e, c);
                    }
                    lemma_pending_in_push_other(s, e, if cycle == 0 { 1 } else { 0 });
                }
            },
        }
    }
}

} // verus!

verus! {

/// Whether the first `n` amounts are all collectable.
pub open spec fn all_collectable_before(s: Seq<i128>, n: int, min_fee: i128) -> bool {
    forall|j: int| 0 <= j < n ==> collectable(#[trigger] s[j], min_fee)
}

/// Whether the running total stays within `i128` for the first `n` additions.
pub open spec fn amount_sums_fit_before(s: Seq<i128>, n: int) -> bool {
    forall|j: int| 0 <= j < n ==> amount_sum(#[trigger] s.take(j + 1)) <= i128::MAX
}

/// The batch meets an amount that is not collectable before its running total overflows.
pub open spec fn batch_has_invalid(s: Seq<i128>, min_fee: i128) -> bool {
    exists|i: int| 0 <= i < s.len() && !collectable(#[trigger] s[i], min_fee)
        && all_collectable_before(s, i, min_fee) && amount_sums_fit_before(s, i)
}

/// The running total of the batch leaves `i128` before an invalid amount is met.
pub open spec fn batch_overflows(s: Seq<i128>, min_fee: i128) -> bool {
    exists|i: int| 0 <= i < s.len() && all_collectable_before(s, i + 1, min_fee)
        && amount_sums_fit_before(s, i) && amount_sum(#[trigger] s.take(i + 1)) > i128::MAX
}

proof fn lemma_amount_sum_step(s: Seq<i128>, i: int)
    requires
        0 <= i < s.len(),
    ensures
        amount_sum(s.take(i + 1)) == amount_sum(s.take(i)) + s[i],
{
    assert(s.take(i + 1).drop_last() =~= s.take(i));
}

/// `new` is `old` with `amount` added to the pending fees of `cycle`, to the escrow balance
/// and to the collected total.
pub open spec fn collected_into(old: &FeeLedger, new: &FeeLedger, cycle: u64, amount: int) -> bool {
    &&& new.pending_of(cycle) == old.pending_of(cycle) + amount
    &&& forall|c: u64| c != cycle ==> new.pending_of(c) == old.pending_of(c)
    &&& new.stats.escrow_balance == old.stats.escrow_balance + amount
    &&& new.stats.total_collected == old.stats.total_collected + amount
    &&& new.stats.total_released == old.stats.total_released
    &&& new.config == old.config
    &&& new.last_active@ == old.last_active@
    &&& new.tiers@ == old.tiers@
}

impl FeeLedger {
    /// Configures the escrow: admin, token, treasury, rate (1..=10_000 bps) and starting cycle,
    /// with the default bounds and unlocked; only once.
    pub fn initialize(&mut self, admin: Address, token: Address, treasury: Address, fee_bps: u32, cycle: u64) -> (r: Result<(), FeeContractError>)
        requires
            old(self).wf(),
        ensures
            final(self).wf(),
            old(self).config is Some ==> r == Err::<(), FeeContractError>(FeeContractError::AlreadyInitialized),
            old(self).config is None && (fee_bps == 0 || fee_bps > MAX_FEE_BPS)
                ==> r == Err::<(), FeeContractError>(FeeContractError::InvalidConfig),
            r is Ok <==> old(self).config is None && 0 < fee_bps <= MAX_FEE_BPS,
            r is Ok ==> final(self).config == Some(FeeConfig {
                admin, token, treasury, fee_bps,
                min_fee: DEFAULT_MIN_FEE, max_fee: DEFAULT_MAX_FEE, is_locked: false, current_cycle: cycle,
            }),
            final(self).stats == old(self).stats,
            final(self).pending@ == old(self).pending@,
            r is Err ==> final(self).config == old(self).config,
    {
        if self.config.is_some() {
            return Err(FeeContractError::AlreadyInitialized);
        }
        match crate::fee_math::validate_fee_bps(fee_bps) {
            Err(e) => { return Err(e); },
            Ok(()) => {},
        }
        self.config = Some(FeeConfig {
            admin, token, treasury, fee_bps,
            min_fee: DEFAULT_MIN_FEE, max_fee: DEFAULT_MAX_FEE, is_locked: false, current_cycle: cycle,
        });
        Ok(())
    }

    /// Adds `amount` to the pending fees of the current cycle, the escrow balance and the
    /// collected total; returns the cycle's new pending total. The caller moves `amount` from
    /// the payer into the contract. Fails with `InvalidAmount` for a non-positive amount or one
    /// below the minimum fee, `NotInitialized` without configuration and `Overflow` when a
    /// total would leave `i128`; nothing changes on failure.
    pub fn collect_to_escrow(&mut self, payer: Address, amount: i128) -> (r: Result<i128, FeeContractError>)
        requires
            old(self).wf(),
        ensures
            final(self).wf(),
            old(self).escrow_matches_pending() ==> final(self).escrow_matches_pending(),
            amount <= 0 ==> r == Err::<i128, FeeContractError>(FeeContractError::InvalidAmount),
            amount > 0 && old(self).config is None ==> r == Err::<i128, FeeContractError>(FeeContractError::NotInitialized),
            amount > 0 ==> (old(self).config matches Some(cfg) ==> {
                let cycle = cfg.current_cycle;
                if amount < cfg.min_fee {
                    r == Err::<i128, FeeContractError>(FeeContractError::InvalidAmount)
                } else if old(self).pending_of(cycle) + amount > i128::MAX
                    || old(self).stats.escrow_balance + amount > i128::MAX
                    || old(self).stats.total_collected + amount > i128::MAX {
                    r == Err::<i128, FeeContractError>(FeeContractError::Overflow)
                } else {
                    &&& r == Ok::<i128, FeeContractError>((old(self).pending_of(cycle) + amount) as i128)
                    &&& collected_into(old(self), final(self), cycle, amount as int)
                    &&& final(self).stats.total_batch_calls == old(self).stats.total_batch_calls
                }
            }),
            r is Err ==> final(self).pending@ == old(self).pending@ && final(self).stats == old(self).stats
                && final(self).config == old(self).config,
    {
        if amount <= 0 {
            return Err(FeeContractError::InvalidAmount);
        }
        let cfg = match self.config {
            Some(c) => c,
            None => { return Err(FeeContractError::NotInitialized); },
        };
        if amount < cfg.min_fee {
            return Err(FeeContractError::InvalidAmount);
        }
        let cycle = cfg.current_cycle;
        let pending = match self.read_pending_fees(cycle).checked_add(amount) {
            Some(v) => v,
            None => { return Err(FeeContractError::Overflow); },
        };
        let escrow = match self.stats.escrow_balance.checked_add(amount) {
            Some(v) => v,
            None => { return Err(FeeContractError::Overflow); },
        };
        let collected = match self.stats.total_collected.checked_add(amount) {
            Some(v) => v,
            None => { return Err(FeeContractError::Overflow); },
        };
        self.write_pending_fees(cycle, pending);
        self.stats.escrow_balance = escrow;
        self.stats.total_collected = collected;
        Ok(pending)
    }

    /// Collects a batch of amounts at once: every amount must be collectable (checked in
    /// order), their sum is added like a single collection and the batch counter grows by one.
    #[verifier::loop_isolation(false)]
    pub fn collect_batch_to_escrow(&mut self, payer: Address, amounts: &[i128]) -> (r: Result<BatchFeeResult, FeeContractError>)
        requires
            old(self).wf(),
            amounts@.len() <= u32::MAX,
        ensures
            final(self).wf(),
            old(self).escrow_matches_pending() ==> final(self).escrow_matches_pending(),
            old(self).config is None ==> r == Err::<BatchFeeResult, FeeContractError>(FeeContractError::NotInitialized),
            old(self).config matches Some(cfg) ==> {
                let s = amounts@;
                let cycle = cfg.current_cycle;
                let total = amount_sum(s);
                if batch_has_invalid(s, cfg.min_fee) {
                    r == Err::<BatchFeeResult, FeeContractError>(FeeContractError::InvalidAmount)
                } else if batch_overflows(s, cfg.min_fee) {
                    r == Err::<BatchFeeResult, FeeContractError>(FeeContractError::Overflow)
                } else if old(self).pending_of(cycle) + total > i128::MAX
                    || old(self).stats.escrow_balance + total > i128::MAX
                    || old(self).stats.total_collected + total > i128::MAX
                    || old(self).stats.total_batch_calls == u64::MAX {
                    r == Err::<BatchFeeResult, FeeContractError>(FeeContractError::Overflow)
                } else {
                    &&& r == Ok::<BatchFeeResult, FeeContractError>(BatchFeeResult {
                        batch_size: s.len() as u32,
                        total_amount: total as i128,
                        cycle,
                        pending_fees: (old(self).pending_of(cycle) + total) as i128,
                    })
                    &&& collected_into(old(self), final(self), cycle, total)
                    &&& final(self).stats.total_batch_calls == old(self).stats.total_batch_calls + 1
                }
            },
            r is Err ==> final(self).pending@ == old(self).pending@ && final(self).stats == old(self).stats
                && final(self).config == old(self).config,
    {
        let cfg = match self.config {
            Some(c) => c,
            None => { return Err(FeeContractError::NotInitialized); },
        };
        let min_fee = cfg.min_fee;
        let ghost s = amounts@;
        let mut total_amount: i128 = 0;
        let mut i: usize = 0;
        assert(s.take(0) =~= Seq::<i128>::empty());
        while i < amounts.len()
            invariant
                s == amounts@,
                i <= s.len(),
                total_amount == amount_sum(s.take(i as int)),
                total_amount >= 0,
                all_collectable_before(s, i as int, min_fee),
                amount_sums_fit_before(s, i as int),
            decreases s.len() - i,
        {
            let amount = amounts[i];
            proof { lemma_amount_sum_step(s, i as int); }
            if amount <= 0 || amount < min_fee {
                proof {
                    assert(!collectable(s[i as int], min_fee));
                    assert forall|k: int| 0 <= k < s.len() && all_collectable_before(s, k + 1, min_fee)
                        && amount_sums_fit_before(s, k) implies amount_sum(#[trigger] s.take(k + 1)) <= i128::MAX by {
                        if k >= i {
                            assert(collectable(s[i as int], min_fee));
                        }
                    }
                }
                return Err(FeeContractError::InvalidAmount);
            }
            match total_amount.checked_add(amount) {
                Some(v) => { total_amount = v; },
                None => {
                    proof {
                        assert(all_collectable_before(s, i + 1, min_fee));
                        assert forall|b: int| 0 <= b < s.len() && !collectable(#[trigger] s[b], min_fee)
                            && all_collectable_before(s, b, min_fee) implies !amount_sums_fit_before(s, b) by {
                            if b <= i {
                                assert(collectable(s[b], min_fee));
                            } else {
                                assert(amount_sum(s.take(i + 1)) > i128::MAX);
                            }
                        }
                    }
                    return Err(FeeContractError::Overflow);
                },
            }
            i = i + 1;
        }
        proof {
            assert(s.take(s.len() as int) =~= s);
            assert forall|k: int| 0 <= k < s.len() && all_collectable_before(s, k + 1, min_fee)
                && amount_sums_fit_before(s, k) implies amount_sum(#[trigger] s.take(k + 1)) <= i128::MAX by {
                assert(amount_sums_fit_before(s, s.len() as int));
            }
            assert forall|b: int| 0 <= b < s.len() implies collectable(#[trigger] s[b], min_fee) by {
                assert(all_collectable_before(s, s.len() as int, min_fee));
            }
        }
        let cycle = cfg.current_cycle;
        let pending = match self.read_pending_fees(cycle).checked_add(total_amount) {
            Some(v) => v,
            None => { return Err(FeeContractError::Overflow); },
        };
        let escrow = match self.stats.escrow_balance.checked_add(total_amount) {
            Some(v) => v,
            None => { return Err(FeeContractError::Overflow); },
        };
        let collected = match self.stats.total_collected.checked_add(total_amount) {
            Some(v) => v,
            None => { return Err(FeeContractError::Overflow); },
        };
        let calls = match self.stats.total_batch_calls.checked_add(1) {
            Some(v) => v,
            None => { return Err(FeeContractError::Overflow); },
        };
        proof {
            assert(pending >= 0) by {
                lemma_total_nonneg(self.pending@);
                if exists|k: int| 0 <= k < self.pending@.len() && (#[trigger] self.pending@[k]).cycle == cycle {
                    let k = choose|k: int| 0 <= k < self.pending@.len() && (#[trigger] self.pending@[k]).cycle == cycle;
                    assert(self.pending@[k].amount >= 0);
                }
            }
        }
        self.write_pending_fees(cycle, pending);
        self.stats.escrow_balance = escrow;
        self.stats.total_collected = collected;
        self.stats.total_batch_calls = calls;
        Ok(BatchFeeResult { batch_size: amounts.len() as u32, total_amount, cycle, pending_fees: pending })
    }

    /// Releases all pending fees of `cycle` from escrow to the treasury (the caller moves the
    /// returned amount from the contract to the treasury): the cycle's pending fees become
    /// zero, the escrow balance shrinks and the released total grows by that amount.
    pub fn release_cycle_fees(&mut self, cycle: u64) -> (r: Result<i128, FeeContractError>)
        requires
            old(self).wf(),
        ensures
            final(self).wf(),
            old(self).escrow_matches_pending() ==> final(self).escrow_matches_pending(),
            old(self).pending_of(cycle) <= 0 ==> r == Err::<i128, FeeContractError>(FeeContractError::NoPendingFees),
            old(self).pending_of(cycle) > 0 ==> {
                let p = old(self).pending_of(cycle);
                if old(self).config is None {
                    r == Err::<i128, FeeContractError>(FeeContractError::NotInitialized)
                } else if old(self).stats.escrow_balance - p < i128::MIN {
                    r == Err::<i128, FeeContractError>(FeeContractError::InsufficientEscrow)
                } else if old(self).stats.total_released + p > i128::MAX {
                    r == Err::<i128, FeeContractError>(FeeContractError::Overflow)
                } else {
                    &&& r == Ok::<i128, FeeContractError>(p)
                    &&& final(self).pending_of(cycle) == 0
                    &&& forall|c: u64| c != cycle ==> final(self).pending_of(c) == old(self).pending_of(c)
                    &&& final(self).stats == (FeeStats {
                        escrow_balance: (old(self).stats.escrow_balance - p) as i128,
                        total_released: (old(self).stats.total_released + p) as i128,
                        ..old(self).stats
                    })
                    &&& final(self).config == old(self).config
                }
            },
            r is Err ==> final(self).pending@ == old(self).pending@ && final(self).stats == old(self).stats
                && final(self).config == old(self).config,
    {
        let pending = self.read_pending_fees(cycle);
        if pending <= 0 {
            return Err(FeeContractError::NoPendingFees);
        }
        if self.config.is_none() {
            return Err(FeeContractError::NotInitialized);
        }
        let escrow = match self.stats.escrow_balance.checked_sub(pending) {
            Some(v) => v,
            None => { return Err(FeeContractError::InsufficientEscrow); },
        };
        let released = match self.stats.total_released.checked_add(pending) {
            Some(v) => v,
            None => { return Err(FeeContractError::Overflow); },
        };
        self.write_pending_fees(cycle, 0);
        self.stats.escrow_balance = escrow;
        self.stats.total_released = released;
        Ok(pending)
    }

    /// Moves the pending fees of `from_cycle` to `to_cycle` and returns them. Escrow and
    /// totals are unchanged; with `from_cycle == to_cycle` the pending fees of that cycle are
    /// cleared.
    pub fn rollover_cycle_fees(&mut self, from_cycle: u64, to_cycle: u64) -> (r: Result<i128, FeeContractError>)
        requires
            old(self).wf(),
        ensures
            final(self).wf(),
            from_cycle != to_cycle && old(self).escrow_matches_pending() ==> final(self).escrow_matches_pending(),
            ({
                let p = old(self).pending_of(from_cycle);
                if p > 0 && old(self).pending_of(to_cycle) + p > i128::MAX {
                    r == Err::<i128, FeeContractError>(FeeContractError::Overflow)
                } else {
                    &&& r == Ok::<i128, FeeContractError>(p)
                    &&& final(self).pending_of(from_cycle) == 0
                    &&& from_cycle != to_cycle ==> final(self).pending_of(to_cycle) == old(self).pending_of(to_cycle) + p
                    &&& forall|c: u64| c != from_cycle && c != to_cycle ==> final(self).pending_of(c) == old(self).pending_of(c)
                    &&& final(self).stats == old(self).stats
                    &&& final(self).config == old(self).config
                }
            }),
            r is Err ==> final(self).pending@ == old(self).pending@ && final(self).stats == old(self).stats,
    {
        let pending = self.read_pending_fees(from_cycle);
        proof {
            if exists|k: int| 0 <= k < self.pending@.len() && (#[trigger] self.pending@[k]).cycle == from_cycle {
                let k = choose|k: int| 0 <= k < self.pending@.len() && (#[trigger] self.pending@[k]).cycle == from_cycle;
                assert(self.pending@[k].amount >= 0);
            }
        }
        if pending > 0 {
            let to_pending = self.read_pending_fees(to_cycle);
            proof {
                if exists|k: int| 0 <= k < self.pending@.len() && (#[trigger] self.pending@[k]).cycle == to_cycle {
                    let k = choose|k: int| 0 <= k < self.pending@.len() && (#[trigger] self.pending@[k]).cycle == to_cycle;
                    assert(self.pending@[k].amount >= 0);
                }
            }
            let updated = match to_pending.checked_add(pending) {
                Some(v) => v,
                None => { return Err(FeeContractError::Overflow); },
            };
            self.write_pending_fees(to_cycle, updated);
        }
        self.write_pending_fees(from_cycle, 0);
        Ok(pending)
    }

    /// Compares the stored escrow balance with `total_collected - total_released`; the
    /// invariant makes them equal, so the result is always reconciled.
    pub fn reconcile(&self) -> (r: ReconciliationResult)
        requires
            self.wf(),
        ensures
            r.stored_balance == self.stats.escrow_balance,
            r.calculated_balance == self.stats.total_collected - self.stats.total_released,
            r.discrepancy == r.stored_balance - r.calculated_balance,
            r.is_reconciled == (r.discrepancy == 0),
            r.discrepancy == 0,
            r.is_reconciled,
    {
        let stored_balance = self.stats.escrow_balance;
        let calculated_balance = self.stats.total_collected - self.stats.total_released;
        let discrepancy = stored_balance - calculated_balance;
        ReconciliationResult { stored_balance, calculated_balance, discrepancy, is_reconciled: discrepancy == 0 }
    }
}

} // verus!

verus! {

/// "bronze".
pub open spec fn tier_bronze() -> Seq<u8> { seq![98u8, 114u8, 111u8, 110u8, 122u8, 101u8] }

/// "silver".
pub open spec fn tier_silver() -> Seq<u8> { seq![115u8, 105u8, 108u8, 118u8, 101u8, 114u8] }

/// "gold".
pub open spec fn tier_gold() -> Seq<u8> { seq![103u8, 111u8, 108u8, 100u8] }

/// "platinum".
pub open spec fn tier_platinum() -> Seq<u8> { seq![112u8, 108u8, 97u8, 116u8, 105u8, 110u8, 117u8, 109u8] }

/// Whether `tier` names a fee tier: bronze, silver, gold or platinum.
pub fn is_valid_tier(tier: &[u8]) -> (r: bool)
    ensures
        r == (tier@ == tier_bronze() || tier@ == tier_silver() || tier@ == tier_gold() || tier@ == tier_platinum()),
{
    let bronze: [u8; 6] = [98u8, 114u8, 111u8, 110u8, 122u8, 101u8];
    let silver: [u8; 6] = [115u8, 105u8, 108u8, 118u8, 101u8, 114u8];
    let gold: [u8; 4] = [103u8, 111u8, 108u8, 100u8];
    let platinum: [u8; 8] = [112u8, 108u8, 97u8, 116u8, 105u8, 110u8, 117u8, 109u8];
    assert(bronze@ =~= tier_bronze());
    assert(silver@ =~= tier_silver());
    assert(gold@ =~= tier_gold());
    assert(platinum@ =~= tier_platinum());
    bytes_eq(tier, bronze.as_slice()) || bytes_eq(tier, silver.as_slice()) || bytes_eq(tier, gold.as_slice())
        || bytes_eq(tier, platinum.as_slice())
}

impl FeeLedger {
    /// Whether the escrow has been configured.
    pub fn has_admin(&self) -> (r: bool)
        ensures
            r == self.config is Some,
    {
        self.config.is_some()
    }

    /// Whether the escrow has been configured.
    pub fn has_fee_config(&self) -> (r: bool)
        ensures
            r == self.config is Some,
    {
        self.has_admin()
    }

    /// The configuration; fails with "Contract not initialized" before `initialize`.
    fn read_config(&self) -> (r: Result<FeeConfig, &'static str>)
        ensures
            self.config matches Some(c) ==> r == Ok::<FeeConfig, &'static str>(c),
            self.config is None ==> r == Err::<FeeConfig, &'static str>("Contract not initialized"),
    {
        match self.config {
            Some(c) => Ok(c),
            None => Err("Contract not initialized"),
        }
    }

    /// Whether `self` is `old` with the configuration replaced by `c`.
    pub open spec fn config_written(&self, old: &Self, c: FeeConfig) -> bool {
        &&& self.config == Some(c)
        &&& self.stats == old.stats
        &&& self.pending == old.pending
        &&& self.last_active == old.last_active
        &&& self.tiers == old.tiers
    }

    /// The admin.
    pub fn read_admin(&self) -> (r: Result<Address, &'static str>)
        ensures
            self.config matches Some(c) ==> r == Ok::<Address, &'static str>(c.admin),
            self.config is None ==> r == Err::<Address, &'static str>("Contract not initialized"),
    {
        Ok(self.read_config()?.admin)
    }

    /// The token fees are paid in.
    pub fn read_token(&self) -> (r: Result<Address, &'static str>)
        ensures
            self.config matches Some(c) ==> r == Ok::<Address, &'static str>(c.token),
            self.config is None ==> r == Err::<Address, &'static str>("Contract not initialized"),
    {
        Ok(self.read_config()?.token)
    }

    /// The treasury.
    pub fn read_treasury(&self) -> (r: Result<Address, &'static str>)
        ensures
            self.config matches Some(c) ==> r == Ok::<Address, &'static str>(c.treasury),
            self.config is None ==> r == Err::<Address, &'static str>("Contract not initialized"),
    {
        Ok(self.read_config()?.treasury)
    }

    /// The fee rate in basis points.
    pub fn read_fee_bps(&self) -> (r: Result<u32, &'static str>)
        ensures
            self.config matches Some(c) ==> r == Ok::<u32, &'static str>(c.fee_bps),
            self.config is None ==> r == Err::<u32, &'static str>("Contract not initialized"),
    {
        Ok(self.read_config()?.fee_bps)
    }

    /// The minimum fee.
    pub fn read_min_fee(&self) -> (r: Result<i128, &'static str>)
        ensures
            self.config matches Some(c) ==> r == Ok::<i128, &'static str>(c.min_fee),
            self.config is None ==> r == Err::<i128, &'static str>("Contract not initialized"),
    {
        Ok(self.read_config()?.min_fee)
    }

    /// The maximum fee.
    pub fn read_max_fee(&self) -> (r: Result<i128, &'static str>)
        ensures
            self.config matches Some(c) ==> r == Ok::<i128, &'static str>(c.max_fee),
            self.config is None ==> r == Err::<i128, &'static str>("Contract not initialized"),
    {
        Ok(self.read_config()?.max_fee)
    }

    /// Whether the configuration is locked.
    pub fn read_locked(&self) -> (r: Result<bool, &'static str>)
        ensures
            self.config matches Some(c) ==> r == Ok::<bool, &'static str>(c.is_locked),
            self.config is None ==> r == Err::<bool, &'static str>("Contract not initialized"),
    {
        Ok(self.read_config()?.is_locked)
    }

    /// The cycle fees are collected into.
    pub fn read_current_cycle(&self) -> (r: Result<u64, &'static str>)
        ensures
            self.config matches Some(c) ==> r == Ok::<u64, &'static str>(c.current_cycle),
            self.config is None ==> r == Err::<u64, &'static str>("Contract not initialized"),
    {
        Ok(self.read_config()?.current_cycle)
    }

    /// Sets the admin.
    pub fn write_admin(&mut self, admin: Address) -> (r: Result<(), &'static str>)
        requires
            old(self).wf(),
        ensures
            final(self).wf(),
            final(self).escrow_matches_pending() == old(self).escrow_matches_pending(),
            old(self).config is None ==> r == Err::<(), &'static str>("Contract not initialized") && *final(self) == *old(self),
            old(self).config matches Some(c) ==> r is Ok && final(self).config_written(old(self), FeeConfig { admin, ..c }),
    {
        let mut c = self.read_config()?;
        c.admin = admin;
        self.config = Some(c);
        Ok(())
    }

    /// Sets the token.
    pub fn write_token(&mut self, token: Address) -> (r: Result<(), &'static str>)
        requires
            old(self).wf(),
        ensures
            final(self).wf(),
            final(self).escrow_matches_pending() == old(self).escrow_matches_pending(),
            old(self).config is None ==> r == Err::<(), &'static str>("Contract not initialized") && *final(self) == *old(self),
            old(self).config matches Some(c) ==> r is Ok && final(self).config_written(old(self), FeeConfig { token, ..c }),
    {
        let mut c = self.read_config()?;
        c.token = token;
        self.config = Some(c);
        Ok(())
    }

    /// Sets the treasury.
    pub fn write_treasury(&mut self, treasury: Address) -> (r: Result<(), &'static str>)
        requires
            old(self).wf(),
        ensures
            final(self).wf(),
            final(self).escrow_matches_pending() == old(self).escrow_matches_pending(),
            old(self).config is None ==> r == Err::<(), &'static str>("Contract not initialized") && *final(self) == *old(self),
            old(self).config matches Some(c) ==> r is Ok && final(self).config_written(old(self), FeeConfig { treasury, ..c }),
    {
        let mut c = self.read_config()?;
        c.treasury = treasury;
        self.config = Some(c);
        Ok(())
    }

    /// Sets the fee rate (unchecked).
    pub fn write_fee_bps(&mut self, fee_bps: u32) -> (r: Result<(), &'static str>)
        requires
            old(self).wf(),
        ensures
            final(self).wf(),
            final(self).escrow_matches_pending() == old(self).escrow_matches_pending(),
            old(self).config is None ==> r == Err::<(), &'static str>("Contract not initialized") && *final(self) == *old(self),
            old(self).config matches Some(c) ==> r is Ok && final(self).config_written(old(self), FeeConfig { fee_bps, ..c }),
    {
        let mut c = self.read_config()?;
        c.fee_bps = fee_bps;
        self.config = Some(c);
        Ok(())
    }

    /// Sets the minimum fee (unchecked).
    pub fn write_min_fee(&mut self, min_fee: i128) -> (r: Result<(), &'static str>)
        requires
            old(self).wf(),
        ensures
            final(self).wf(),
            final(self).escrow_matches_pending() == old(self).escrow_matches_pending(),
            old(self).config is None ==> r == Err::<(), &'static str>("Contract not initialized") && *final(self) == *old(self),
            old(self).config matches Some(c) ==> r is Ok && final(self).config_written(old(self), FeeConfig { min_fee, ..c }),
    {
        let mut c = self.read_config()?;
        c.min_fee = min_fee;
        self.config = Some(c);
        Ok(())
    }

    /// Sets the maximum fee (unchecked).
    pub fn write_max_fee(&mut self, max_fee: i128) -> (r: Result<(), &'static str>)
        requires
            old(self).wf(),
        ensures
            final(self).wf(),
            final(self).escrow_matches_pending() == old(self).escrow_matches_pending(),
            old(self).config is None ==> r == Err::<(), &'static str>("Contract not initialized") && *final(self) == *old(self),
            old(self).config matches Some(c) ==> r is Ok && final(self).config_written(old(self), FeeConfig { max_fee, ..c }),
    {
        let mut c = self.read_config()?;
        c.max_fee = max_fee;
        self.config = Some(c);
        Ok(())
    }

    /// Locks or unlocks the configuration.
    pub fn write_locked(&mut self, is_locked: bool) -> (r: Result<(), &'static str>)
        requires
            old(self).wf(),
        ensures
            final(self).wf(),
            final(self).escrow_matches_pending() == old(self).escrow_matches_pending(),
            old(self).config is None ==> r == Err::<(), &'static str>("Contract not initialized") && *final(self) == *old(self),
            old(self).config matches Some(c) ==> r is Ok && final(self).config_written(old(self), FeeConfig { is_locked, ..c }),
    {
        let mut c = self.read_config()?;
        c.is_locked = is_locked;
        self.config = Some(c);
        Ok(())
    }

    /// Moves collection to cycle `cycle`.
    pub fn write_current_cycle(&mut self, cycle: u64) -> (r: Result<(), &'static str>)
        requires
            old(self).wf(),
        ensures
            final(self).wf(),
            final(self).escrow_matches_pending() == old(self).escrow_matches_pending(),
            old(self).config is None ==> r == Err::<(), &'static str>("Contract not initialized") && *final(self) == *old(self),
            old(self).config matches Some(c) ==> r is Ok && final(self).config_written(old(self), FeeConfig { current_cycle: cycle, ..c }),
    {
        let mut c = self.read_config()?;
        c.current_cycle = cycle;
        self.config = Some(c);
        Ok(())
    }

    /// The minimum fee, or one before the escrow is configured.
    pub fn get_min_fee(&self) -> (r: i128)
        ensures
            r == match self.config { Some(c) => c.min_fee, None => 1 },
    {
        match self.config {
            Some(c) => c.min_fee,
            None => 1,
        }
    }

    /// Fees held in escrow.
    pub fn read_escrow_balance(&self) -> (r: i128)
        ensures
            r == self.stats.escrow_balance,
    {
        self.stats.escrow_balance
    }

    /// Fees ever collected.
    pub fn read_total_collected(&self) -> (r: i128)
        ensures
            r == self.stats.total_collected,
    {
        self.stats.total_collected
    }

    /// Fees ever released.
    pub fn read_total_released(&self) -> (r: i128)
        ensures
            r == self.stats.total_released,
    {
        self.stats.total_released
    }

    /// Batched collections so far.
    pub fn read_total_batch_calls(&self) -> (r: u64)
        ensures
            r == self.stats.total_batch_calls,
    {
        self.stats.total_batch_calls
    }

    /// Last activity time of `user`, zero when unknown.
    pub fn read_last_active(&self, user: Address) -> (r: u64)
        ensures
            r == if self.last_active@.contains_key(user) { self.last_active@[user] } else { 0 },
    {
        match self.last_active.get(&user) {
            Some(t) => *t,
            None => 0,
        }
    }

    /// Records the last activity time of `user`.
    pub fn write_last_active(&mut self, user: Address, timestamp: u64)
        ensures
            final(self).last_active@ == old(self).last_active@.insert(user, timestamp),
            final(self).config == old(self).config,
            final(self).stats == old(self).stats,
            final(self).pending == old(self).pending,
            final(self).tiers == old(self).tiers,
    {
        self.last_active.insert(user, timestamp);
    }

    /// Sets the fee tier of `user` (unchecked).
    pub fn write_user_tier(&mut self, user: Address, tier: Vec<u8>)
        ensures
            final(self).tiers@ == old(self).tiers@.insert(user, tier),
            final(self).config == old(self).config,
            final(self).stats == old(self).stats,
            final(self).pending == old(self).pending,
            final(self).last_active == old(self).last_active,
    {
        self.tiers.insert(user, tier);
    }

    /// The fee tier of `user`, if set.
    pub fn read_user_tier(&self, user: Address) -> (r: Option<Vec<u8>>)
        ensures
            self.tiers@.contains_key(user) ==> (r matches Some(t) && t@ == self.tiers@[user]@),
            !self.tiers@.contains_key(user) ==> r is None,
    {
        match self.tiers.get(&user) {
            Some(t) => Some(crate::text::copy_bytes(t)),
            None => None,
        }
    }

    /// Clears the fee tier of `user`.
    pub fn remove_user_tier(&mut self, user: Address)
        ensures
            final(self).tiers@ == old(self).tiers@.remove(user),
            final(self).config == old(self).config,
            final(self).stats == old(self).stats,
            final(self).pending == old(self).pending,
            final(self).last_active == old(self).last_active,
    {
        let _ = self.tiers.remove(&user);
    }
}

} // verus!
