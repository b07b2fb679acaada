//! Queries, statistics and lifecycle checks over multi-signature withdrawals.
use vstd::prelude::*;
use crate::fees::Address;
use crate::withdrawal::{
    status_code, MultisigWithdrawalError, WithdrawalRequest, WithdrawalState, WithdrawalStatus,
};

verus! {

broadcast use vstd::std_specs::hash::group_hash_axioms;

/// The entries of `ids`, in order, that satisfy `keep`.
pub open spec fn ids_where(ids: Seq<u64>, keep: spec_fn(u64) -> bool) -> Seq<u64>
    decreases ids.len(),
{
    if ids.len() == 0 {
        Seq::empty()
    } else {
        let rest = ids_where(ids.drop_last(), keep);
        if keep(ids.last()) { rest.push(ids.last()) } else { rest }
    }
}

/// One more entry extends the selection when it is kept.
proof fn lemma_ids_where_step(ids: Seq<u64>, i: int, keep: spec_fn(u64) -> bool)
    requires
        0 <= i < ids.len(),
    ensures
        ids_where(ids.take(i + 1), keep) == if keep(ids[i]) { ids_where(ids.take(i), keep).push(ids[i]) } else { ids_where(ids.take(i), keep) },
{
    assert(ids.take(i + 1).drop_last() =~= ids.take(i));
}

/// Whether every id of `ids` has a request.
pub open spec fn all_found(st: WithdrawalState, ids: Seq<u64>) -> bool {
    forall|k: int| 0 <= k < ids.len() ==> st.requests@.contains_key(#[trigger] ids[k])
}

/// Validation helpers for withdrawal inputs.
pub struct WithdrawalValidation;

impl WithdrawalValidation {
    /// Whether `amount` is positive and at most half of `i128::MAX`.
    pub fn validate_amount(amount: i128) -> (r: bool)
        ensures
            r == (amount > 0 && amount <= i128::MAX / 2),
    {
        amount > 0 && amount <= i128::MAX / 2
    }

    /// Whether a vault id is valid (not zero).
    pub fn validate_vault_id(vault_id: u64) -> (r: bool)
        ensures
            r == (vault_id > 0),
    {
        vault_id > 0
    }

    /// Whether a withdrawal id is valid (not zero).
    pub fn validate_withdrawal_id(withdrawal_id: u64) -> (r: bool)
        ensures
            r == (withdrawal_id > 0),
    {
        withdrawal_id > 0
    }

    /// The approval count of a withdrawal, which must not exceed the quorum.
    pub fn validate_approval_count(st: &WithdrawalState, withdrawal_id: u64) -> (r: Result<u32, MultisigWithdrawalError>)
        requires
            st.wf(),
        ensures
            st.quorum is None ==> r == Err::<u32, MultisigWithdrawalError>(MultisigWithdrawalError::InvalidQuorum),
            st.quorum matches Some(q) ==> r == if st.count_of(withdrawal_id) > q {
                Err::<u32, MultisigWithdrawalError>(MultisigWithdrawalError::InvalidQuorum)
            } else {
                Ok::<u32, MultisigWithdrawalError>(st.count_of(withdrawal_id) as u32)
            },
    {
        let count = st.get_withdrawal_approval_count(withdrawal_id);
        let quorum = st.get_withdrawal_quorum()?;
        if count > quorum {
            Err(MultisigWithdrawalError::InvalidQuorum)
        } else {
            Ok(count)
        }
    }
}

/// Everything known about one withdrawal.
#[derive(Clone, Copy, Debug, PartialEq, Eq, Structural)]
pub struct WithdrawalStatusInfo {
    pub withdrawal_id: u64,
    pub requester: Address,
    pub amount: i128,
    pub vault_id: u64,
    pub created_at: u64,
    /// 0 pending, 1 approved, 2 executed, 3 cancelled.
    pub status: u32,
    pub approval_count: u32,
    pub required_quorum: u32,
    pub approvals_remaining: u32,
    pub requires_approval: bool,
    pub is_executed: bool,
    pub is_pending: bool,
    pub is_cancelled: bool,
}

/// The status report of a withdrawal with request `req`, status `s`, `count` approvals,
/// quorum `q` and threshold `t`.
pub open spec fn status_info(id: u64, req: WithdrawalRequest, s: WithdrawalStatus, count: u32, q: u32, t: i128) -> WithdrawalStatusInfo {
    WithdrawalStatusInfo {
        withdrawal_id: id,
        requester: req.requester,
        amount: req.amount,
        vault_id: req.vault_id,
        created_at: req.created_at,
        status: status_code(s),
        approval_count: count,
        required_quorum: q,
        approvals_remaining: if count >= q { 0 } else { (q - count) as u32 },
        requires_approval: req.amount >= t,
        is_executed: s == WithdrawalStatus::Executed,
        is_pending: s == WithdrawalStatus::Pending,
        is_cancelled: s == WithdrawalStatus::Cancelled,
    }
}

/// Queries over withdrawals.
pub struct WithdrawalQuery;

impl WithdrawalQuery {
    /// The status report of withdrawal `withdrawal_id`.
    pub fn get_status_info(st: &WithdrawalState, withdrawal_id: u64) -> (r: Result<WithdrawalStatusInfo, MultisigWithdrawalError>)
        requires
            st.wf(),
        ensures
            !st.requests@.contains_key(withdrawal_id) ==> r == Err::<WithdrawalStatusInfo, MultisigWithdrawalError>(MultisigWithdrawalError::WithdrawalNotFound),
            st.requests@.contains_key(withdrawal_id) && st.quorum is None ==> r == Err::<WithdrawalStatusInfo, MultisigWithdrawalError>(MultisigWithdrawalError::InvalidQuorum),
            st.requests@.contains_key(withdrawal_id) && st.quorum is Some && st.threshold is None
                ==> r == Err::<WithdrawalStatusInfo, MultisigWithdrawalError>(MultisigWithdrawalError::ThresholdNotInitialized),
            st.requests@.contains_key(withdrawal_id) && st.quorum is Some && st.threshold is Some
                ==> r == Ok::<WithdrawalStatusInfo, MultisigWithdrawalError>(status_info(withdrawal_id, st.requests@[withdrawal_id],
                    st.status_of(withdrawal_id), st.count_of(withdrawal_id) as u32, st.quorum->0, st.threshold->0)),
    {
        let request = st.get_withdrawal_request(withdrawal_id)?;
        let status = st.get_withdrawal_status(withdrawal_id);
        let approval_count = st.get_withdrawal_approval_count(withdrawal_id);
        let quorum = st.get_withdrawal_quorum()?;
        let threshold = st.get_withdrawal_threshold()?;
        let approvals_remaining = if approval_count >= quorum { 0 } else { quorum - approval_count };
        Ok(WithdrawalStatusInfo {
            withdrawal_id,
            requester: request.requester,
            amount: request.amount,
            vault_id: request.vault_id,
            created_at: request.created_at,
            status: status.code(),
            approval_count,
            required_quorum: quorum,
            approvals_remaining,
            requires_approval: request.amount >= threshold,
            is_executed: status == WithdrawalStatus::Executed,
            is_pending: status == WithdrawalStatus::Pending,
            is_cancelled: status == WithdrawalStatus::Cancelled,
        })
    }

    /// The pending withdrawals of `requester` among `withdrawal_ids`, in order; every id
    /// must have a request.
    #[verifier::loop_isolation(false)]
    pub fn get_pending_for_requester(st: &WithdrawalState, requester: Address, withdrawal_ids: &Vec<u64>) -> (r: Result<Vec<u64>, MultisigWithdrawalError>)
        ensures
            !all_found(*st, withdrawal_ids@) ==> r == Err::<Vec<u64>, MultisigWithdrawalError>(MultisigWithdrawalError::WithdrawalNotFound),
            all_found(*st, withdrawal_ids@) ==> (r matches Ok(v) && v@ == ids_where(withdrawal_ids@,
                |id: u64| st.requests@[id].requester == requester && st.status_of(id) == WithdrawalStatus::Pending)),
    {
        let ghost keep = |id: u64| st.requests@[id].requester == requester && st.status_of(id) == WithdrawalStatus::Pending;
        let mut pending: Vec<u64> = Vec::new();
        let mut i: usize = 0;
        while i < withdrawal_ids.len()
            invariant
                i <= withdrawal_ids@.len(),
                forall|k: int| 0 <= k < i ==> st.requests@.contains_key(#[trigger] withdrawal_ids@[k]),
                pending@ == ids_where(withdrawal_ids@.take(i as int), keep),
            decreases withdrawal_ids@.len() - i,
        {
            let id = withdrawal_ids[i];
            let request = match st.get_withdrawal_request(id) {
                Ok(req) => req,
                Err(e) => { return Err(e); },
            };
            proof {
                lemma_ids_where_step(withdrawal_ids@, i as int, keep);
                assert(keep(id) == (request.requester == requester && st.status_of(id) == WithdrawalStatus::Pending));
            }
            if request.requester == requester && st.get_withdrawal_status(id) == WithdrawalStatus::Pending {
                pending.push(id);
            }
            i = i + 1;
        }
        assert(withdrawal_ids@.take(withdrawal_ids@.len() as int) =~= withdrawal_ids@);
        Ok(pending)
    }

    /// The pending withdrawals among `withdrawal_ids` that `approver` has yet to approve, in
    /// order; none when `approver` is not an approver.
    #[verifier::loop_isolation(false)]
    pub fn get_pending_for_approver(st: &WithdrawalState, approver: Address, withdrawal_ids: &Vec<u64>) -> (r: Result<Vec<u64>, MultisigWithdrawalError>)
        ensures
            st.approvers is None ==> r == Err::<Vec<u64>, MultisigWithdrawalError>(MultisigWithdrawalError::ApprovalsNotInitialized),
            st.approvers is Some && !st.approvers->0@.contains(approver) ==> (r matches Ok(v) && v@.len() == 0),
            st.approvers is Some && st.approvers->0@.contains(approver) ==> (r matches Ok(v) && v@ == ids_where(withdrawal_ids@,
                |id: u64| st.status_of(id) == WithdrawalStatus::Pending && !st.approved(id, approver))),
    {
        if !st.is_withdrawal_approver(approver)? {
            return Ok(Vec::new());
        }
        let ghost keep = |id: u64| st.status_of(id) == WithdrawalStatus::Pending && !st.approved(id, approver);
        let mut pending: Vec<u64> = Vec::new();
        let mut i: usize = 0;
        while i < withdrawal_ids.len()
            invariant
                i <= withdrawal_ids@.len(),
                pending@ == ids_where(withdrawal_ids@.take(i as int), keep),
            decreases withdrawal_ids@.len() - i,
        {
            let id = withdrawal_ids[i];
            proof {
                lemma_ids_where_step(withdrawal_ids@, i as int, keep);
                assert(keep(id) == (st.status_of(id) == WithdrawalStatus::Pending && !st.approved(id, approver)));
            }
            if st.get_withdrawal_status(id) == WithdrawalStatus::Pending && !st.has_withdrawal_approval(id, approver) {
                pending.push(id);
            }
            i = i + 1;
        }
        assert(withdrawal_ids@.take(withdrawal_ids@.len() as int) =~= withdrawal_ids@);
        Ok(pending)
    }
}

/// Counts and sums over a list of withdrawals.
#[derive(Clone, Copy, Debug, PartialEq, Eq, Structural)]
pub struct WithdrawalStats {
    pub total_withdrawals: u64,
    pub pending_count: u64,
    pub executed_count: u64,
    pub cancelled_count: u64,
    pub total_amount: i128,
    pub pending_amount: i128,
    pub executed_amount: i128,
    /// Executed withdrawals per hundred.
    pub success_rate: u32,
}

/// `acc + x`, or `acc` when the sum does not fit an `i128`.
pub open spec fn add_or_keep(acc: i128, x: i128) -> i128 {
    if i128::MIN <= acc + x <= i128::MAX { (acc + x) as i128 } else { acc }
}

/// The counts and sums over `ids` (with a zero success rate).
pub open spec fn tally(st: WithdrawalState, ids: Seq<u64>) -> WithdrawalStats
    decreases ids.len(),
{
    if ids.len() == 0 {
        WithdrawalStats {
            total_withdrawals: 0,
            pending_count: 0,
            executed_count: 0,
            cancelled_count: 0,
            total_amount: 0,
            pending_amount: 0,
            executed_amount: 0,
            success_rate: 0,
        }
    } else {
        let t = tally(st, ids.drop_last());
        let id = ids.last();
        let amount = st.requests@[id].amount;
        let s = st.status_of(id);
        WithdrawalStats {
            total_withdrawals: (t.total_withdrawals + 1) as u64,
            pending_count: if s == WithdrawalStatus::Pending { (t.pending_count + 1) as u64 } else { t.pending_count },
            executed_count: if s == WithdrawalStatus::Executed { (t.executed_count + 1) as u64 } else { t.executed_count },
            cancelled_count: if s == WithdrawalStatus::Cancelled { (t.cancelled_count + 1) as u64 } else { t.cancelled_count },
            total_amount: add_or_keep(t.total_amount, amount),
            pending_amount: if s == WithdrawalStatus::Pending { add_or_keep(t.pending_amount, amount) } else { t.pending_amount },
            executed_amount: if s == WithdrawalStatus::Executed { add_or_keep(t.executed_amount, amount) } else { t.executed_amount },
            success_rate: 0,
        }
    }
}

/// The statistics of `ids`: the tally and its success rate.
pub open spec fn stats_of(st: WithdrawalState, ids: Seq<u64>) -> WithdrawalStats {
    let t = tally(st, ids);
    WithdrawalStats {
        success_rate: if t.total_withdrawals > 0 { (t.executed_count * 100 / (t.total_withdrawals as int)) as u32 } else { 0 },
        ..t
    }
}

/// The tally counts each id once, and no status count exceeds the total.
proof fn lemma_tally_counts(st: WithdrawalState, ids: Seq<u64>)
    requires
        ids.len() <= u64::MAX,
    ensures
        tally(st, ids).total_withdrawals == ids.len(),
        tally(st, ids).executed_count <= tally(st, ids).total_withdrawals,
        tally(st, ids).pending_count <= tally(st, ids).total_withdrawals,
        tally(st, ids).cancelled_count <= tally(st, ids).total_withdrawals,
        tally(st, ids).pending_count + tally(st, ids).executed_count + tally(st, ids).cancelled_count <= ids.len(),
    decreases ids.len(),
{
    if ids.len() > 0 {
        lemma_tally_counts(st, ids.drop_last());
    }
}

/// Audit helpers.
pub struct WithdrawalAudit;

impl WithdrawalAudit {
    /// Counts, sums (an addition that would overflow is skipped) and success rate, in percent,
    /// over `withdrawal_ids`; every id must have a request.
    pub fn calculate_stats(st: &WithdrawalState, withdrawal_ids: &Vec<u64>) -> (r: Result<WithdrawalStats, MultisigWithdrawalError>)
        ensures
            r matches Ok(s) ==> s.success_rate <= 100,
            !all_found(*st, withdrawal_ids@) ==> r == Err::<WithdrawalStats, MultisigWithdrawalError>(MultisigWithdrawalError::WithdrawalNotFound),
            all_found(*st, withdrawal_ids@) ==> r == Ok::<WithdrawalStats, MultisigWithdrawalError>(stats_of(*st, withdrawal_ids@)),
    {
        let mut total_withdrawals: u64 = 0;
        let mut pending_count: u64 = 0;
        let mut executed_count: u64 = 0;
        let mut cancelled_count: u64 = 0;
        let mut total_amount: i128 = 0;
        let mut pending_amount: i128 = 0;
        let mut executed_amount: i128 = 0;
        let mut i: usize = 0;
        while i < withdrawal_ids.len()
            invariant
                i <= withdrawal_ids@.len(),
                forall|k: int| 0 <= k < i ==> st.requests@.contains_key(#[trigger] withdrawal_ids@[k]),
                ({
                    let t = tally(*st, withdrawal_ids@.take(i as int));
                    &&& total_withdrawals == t.total_withdrawals
                    &&& pending_count == t.pending_count
                    &&& executed_count == t.executed_count
                    &&& cancelled_count == t.cancelled_count
                    &&& total_amount == t.total_amount
                    &&& pending_amount == t.pending_amount
                    &&& executed_amount == t.executed_amount
                }),
            decreases withdrawal_ids@.len() - i,
        {
            let id = withdrawal_ids[i];
            proof {
                assert(withdrawal_ids@.take(i as int + 1).drop_last() =~= withdrawal_ids@.take(i as int));
                lemma_tally_counts(*st, withdrawal_ids@.take(i as int));
            }
            total_withdrawals = total_withdrawals + 1;
            let request = match st.get_withdrawal_request(id) {
                Ok(req) => req,
                Err(e) => { return Err(e); },
            };
            let status = st.get_withdrawal_status(id);
            total_amount = match total_amount.checked_add(request.amount) {
                Some(v) => v,
                None => total_amount,
            };
            match status {
                WithdrawalStatus::Pending => {
                    pending_count = pending_count + 1;
                    pending_amount = match pending_amount.checked_add(request.amount) {
                        Some(v) => v,
                        None => pending_amount,
                    };
                },
                WithdrawalStatus::Executed => {
                    executed_count = executed_count + 1;
                    executed_amount = match executed_amount.checked_add(request.amount) {
                        Some(v) => v,
                        None => executed_amount,
                    };
                },
                WithdrawalStatus::Cancelled => {
                    cancelled_count = cancelled_count + 1;
                },
                WithdrawalStatus::Approved => {},
            }
            i = i + 1;
        }
        proof {
            assert(withdrawal_ids@.take(withdrawal_ids@.len() as int) =~= withdrawal_ids@);
            lemma_tally_counts(*st, withdrawal_ids@);
        }
        let success_rate: u32 = if total_withdrawals > 0 {
            let rate = (executed_count as u128 * 100) / total_withdrawals as u128;
            proof {
                let e = executed_count as int;
                let t = total_withdrawals as int;
                assert(e * 100 / t <= 100) by (nonlinear_arith) requires 0 <= e <= t, t > 0;
            }
            rate as u32
        } else {
            0
        };
        Ok(WithdrawalStats {
            total_withdrawals,
            pending_count,
            executed_count,
            cancelled_count,
            total_amount,
            pending_amount,
            executed_amount,
            success_rate,
        })
    }

    /// Whether every address of `required_approvers` approved withdrawal `withdrawal_id`.
    pub fn check_required_approvals(st: &WithdrawalState, withdrawal_id: u64, required_approvers: &Vec<Address>) -> (r: bool)
        ensures
            r == forall|k: int| 0 <= k < required_approvers@.len() ==> st.approved(withdrawal_id, #[trigger] required_approvers@[k]),
    {
        let mut i: usize = 0;
        while i < required_approvers.len()
            invariant
                i <= required_approvers@.len(),
                forall|k: int| 0 <= k < i ==> st.approved(withdrawal_id, #[trigger] required_approvers@[k]),
            decreases required_approvers@.len() - i,
        {
            if !st.has_withdrawal_approval(withdrawal_id, required_approvers[i]) {
                return false;
            }
            i = i + 1;
        }
        true
    }

    /// The configured approvers, in configuration order, who approved withdrawal `withdrawal_id`.
    #[verifier::loop_isolation(false)]
    pub fn get_approval_list(st: &WithdrawalState, withdrawal_id: u64) -> (r: Result<Vec<Address>, MultisigWithdrawalError>)
        ensures
            st.approvers is None ==> r == Err::<Vec<Address>, MultisigWithdrawalError>(MultisigWithdrawalError::ApprovalsNotInitialized),
            st.approvers is Some ==> (r matches Ok(v) && v@ == ids_where(st.approvers->0@, |a: Address| st.approved(withdrawal_id, a))),
    {
        let approvers = st.get_withdrawal_approvers()?;
        let ghost keep = |a: Address| st.approved(withdrawal_id, a);
        let mut approvals: Vec<Address> = Vec::new();
        let mut i: usize = 0;
        while i < approvers.len()
            invariant
                i <= approvers@.len(),
                approvals@ == ids_where(approvers@.take(i as int), keep),
            decreases approvers@.len() - i,
        {
            proof {
                lemma_ids_where_step(approvers@, i as int, keep);
                assert(keep(approvers@[i as int]) == st.approved(withdrawal_id, approvers@[i as int]));
            }
            if st.has_withdrawal_approval(withdrawal_id, approvers[i]) {
                approvals.push(approvers[i]);
            }
            i = i + 1;
        }
        assert(approvers@.take(approvers@.len() as int) =~= approvers@);
        Ok(approvals)
    }
}

/// Lifecycle checks.
pub struct WithdrawalLifecycle;

impl WithdrawalLifecycle {
    /// Whether `approver` may approve withdrawal `withdrawal_id` now.
    pub fn can_approve(st: &WithdrawalState, withdrawal_id: u64, approver: Address) -> (r: Result<bool, MultisigWithdrawalError>)
        ensures
            st.status_of(withdrawal_id) != WithdrawalStatus::Pending ==> r == Ok::<bool, MultisigWithdrawalError>(false),
            st.status_of(withdrawal_id) == WithdrawalStatus::Pending && st.approvers is None
                ==> r == Err::<bool, MultisigWithdrawalError>(MultisigWithdrawalError::ApprovalsNotInitialized),
            st.status_of(withdrawal_id) == WithdrawalStatus::Pending && st.approvers is Some
                ==> r == Ok::<bool, MultisigWithdrawalError>(st.approvers->0@.contains(approver) && !st.approved(withdrawal_id, approver)),
    {
        if st.get_withdrawal_status(withdrawal_id) != WithdrawalStatus::Pending {
            return Ok(false);
        }
        if !st.is_withdrawal_approver(approver)? {
            return Ok(false);
        }
        if st.has_withdrawal_approval(withdrawal_id, approver) {
            return Ok(false);
        }
        Ok(true)
    }

    /// Whether withdrawal `withdrawal_id` has reached its quorum and is neither executed nor
    /// cancelled.
    pub fn can_execute(st: &WithdrawalState, withdrawal_id: u64) -> (r: Result<bool, MultisigWithdrawalError>)
        requires
            st.wf(),
        ensures
            st.status_of(withdrawal_id) == WithdrawalStatus::Executed || st.status_of(withdrawal_id) == WithdrawalStatus::Cancelled
                ==> r == Ok::<bool, MultisigWithdrawalError>(false),
            st.status_of(withdrawal_id) != WithdrawalStatus::Executed && st.status_of(withdrawal_id) != WithdrawalStatus::Cancelled
                && st.quorum is None ==> r == Err::<bool, MultisigWithdrawalError>(MultisigWithdrawalError::InvalidQuorum),
            st.status_of(withdrawal_id) != WithdrawalStatus::Executed && st.status_of(withdrawal_id) != WithdrawalStatus::Cancelled
                && st.quorum is Some ==> r == Ok::<bool, MultisigWithdrawalError>(st.count_of(withdrawal_id) >= st.quorum->0),
    {
        let status = st.get_withdrawal_status(withdrawal_id);
        if status == WithdrawalStatus::Executed {
            return Ok(false);
        }
        if status == WithdrawalStatus::Cancelled {
            return Ok(false);
        }
        let count = st.get_withdrawal_approval_count(withdrawal_id);
        let quorum = st.get_withdrawal_quorum()?;
        Ok(count >= quorum)
    }

    /// Why `approver` could not approve withdrawal `withdrawal_id`, if anything stands in
    /// the way.
    pub fn get_failure_reason(st: &WithdrawalState, withdrawal_id: u64, approver: Address) -> (r: Result<Option<&'static str>, MultisigWithdrawalError>)
        ensures
            r == failure_reason(*st, withdrawal_id, approver),
    {
        let status = st.get_withdrawal_status(withdrawal_id);
        if status == WithdrawalStatus::Executed {
            return Ok(Some("withdrawal_already_executed"));
        }
        if status == WithdrawalStatus::Cancelled {
            return Ok(Some("withdrawal_cancelled"));
        }
        if status != WithdrawalStatus::Pending {
            return Ok(Some("withdrawal_invalid_status"));
        }
        if !st.is_withdrawal_approver(approver)? {
            return Ok(Some("approver_not_authorized"));
        }
        if st.has_withdrawal_approval(withdrawal_id, approver) {
            return Ok(Some("duplicate_approval"));
        }
        Ok(None)
    }
}

/// Why an approval would fail, in the order the checks are made.
pub open spec fn failure_reason(st: WithdrawalState, id: u64, approver: Address) -> Result<Option<&'static str>, MultisigWithdrawalError> {
    let s = st.status_of(id);
    if s == WithdrawalStatus::Executed {
        Ok(Some("withdrawal_already_executed"))
    } else if s == WithdrawalStatus::Cancelled {
        Ok(Some("withdrawal_cancelled"))
    } else if s != WithdrawalStatus::Pending {
        Ok(Some("withdrawal_invalid_status"))
    } else if st.approvers is None {
        Err(MultisigWithdrawalError::ApprovalsNotInitialized)
    } else if !st.approvers->0@.contains(approver) {
        Ok(Some("approver_not_authorized"))
    } else if st.approved(id, approver) {
        Ok(Some("duplicate_approval"))
    } else {
        Ok(None)
    }
}

} // verus!
