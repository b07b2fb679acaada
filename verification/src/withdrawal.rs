//! Multi-signature savings withdrawals: withdrawal requests are approved by a configured set
//! of distinct approvers, each at most once; a request is executed once its approvals reach
//! the quorum, and never before.
use vstd::prelude::*;
use std::collections::HashMap;
use crate::fees::Address;
use crate::shared::contains_address;

verus! {

broadcast use vstd::std_specs::hash::group_hash_axioms;

/// Status of a withdrawal request.
#[derive(Clone, Copy, Debug, PartialEq, Eq, Structural)]
pub enum WithdrawalStatus {
    Pending,
    Approved,
    Executed,
    Cancelled,
}

/// Numeric code of each status.
pub open spec fn status_code(s: WithdrawalStatus) -> u32 {
    match s {
        WithdrawalStatus::Pending => 0,
        WithdrawalStatus::Approved => 1,
        WithdrawalStatus::Executed => 2,
        WithdrawalStatus::Cancelled => 3,
    }
}

impl WithdrawalStatus {
    /// The numeric code of this status.
    pub fn code(&self) -> (r: u32)
        ensures
            r == status_code(*self),
    {
        match self {
            WithdrawalStatus::Pending => 0,
            WithdrawalStatus::Approved => 1,
            WithdrawalStatus::Executed => 2,
            WithdrawalStatus::Cancelled => 3,
        }
    }
}

/// A withdrawal request.
#[derive(Clone, Copy, Debug, PartialEq, Eq, Structural)]
pub struct WithdrawalRequest {
    pub id: u64,
    pub requester: Address,
    pub amount: i128,
    pub vault_id: u64,
    pub created_at: u64,
    /// Approvals at creation; the live count is kept by the state.
    pub approval_count: u32,
}

/// Errors of multi-signature withdrawals.
#[derive(Copy, Clone, Debug, PartialEq, Eq, Structural)]
pub enum MultisigWithdrawalError {
    NotInitialized,
    Unauthorized,
    InvalidThreshold,
    InvalidQuorum,
    WithdrawalNotFound,
    DuplicateApproval,
    InsufficientApprovals,
    AlreadyExecuted,
    InvalidAmount,
    WithdrawalCancelled,
    QuorumNotReached,
    UnauthorizedApprover,
    ThresholdNotInitialized,
    ApprovalsNotInitialized,
}

/// Contract error code of each error.
pub open spec fn withdrawal_error_code(e: MultisigWithdrawalError) -> u32 {
    match e {
        MultisigWithdrawalError::NotInitialized => 1,
        MultisigWithdrawalError::Unauthorized => 2,
        MultisigWithdrawalError::InvalidThreshold => 3,
        MultisigWithdrawalError::InvalidQuorum => 4,
        MultisigWithdrawalError::WithdrawalNotFound => 5,
        MultisigWithdrawalError::DuplicateApproval => 6,
        MultisigWithdrawalError::InsufficientApprovals => 7,
        MultisigWithdrawalError::AlreadyExecuted => 8,
        MultisigWithdrawalError::InvalidAmount => 9,
        MultisigWithdrawalError::WithdrawalCancelled => 10,
        MultisigWithdrawalError::QuorumNotReached => 11,
        MultisigWithdrawalError::UnauthorizedApprover => 12,
        MultisigWithdrawalError::ThresholdNotInitialized => 13,
        MultisigWithdrawalError::ApprovalsNotInitialized => 14,
    }
}

impl MultisigWithdrawalError {
    /// The contract error code of this error.
    pub fn code(&self) -> (r: u32)
        ensures
            r == withdrawal_error_code(*self),
    {
        match self {
            MultisigWithdrawalError::NotInitialized => 1,
            MultisigWithdrawalError::Unauthorized => 2,
            MultisigWithdrawalError::InvalidThreshold => 3,
            MultisigWithdrawalError::InvalidQuorum => 4,
            MultisigWithdrawalError::WithdrawalNotFound => 5,
            MultisigWithdrawalError::DuplicateApproval => 6,
            MultisigWithdrawalError::InsufficientApprovals => 7,
            MultisigWithdrawalError::AlreadyExecuted => 8,
            MultisigWithdrawalError::InvalidAmount => 9,
            MultisigWithdrawalError::WithdrawalCancelled => 10,
            MultisigWithdrawalError::QuorumNotReached => 11,
            MultisigWithdrawalError::UnauthorizedApprover => 12,
            MultisigWithdrawalError::ThresholdNotInitialized => 13,
            MultisigWithdrawalError::ApprovalsNotInitialized => 14,
        }
    }
}

/// What an approval did.
#[derive(Clone, Copy, Debug, PartialEq, Eq, Structural)]
pub struct ApprovalOutcome {
    /// Approvals after this one.
    pub approval_count: u32,
    pub quorum: u32,
    /// Whether the quorum was reached and the withdrawal executed.
    pub executed: bool,
}

/// Whether `s` holds some address twice.
pub open spec fn has_duplicate_approver(s: Seq<Address>) -> bool {
    exists|i: int, j: int| 0 <= i < j < s.len() && #[trigger] s[i] == #[trigger] s[j]
}

/// Validation of an approver set and quorum.
pub open spec fn approver_config_check(approvers: Seq<Address>, quorum: u32) -> Result<(), MultisigWithdrawalError> {
    if approvers.len() == 0 || quorum == 0 || quorum > approvers.len() {
        Err(MultisigWithdrawalError::InvalidQuorum)
    } else if has_duplicate_approver(approvers) {
        Err(MultisigWithdrawalError::InvalidThreshold)
    } else {
        Ok(())
    }
}

/// Checks an approver configuration: a non-empty set of distinct approvers and a quorum
/// between one and the number of approvers.
pub fn validate_approver_config(approvers: &[Address], quorum: u32) -> (r: Result<(), MultisigWithdrawalError>)
    ensures
        r == approver_config_check(approvers@, quorum),
{
    let n = approvers.len();
    if n == 0 || quorum == 0 || quorum as usize > n {
        return Err(MultisigWithdrawalError::InvalidQuorum);
    }
    let mut i: usize = 0;
    while i < n
        invariant
            n == approvers@.len(),
            n > 0 && quorum > 0 && quorum <= n,
            i <= n,
            forall|a: int, b: int| 0 <= a < i && a < b < n ==> approvers@[a] != approvers@[b],
        decreases n - i,
    {
        let mut j: usize = i + 1;
        while j < n
            invariant
                n == approvers@.len(),
                n > 0 && quorum > 0 && quorum <= n,
                i < n,
                i + 1 <= j <= n,
                forall|a: int, b: int| 0 <= a < i && a < b < n ==> approvers@[a] != approvers@[b],
                forall|b: int| i < b < j ==> approvers@[i as int] != approvers@[b],
            decreases n - j,
        {
            if approvers[i] == approvers[j] {
                assert(approvers@[i as int] == approvers@[j as int]);
                assert(has_duplicate_approver(approvers@));
                return Err(MultisigWithdrawalError::InvalidThreshold);
            }
            j = j + 1;
        }
        i = i + 1;
    }
    assert(!has_duplicate_approver(approvers@));
    Ok(())
}

/// Withdrawal configuration and requests.
pub struct WithdrawalState {
    /// Amounts at or above this need approval.
    pub threshold: Option<i128>,
    pub approvers: Option<Vec<Address>>,
    pub quorum: Option<u32>,
    /// Last withdrawal id handed out.
    pub next_withdrawal_id: u64,
    pub requests: HashMap<u64, WithdrawalRequest>,
    pub statuses: HashMap<u64, WithdrawalStatus>,
    /// The approvers who approved each withdrawal, in approval order.
    pub approvals: HashMap<u64, Vec<Address>>,
}

impl WithdrawalState {
    /// Approvers and quorum are set together; each withdrawal's approvers are distinct and
    /// their number fits a `u32`.
    pub open spec fn wf(&self) -> bool {
        &&& self.approvers is Some <==> self.quorum is Some
        &&& forall|id: u64| #[trigger] self.approvals@.contains_key(id) ==> {
            &&& self.approvals@[id]@.len() <= u32::MAX
            &&& !has_duplicate_approver(self.approvals@[id]@)
        }
    }

    /// Status of withdrawal `id`; one never set reads as pending.
    pub open spec fn status_of(&self, id: u64) -> WithdrawalStatus {
        if self.statuses@.contains_key(id) { self.statuses@[id] } else { WithdrawalStatus::Pending }
    }

    /// The approvers who approved withdrawal `id`.
    pub open spec fn approvers_of(&self, id: u64) -> Seq<Address> {
        if self.approvals@.contains_key(id) { self.approvals@[id]@ } else { Seq::empty() }
    }

    /// Approvals of withdrawal `id`.
    pub open spec fn count_of(&self, id: u64) -> nat {
        self.approvers_of(id).len()
    }

    /// Whether `approver` approved withdrawal `id`.
    pub open spec fn approved(&self, id: u64, approver: Address) -> bool {
        self.approvers_of(id).contains(approver)
    }

    /// Outcome of an approval request, before any change.
    pub open spec fn approve_check(&self, approver: Address, id: u64) -> Result<(), MultisigWithdrawalError> {
        if self.approvers is None {
            Err(MultisigWithdrawalError::ApprovalsNotInitialized)
        } else if !self.approvers->0@.contains(approver) {
            Err(MultisigWithdrawalError::UnauthorizedApprover)
        } else if !self.requests@.contains_key(id) {
            Err(MultisigWithdrawalError::WithdrawalNotFound)
        } else if self.status_of(id) != WithdrawalStatus::Pending {
            Err(MultisigWithdrawalError::WithdrawalCancelled)
        } else if self.approved(id, approver) {
            Err(MultisigWithdrawalError::DuplicateApproval)
        } else if self.count_of(id) == u32::MAX {
            Err(MultisigWithdrawalError::InvalidQuorum)
        } else {
            Ok(())
        }
    }

    /// Outcome of an execution request, before any change.
    pub open spec fn execute_check(&self, id: u64) -> Result<(), MultisigWithdrawalError> {
        if !self.requests@.contains_key(id) {
            Err(MultisigWithdrawalError::WithdrawalNotFound)
        } else if self.status_of(id) == WithdrawalStatus::Executed {
            Err(MultisigWithdrawalError::AlreadyExecuted)
        } else if self.status_of(id) == WithdrawalStatus::Cancelled {
            Err(MultisigWithdrawalError::WithdrawalCancelled)
        } else if self.quorum is None {
            Err(MultisigWithdrawalError::InvalidQuorum)
        } else if self.count_of(id) < self.quorum->0 {
            Err(MultisigWithdrawalError::QuorumNotReached)
        } else {
            Ok(())
        }
    }

    /// Nothing configured and no requests.
    pub fn new() -> (r: WithdrawalState)
        ensures
            r.wf(),
            r.threshold is None,
            r.approvers is None,
            r.quorum is None,
            r.next_withdrawal_id == 0,
            r.requests@.len() == 0,
            r.statuses@.len() == 0,
            r.approvals@.len() == 0,
    {
        WithdrawalState {
            threshold: None,
            approvers: None,
            quorum: None,
            next_withdrawal_id: 0,
            requests: HashMap::new(),
            statuses: HashMap::new(),
            approvals: HashMap::new(),
        }
    }

    /// Configures approvers, quorum and threshold and restarts withdrawal ids.
    pub fn initialize_withdrawal_config(&mut self, approvers: Vec<Address>, quorum: u32, threshold: i128) -> (r: Result<(), MultisigWithdrawalError>)
        requires
            old(self).wf(),
        ensures
            final(self).wf(),
            approver_config_check(approvers@, quorum) is Err ==> r == approver_config_check(approvers@, quorum),
            approver_config_check(approvers@, quorum) is Ok && threshold < 0 ==> r == Err::<(), MultisigWithdrawalError>(MultisigWithdrawalError::InvalidThreshold),
            approver_config_check(approvers@, quorum) is Ok && threshold >= 0 ==> r is Ok,
            r is Err ==> *final(self) == *old(self),
            r is Ok ==> *final(self) == (WithdrawalState {
                approvers: Some(approvers),
                quorum: Some(quorum),
                threshold: Some(threshold),
                next_withdrawal_id: 0,
                ..*old(self)
            }),
    {
        validate_approver_config(approvers.as_slice(), quorum)?;
        if threshold < 0 {
            return Err(MultisigWithdrawalError::InvalidThreshold);
        }
        self.approvers = Some(approvers);
        self.quorum = Some(quorum);
        self.threshold = Some(threshold);
        self.next_withdrawal_id = 0;
        Ok(())
    }

    /// Sets the threshold from which withdrawals need approval (not negative).
    pub fn set_withdrawal_threshold(&mut self, threshold: i128) -> (r: Result<(), MultisigWithdrawalError>)
        requires
            old(self).wf(),
        ensures
            final(self).wf(),
            threshold < 0 ==> r == Err::<(), MultisigWithdrawalError>(MultisigWithdrawalError::InvalidThreshold) && *final(self) == *old(self),
            threshold >= 0 ==> r is Ok && *final(self) == (WithdrawalState { threshold: Some(threshold), ..*old(self) }),
    {
        if threshold < 0 {
            return Err(MultisigWithdrawalError::InvalidThreshold);
        }
        self.threshold = Some(threshold);
        Ok(())
    }

    /// Replaces approvers and quorum.
    pub fn set_withdrawal_approvers(&mut self, approvers: Vec<Address>, quorum: u32) -> (r: Result<(), MultisigWithdrawalError>)
        requires
            old(self).wf(),
        ensures
            final(self).wf(),
            r == approver_config_check(approvers@, quorum),
            r is Err ==> *final(self) == *old(self),
            r is Ok ==> *final(self) == (WithdrawalState { approvers: Some(approvers), quorum: Some(quorum), ..*old(self) }),
    {
        validate_approver_config(approvers.as_slice(), quorum)?;
        self.approvers = Some(approvers);
        self.quorum = Some(quorum);
        Ok(())
    }

    /// The threshold from which withdrawals need approval.
    pub fn get_withdrawal_threshold(&self) -> (r: Result<i128, MultisigWithdrawalError>)
        ensures
            self.threshold matches Some(t) ==> r == Ok::<i128, MultisigWithdrawalError>(t),
            self.threshold is None ==> r == Err::<i128, MultisigWithdrawalError>(MultisigWithdrawalError::ThresholdNotInitialized),
    {
        match self.threshold {
            Some(t) => Ok(t),
            None => Err(MultisigWithdrawalError::ThresholdNotInitialized),
        }
    }

    /// The approvers.
    pub fn get_withdrawal_approvers(&self) -> (r: Result<Vec<Address>, MultisigWithdrawalError>)
        ensures
            self.approvers is None ==> r == Err::<Vec<Address>, MultisigWithdrawalError>(MultisigWithdrawalError::ApprovalsNotInitialized),
            self.approvers is Some ==> (r matches Ok(v) && v@ == self.approvers->0@),
    {
        match &self.approvers {
            Some(a) => Ok(vstd::slice::slice_to_vec(a.as_slice())),
            None => Err(MultisigWithdrawalError::ApprovalsNotInitialized),
        }
    }

    /// The quorum.
    pub fn get_withdrawal_quorum(&self) -> (r: Result<u32, MultisigWithdrawalError>)
        ensures
            self.quorum matches Some(q) ==> r == Ok::<u32, MultisigWithdrawalError>(q),
            self.quorum is None ==> r == Err::<u32, MultisigWithdrawalError>(MultisigWithdrawalError::InvalidQuorum),
    {
        match self.quorum {
            Some(q) => Ok(q),
            None => Err(MultisigWithdrawalError::InvalidQuorum),
        }
    }

    /// Whether `approver` is a configured approver.
    pub fn is_withdrawal_approver(&self, approver: Address) -> (r: Result<bool, MultisigWithdrawalError>)
        ensures
            self.approvers is None ==> r == Err::<bool, MultisigWithdrawalError>(MultisigWithdrawalError::ApprovalsNotInitialized),
            self.approvers is Some ==> r == Ok::<bool, MultisigWithdrawalError>(self.approvers->0@.contains(approver)),
    {
        match &self.approvers {
            Some(a) => Ok(contains_address(a.as_slice(), approver)),
            None => Err(MultisigWithdrawalError::ApprovalsNotInitialized),
        }
    }

    /// Fails unless `approver` is a configured approver.
    pub fn require_withdrawal_approver(&self, approver: Address) -> (r: Result<(), MultisigWithdrawalError>)
        ensures
            self.approvers is None ==> r == Err::<(), MultisigWithdrawalError>(MultisigWithdrawalError::ApprovalsNotInitialized),
            self.approvers is Some && !self.approvers->0@.contains(approver)
                ==> r == Err::<(), MultisigWithdrawalError>(MultisigWithdrawalError::UnauthorizedApprover),
            self.approvers is Some && self.approvers->0@.contains(approver) ==> r is Ok,
    {
        if !self.is_withdrawal_approver(approver)? {
            return Err(MultisigWithdrawalError::UnauthorizedApprover);
        }
        Ok(())
    }

    /// Hands out the next withdrawal id.
    pub fn next_withdrawal_id(&mut self) -> (r: Result<u64, MultisigWithdrawalError>)
        requires
            old(self).wf(),
        ensures
            final(self).wf(),
            old(self).next_withdrawal_id == u64::MAX ==> r == Err::<u64, MultisigWithdrawalError>(MultisigWithdrawalError::InvalidQuorum)
                && *final(self) == *old(self),
            old(self).next_withdrawal_id < u64::MAX ==> r == Ok::<u64, MultisigWithdrawalError>((old(self).next_withdrawal_id + 1) as u64)
                && *final(self) == (WithdrawalState { next_withdrawal_id: (old(self).next_withdrawal_id + 1) as u64, ..*old(self) }),
    {
        if self.next_withdrawal_id == u64::MAX {
            return Err(MultisigWithdrawalError::InvalidQuorum);
        }
        self.next_withdrawal_id = self.next_withdrawal_id + 1;
        Ok(self.next_withdrawal_id)
    }

    /// Creates a pending request for `amount` from `vault_id`; returns its id. A threshold
    /// must be configured.
    pub fn request_withdrawal(&mut self, requester: Address, amount: i128, vault_id: u64, now: u64) -> (r: Result<u64, MultisigWithdrawalError>)
        requires
            old(self).wf(),
        ensures
            final(self).wf(),
            amount <= 0 ==> r == Err::<u64, MultisigWithdrawalError>(MultisigWithdrawalError::InvalidAmount),
            amount > 0 && old(self).threshold is None ==> r == Err::<u64, MultisigWithdrawalError>(MultisigWithdrawalError::ThresholdNotInitialized),
            amount > 0 && old(self).threshold is Some && old(self).next_withdrawal_id == u64::MAX
                ==> r == Err::<u64, MultisigWithdrawalError>(MultisigWithdrawalError::InvalidQuorum),
            r is Err ==> *final(self) == *old(self),
            amount > 0 && old(self).threshold is Some && old(self).next_withdrawal_id < u64::MAX ==> {
                let id = (old(self).next_withdrawal_id + 1) as u64;
                &&& r == Ok::<u64, MultisigWithdrawalError>(id)
                &&& final(self).next_withdrawal_id == id
                &&& final(self).requests@ == old(self).requests@.insert(id, WithdrawalRequest {
                    id, requester, amount, vault_id, created_at: now, approval_count: 0,
                })
                &&& final(self).statuses@ == old(self).statuses@.insert(id, WithdrawalStatus::Pending)
                &&& final(self).approvals == old(self).approvals
                &&& final(self).approvers == old(self).approvers
                &&& final(self).quorum == old(self).quorum
                &&& final(self).threshold == old(self).threshold
            },
    {
        if amount <= 0 {
            return Err(MultisigWithdrawalError::InvalidAmount);
        }
        let _ = self.get_withdrawal_threshold()?;
        let id = self.next_withdrawal_id()?;
        self.requests.insert(id, WithdrawalRequest { id, requester, amount, vault_id, created_at: now, approval_count: 0 });
        self.statuses.insert(id, WithdrawalStatus::Pending);
        Ok(id)
    }

    /// The request of withdrawal `withdrawal_id`.
    pub fn get_withdrawal_request(&self, withdrawal_id: u64) -> (r: Result<WithdrawalRequest, MultisigWithdrawalError>)
        ensures
            self.requests@.contains_key(withdrawal_id) ==> r == Ok::<WithdrawalRequest, MultisigWithdrawalError>(self.requests@[withdrawal_id]),
            !self.requests@.contains_key(withdrawal_id) ==> r == Err::<WithdrawalRequest, MultisigWithdrawalError>(MultisigWithdrawalError::WithdrawalNotFound),
    {
        match self.requests.get(&withdrawal_id) {
            Some(req) => Ok(*req),
            None => Err(MultisigWithdrawalError::WithdrawalNotFound),
        }
    }

    /// Status of withdrawal `withdrawal_id` (pending when never set).
    pub fn get_withdrawal_status(&self, withdrawal_id: u64) -> (r: WithdrawalStatus)
        ensures
            r == self.status_of(withdrawal_id),
    {
        match self.statuses.get(&withdrawal_id) {
            Some(s) => *s,
            None => WithdrawalStatus::Pending,
        }
    }

    /// Approvals of withdrawal `withdrawal_id`.
    pub fn get_withdrawal_approval_count(&self, withdrawal_id: u64) -> (r: u32)
        requires
            self.wf(),
        ensures
            r == self.count_of(withdrawal_id),
    {
        match self.approvals.get(&withdrawal_id) {
            Some(v) => v.len() as u32,
            None => 0,
        }
    }

    /// Whether `approver` approved withdrawal `withdrawal_id`.
    pub fn has_withdrawal_approval(&self, withdrawal_id: u64, approver: Address) -> (r: bool)
        ensures
            r == self.approved(withdrawal_id, approver),
    {
        match self.approvals.get(&withdrawal_id) {
            Some(v) => contains_address(v.as_slice(), approver),
            None => false,
        }
    }

    /// Whether withdrawing `amount` needs approval: it is at or above the threshold.
    pub fn requires_approval(&self, amount: i128) -> (r: Result<bool, MultisigWithdrawalError>)
        ensures
            self.threshold matches Some(t) ==> r == Ok::<bool, MultisigWithdrawalError>(amount >= t),
            self.threshold is None ==> r == Err::<bool, MultisigWithdrawalError>(MultisigWithdrawalError::ThresholdNotInitialized),
    {
        let threshold = self.get_withdrawal_threshold()?;
        Ok(amount >= threshold)
    }

    /// Records `approver`'s approval of pending withdrawal `withdrawal_id`; the withdrawal is
    /// executed as soon as its approvals reach the quorum.
    pub fn approve_withdrawal(&mut self, approver: Address, withdrawal_id: u64) -> (r: Result<ApprovalOutcome, MultisigWithdrawalError>)
        requires
            old(self).wf(),
        ensures
            final(self).wf(),
            match old(self).approve_check(approver, withdrawal_id) {
                Err(e) => r == Err::<ApprovalOutcome, MultisigWithdrawalError>(e) && *final(self) == *old(self),
                Ok(()) => {
                    let n = old(self).count_of(withdrawal_id) + 1;
                    let q = old(self).quorum->0;
                    &&& r == Ok::<ApprovalOutcome, MultisigWithdrawalError>(ApprovalOutcome {
                        approval_count: n as u32,
                        quorum: q,
                        executed: n >= q,
                    })
                    &&& final(self).approvals@ == old(self).approvals@.insert(withdrawal_id, final(self).approvals@[withdrawal_id])
                    &&& final(self).approvers_of(withdrawal_id) == old(self).approvers_of(withdrawal_id).push(approver)
                    &&& final(self).statuses@ == if n >= q {
                        old(self).statuses@.insert(withdrawal_id, WithdrawalStatus::Executed)
                    } else {
                        old(self).statuses@
                    }
                    &&& final(self).requests == old(self).requests
                    &&& final(self).approvers == old(self).approvers
                    &&& final(self).quorum == old(self).quorum
                    &&& final(self).threshold == old(self).threshold
                    &&& final(self).next_withdrawal_id == old(self).next_withdrawal_id
                },
            },
    {
        self.require_withdrawal_approver(approver)?;
        if !self.requests.contains_key(&withdrawal_id) {
            return Err(MultisigWithdrawalError::WithdrawalNotFound);
        }
        if self.get_withdrawal_status(withdrawal_id) != WithdrawalStatus::Pending {
            return Err(MultisigWithdrawalError::WithdrawalCancelled);
        }
        if self.has_withdrawal_approval(withdrawal_id, approver) {
            return Err(MultisigWithdrawalError::DuplicateApproval);
        }
        let current = self.get_withdrawal_approval_count(withdrawal_id);
        if current == u32::MAX {
            return Err(MultisigWithdrawalError::InvalidQuorum);
        }
        let ghost old_self = *self;
        let mut list: Vec<Address> = match self.approvals.get(&withdrawal_id) {
            Some(v) => vstd::slice::slice_to_vec(v.as_slice()),
            None => Vec::new(),
        };
        let ghost before = list@;
        list.push(approver);
        self.approvals.insert(withdrawal_id, list);
        let quorum = self.get_withdrawal_quorum()?;
        let next = current + 1;
        let executed = next >= quorum;
        if executed {
            self.statuses.insert(withdrawal_id, WithdrawalStatus::Executed);
        }
        proof {
            assert(before == old_self.approvers_of(withdrawal_id));
            assert forall|id: u64| #[trigger] self.approvals@.contains_key(id) implies {
                &&& self.approvals@[id]@.len() <= u32::MAX
                &&& !has_duplicate_approver(self.approvals@[id]@)
            } by {
                if id == withdrawal_id {
                    let s = self.approvals@[id]@;
                    assert(s == before.push(approver));
                    if has_duplicate_approver(s) {
                        let (i, j) = choose|i: int, j: int| 0 <= i < j < s.len() && #[trigger] s[i] == #[trigger] s[j];
                        if j == s.len() - 1 {
                            assert(before[i] == approver);
                            assert(before.contains(approver));
                        } else {
                            assert(before[i] == before[j]);
                            assert(old_self.approvals@.contains_key(id));
                        }
                    }
                } else {
                    assert(old_self.approvals@.contains_key(id));
                }
            }
        }
        Ok(ApprovalOutcome { approval_count: next, quorum, executed })
    }

    /// Executes withdrawal `withdrawal_id` once its approvals reach the quorum.
    pub fn execute_withdrawal(&mut self, withdrawal_id: u64) -> (r: Result<(), MultisigWithdrawalError>)
        requires
            old(self).wf(),
        ensures
            final(self).wf(),
            r == old(self).execute_check(withdrawal_id),
            r is Err ==> *final(self) == *old(self),
            r is Ok ==> *final(self) == (WithdrawalState {
                statuses: final(self).statuses,
                ..*old(self)
            }) && final(self).statuses@ == old(self).statuses@.insert(withdrawal_id, WithdrawalStatus::Executed),
    {
        if !self.requests.contains_key(&withdrawal_id) {
            return Err(MultisigWithdrawalError::WithdrawalNotFound);
        }
        let status = self.get_withdrawal_status(withdrawal_id);
        if status == WithdrawalStatus::Executed {
            return Err(MultisigWithdrawalError::AlreadyExecuted);
        }
        if status == WithdrawalStatus::Cancelled {
            return Err(MultisigWithdrawalError::WithdrawalCancelled);
        }
        let count = self.get_withdrawal_approval_count(withdrawal_id);
        let quorum = self.get_withdrawal_quorum()?;
        if count < quorum {
            return Err(MultisigWithdrawalError::QuorumNotReached);
        }
        self.statuses.insert(withdrawal_id, WithdrawalStatus::Executed);
        Ok(())
    }
}

} // verus!
