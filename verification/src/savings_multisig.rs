//! A savings contract whose withdrawals go through multi-signature approval: withdrawals at
//! or above the threshold need the quorum of approvers before they are executed.
use vstd::prelude::*;
use crate::fees::Address;
use crate::withdrawal::{ApprovalOutcome, MultisigWithdrawalError, WithdrawalState, WithdrawalStatus};

verus! {

broadcast use vstd::std_specs::hash::group_hash_axioms;

/// A withdrawal as reported to callers.
#[derive(Clone, Copy, Debug, PartialEq, Eq, Structural)]
pub struct WithdrawalQueryResponse {
    pub id: u64,
    pub requester: Address,
    pub amount: i128,
    pub vault_id: u64,
    pub approval_count: u32,
    pub required_quorum: u32,
    /// Whether the withdrawal was executed.
    pub is_approved: bool,
}

/// Savings contract state: the withdrawal approvals and the contract's own address, which
/// requests, approves and executes withdrawals.
pub struct SavingsContractWithMultisig {
    pub withdrawals: WithdrawalState,
    pub contract_address: Address,
}

impl SavingsContractWithMultisig {
    /// A contract at `contract_address` with nothing configured.
    pub fn new(contract_address: Address) -> (r: SavingsContractWithMultisig)
        ensures
            r.withdrawals.wf(),
            r.withdrawals.approvers is None,
            r.withdrawals.threshold is None,
            r.withdrawals.requests@.len() == 0,
            r.contract_address == contract_address,
    {
        SavingsContractWithMultisig { withdrawals: WithdrawalState::new(), contract_address }
    }

    /// Configures approvers, quorum and the threshold from which withdrawals need approval.
    pub fn initialize_savings(&mut self, approvers: Vec<Address>, quorum: u32, withdrawal_threshold: i128) -> (r: Result<(), MultisigWithdrawalError>)
        requires
            old(self).withdrawals.wf(),
        ensures
            final(self).withdrawals.wf(),
            final(self).contract_address == old(self).contract_address,
            r is Err ==> final(self).withdrawals == old(self).withdrawals,
            r is Ok ==> final(self).withdrawals == (WithdrawalState {
                approvers: Some(approvers),
                quorum: Some(quorum),
                threshold: Some(withdrawal_threshold),
                next_withdrawal_id: 0,
                ..old(self).withdrawals
            }),
            r is Ok <==> (crate::withdrawal::approver_config_check(approvers@, quorum) is Ok && withdrawal_threshold >= 0),
    {
        self.withdrawals.initialize_withdrawal_config(approvers, quorum, withdrawal_threshold)
    }

    /// Requests a withdrawal of `amount` from `vault_id` on the contract's behalf.
    pub fn request_withdrawal(&mut self, amount: i128, vault_id: u64, now: u64) -> (r: Result<u64, MultisigWithdrawalError>)
        requires
            old(self).withdrawals.wf(),
        ensures
            final(self).withdrawals.wf(),
            final(self).contract_address == old(self).contract_address,
            amount <= 0 ==> r == Err::<u64, MultisigWithdrawalError>(MultisigWithdrawalError::InvalidAmount),
            r is Err ==> final(self).withdrawals == old(self).withdrawals,
            r matches Ok(id) ==> final(self).withdrawals.requests@.contains_key(id)
                && final(self).withdrawals.requests@[id].requester == old(self).contract_address
                && final(self).withdrawals.requests@[id].amount == amount
                && final(self).withdrawals.requests@[id].vault_id == vault_id
                && final(self).withdrawals.status_of(id) == WithdrawalStatus::Pending,
            amount > 0 && old(self).withdrawals.threshold is Some && old(self).withdrawals.next_withdrawal_id < u64::MAX
                ==> r == Ok::<u64, MultisigWithdrawalError>((old(self).withdrawals.next_withdrawal_id + 1) as u64),
    {
        let requester = self.contract_address;
        self.withdrawals.request_withdrawal(requester, amount, vault_id, now)
    }

    /// Approves withdrawal `withdrawal_id` as the contract; it executes once the quorum is reached.
    pub fn approve_withdrawal(&mut self, withdrawal_id: u64) -> (r: Result<ApprovalOutcome, MultisigWithdrawalError>)
        requires
            old(self).withdrawals.wf(),
        ensures
            final(self).withdrawals.wf(),
            final(self).contract_address == old(self).contract_address,
            old(self).withdrawals.approve_check(old(self).contract_address, withdrawal_id) matches Err(e)
                ==> r == Err::<ApprovalOutcome, MultisigWithdrawalError>(e) && final(self).withdrawals == old(self).withdrawals,
            r matches Ok(o) ==> final(self).withdrawals.approved(withdrawal_id, old(self).contract_address)
                && o.approval_count == final(self).withdrawals.count_of(withdrawal_id)
                && (o.executed <==> final(self).withdrawals.status_of(withdrawal_id) == WithdrawalStatus::Executed)
                && (o.executed <==> o.approval_count >= o.quorum),
    {
        let approver = self.contract_address;
        let ghost before = self.withdrawals;
        let r = self.withdrawals.approve_withdrawal(approver, withdrawal_id);
        proof {
            if r is Ok {
                let s = before.approvers_of(withdrawal_id);
                assert(s.push(approver)[s.len() as int] == approver);
                assert(self.withdrawals.approvers_of(withdrawal_id).contains(approver));
            }
        }
        r
    }

    /// Executes withdrawal `withdrawal_id` once it has reached its quorum.
    pub fn execute_withdrawal(&mut self, withdrawal_id: u64) -> (r: Result<(), MultisigWithdrawalError>)
        requires
            old(self).withdrawals.wf(),
        ensures
            final(self).withdrawals.wf(),
            final(self).contract_address == old(self).contract_address,
            r == old(self).withdrawals.execute_check(withdrawal_id),
            r is Err ==> final(self).withdrawals == old(self).withdrawals,
            r is Ok ==> final(self).withdrawals.status_of(withdrawal_id) == WithdrawalStatus::Executed,
    {
        self.withdrawals.execute_withdrawal(withdrawal_id)
    }

    /// The request, approvals, quorum and execution state of withdrawal `withdrawal_id`.
    pub fn query_withdrawal(&self, withdrawal_id: u64) -> (r: Result<WithdrawalQueryResponse, MultisigWithdrawalError>)
        requires
            self.withdrawals.wf(),
        ensures
            !self.withdrawals.requests@.contains_key(withdrawal_id)
                ==> r == Err::<WithdrawalQueryResponse, MultisigWithdrawalError>(MultisigWithdrawalError::WithdrawalNotFound),
            self.withdrawals.requests@.contains_key(withdrawal_id) && self.withdrawals.quorum is None
                ==> r == Err::<WithdrawalQueryResponse, MultisigWithdrawalError>(MultisigWithdrawalError::InvalidQuorum),
            self.withdrawals.requests@.contains_key(withdrawal_id) && self.withdrawals.quorum is Some ==> {
                let req = self.withdrawals.requests@[withdrawal_id];
                r == Ok::<WithdrawalQueryResponse, MultisigWithdrawalError>(WithdrawalQueryResponse {
                    id: req.id,
                    requester: req.requester,
                    amount: req.amount,
                    vault_id: req.vault_id,
                    approval_count: self.withdrawals.count_of(withdrawal_id) as u32,
                    required_quorum: self.withdrawals.quorum->0,
                    is_approved: self.withdrawals.status_of(withdrawal_id) == WithdrawalStatus::Executed,
                })
            },
    {
        let request = self.withdrawals.get_withdrawal_request(withdrawal_id)?;
        let approval_count = self.withdrawals.get_withdrawal_approval_count(withdrawal_id);
        let quorum = self.withdrawals.get_withdrawal_quorum()?;
        let status = self.withdrawals.get_withdrawal_status(withdrawal_id);
        Ok(WithdrawalQueryResponse {
            id: request.id,
            requester: request.requester,
            amount: request.amount,
            vault_id: request.vault_id,
            approval_count,
            required_quorum: quorum,
            is_approved: status == WithdrawalStatus::Executed,
        })
    }

    /// Whether withdrawing `amount` needs approval.
    pub fn requires_approval(&self, amount: i128) -> (r: Result<bool, MultisigWithdrawalError>)
        ensures
            self.withdrawals.threshold matches Some(t) ==> r == Ok::<bool, MultisigWithdrawalError>(amount >= t),
            self.withdrawals.threshold is None ==> r == Err::<bool, MultisigWithdrawalError>(MultisigWithdrawalError::ThresholdNotInitialized),
    {
        self.withdrawals.requires_approval(amount)
    }

    /// The withdrawal threshold.
    pub fn get_withdrawal_threshold(&self) -> (r: Result<i128, MultisigWithdrawalError>)
        ensures
            self.withdrawals.threshold matches Some(t) ==> r == Ok::<i128, MultisigWithdrawalError>(t),
            self.withdrawals.threshold is None ==> r == Err::<i128, MultisigWithdrawalError>(MultisigWithdrawalError::ThresholdNotInitialized),
    {
        self.withdrawals.get_withdrawal_threshold()
    }

    /// The approval quorum.
    pub fn get_withdrawal_quorum(&self) -> (r: Result<u32, MultisigWithdrawalError>)
        ensures
            self.withdrawals.quorum matches Some(q) ==> r == Ok::<u32, MultisigWithdrawalError>(q),
            self.withdrawals.quorum is None ==> r == Err::<u32, MultisigWithdrawalError>(MultisigWithdrawalError::InvalidQuorum),
    {
        self.withdrawals.get_withdrawal_quorum()
    }

    /// The approvers.
    pub fn get_withdrawal_approvers(&self) -> (r: Result<Vec<Address>, MultisigWithdrawalError>)
        ensures
            self.withdrawals.approvers is None ==> r == Err::<Vec<Address>, MultisigWithdrawalError>(MultisigWithdrawalError::ApprovalsNotInitialized),
            self.withdrawals.approvers is Some ==> (r matches Ok(v) && v@ == self.withdrawals.approvers->0@),
    {
        self.withdrawals.get_withdrawal_approvers()
    }

    /// Whether `address` is an approver.
    pub fn is_withdrawal_approver(&self, address: Address) -> (r: Result<bool, MultisigWithdrawalError>)
        ensures
            self.withdrawals.approvers is None ==> r == Err::<bool, MultisigWithdrawalError>(MultisigWithdrawalError::ApprovalsNotInitialized),
            self.withdrawals.approvers is Some ==> r == Ok::<bool, MultisigWithdrawalError>(self.withdrawals.approvers->0@.contains(address)),
    {
        self.withdrawals.is_withdrawal_approver(address)
    }
}

} // verus!
