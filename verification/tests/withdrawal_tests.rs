use stellarspend::savings_multisig::SavingsContractWithMultisig;
use stellarspend::withdrawal::{validate_approver_config, ApprovalOutcome, MultisigWithdrawalError, WithdrawalState, WithdrawalStatus};
use stellarspend::withdrawal_utils::{WithdrawalAudit, WithdrawalLifecycle, WithdrawalQuery, WithdrawalValidation};

const A1: u64 = 1;
const A2: u64 = 2;
const A3: u64 = 3;
const USER: u64 = 50;

fn configured() -> WithdrawalState {
    let mut s = WithdrawalState::new();
    s.initialize_withdrawal_config(vec![A1, A2, A3], 2, 10_000).unwrap();
    s
}

#[test]
fn configuration_is_validated() {
    assert_eq!(validate_approver_config(&[], 1), Err(MultisigWithdrawalError::InvalidQuorum));
    assert_eq!(validate_approver_config(&[1, 2], 3), Err(MultisigWithdrawalError::InvalidQuorum));
    assert_eq!(validate_approver_config(&[1, 2, 2], 2), Err(MultisigWithdrawalError::InvalidThreshold));
    let mut s = WithdrawalState::new();
    assert_eq!(s.initialize_withdrawal_config(vec![A1], 1, -1), Err(MultisigWithdrawalError::InvalidThreshold));
    assert_eq!(s.get_withdrawal_threshold(), Err(MultisigWithdrawalError::ThresholdNotInitialized));
    assert_eq!(s.get_withdrawal_quorum(), Err(MultisigWithdrawalError::InvalidQuorum));
    assert_eq!(s.get_withdrawal_approvers(), Err(MultisigWithdrawalError::ApprovalsNotInitialized));
    let s = configured();
    assert_eq!(s.get_withdrawal_threshold(), Ok(10_000));
    assert_eq!(s.get_withdrawal_quorum(), Ok(2));
    assert_eq!(s.get_withdrawal_approvers(), Ok(vec![A1, A2, A3]));
    assert_eq!(s.requires_approval(10_000), Ok(true));
    assert_eq!(s.requires_approval(9_999), Ok(false));
}

#[test]
fn withdrawal_executes_when_quorum_is_reached() {
    let mut s = configured();
    let id = s.request_withdrawal(USER, 15_000, 1, 77).unwrap();
    assert_eq!(id, 1);
    assert_eq!(s.get_withdrawal_status(id), WithdrawalStatus::Pending);
    assert_eq!(s.execute_withdrawal(id), Err(MultisigWithdrawalError::QuorumNotReached));
    assert_eq!(s.approve_withdrawal(A1, id), Ok(ApprovalOutcome { approval_count: 1, quorum: 2, executed: false }));
    assert_eq!(s.approve_withdrawal(A1, id), Err(MultisigWithdrawalError::DuplicateApproval));
    assert_eq!(s.approve_withdrawal(USER, id), Err(MultisigWithdrawalError::UnauthorizedApprover));
    assert_eq!(s.approve_withdrawal(A2, id), Ok(ApprovalOutcome { approval_count: 2, quorum: 2, executed: true }));
    assert_eq!(s.get_withdrawal_status(id), WithdrawalStatus::Executed);
    assert_eq!(s.approve_withdrawal(A3, id), Err(MultisigWithdrawalError::WithdrawalCancelled));
    assert_eq!(s.execute_withdrawal(id), Err(MultisigWithdrawalError::AlreadyExecuted));
    assert_eq!(s.get_withdrawal_approval_count(id), 2);
    let req = s.get_withdrawal_request(id).unwrap();
    assert_eq!(req.amount, 15_000);
    assert_eq!(req.created_at, 77);
}

#[test]
fn request_errors() {
    let mut s = WithdrawalState::new();
    assert_eq!(s.request_withdrawal(USER, 0, 1, 0), Err(MultisigWithdrawalError::InvalidAmount));
    assert_eq!(s.request_withdrawal(USER, 10, 1, 0), Err(MultisigWithdrawalError::ThresholdNotInitialized));
    assert_eq!(s.get_withdrawal_request(1), Err(MultisigWithdrawalError::WithdrawalNotFound));
    assert_eq!(s.approve_withdrawal(A1, 1), Err(MultisigWithdrawalError::ApprovalsNotInitialized));
    let mut s = configured();
    assert_eq!(s.approve_withdrawal(A1, 4), Err(MultisigWithdrawalError::WithdrawalNotFound));
    assert_eq!(s.execute_withdrawal(4), Err(MultisigWithdrawalError::WithdrawalNotFound));
    s.set_withdrawal_threshold(5).unwrap();
    assert_eq!(s.set_withdrawal_threshold(-5), Err(MultisigWithdrawalError::InvalidThreshold));
    assert_eq!(s.get_withdrawal_threshold(), Ok(5));
}

#[test]
fn queries_and_statistics() {
    let mut s = configured();
    let w1 = s.request_withdrawal(USER, 20_000, 1, 0).unwrap();
    let w2 = s.request_withdrawal(USER, 500, 2, 0).unwrap();
    let w3 = s.request_withdrawal(99, 700, 3, 0).unwrap();
    s.approve_withdrawal(A1, w1).unwrap();
    s.approve_withdrawal(A2, w1).unwrap();
    s.approve_withdrawal(A1, w2).unwrap();
    let ids = vec![w1, w2, w3];
    assert_eq!(WithdrawalQuery::get_pending_for_requester(&s, USER, &ids), Ok(vec![w2]));
    assert_eq!(WithdrawalQuery::get_pending_for_approver(&s, A1, &ids), Ok(vec![w3]));
    assert_eq!(WithdrawalQuery::get_pending_for_approver(&s, A2, &ids), Ok(vec![w2, w3]));
    assert_eq!(WithdrawalQuery::get_pending_for_approver(&s, USER, &ids), Ok(vec![]));
    assert_eq!(WithdrawalQuery::get_pending_for_requester(&s, USER, &vec![w1, 42]), Err(MultisigWithdrawalError::WithdrawalNotFound));
    let stats = WithdrawalAudit::calculate_stats(&s, &ids).unwrap();
    assert_eq!(stats.total_withdrawals, 3);
    assert_eq!(stats.pending_count, 2);
    assert_eq!(stats.executed_count, 1);
    assert_eq!(stats.cancelled_count, 0);
    assert_eq!(stats.total_amount, 21_200);
    assert_eq!(stats.pending_amount, 1_200);
    assert_eq!(stats.executed_amount, 20_000);
    assert_eq!(stats.success_rate, 33);
    assert_eq!(WithdrawalAudit::calculate_stats(&s, &vec![42]), Err(MultisigWithdrawalError::WithdrawalNotFound));
    assert!(WithdrawalAudit::check_required_approvals(&s, w1, &vec![A1, A2]));
    assert!(!WithdrawalAudit::check_required_approvals(&s, w1, &vec![A1, A3]));
    assert_eq!(WithdrawalAudit::get_approval_list(&s, w1), Ok(vec![A1, A2]));
    let info = WithdrawalQuery::get_status_info(&s, w2).unwrap();
    assert_eq!(info.status, 0);
    assert_eq!(info.approval_count, 1);
    assert_eq!(info.approvals_remaining, 1);
    assert!(!info.requires_approval);
    assert!(info.is_pending);
    let info = WithdrawalQuery::get_status_info(&s, w1).unwrap();
    assert_eq!(info.status, 2);
    assert!(info.is_executed);
    assert!(info.requires_approval);
}

#[test]
fn lifecycle_checks() {
    let mut s = configured();
    let w = s.request_withdrawal(USER, 20_000, 1, 0).unwrap();
    assert_eq!(WithdrawalLifecycle::can_approve(&s, w, A1), Ok(true));
    assert_eq!(WithdrawalLifecycle::can_approve(&s, w, USER), Ok(false));
    assert_eq!(WithdrawalLifecycle::can_execute(&s, w), Ok(false));
    assert_eq!(WithdrawalLifecycle::get_failure_reason(&s, w, USER), Ok(Some("approver_not_authorized")));
    s.approve_withdrawal(A1, w).unwrap();
    assert_eq!(WithdrawalLifecycle::get_failure_reason(&s, w, A1), Ok(Some("duplicate_approval")));
    assert_eq!(WithdrawalLifecycle::get_failure_reason(&s, w, A2), Ok(None));
    s.approve_withdrawal(A2, w).unwrap();
    assert_eq!(WithdrawalLifecycle::get_failure_reason(&s, w, A3), Ok(Some("withdrawal_already_executed")));
    assert_eq!(WithdrawalLifecycle::can_approve(&s, w, A3), Ok(false));
    assert_eq!(WithdrawalLifecycle::can_execute(&s, w), Ok(false));
    assert_eq!(WithdrawalValidation::validate_approval_count(&s, w), Ok(2));
    assert!(WithdrawalValidation::validate_amount(1));
    assert!(!WithdrawalValidation::validate_amount(i128::MAX));
    assert!(WithdrawalValidation::validate_vault_id(1));
    assert!(!WithdrawalValidation::validate_withdrawal_id(0));
}

#[test]
fn savings_contract_routes_withdrawals_through_approval() {
    let mut c = SavingsContractWithMultisig::new(A1);
    c.initialize_savings(vec![A1, A2], 1, 10_000).unwrap();
    let id = c.request_withdrawal(15_000, 3, 0).unwrap();
    assert_eq!(c.requires_approval(15_000), Ok(true));
    let response = c.query_withdrawal(id).unwrap();
    assert_eq!(response.requester, A1);
    assert!(!response.is_approved);
    let outcome = c.approve_withdrawal(id).unwrap();
    assert!(outcome.executed);
    let response = c.query_withdrawal(id).unwrap();
    assert_eq!(response.approval_count, 1);
    assert_eq!(response.required_quorum, 1);
    assert!(response.is_approved);
    assert_eq!(c.execute_withdrawal(id), Err(MultisigWithdrawalError::AlreadyExecuted));
    assert_eq!(c.is_withdrawal_approver(A2), Ok(true));
    assert_eq!(c.get_withdrawal_quorum(), Ok(1));
    assert_eq!(c.get_withdrawal_threshold(), Ok(10_000));
    assert_eq!(c.get_withdrawal_approvers(), Ok(vec![A1, A2]));
}

#[test]
fn withdrawal_error_codes() {
    assert_eq!(MultisigWithdrawalError::NotInitialized.code(), 1);
    assert_eq!(MultisigWithdrawalError::QuorumNotReached.code(), 11);
    assert_eq!(MultisigWithdrawalError::ApprovalsNotInitialized.code(), 14);
    assert_eq!(WithdrawalStatus::Executed.code(), 2);
}
