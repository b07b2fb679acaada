use stellarspend::multisig::{validate_signer_config, MultiSigError, MultisigState};

const ADMIN: u64 = 1;

fn configured() -> MultisigState {
    let mut s = MultisigState::new();
    s.initialize_state(ADMIN).unwrap();
    s.set_signers(ADMIN, vec![10, 11, 12], 2).unwrap();
    s
}

#[test]
fn initialization_sets_defaults_once() {
    let mut s = MultisigState::new();
    assert_eq!(s.get_admin(), Err(MultiSigError::NotInitialized));
    s.initialize_state(ADMIN).unwrap();
    assert_eq!(s.initialize_state(ADMIN), Err(MultiSigError::AlreadyInitialized));
    assert_eq!(s.get_admin(), Ok(ADMIN));
    assert_eq!(s.get_threshold(), 0);
    assert_eq!(s.get_high_value_threshold(), i128::MAX);
    assert_eq!(s.ensure_multisig_configured(), Err(MultiSigError::MultisigNotConfigured));
}

#[test]
fn signer_configuration_is_validated() {
    assert_eq!(validate_signer_config(&[], 1), Err(MultiSigError::InvalidThreshold));
    assert_eq!(validate_signer_config(&[1, 2], 0), Err(MultiSigError::InvalidThreshold));
    assert_eq!(validate_signer_config(&[1, 2], 3), Err(MultiSigError::InvalidThreshold));
    assert_eq!(validate_signer_config(&[1, 2, 1], 2), Err(MultiSigError::DuplicateSigner));
    assert_eq!(validate_signer_config(&[1, 2, 3], 3), Ok(()));
    let mut s = configured();
    assert_eq!(s.set_signers(5, vec![1], 1), Err(MultiSigError::Unauthorized));
    assert_eq!(s.set_signers(ADMIN, vec![1, 1], 1), Err(MultiSigError::DuplicateSigner));
    assert_eq!(s.get_signers(), vec![10, 11, 12]);
    assert_eq!(s.get_threshold(), 2);
    assert_eq!(s.ensure_multisig_configured(), Ok(()));
}

#[test]
fn signers_are_recognised() {
    let s = configured();
    assert!(s.is_signer(11));
    assert!(!s.is_signer(13));
    assert_eq!(s.require_signer(12), Ok(()));
    assert_eq!(s.require_signer(13), Err(MultiSigError::UnauthorizedSigner));
}

#[test]
fn approvals_are_counted_once_per_signer() {
    let mut s = configured();
    let tx = s.next_tx_id().unwrap();
    assert_eq!(tx, 1);
    assert_eq!(s.next_tx_id(), Ok(2));
    assert_eq!(s.get_approval_count(tx), 0);
    assert_eq!(s.record_approval(tx, 10), Ok(1));
    assert!(s.has_approval(tx, 10));
    assert!(!s.has_approval(tx, 11));
    assert_eq!(s.record_approval(tx, 10), Err(MultiSigError::DuplicateApproval));
    assert_eq!(s.record_approval(tx, 11), Ok(2));
    assert_eq!(s.record_approval(2, 11), Ok(1));
    assert_eq!(s.get_approval_count(tx), 2);
    assert_eq!(s.get_approval_count(2), 1);
}

#[test]
fn high_value_threshold_is_admin_only_and_not_negative() {
    let mut s = configured();
    assert_eq!(s.set_high_value_threshold(ADMIN, -1), Err(MultiSigError::InvalidAmount));
    assert_eq!(s.set_high_value_threshold(7, 10), Err(MultiSigError::Unauthorized));
    s.set_high_value_threshold(ADMIN, 10_000).unwrap();
    assert_eq!(s.get_high_value_threshold(), 10_000);
    assert_eq!(MultiSigError::BlacklistedDestination.code(), 14);
}
