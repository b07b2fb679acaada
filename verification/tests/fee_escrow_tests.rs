use stellarspend::fee_escrow::{is_valid_tier, FeeLedger, DEFAULT_MAX_FEE, DEFAULT_MIN_FEE};
use stellarspend::fee_math::{calculate_fee_decay, validate_fee_bps, validate_min_fee, FeeContractError};

const ADMIN: u64 = 1;
const TOKEN: u64 = 2;
const TREASURY: u64 = 3;
const PAYER: u64 = 4;

fn setup() -> FeeLedger {
    let mut ledger = FeeLedger::new();
    ledger.initialize(ADMIN, TOKEN, TREASURY, 250, 1).unwrap();
    ledger
}

fn rollover_to(ledger: &mut FeeLedger, to_cycle: u64) {
    let from = ledger.read_current_cycle().unwrap();
    ledger.rollover_cycle_fees(from, to_cycle).unwrap();
    ledger.write_current_cycle(to_cycle).unwrap();
}

#[test]
fn batch_collection_aggregates_fee_inputs_with_one_state_update() {
    let mut ledger = setup();
    let result = ledger.collect_batch_to_escrow(PAYER, &[10, 20, 30, 40]).unwrap();
    assert_eq!(result.batch_size, 4);
    assert_eq!(result.total_amount, 100);
    assert_eq!(result.cycle, 1);
    assert_eq!(result.pending_fees, 100);
    assert_eq!(ledger.read_pending_fees(1), 100);
    assert_eq!(ledger.read_escrow_balance(), 100);
    assert_eq!(ledger.read_total_collected(), 100);
    assert_eq!(ledger.read_total_batch_calls(), 1);
}

#[test]
fn batch_with_a_zero_amount_changes_nothing() {
    let mut ledger = setup();
    assert_eq!(ledger.collect_batch_to_escrow(PAYER, &[10, 0, 30]), Err(FeeContractError::InvalidAmount));
    assert_eq!(ledger.read_escrow_balance(), 0);
    assert_eq!(ledger.read_total_batch_calls(), 0);
}

#[test]
fn test_update_activity_and_get_last_active() {
    let mut ledger = setup();
    assert_eq!(ledger.read_last_active(PAYER), 0);
    ledger.write_last_active(PAYER, 0);
    assert_eq!(ledger.read_last_active(PAYER), 0);
}

#[test]
fn test_fee_decay_logic() {
    let mut ledger = setup();
    ledger.write_last_active(PAYER, 1000);
    assert_eq!(ledger.read_last_active(PAYER), 1000);
    let fee = calculate_fee_decay(100, ledger.read_last_active(PAYER), 1010);
    let pending = ledger.collect_to_escrow(PAYER, fee).unwrap();
    ledger.write_last_active(PAYER, 1010);
    assert_eq!(pending, 90);
    assert_eq!(ledger.read_last_active(PAYER), 1010);
}

#[test]
fn test_fee_decay_min_fee() {
    let mut ledger = setup();
    ledger.write_last_active(PAYER, 1000);
    let fee = calculate_fee_decay(100, ledger.read_last_active(PAYER), 2000);
    let pending = ledger.collect_to_escrow(PAYER, fee).unwrap();
    assert_eq!(pending, 10);
}

#[test]
fn test_fee_decay_batch() {
    let mut ledger = setup();
    ledger.write_last_active(PAYER, 1000);
    let last = ledger.read_last_active(PAYER);
    let fees: Vec<i128> = [100i128, 50, 25].iter().map(|a| calculate_fee_decay(*a, last, 1020)).collect();
    let res = ledger.collect_batch_to_escrow(PAYER, &fees).unwrap();
    assert_eq!(res.total_amount, 120);
    assert_eq!(res.batch_size, 3);
}

#[test]
fn fees_are_held_then_released_from_escrow() {
    let mut ledger = setup();
    assert_eq!(ledger.read_escrow_balance(), 0);
    assert_eq!(ledger.read_pending_fees(1), 0);
    let pending = ledger.collect_to_escrow(PAYER, 150).unwrap();
    assert_eq!(pending, 150);
    assert_eq!(ledger.read_escrow_balance(), 150);
    assert_eq!(ledger.read_pending_fees(1), 150);
    assert_eq!(ledger.read_total_collected(), 150);
    let released = ledger.release_cycle_fees(1).unwrap();
    assert_eq!(released, 150);
    assert_eq!(ledger.read_escrow_balance(), 0);
    assert_eq!(ledger.read_pending_fees(1), 0);
    assert_eq!(ledger.read_total_released(), 150);
}

#[test]
fn releasing_without_pending_fees_fails() {
    let mut ledger = setup();
    assert_eq!(ledger.release_cycle_fees(1), Err(FeeContractError::NoPendingFees));
}

#[test]
fn reconciliation_balanced_after_init() {
    let ledger = setup();
    let result = ledger.reconcile();
    assert_eq!(result.stored_balance, 0);
    assert_eq!(result.calculated_balance, 0);
    assert_eq!(result.discrepancy, 0);
    assert!(result.is_reconciled);
}

#[test]
fn reconciliation_balanced_after_collect() {
    let mut ledger = setup();
    ledger.collect_to_escrow(PAYER, 100).unwrap();
    let result = ledger.reconcile();
    assert_eq!(result.stored_balance, 100);
    assert_eq!(result.calculated_balance, 100);
    assert_eq!(result.discrepancy, 0);
    assert!(result.is_reconciled);
}

#[test]
fn reconciliation_balanced_after_batch_collect() {
    let mut ledger = setup();
    ledger.collect_batch_to_escrow(PAYER, &[100, 200, 300]).unwrap();
    let result = ledger.reconcile();
    assert_eq!(result.stored_balance, 600);
    assert_eq!(result.calculated_balance, 600);
    assert_eq!(result.discrepancy, 0);
    assert!(result.is_reconciled);
}

#[test]
fn reconciliation_balanced_after_release() {
    let mut ledger = setup();
    ledger.collect_to_escrow(PAYER, 500).unwrap();
    ledger.release_cycle_fees(1).unwrap();
    let result = ledger.reconcile();
    assert_eq!(result.stored_balance, 0);
    assert_eq!(result.calculated_balance, 0);
    assert_eq!(result.discrepancy, 0);
    assert!(result.is_reconciled);
}

#[test]
fn reconciliation_balanced_after_partial_release() {
    let mut ledger = setup();
    ledger.collect_to_escrow(PAYER, 300).unwrap();
    rollover_to(&mut ledger, 2);
    ledger.collect_to_escrow(PAYER, 200).unwrap();
    ledger.release_cycle_fees(2).unwrap();
    let result = ledger.reconcile();
    assert_eq!(result.stored_balance, 0);
    assert_eq!(result.calculated_balance, 0);
    assert_eq!(result.discrepancy, 0);
    assert!(result.is_reconciled);
}

#[test]
fn reconciliation_balanced_after_rollover() {
    let mut ledger = setup();
    ledger.collect_to_escrow(PAYER, 400).unwrap();
    rollover_to(&mut ledger, 2);
    let result = ledger.reconcile();
    assert_eq!(result.stored_balance, 400);
    assert_eq!(result.calculated_balance, 400);
    assert_eq!(result.discrepancy, 0);
    assert!(result.is_reconciled);
}

#[test]
fn reconciliation_balanced_after_multiple_cycles() {
    let mut ledger = setup();
    ledger.collect_to_escrow(PAYER, 100).unwrap();
    rollover_to(&mut ledger, 2);
    ledger.collect_to_escrow(PAYER, 200).unwrap();
    ledger.release_cycle_fees(2).unwrap();
    let result = ledger.reconcile();
    assert_eq!(result.stored_balance, 0);
    assert_eq!(result.calculated_balance, 0);
    assert!(result.is_reconciled);
}

#[test]
fn reconciliation_result_fields_correct() {
    let mut ledger = setup();
    ledger.collect_to_escrow(PAYER, 1000).unwrap();
    ledger.collect_to_escrow(PAYER, 500).unwrap();
    ledger.release_cycle_fees(1).unwrap();
    let result = ledger.reconcile();
    assert_eq!(result.stored_balance, 0);
    assert_eq!(result.calculated_balance, 0);
    assert_eq!(result.discrepancy, 0);
    assert!(result.is_reconciled);
    ledger.collect_to_escrow(PAYER, 250).unwrap();
    let result = ledger.reconcile();
    assert_eq!(result.stored_balance, 250);
    assert_eq!(result.calculated_balance, 250);
    assert_eq!(result.discrepancy, 0);
    assert!(result.is_reconciled);
}

#[test]
fn validate_config_happy_path() {
    let ledger = setup();
    assert_eq!(validate_fee_bps(ledger.read_fee_bps().unwrap()), Ok(()));
    assert_eq!(validate_min_fee(ledger.read_min_fee().unwrap()), Ok(()));
}

#[test]
fn setters_accept_valid_values() {
    let mut ledger = setup();
    assert_eq!(validate_fee_bps(500), Ok(()));
    ledger.write_fee_bps(500).unwrap();
    assert_eq!(validate_min_fee(100), Ok(()));
    ledger.write_min_fee(100).unwrap();
    assert_eq!(ledger.read_fee_bps(), Ok(500));
    assert_eq!(ledger.get_min_fee(), 100);
}

#[test]
fn batch_with_min_fee_and_reconciliation_end_to_end() {
    let mut ledger = setup();
    ledger.write_min_fee(10).unwrap();
    let batch_res = ledger.collect_batch_to_escrow(PAYER, &[10, 20, 30, 100]).unwrap();
    assert_eq!(batch_res.total_amount, 160);
    assert_eq!(batch_res.pending_fees, 160);
    let r = ledger.reconcile();
    assert_eq!(r.stored_balance, 160);
    assert_eq!(r.calculated_balance, 160);
    assert!(r.is_reconciled);
    rollover_to(&mut ledger, 2);
    ledger.collect_to_escrow(PAYER, 50).unwrap();
    ledger.release_cycle_fees(2).unwrap();
    let r2 = ledger.reconcile();
    assert_eq!(r2.stored_balance, 0);
    assert!(r2.is_reconciled);
}

#[test]
fn escrow_balance_always_matches_pending_fees_in_single_cycle() {
    let mut ledger = setup();
    ledger.collect_to_escrow(PAYER, 111).unwrap();
    ledger.collect_to_escrow(PAYER, 222).unwrap();
    ledger.collect_to_escrow(PAYER, 333).unwrap();
    assert_eq!(ledger.read_escrow_balance(), ledger.read_pending_fees(1));
}

#[test]
fn test_get_min_fee_default() {
    let ledger = FeeLedger::new();
    assert!(ledger.get_min_fee() >= 1);
}

#[test]
fn initialization_errors() {
    let mut ledger = FeeLedger::new();
    assert_eq!(ledger.collect_to_escrow(PAYER, 10), Err(FeeContractError::NotInitialized));
    assert_eq!(ledger.initialize(ADMIN, TOKEN, TREASURY, 0, 1), Err(FeeContractError::InvalidConfig));
    assert_eq!(ledger.initialize(ADMIN, TOKEN, TREASURY, 10_001, 1), Err(FeeContractError::InvalidConfig));
    ledger.initialize(ADMIN, TOKEN, TREASURY, 100, 7).unwrap();
    assert_eq!(ledger.initialize(ADMIN, TOKEN, TREASURY, 100, 7), Err(FeeContractError::AlreadyInitialized));
    assert_eq!(ledger.read_min_fee(), Ok(DEFAULT_MIN_FEE));
    assert_eq!(ledger.read_max_fee(), Ok(DEFAULT_MAX_FEE));
    assert_eq!(ledger.read_current_cycle(), Ok(7));
    assert_eq!(ledger.read_treasury(), Ok(TREASURY));
    assert_eq!(ledger.read_token(), Ok(TOKEN));
    assert_eq!(ledger.read_admin(), Ok(ADMIN));
    assert_eq!(ledger.read_locked(), Ok(false));
    assert!(ledger.has_admin());
    assert!(ledger.has_fee_config());
}

#[test]
fn amounts_below_min_fee_are_rejected() {
    let mut ledger = setup();
    ledger.write_min_fee(50).unwrap();
    assert_eq!(ledger.collect_to_escrow(PAYER, 49), Err(FeeContractError::InvalidAmount));
    assert_eq!(ledger.collect_to_escrow(PAYER, 50), Ok(50));
}

#[test]
fn overflowing_collection_is_rejected() {
    let mut ledger = setup();
    ledger.collect_to_escrow(PAYER, i128::MAX).unwrap();
    assert_eq!(ledger.collect_to_escrow(PAYER, 1), Err(FeeContractError::Overflow));
    assert_eq!(ledger.read_escrow_balance(), i128::MAX);
}

#[test]
fn tiers_are_set_read_and_removed() {
    let mut ledger = setup();
    assert!(is_valid_tier(b"gold"));
    assert!(is_valid_tier(b"platinum"));
    assert!(!is_valid_tier(b"diamond"));
    assert_eq!(ledger.read_user_tier(PAYER), None);
    ledger.write_user_tier(PAYER, b"silver".to_vec());
    assert_eq!(ledger.read_user_tier(PAYER), Some(b"silver".to_vec()));
    ledger.remove_user_tier(PAYER);
    assert_eq!(ledger.read_user_tier(PAYER), None);
}

#[test]
fn configuration_writes_need_initialization() {
    let mut ledger = FeeLedger::new();
    assert_eq!(ledger.write_admin(9), Err("Contract not initialized"));
    assert_eq!(ledger.read_admin(), Err("Contract not initialized"));
    let mut ledger = setup();
    ledger.write_admin(9).unwrap();
    ledger.write_treasury(8).unwrap();
    ledger.write_token(7).unwrap();
    ledger.write_locked(true).unwrap();
    ledger.write_max_fee(5).unwrap();
    assert_eq!(ledger.read_admin(), Ok(9));
    assert_eq!(ledger.read_treasury(), Ok(8));
    assert_eq!(ledger.read_token(), Ok(7));
    assert_eq!(ledger.read_locked(), Ok(true));
    assert_eq!(ledger.read_max_fee(), Ok(5));
}
