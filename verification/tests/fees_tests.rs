use stellarspend::fees::{FeeCategory, FeeError, FeeRecipient, FeesContract, PriorityLevel, RoundingMode};

const ADMIN: u64 = 1;
const PAYER: u64 = 2;

fn setup(bps: u32) -> FeesContract {
    let mut c = FeesContract::new();
    c.initialize(ADMIN, bps).unwrap();
    c
}

#[test]
fn fee_is_rounded_by_mode_and_clamped_to_bounds() {
    let mut c = setup(250);
    assert_eq!(c.calculate_fee(1_002), Ok(25));
    c.set_rounding_mode(ADMIN, RoundingMode::Ceiling).unwrap();
    assert_eq!(c.calculate_fee(1_002), Ok(26));
    c.set_rounding_mode(ADMIN, RoundingMode::Floor).unwrap();
    assert_eq!(c.calculate_fee(1_039), Ok(25));
    c.set_fee_bounds(ADMIN, 30, 40).unwrap();
    assert_eq!(c.calculate_fee(1_000), Ok(30));
    assert_eq!(c.calculate_fee(100_000), Ok(40));
    assert_eq!(c.calculate_fee(0), Err(FeeError::InvalidAmount));
    assert_eq!(c.set_fee_bounds(ADMIN, 50, 40), Err(FeeError::InvalidFeeBoundRange));
}

#[test]
fn deducting_splits_amount_into_net_and_fee() {
    let mut c = setup(500);
    let out = c.deduct_fee(PAYER, 2_000).unwrap();
    assert_eq!(out.fee, 100);
    assert_eq!(out.net + out.fee, 2_000);
    assert_eq!(out.fee_payer, PAYER);
    assert_eq!(c.get_total_collected(), 100);
    assert_eq!(c.get_user_fees_accrued(PAYER), 100);
    assert_eq!(c.get_category_fees(FeeCategory::Transaction), 100);
    c.set_fee_delegate(PAYER, 9);
    let out = c.deduct_fee(PAYER, 1_000).unwrap();
    assert_eq!(out.fee_payer, 9);
    assert_eq!(FeesContract::new().deduct_fee(PAYER, 10).unwrap_err(), FeeError::NotInitialized);
}

#[test]
fn higher_priority_never_costs_less() {
    let c = setup(100);
    let low = c.calculate_fee_with_priority(100_000, PriorityLevel::Low).unwrap();
    let medium = c.calculate_fee_with_priority(100_000, PriorityLevel::Medium).unwrap();
    let high = c.calculate_fee_with_priority(100_000, PriorityLevel::High).unwrap();
    let urgent = c.calculate_fee_with_priority(100_000, PriorityLevel::Urgent).unwrap();
    assert!(low <= medium && medium <= high && high <= urgent);
}

#[test]
fn percentage_changes_are_admin_only_and_bounded() {
    let mut c = setup(100);
    assert_eq!(c.initialize(ADMIN, 100), Err(FeeError::AlreadyInitialized));
    assert_eq!(c.set_percentage(PAYER, 200), Err(FeeError::Unauthorized));
    assert_eq!(c.set_percentage(ADMIN, 10_001), Err(FeeError::InvalidPercentage));
    c.set_percentage(ADMIN, 200).unwrap();
    assert_eq!(c.get_percentage(), 200);
}

#[test]
fn refunds_reduce_accrued_fees() {
    let mut c = setup(1_000);
    c.deduct_fee(PAYER, 1_000).unwrap();
    assert_eq!(c.refund_fee(ADMIN, PAYER, 150), Err(FeeError::InsufficientFeeBalance));
    assert_eq!(c.refund_fee(ADMIN, PAYER, 0), Err(FeeError::InvalidRefundAmount));
    assert_eq!(c.refund_fee(ADMIN, PAYER, 60), Ok(60));
    assert_eq!(c.get_user_fees_accrued(PAYER), 40);
    assert_eq!(c.get_total_collected(), 40);
}

#[test]
fn distribution_shares_must_sum_to_whole() {
    let mut c = setup(1_000);
    let bad = vec![FeeRecipient { address: 5, share_bps: 6_000 }, FeeRecipient { address: 6, share_bps: 3_000 }];
    assert_eq!(c.set_distribution(ADMIN, bad), Err(FeeError::DistributionSumsToWrong));
    let good = vec![FeeRecipient { address: 5, share_bps: 6_000 }, FeeRecipient { address: 6, share_bps: 4_000 }];
    c.set_distribution(ADMIN, good).unwrap();
    assert_eq!(c.get_distribution().len(), 2);
    c.deduct_fee(PAYER, 1_000).unwrap();
    let paid = c.distribute_fees(ADMIN).unwrap();
    assert_eq!(paid, 100);
    assert_eq!(c.get_recipient_fees_accumulated(5), 60);
    assert_eq!(c.get_recipient_fees_accumulated(6), 40);
}

#[test]
fn treasury_takes_its_share() {
    let mut c = setup(1_000);
    c.set_treasury(ADMIN, 77, 2_500).unwrap();
    assert_eq!(c.get_treasury(), Some(77));
    let out = c.deduct_fee(PAYER, 1_000).unwrap();
    assert_eq!(out.treasury_amount, 25);
    assert_eq!(c.get_total_treasury_fees(), 25);
}

#[test]
fn snapshots_capture_totals() {
    let mut c = setup(1_000);
    c.deduct_fee(PAYER, 1_000).unwrap();
    c.create_fee_snapshot(ADMIN, 100, 150).unwrap();
    let snap = c.get_fee_snapshot(100).unwrap();
    assert_eq!(snap.total_collected, 100);
    assert_eq!(snap.created_at, 150);
    assert_eq!(c.get_snapshot_metadata().count, 1);
    assert_eq!(c.get_fee_snapshot(5), None);
}

#[test]
fn enum_codes_round_trip() {
    assert_eq!(RoundingMode::from_u32(RoundingMode::Ceiling.to_u32()), Some(RoundingMode::Ceiling));
    assert_eq!(RoundingMode::from_u32(9), None);
    assert_eq!(PriorityLevel::from_u32(PriorityLevel::Urgent.to_u32()), Some(PriorityLevel::Urgent));
    assert_eq!(FeeCategory::from_u32(FeeCategory::Transaction.to_u32()), Some(FeeCategory::Transaction));
}

#[test]
fn escrowed_fees_are_released_into_the_collected_total() {
    let mut c = setup(1_000);
    assert_eq!(c.deduct_fee_to_escrow(PAYER, 500), Ok((450, 50)));
    assert_eq!(c.deduct_fee_to_escrow(PAYER, 300), Ok((270, 30)));
    assert_eq!(c.get_total_collected(), 0);
    assert_eq!(c.release_escrow(PAYER, PAYER), Err(FeeError::Unauthorized));
    assert_eq!(c.release_escrow(ADMIN, 42), Err(FeeError::NoEscrowedFees));
    c.release_escrow(ADMIN, PAYER).unwrap();
    assert_eq!(c.get_total_collected(), 80);
    assert_eq!(c.release_escrow(ADMIN, PAYER), Err(FeeError::NoEscrowedFees));
    assert_eq!(FeesContract::new().deduct_fee_to_escrow(PAYER, 10), Err(FeeError::NotInitialized));
}

#[test]
fn configuration_errors() {
    let mut c = setup(100);
    assert_eq!(c.set_treasury(ADMIN, 77, 10_001), Err(FeeError::InvalidTreasuryPercentage));
    assert_eq!(c.get_treasury(), None);
    assert_eq!(c.set_fee_bounds(ADMIN, -1, 10), Err(FeeError::InvalidFeeBound));
    assert_eq!(c.set_fee_bounds(ADMIN, 1, -10), Err(FeeError::InvalidFeeBound));
    assert_eq!(c.set_priority_multipliers(ADMIN, 10_000, 9_000, 15_000, 20_000), Err(FeeError::InvalidPriorityConfig));
    assert_eq!(c.set_priority_multipliers(PAYER, 1, 2, 3, 4), Err(FeeError::Unauthorized));
    assert_eq!(c.create_fee_snapshot(ADMIN, 0, 10), Err(FeeError::InvalidSnapshotPeriod));
    assert_eq!(c.create_fee_snapshot(PAYER, 5, 10), Err(FeeError::Unauthorized));
    assert_eq!(c.distribute_fees(ADMIN), Err(FeeError::NoDistributionConfigured));
    assert_eq!(c.set_rounding_mode(PAYER, RoundingMode::Floor), Err(FeeError::Unauthorized));
    assert_eq!(FeesContract::new().set_percentage(ADMIN, 5), Err(FeeError::NotInitialized));
    assert_eq!(c.get_min_fee(), 0);
    assert_eq!(c.get_max_fee(), i128::MAX);
    assert_eq!(c.get_rounding_mode(), RoundingMode::Round);
}

#[test]
fn priority_multipliers_scale_the_rate() {
    let mut c = setup(100);
    assert_eq!(c.calculate_fee_with_priority(100_000, PriorityLevel::Low), Ok(800));
    assert_eq!(c.calculate_fee_with_priority(100_000, PriorityLevel::Medium), Ok(1_000));
    assert_eq!(c.calculate_fee_with_priority(100_000, PriorityLevel::High), Ok(1_500));
    assert_eq!(c.calculate_fee_with_priority(100_000, PriorityLevel::Urgent), Ok(2_000));
    c.set_priority_multipliers(ADMIN, 5_000, 10_000, 30_000, 30_000).unwrap();
    assert_eq!(c.get_priority_multiplier(PriorityLevel::High), 30_000);
    assert_eq!(c.get_priority_config().low_multiplier_bps, 5_000);
    let out = c.deduct_fee_with_priority(PAYER, 100_000, PriorityLevel::High).unwrap();
    assert_eq!(out.fee, 3_000);
    assert_eq!(out.net, 97_000);
    assert_eq!(c.get_total_collected(), 3_000);
}

#[test]
fn fees_are_reported_under_the_payers_category() {
    let mut c = setup(1_000);
    assert_eq!(c.get_user_fee_category(PAYER), FeeCategory::Transaction);
    assert_eq!(c.set_user_fee_category(PAYER, PAYER, FeeCategory::Batch), Err(FeeError::Unauthorized));
    c.set_user_fee_category(ADMIN, PAYER, FeeCategory::Batch).unwrap();
    assert_eq!(c.get_user_fee_category(PAYER), FeeCategory::Batch);
    c.deduct_fee(PAYER, 1_000).unwrap();
    assert_eq!(c.get_category_fees(FeeCategory::Batch), 100);
    assert_eq!(c.get_category_fees(FeeCategory::Transaction), 0);
}

#[test]
fn oversized_products_overflow() {
    let c = setup(10_000);
    assert_eq!(c.calculate_fee(i128::MAX), Err(FeeError::Overflow));
    assert_eq!(c.calculate_fee(-5), Err(FeeError::InvalidAmount));
}

#[test]
fn distributing_nothing_pays_nothing() {
    let mut c = setup(1_000);
    c.set_distribution(ADMIN, vec![FeeRecipient { address: 5, share_bps: 10_000 }]).unwrap();
    assert_eq!(c.distribute_fees(ADMIN), Ok(0));
    assert_eq!(c.get_recipient_fees_accumulated(5), 0);
    assert_eq!(c.distribute_fees(PAYER), Err(FeeError::Unauthorized));
}

#[test]
fn error_codes_match_the_contract_errors() {
    assert_eq!(FeeError::NotInitialized.code(), 1);
    assert_eq!(FeeError::InvalidRefundAmount.code(), 7);
    assert_eq!(FeeError::NoEscrowedFees.code(), 16);
    assert_eq!(FeeError::InvalidSnapshotPeriod.code(), 21);
}
