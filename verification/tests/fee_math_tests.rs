use stellarspend::fee_math::{
    apply_bps_fee, bps_to_percentage, calculate_fee_decay, calculate_fee_round_down,
    calculate_fee_round_up, check_not_negative, compute_fee, distribute_fees, fee_bps_to_display,
    format_amount, format_fee_label, get_fee_percentage, mul_bps, round_down_div, round_up_div,
    safe_sub, validate_amount_positive, validate_discount_vs_base, validate_fee_bps, validate_max_fee,
    validate_min_fee,
    DistributionConfig, DistributionResult, FeeContractError, NegativeAmountError, SafeSubError,
    MAX_FEE, MIN_FEE,
};

#[test]
fn test_bps_to_percentage() {
    assert_eq!(bps_to_percentage(100), 100);
    assert_eq!(bps_to_percentage(50), 50);
    assert_eq!(bps_to_percentage(10000), 10000);
}

#[test]
fn test_apply_bps_fee() {
    assert_eq!(apply_bps_fee(10_000, 100), 100);
    assert_eq!(apply_bps_fee(5_000, 50), 25);
    assert_eq!(apply_bps_fee(1_000_000, 30), 3_000);
}

#[test]
fn test_format_label() {
    let label = format_fee_label("transfer_fee", 150);
    assert_eq!(label, "transfer_fee: 150 bps");
}

#[test]
fn test_display_1_percent() {
    assert_eq!(fee_bps_to_display(100), "1.00%");
}

#[test]
fn test_display_half_percent() {
    assert_eq!(fee_bps_to_display(50), "0.50%");
}

#[test]
fn test_get_fee_percentage() {
    assert_eq!(get_fee_percentage(250), 250);
}

#[test]
fn test_positive_amount() {
    assert!(check_not_negative(100).is_ok());
}

#[test]
fn test_zero_amount() {
    assert!(check_not_negative(0).is_ok());
}

#[test]
fn test_negative_amount() {
    assert_eq!(check_not_negative(-1), Err(NegativeAmountError::NegativeAmount));
}

#[test]
fn test_normal_sub() {
    assert_eq!(safe_sub(100, 40), Ok(60));
}

#[test]
fn test_zero_result() {
    assert_eq!(safe_sub(50, 50), Ok(0));
}

#[test]
fn test_underflow() {
    assert_eq!(safe_sub(10, 20), Err(SafeSubError::Underflow));
}

#[test]
fn test_mul_bps() {
    assert_eq!(mul_bps(10000, 100), Some(100));
    assert_eq!(mul_bps(10000, 10000), Some(10000));
    assert_eq!(mul_bps(10000, 0), Some(0));
    assert_eq!(mul_bps(5000, 5000), Some(2500));
    assert_eq!(mul_bps(1234567, 1234), Some(152345));
}

#[test]
fn test_mul_bps_overflow() {
    assert_eq!(mul_bps(i128::MAX, 2), None);
    assert_eq!(mul_bps(i128::MIN, 2), None);
}

#[test]
fn test_mul_bps_negative() {
    assert_eq!(mul_bps(-10000, 100), Some(-100));
    assert_eq!(mul_bps(10000, -100), Some(-100));
    assert_eq!(mul_bps(-10000, -100), Some(100));
}

#[test]
fn display_renders_fractional_percentages() {
    assert_eq!(fee_bps_to_display(0), "0.00%");
    assert_eq!(fee_bps_to_display(1), "0.01%");
    assert_eq!(fee_bps_to_display(12_345), "123.45%");
}

#[test]
fn round_up_and_down_division() {
    assert_eq!(round_up_div(10, 3), Some(4));
    assert_eq!(round_down_div(10, 3), Some(3));
    assert_eq!(round_up_div(9, 3), Some(3));
    assert_eq!(round_up_div(1, 0), None);
    assert_eq!(round_down_div(1, 0), None);
    assert_eq!(round_up_div(i128::MAX, 2), None);
    assert_eq!(round_up_div(i128::MAX - 1, 2), Some((1i128 << 126) - 1));
    assert_eq!(round_up_div(i128::MIN + 1, -2), None);
    assert_eq!(round_up_div(i128::MIN, -1), None);
    assert_eq!(round_down_div(i128::MIN, -1), None);
}

#[test]
fn fee_rounding_modes_differ_by_at_most_one() {
    assert_eq!(calculate_fee_round_up(1_001, 100), Some(11));
    assert_eq!(calculate_fee_round_down(1_001, 100), Some(10));
    assert_eq!(calculate_fee_round_up(1_000, 100), Some(10));
    assert_eq!(calculate_fee_round_down(1_000, 100), Some(10));
    assert_eq!(calculate_fee_round_up(0, 100), Some(0));
    assert_eq!(calculate_fee_round_down(-5, 100), Some(0));
    assert_eq!(calculate_fee_round_up(100, 10_001), None);
    assert_eq!(calculate_fee_round_down(i128::MAX, 2), None);
    assert_eq!(compute_fee(10_000, 250), Some(250));
}

#[test]
fn fee_validators_report_invalid_config() {
    assert_eq!(validate_fee_bps(0), Err(FeeContractError::InvalidConfig));
    assert_eq!(validate_fee_bps(10_001), Err(FeeContractError::InvalidConfig));
    assert_eq!(validate_fee_bps(10_000), Ok(()));
    assert_eq!(validate_min_fee(-1), Err(FeeContractError::InvalidConfig));
    assert_eq!(validate_min_fee(0), Ok(()));
    assert_eq!(validate_max_fee(-1, 0), Err(FeeContractError::InvalidConfig));
    assert_eq!(validate_max_fee(5, 10), Err(FeeContractError::InvalidConfig));
    assert_eq!(validate_max_fee(10, 10), Ok(()));
    assert_eq!(validate_amount_positive(0), Err(FeeContractError::InvalidAmount));
    assert_eq!(validate_amount_positive(1), Ok(()));
}

#[test]
fn distribution_splits_whole_amount() {
    let config = DistributionConfig { treasury_bps: 5_000, protocol_bps: 3_000, stakeholder_bps: 2_000 };
    assert_eq!(config.validate(), Ok(()));
    let result = distribute_fees(1_001, &config).unwrap();
    assert_eq!(result, DistributionResult { treasury: 500, protocol: 300, stakeholder: 201 });
    assert_eq!(result.treasury + result.protocol + result.stakeholder, 1_001);
}

#[test]
fn distribution_rejects_shares_not_summing_to_whole() {
    let config = DistributionConfig { treasury_bps: 5_000, protocol_bps: 3_000, stakeholder_bps: 1_000 };
    assert_eq!(config.validate(), Err("distribution percentages must equal 100%"));
    assert_eq!(distribute_fees(1_000, &config), Err("distribution percentages must equal 100%"));
}

#[test]
fn fee_decay_follows_elapsed_time() {
    assert_eq!(calculate_fee_decay(MAX_FEE, 1_000, 1_000), MAX_FEE);
    assert_eq!(calculate_fee_decay(MAX_FEE, 1_000, 1_050), 50);
    assert_eq!(calculate_fee_decay(MAX_FEE, 1_000, 2_000), MIN_FEE);
    assert_eq!(calculate_fee_decay(50, 2_000, 1_000), 50);
}

#[test]
fn amounts_format_in_decimal() {
    assert_eq!(format_amount(0), "0");
    assert_eq!(format_amount(1_234), "1234");
    assert_eq!(format_amount(-56), "-56");
    assert_eq!(format_amount(i128::MIN), "-170141183460469231731687303715884105728");
    assert_eq!(format_amount(i128::MAX), "170141183460469231731687303715884105727");
}

#[test]
fn discount_must_be_a_valid_rate_not_above_the_base() {
    assert_eq!(validate_discount_vs_base(500, 250), Ok(()));
    assert_eq!(validate_discount_vs_base(500, 500), Ok(()));
    assert_eq!(validate_discount_vs_base(250, 500), Err(FeeContractError::InvalidConfig));
    assert_eq!(validate_discount_vs_base(0, 0), Err(FeeContractError::InvalidConfig));
    assert_eq!(validate_discount_vs_base(10_001, 100), Err(FeeContractError::InvalidConfig));
}

#[test]
fn division_rounds_toward_the_infinities_for_every_sign() {
    assert_eq!(round_up_div(-15, 10), Some(-1));
    assert_eq!(round_down_div(-15, 10), Some(-2));
    assert_eq!(round_up_div(15, -10), Some(-1));
    assert_eq!(round_down_div(15, -10), Some(-2));
    assert_eq!(round_up_div(-15, -10), Some(2));
    assert_eq!(round_down_div(-15, -10), Some(1));
    assert_eq!(round_up_div(-20, 10), Some(-2));
    assert_eq!(round_down_div(-20, 10), Some(-2));
    assert_eq!(round_down_div(i128::MIN, 1), Some(i128::MIN));
    assert_eq!(round_down_div(i128::MIN, 3), Some(-56713727820156410577229101238628035243));
}

#[test]
fn invalid_rate_is_refused_before_the_amount_is_looked_at() {
    assert_eq!(calculate_fee_round_down(0, 20_000), None);
    assert_eq!(calculate_fee_round_up(-5, 20_000), None);
    assert_eq!(compute_fee(0, 10_001), None);
    assert_eq!(calculate_fee_round_up(0, 10_000), Some(0));
    assert_eq!(calculate_fee_round_up(i128::MAX / 10_000, 10_000), None);
    assert_eq!(calculate_fee_round_up(i128::MAX - 1, 1), None);
    let a = (i128::MAX - 9_999) / 10_000;
    assert_eq!(calculate_fee_round_up(a, 10_000), Some(a));
}
