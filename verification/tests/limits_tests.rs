use stellarspend::rate_limit::{ContractUtils, RateLimitConfig, RateLimitContract, RateLimitData, RateLimitError, RateLimitNotice};
use stellarspend::rewards::{apply_penalty_withdrawal, current_bucket, ContributionPeriod, PenaltySplit, RewardState, SavingsGoal};

#[test]
fn default_rate_limit_config() {
    let c = RateLimitConfig::default();
    assert_eq!(c, RateLimitConfig { max_tx: 5, window: 3600, warn_threshold: 4, allow_overspend: true });
}

#[test]
fn transactions_are_counted_per_window() {
    let mut r = RateLimitContract::new();
    for _ in 0..5 {
        assert_eq!(r.check_and_record(1, 100), Ok(()));
    }
    assert_eq!(r.current_count(1, 100), 5);
    assert_eq!(r.check_and_record(1, 3599), Err(RateLimitError::Exceeded));
    assert_eq!(r.current_count(1, 3599), 5);
    assert_eq!(r.check_and_record(2, 100), Ok(()));
    assert_eq!(r.check_and_record(1, 3600), Ok(()));
    assert_eq!(r.current_count(1, 3600), 1);
}

#[test]
fn soft_limit_refuses_without_overspend() {
    let mut r = RateLimitContract::new();
    r.set_config(3, 60, 1, false);
    assert_eq!(r.check_and_record(1, 0), Ok(()));
    assert_eq!(r.check_and_record(1, 10), Err(RateLimitError::SoftLimitReached));
    assert_eq!(r.current_count(1, 10), 1);
    assert_eq!(r.get_config(), RateLimitConfig { max_tx: 3, window: 60, warn_threshold: 1, allow_overspend: false });
    assert_eq!(RateLimitError::SoftLimitReached.code(), 2);
}

#[test]
fn windowed_rate_limit_records() {
    let first = ContractUtils::check_rate_limit(None, 100, 2, 60).unwrap();
    assert_eq!(first, RateLimitData { count: 1, window_start: 100 });
    let second = ContractUtils::check_rate_limit(Some(first), 120, 2, 60).unwrap();
    assert_eq!(second, RateLimitData { count: 2, window_start: 100 });
    assert_eq!(ContractUtils::check_rate_limit(Some(second), 159, 2, 60), Err(RateLimitError::Exceeded));
    assert_eq!(ContractUtils::check_rate_limit(Some(second), 160, 2, 60), Ok(RateLimitData { count: 1, window_start: 160 }));
}

#[test]
fn buckets_by_period() {
    assert_eq!(current_bucket(ContributionPeriod::Daily, 86_400 * 3 + 5), 3);
    assert_eq!(current_bucket(ContributionPeriod::Weekly, 604_799), 0);
    assert_eq!(current_bucket(ContributionPeriod::Monthly, 2_592_000 * 2), 2);
}

#[test]
fn rewards_are_paid_once_for_completed_goals() {
    let mut s = RewardState::new();
    s.goals.insert(1, SavingsGoal { id: 1, target_amount: 100, saved_amount: 100, completed: true });
    s.goals.insert(2, SavingsGoal { id: 2, target_amount: 100, saved_amount: 10, completed: false });
    assert_eq!(s.claim_reward(5, 1), Ok(0));
    s.reward_amount = Some(25);
    assert_eq!(s.claim_reward(6, 1), Ok(25));
    assert_eq!(s.claim_reward(6, 1), Err("Reward already claimed"));
    assert_eq!(s.claim_reward(6, 2), Err("Goal not completed"));
    assert_eq!(s.claim_reward(6, 3), Err("Goal not found"));
}

#[test]
fn penalty_splits_withdrawal() {
    assert_eq!(apply_penalty_withdrawal(1_000, 10), PenaltySplit { withdrawable: 900, penalty: 100 });
    assert_eq!(apply_penalty_withdrawal(999, 10), PenaltySplit { withdrawable: 900, penalty: 99 });
    assert_eq!(apply_penalty_withdrawal(1_000, 0), PenaltySplit { withdrawable: 1_000, penalty: 0 });
    assert_eq!(apply_penalty_withdrawal(-999, 10), PenaltySplit { withdrawable: -900, penalty: -99 });
}

#[test]
fn notices_follow_the_window_count() {
    let mut c = RateLimitContract::new();
    c.set_config(3, 100, 2, true);
    assert_eq!(c.notice(7, 50), RateLimitNotice::Quiet);
    c.check_and_record(7, 50).unwrap();
    c.check_and_record(7, 51).unwrap();
    assert_eq!(c.notice(7, 52), RateLimitNotice::Warning(2));
    c.check_and_record(7, 52).unwrap();
    assert_eq!(c.notice(7, 53), RateLimitNotice::Exceeded(3));
    assert_eq!(c.notice(7, 150), RateLimitNotice::Quiet);
}
