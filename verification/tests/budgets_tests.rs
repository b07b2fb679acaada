use stellarspend::budgets::{BudgetSpendingRule, SharedBudgetContract, SharedBudgetError};

const ADMIN: u64 = 1;
const OWNER: u64 = 2;
const ALICE: u64 = 3;
const BOB: u64 = 4;
const TOKEN: u64 = 9;

fn rule(member: u64, pct: u32, requires_approval: bool) -> BudgetSpendingRule {
    BudgetSpendingRule { applicable_to: member, percentage_threshold: pct, requires_approval, description: b"cap".to_vec() }
}

fn setup() -> (SharedBudgetContract, u64) {
    let mut c = SharedBudgetContract::new();
    c.initialize(ADMIN).unwrap();
    let id = c.create_budget(OWNER, b"house".to_vec(), vec![ALICE, BOB], TOKEN, vec![rule(BOB, 10, false)], 100).unwrap();
    (c, id)
}

#[test]
fn budgets_get_sequential_ids_and_start_empty() {
    let (mut c, id) = setup();
    assert_eq!(id, 1);
    let b = c.get_budget(1).unwrap();
    assert_eq!(b.balance, 0);
    assert_eq!(b.total_contributed, 0);
    assert!(b.is_active);
    assert_eq!(b.created_at, 100);
    let id2 = c.create_budget(OWNER, b"trip".to_vec(), Vec::new(), TOKEN, Vec::new(), 0).unwrap();
    assert_eq!(id2, 2);
    assert_eq!(c.get_total_budgets_created(), 2);
}

#[test]
fn budget_creation_limits() {
    let mut c = SharedBudgetContract::new();
    let too_many: Vec<u64> = (0..21).collect();
    assert!(matches!(c.create_budget(OWNER, b"x".to_vec(), too_many, TOKEN, Vec::new(), 0), Err(SharedBudgetError::TooManyMembers)));
    let rules: Vec<BudgetSpendingRule> = (0..11).map(|i| rule(i, 10, false)).collect();
    assert!(matches!(c.create_budget(OWNER, b"x".to_vec(), Vec::new(), TOKEN, rules, 0), Err(SharedBudgetError::TooManyRules)));
    assert!(matches!(c.create_budget(OWNER, b"x".to_vec(), Vec::new(), TOKEN, vec![rule(1, 101, false)], 0), Err(SharedBudgetError::InvalidPercentage)));
    assert_eq!(c.get_total_budgets_created(), 0);
}

#[test]
fn contributions_accumulate_and_are_listed_in_order() {
    let (mut c, id) = setup();
    c.contribute_to_budget(ALICE, id, 300, Some(b"rent".to_vec()), 5).unwrap();
    c.contribute_to_budget(BOB, id, 200, None, 6).unwrap();
    let b = c.get_budget(id).unwrap();
    assert_eq!(b.balance, 500);
    assert_eq!(b.total_contributed, 500);
    let contributions = c.get_contributions(id).unwrap();
    assert_eq!(contributions.len(), 2);
    assert_eq!(contributions[0].contributor, ALICE);
    assert_eq!(contributions[0].memo, Some(b"rent".to_vec()));
    assert_eq!(contributions[1].amount, 200);
    assert_eq!(c.get_contribution(2).unwrap().timestamp, 6);
    assert!(matches!(c.get_contribution(3), Err(SharedBudgetError::RuleNotFound)));
    assert_eq!(c.get_total_contribs_processed(), 2);
    assert!(matches!(c.get_contributions(7), Err(SharedBudgetError::BudgetNotFound)));
}

#[test]
fn contribution_errors() {
    let (mut c, id) = setup();
    assert_eq!(c.contribute_to_budget(ALICE, id, 0, None, 0), Err(SharedBudgetError::InvalidAmount));
    assert_eq!(c.contribute_to_budget(ALICE, 5, 10, None, 0), Err(SharedBudgetError::BudgetNotFound));
}

#[test]
fn spending_enforces_membership_balance_and_rules() {
    let (mut c, id) = setup();
    c.contribute_to_budget(ALICE, id, 1_000, None, 0).unwrap();
    let thresholds = vec![100i128];
    assert_eq!(c.spend_from_budget(OWNER, id, 10, &thresholds), Err(SharedBudgetError::MemberNotFound));
    assert_eq!(c.spend_from_budget(ALICE, id, 2_000, &thresholds), Err(SharedBudgetError::InsufficientBalance));
    assert_eq!(c.spend_from_budget(BOB, id, 101, &thresholds), Err(SharedBudgetError::Unauthorized));
    c.spend_from_budget(BOB, id, 100, &thresholds).unwrap();
    c.spend_from_budget(ALICE, id, 500, &thresholds).unwrap();
    let b = c.get_budget(id).unwrap();
    assert_eq!(b.balance, 400);
    assert_eq!(b.total_contributed, 1_000);
    assert_eq!(c.get_budget_utilization(id), Ok((60, 600, 300, 400)));
}

#[test]
fn utilization_of_an_unfunded_budget_is_zero() {
    let (c, id) = setup();
    assert_eq!(c.get_budget_utilization(id), Ok((0, 0, 0, 0)));
    assert_eq!(c.get_budget_utilization(9), Err(SharedBudgetError::BudgetNotFound));
}

#[test]
fn ownership_and_roles() {
    let (mut c, id) = setup();
    assert_eq!(c.get_member_role(id, OWNER), Ok("OWNER"));
    assert_eq!(c.get_member_role(id, ALICE), Ok("MEMBER"));
    assert_eq!(c.get_member_role(id, 77), Ok("NONE"));
    assert_eq!(c.transfer_budget_ownership(ALICE, id, ALICE), Err(SharedBudgetError::Unauthorized));
    c.transfer_budget_ownership(OWNER, id, ALICE).unwrap();
    assert_eq!(c.get_member_role(id, ALICE), Ok("OWNER"));
    assert_eq!(c.get_member_role(id, OWNER), Ok("NONE"));
}

#[test]
fn members_and_rules_are_added_by_creator_or_admin() {
    let (mut c, id) = setup();
    assert_eq!(c.add_member_to_budget(ALICE, id, 50), Err(SharedBudgetError::Unauthorized));
    c.add_member_to_budget(OWNER, id, 50).unwrap();
    c.add_member_to_budget(ADMIN, id, 51).unwrap();
    assert!(c.is_budget_member(id, 50));
    assert!(c.is_budget_member(id, 51));
    assert_eq!(c.add_member_to_budget(OWNER, id, 50), Err(SharedBudgetError::MemberAlreadyExists));
    assert_eq!(c.add_spending_rule(OWNER, id, rule(ALICE, 150, false)), Err(SharedBudgetError::InvalidPercentage));
    c.add_spending_rule(ADMIN, id, rule(ALICE, 50, true)).unwrap();
    assert_eq!(c.get_budget(id).unwrap().spending_rules.len(), 2);
    assert!(!c.is_budget_member(99, ALICE));
}

#[test]
fn admin_is_set_once_and_can_be_replaced() {
    let (mut c, _) = setup();
    assert_eq!(c.initialize(7), Err("Contract already initialized"));
    assert_eq!(c.get_admin(), Ok(ADMIN));
    assert_eq!(c.set_admin(7, 8), Err(SharedBudgetError::Unauthorized));
    c.set_admin(ADMIN, 8).unwrap();
    assert_eq!(c.get_admin(), Ok(8));
    assert_eq!(SharedBudgetError::TooManyRules.code(), 13);
}
