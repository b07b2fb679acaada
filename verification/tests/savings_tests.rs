use stellarspend::goals::GoalsContract;
use stellarspend::savings::{SavingsContract, SavingsGoal};

const OWNER: u64 = 1;
const OTHER: u64 = 2;

fn setup() -> SavingsContract {
    let mut c = SavingsContract::new();
    c.create_goal(OWNER, 1, 1_000, 10).unwrap();
    c.create_goal(OWNER, 2, 500, 10).unwrap();
    c.create_goal(OTHER, 3, 500, 10).unwrap();
    c
}

#[test]
fn goals_are_created_once_with_positive_targets() {
    let mut c = setup();
    assert_eq!(c.create_goal(OWNER, 1, 1_000, 0), Err("goal_already_exists"));
    assert_eq!(c.create_goal(OWNER, 9, 0, 0), Err("invalid_target_amount"));
    assert_eq!(
        c.get_goal(1),
        Some(SavingsGoal { id: 1, owner: OWNER, target_amount: 1_000, saved_amount: 0, created_at: 10 })
    );
    assert_eq!(c.get_goal(9), None);
}

#[test]
fn batch_contribution_applies_every_entry() {
    let mut c = setup();
    let reached = c.batch_contribute(OWNER, &vec![1, 2, 1], &vec![400, 500, 100]).unwrap();
    assert_eq!(reached, vec![(2, 500)]);
    assert_eq!(c.get_goal(1).unwrap().saved_amount, 500);
    assert_eq!(c.get_goal(2).unwrap().saved_amount, 500);
    let reached = c.batch_contribute(OWNER, &vec![1], &vec![500]).unwrap();
    assert_eq!(reached, vec![(1, 500)]);
}

#[test]
fn batch_contribution_is_atomic() {
    let mut c = setup();
    assert_eq!(c.batch_contribute(OWNER, &vec![1, 2], &vec![10]), Err("goal_amount_mismatch"));
    assert_eq!(c.batch_contribute(OWNER, &vec![1, 2], &vec![10, 0]), Err("invalid_contribution_amount"));
    assert_eq!(c.batch_contribute(OWNER, &vec![1, 7], &vec![10, 10]), Err("invalid_goal_id"));
    assert_eq!(c.batch_contribute(OWNER, &vec![2, 2], &vec![300, 201]), Err("over_contribution"));
    assert_eq!(c.batch_contribute(OWNER, &vec![1, 3], &vec![10, 10]), Err("invalid_goal_owner"));
    assert_eq!(c.get_goal(1).unwrap().saved_amount, 0);
    assert_eq!(c.get_goal(2).unwrap().saved_amount, 0);
    assert_eq!(c.get_goal(3).unwrap().saved_amount, 0);
}

#[test]
fn goals_are_returned_in_priority_order() {
    let mut c = GoalsContract::new();
    let owner = 7;
    c.create_goal(owner, b"Emergency".to_vec(), 1000, 1);
    c.create_goal(owner, b"House".to_vec(), 5000, 5);
    c.create_goal(owner, b"Car".to_vec(), 3000, 3);
    let goals = c.get_goals_by_priority(owner);
    assert_eq!(goals.get(0).unwrap().priority, 5);
    assert_eq!(goals.get(1).unwrap().priority, 3);
    assert_eq!(goals.get(2).unwrap().priority, 1);
}

#[test]
fn priority_listing_keeps_only_the_owners_goals() {
    let mut c = GoalsContract::new();
    assert_eq!(c.create_goal(7, b"A".to_vec(), 10, 2), 1);
    assert_eq!(c.create_goal(8, b"B".to_vec(), 10, 9), 2);
    assert_eq!(c.create_goal(7, b"C".to_vec(), 10, 4), 3);
    let goals = c.get_goals_by_priority(7);
    assert_eq!(goals.len(), 2);
    assert_eq!(goals[0].id, 3);
    assert_eq!(goals[1].id, 1);
    assert_eq!(goals[0].name, b"C".to_vec());
    assert_eq!(goals[1].saved_amount, 0);
    assert!(c.get_goals_by_priority(9).is_empty());
}
