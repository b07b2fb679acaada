use stellarspend::recurring::{IncomePayout, PaymentExecution, RecurringPaymentContract};

const SENDER: u64 = 1;
const RECIPIENT: u64 = 2;
const TOKEN: u64 = 3;

/// Executes a due payment against the token balances, as the contract host does.
fn execute(client: &mut RecurringPaymentContract, id: u64, now: u64, balances: &mut [i128; 2]) -> Result<PaymentExecution, &'static str> {
    let outcome = client.execute_payment(id, now, balances[0])?;
    if let PaymentExecution::Executed { amount, .. } = outcome {
        balances[0] -= amount;
        balances[1] += amount;
    }
    Ok(outcome)
}

#[test]
fn test_recurring_payment_flow() {
    let mut client = RecurringPaymentContract::new();
    let amount = 1000i128;
    let interval = 3600u64;
    let start_time = 1000u64;
    let mut balances = [5000i128, 0];
    let payment_id = client.create_payment(SENDER, RECIPIENT, TOKEN, amount, interval, start_time).unwrap();
    assert_eq!(payment_id, 1);
    let payment = client.get_payment(payment_id).unwrap();
    assert_eq!(payment.amount, amount);
    assert_eq!(payment.next_execution, start_time);
    assert!(payment.active);
    assert!(!payment.paused);
    assert_eq!(payment.execution_count, 0);
    assert_eq!(payment.missed_count, 0);
    assert_eq!(payment.last_missed_at, 0);
    assert_eq!(execute(&mut client, payment_id, start_time - 1, &mut balances), Err("Too early for next execution"));
    execute(&mut client, payment_id, start_time, &mut balances).unwrap();
    assert_eq!(balances[0], 4000);
    assert_eq!(balances[1], 1000);
    let payment = client.get_payment(payment_id).unwrap();
    assert_eq!(payment.next_execution, start_time + interval);
    assert_eq!(payment.execution_count, 1);
    assert_eq!(payment.missed_count, 0);
    assert_eq!(payment.last_missed_at, 0);
    client.cancel_payment(payment_id).unwrap();
    let payment = client.get_payment(payment_id).unwrap();
    assert!(!payment.active);
    assert_eq!(execute(&mut client, payment_id, start_time + interval, &mut balances), Err("Payment is not active"));
    assert_eq!(client.cancel_payment(payment_id), Err("Payment is already canceled"));
}

#[test]
fn paused_schedule_does_not_execute() {
    let mut client = RecurringPaymentContract::new();
    let mut balances = [5000i128, 0];
    let payment_id = client.create_payment(SENDER, RECIPIENT, TOKEN, 1000, 3600, 1000).unwrap();
    client.pause_payment(payment_id).unwrap();
    let paused_payment = client.get_payment(payment_id).unwrap();
    assert!(paused_payment.paused);
    assert!(paused_payment.active);
    assert_eq!(execute(&mut client, payment_id, 1000, &mut balances), Err("Payment is paused"));
    assert_eq!(client.pause_payment(payment_id), Err("Payment is already paused"));
}

#[test]
fn test_resume_restores_execution_after_pause() {
    let mut client = RecurringPaymentContract::new();
    let mut balances = [5000i128, 0];
    let start_time = 1000u64;
    let interval = 3600u64;
    let payment_id = client.create_payment(SENDER, RECIPIENT, TOKEN, 1000, interval, start_time).unwrap();
    client.pause_payment(payment_id).unwrap();
    client.resume_payment(payment_id).unwrap();
    let resumed_payment = client.get_payment(payment_id).unwrap();
    assert!(!resumed_payment.paused);
    assert!(resumed_payment.active);
    execute(&mut client, payment_id, start_time, &mut balances).unwrap();
    assert_eq!(balances[0], 4000);
    assert_eq!(balances[1], 1000);
    let payment_after_resume = client.get_payment(payment_id).unwrap();
    assert_eq!(payment_after_resume.execution_count, 1);
    assert_eq!(payment_after_resume.next_execution, start_time + interval);
    assert_eq!(client.resume_payment(payment_id), Err("Payment is not paused"));
}

#[test]
fn create_with_zero_amount_is_refused() {
    let mut client = RecurringPaymentContract::new();
    assert_eq!(client.create_payment(SENDER, RECIPIENT, TOKEN, 0, 3600, 1000), Err("Amount must be positive"));
    assert_eq!(client.create_payment(SENDER, RECIPIENT, TOKEN, 10, 0, 1000), Err("Interval must be positive"));
    assert_eq!(client.get_payment(1), Err("Payment not found"));
}

#[test]
fn test_execute_with_delay() {
    let mut client = RecurringPaymentContract::new();
    let mut balances = [5000i128, 0];
    let start_time = 1000u64;
    let interval = 3600u64;
    client.create_payment(SENDER, RECIPIENT, TOKEN, 1000, interval, start_time).unwrap();
    let outcome = execute(&mut client, 1, start_time + interval * 2 + 500, &mut balances).unwrap();
    assert_eq!(outcome, PaymentExecution::Executed { amount: 1000, next_execution: start_time + 3 * interval });
    let payment = client.get_payment(1).unwrap();
    assert_eq!(payment.next_execution, start_time + 3 * interval);
    assert_eq!(balances[1], 1000);
    assert_eq!(payment.execution_count, 1);
}

#[test]
fn test_missed_payment_increments_count() {
    let mut client = RecurringPaymentContract::new();
    let mut balances = [50i128, 0];
    let payment_id = client.create_payment(SENDER, RECIPIENT, TOKEN, 100, 3600, 0).unwrap();
    execute(&mut client, payment_id, 1, &mut balances).unwrap();
    let payment = client.get_payment(payment_id).unwrap();
    assert_eq!(payment.missed_count, 1);
    assert!(payment.last_missed_at > 0);
    assert_eq!(payment.next_execution, 3600);
    assert_eq!(balances, [50, 0]);
}

#[test]
fn test_successful_execution_resets_missed_count() {
    let mut client = RecurringPaymentContract::new();
    let mut balances = [0i128, 0];
    let payment_id = client.create_payment(SENDER, RECIPIENT, TOKEN, 100, 3600, 0).unwrap();
    balances[0] += 50;
    execute(&mut client, payment_id, 0, &mut balances).unwrap();
    assert_eq!(client.get_payment(payment_id).unwrap().missed_count, 1);
    balances[0] += 200;
    execute(&mut client, payment_id, 3600, &mut balances).unwrap();
    let payment = client.get_payment(payment_id).unwrap();
    assert_eq!(payment.missed_count, 0);
    assert_eq!(payment.last_missed_at, 0);
}

#[test]
fn test_missed_count_increments_multiple_times() {
    let mut client = RecurringPaymentContract::new();
    let mut balances = [10i128, 0];
    let payment_id = client.create_payment(SENDER, RECIPIENT, TOKEN, 100, 1, 0).unwrap();
    execute(&mut client, payment_id, 0, &mut balances).unwrap();
    execute(&mut client, payment_id, 1, &mut balances).unwrap();
    let payment = client.get_payment(payment_id).unwrap();
    assert_eq!(payment.missed_count, 2);
}

#[test]
fn missed_execution_catches_up_past_now() {
    let mut client = RecurringPaymentContract::new();
    let mut balances = [0i128, 0];
    client.create_payment(SENDER, RECIPIENT, TOKEN, 100, 10, 5).unwrap();
    let outcome = execute(&mut client, 1, 47, &mut balances).unwrap();
    assert_eq!(outcome, PaymentExecution::Missed { missed_count: 1, last_missed_at: 47 });
    assert_eq!(client.get_payment(1).unwrap().next_execution, 55);
}

#[test]
fn income_streams_pay_every_due_cycle() {
    let mut client = RecurringPaymentContract::new();
    assert_eq!(client.create_income_stream(RECIPIENT, b"salary".to_vec(), 0, 10, 0, 0), Err("Amount must be positive"));
    let id = client.create_income_stream(RECIPIENT, b"salary".to_vec(), 300, 100, 7, 1_000).unwrap();
    assert_eq!(id, 1);
    let stream = client.get_income_stream(id).unwrap();
    assert_eq!(stream.next_payout, 1_100);
    assert_eq!(stream.target_goal_id, 7);
    assert_eq!(client.process_income(id, 1_099), Err("Too early for next payout"));
    let payout = client.process_income(id, 1_350).unwrap();
    assert_eq!(payout, IncomePayout { recipient: RECIPIENT, total_payout: 900, cycles_due: 3 });
    assert_eq!(client.get_income_stream(id).unwrap().next_payout, 1_400);
    let capped = client.create_income_stream(RECIPIENT, b"big".to_vec(), i128::MAX, 1, 0, 0).unwrap();
    let payout = client.process_income(capped, 5).unwrap();
    assert_eq!(payout.total_payout, i128::MAX);
    assert_eq!(payout.cycles_due, 5);
}

#[test]
fn income_streams_are_listed_and_canceled() {
    let mut client = RecurringPaymentContract::new();
    client.create_income_stream(RECIPIENT, b"salary".to_vec(), 10, 100, 0, 0).unwrap();
    client.create_income_stream(SENDER, b"rent".to_vec(), 10, 100, 0, 0).unwrap();
    client.create_income_stream(RECIPIENT, b"staking".to_vec(), 10, 100, 0, 0).unwrap();
    assert_eq!(client.get_user_income_streams(RECIPIENT), vec![1, 3]);
    assert_eq!(client.get_user_income_streams(99), Vec::<u64>::new());
    client.cancel_income_stream(3).unwrap();
    assert!(!client.get_income_stream(3).unwrap().active);
    assert_eq!(client.cancel_income_stream(3), Err("Income stream is already canceled"));
    assert_eq!(client.process_income(3, 500), Err("Income stream is not active"));
    assert_eq!(client.process_income(9, 500), Err("Income stream not found"));
    assert!(client.get_income_stream(9).is_err());
}
