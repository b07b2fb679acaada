use stellarspend::wallet::{
    is_valid_amount, is_valid_operation, validate_balance_request, BalanceUpdateRequest,
    BalanceUpdateResult, ErrorCode, MultiCurrencyWalletContract, WalletError, MAX_BALANCE,
    MIN_BALANCE,
};

const ADMIN: u64 = 100;

fn create_valid_request() -> BalanceUpdateRequest {
    BalanceUpdateRequest { user: 1, currency: b"USDC".to_vec(), amount: 1000_000_000, operation: b"set".to_vec() }
}

fn request(user: u64, currency: &str, amount: i128, operation: &str) -> BalanceUpdateRequest {
    BalanceUpdateRequest {
        user,
        currency: currency.as_bytes().to_vec(),
        amount,
        operation: operation.as_bytes().to_vec(),
    }
}

fn wallet() -> MultiCurrencyWalletContract {
    let mut w = MultiCurrencyWalletContract::new();
    w.initialize(ADMIN).unwrap();
    w
}

#[test]
fn test_valid_balance_request() {
    let request = create_valid_request();
    assert!(validate_balance_request(&request).is_ok());
}

#[test]
fn test_invalid_amount_zero() {
    let mut request = create_valid_request();
    request.amount = 0;
    assert_eq!(validate_balance_request(&request), Err(ErrorCode::INVALID_AMOUNT));
}

#[test]
fn test_invalid_amount_negative() {
    let mut request = create_valid_request();
    request.amount = -1000;
    assert_eq!(validate_balance_request(&request), Err(ErrorCode::INVALID_AMOUNT));
}

#[test]
fn test_is_valid_amount() {
    assert!(is_valid_amount(MIN_BALANCE));
    assert!(is_valid_amount(MAX_BALANCE));
    assert!(is_valid_amount(1000_000_000));
    assert!(!is_valid_amount(MIN_BALANCE - 1));
    assert!(!is_valid_amount(0));
    assert!(!is_valid_amount(-1000));
}

#[test]
fn test_valid_operations() {
    assert!(is_valid_operation(b"set"));
    assert!(is_valid_operation(b"add"));
    assert!(is_valid_operation(b"subtract"));
    assert!(!is_valid_operation(b"multiply"));
}

#[test]
fn unknown_operation_is_rejected_by_validation() {
    let mut request = create_valid_request();
    request.operation = b"swap".to_vec();
    assert_eq!(validate_balance_request(&request), Err(ErrorCode::INVALID_OPERATION));
}

#[test]
fn batch_applies_requests_in_order() {
    let mut w = wallet();
    let reqs = vec![
        request(1, "usdc", 500, "set"),
        request(1, "USDC", 200, "add"),
        request(1, "USDC", 100, "subtract"),
        request(2, "xlm", 50, "subtract"),
        request(2, "XLM", 0, "set"),
        request(3, "EUR", 10, "divide"),
    ];
    let res = w.batch_update_balances(ADMIN, &reqs, 42).unwrap();
    assert_eq!(res.batch_id, 1);
    assert_eq!(res.total_requests, 6);
    assert_eq!(res.successful, 3);
    assert_eq!(res.failed, 3);
    assert_eq!(res.metrics.unique_users, 1);
    assert_eq!(res.metrics.unique_currencies, 1);
    assert_eq!(res.metrics.processed_at, 42);
    match &res.results[0] {
        BalanceUpdateResult::Success(b) => {
            assert_eq!(b.balance, 500);
            assert_eq!(b.currency, b"USDC".to_vec());
            assert_eq!(b.updated_at, 42);
        },
        BalanceUpdateResult::Failure(..) => panic!("first request should succeed"),
    }
    match &res.results[3] {
        BalanceUpdateResult::Failure(user, _, code) => {
            assert_eq!(*user, 2);
            assert_eq!(*code, ErrorCode::INSUFFICIENT_BALANCE);
        },
        BalanceUpdateResult::Success(_) => panic!("overdraft should fail"),
    }
    match &res.results[4] {
        BalanceUpdateResult::Failure(_, _, code) => assert_eq!(*code, ErrorCode::INVALID_AMOUNT),
        BalanceUpdateResult::Success(_) => panic!("zero amount should fail"),
    }
    match &res.results[5] {
        BalanceUpdateResult::Failure(_, _, code) => assert_eq!(*code, ErrorCode::INVALID_OPERATION),
        BalanceUpdateResult::Success(_) => panic!("unknown operation should fail"),
    }
    assert_eq!(w.get_balance(1, b"usdc"), 600);
    assert_eq!(w.get_balance(2, b"XLM"), 0);
    assert_eq!(w.get_last_batch_id(), 1);
    assert_eq!(w.get_total_balances_updated(), 3);
    assert_eq!(w.get_total_batches_processed(), 1);
    let details = w.get_balance_details(1, b"USDC").unwrap();
    assert_eq!(details.balance, 600);
    assert!(w.get_balance_details(9, b"USDC").is_none());
}

#[test]
fn batch_rejections() {
    let mut w = MultiCurrencyWalletContract::new();
    let one = vec![request(1, "USDC", 5, "set")];
    assert!(matches!(w.batch_update_balances(ADMIN, &one, 1), Err(WalletError::NotInitialized)));
    w.initialize(ADMIN).unwrap();
    assert_eq!(w.initialize(ADMIN), Err("Contract already initialized"));
    assert!(matches!(w.batch_update_balances(7, &one, 1), Err(WalletError::Unauthorized)));
    assert!(matches!(w.batch_update_balances(ADMIN, &Vec::new(), 1), Err(WalletError::EmptyBatch)));
    let many: Vec<BalanceUpdateRequest> = (0..101).map(|i| request(i, "USDC", 1, "set")).collect();
    assert!(matches!(w.batch_update_balances(ADMIN, &many, 1), Err(WalletError::BatchTooLarge)));
    assert_eq!(w.get_last_batch_id(), 0);
}

#[test]
fn balance_above_maximum_is_an_overflow() {
    let mut w = wallet();
    let reqs = vec![request(1, "USDC", MAX_BALANCE, "set"), request(1, "USDC", 1, "add")];
    let res = w.batch_update_balances(ADMIN, &reqs, 1).unwrap();
    assert_eq!(res.successful, 1);
    match &res.results[1] {
        BalanceUpdateResult::Failure(_, _, code) => assert_eq!(*code, ErrorCode::ARITHMETIC_OVERFLOW),
        BalanceUpdateResult::Success(_) => panic!("balance above the maximum should fail"),
    }
    assert_eq!(w.validate_and_compute_balance(1, &b"USDC".to_vec(), b"subtract", 10), Ok(MAX_BALANCE - 10));
    assert_eq!(w.validate_and_compute_balance(1, &b"USDC".to_vec(), b"add", 10), Err(ErrorCode::ARITHMETIC_OVERFLOW));
}

#[test]
fn admin_can_be_replaced() {
    let mut w = wallet();
    assert_eq!(w.get_admin(), Ok(ADMIN));
    assert_eq!(w.set_admin(5, 6), Err(WalletError::Unauthorized));
    w.set_admin(ADMIN, 6).unwrap();
    assert_eq!(w.get_admin(), Ok(6));
    assert_eq!(MultiCurrencyWalletContract::new().get_admin(), Err("Contract not initialized"));
}
