use stellarspend::shared::{
    contains_address, is_allowed_ascii, normalize_asset_symbol, sanitize_description,
    validate_amount, validate_batch_size, validate_user_address, Counters, SharedError,
    ValidationError, MAX_DESCRIPTION_LENGTH,
};

#[test]
fn accepts_zero_and_positive_amounts() {
    assert_eq!(validate_amount(0), Ok(()));
    assert_eq!(validate_amount(1), Ok(()));
    assert_eq!(validate_amount(1_000_000), Ok(()));
}

#[test]
fn rejects_negative_amounts() {
    assert_eq!(validate_amount(-1), Err(ValidationError::NegativeAmount));
    assert_eq!(validate_amount(-99), Err(ValidationError::NegativeAmount));
}

#[test]
fn accepts_valid_user_address() {
    let address = "GAAAAAAAAAAAAAAAAAAAAAAAAAAAAAAAAAAAAAAAAAAAAAAAAAAAAAAA";
    assert_eq!(validate_user_address(address.as_bytes()), Ok(()));
}

#[test]
fn rejects_invalid_user_address() {
    assert_eq!(validate_user_address("".as_bytes()), Err(ValidationError::InvalidAddress));
    let bad_prefix = "XAAAAAAAAAAAAAAAAAAAAAAAAAAAAAAAAAAAAAAAAAAAAAAAAAAAAAAA";
    assert_eq!(validate_user_address(bad_prefix.as_bytes()), Err(ValidationError::InvalidAddress));
    assert_eq!(validate_user_address("GINVALID!ADDRESS".as_bytes()), Err(ValidationError::InvalidAddress));
}

#[test]
fn increment_counter_works() {
    let mut counters = Counters::new();
    assert_eq!(counters.increment_counter(b"test_counter"), 1);
    assert_eq!(counters.increment_counter(b"test_counter"), 2);
    assert_eq!(counters.increment_counter(b"test_counter"), 3);
}

#[test]
fn generates_transaction_reference_id() {
    let mut counters = Counters::new();
    let ref_id = counters.generate_transaction_reference_id(0, b"tx_ref_counter");
    assert!(ref_id.starts_with("TXN-"));
    assert!(ref_id.len() > 4);
}

#[test]
fn transaction_reference_ids_are_unique() {
    let mut counters = Counters::new();
    let ref_id_1 = counters.generate_transaction_reference_id(0, b"tx_ref_counter");
    let ref_id_2 = counters.generate_transaction_reference_id(0, b"tx_ref_counter");
    let ref_id_3 = counters.generate_transaction_reference_id(0, b"tx_ref_counter");
    assert_ne!(ref_id_1, ref_id_2);
    assert_ne!(ref_id_2, ref_id_3);
    assert_ne!(ref_id_1, ref_id_3);
}

#[test]
fn reference_id_encodes_ledger_and_counter_in_hex() {
    let mut counters = Counters::new();
    let first = counters.generate_transaction_reference_id(0x1a2b, b"k");
    assert_eq!(first, "TXN-00001a2b00000001");
    let other = counters.generate_transaction_reference_id(255, b"other");
    assert_eq!(other, "TXN-000000ff00000001");
    let second = counters.generate_transaction_reference_id(255, b"k");
    assert_eq!(second, "TXN-000000ff00000002");
}

#[test]
fn test_validate_batch_size_valid() {
    assert!(validate_batch_size(1, 100).is_ok());
    assert!(validate_batch_size(100, 100).is_ok());
}

#[test]
fn test_validate_batch_size_zero_rejected() {
    assert_eq!(validate_batch_size(0, 100), Err(SharedError::InvalidLength));
}

#[test]
fn test_validate_batch_size_exceeds_max() {
    assert_eq!(validate_batch_size(101, 100), Err(SharedError::InvalidLength));
}

#[test]
fn test_validate_batch_size_configurable_limit() {
    assert!(validate_batch_size(10, 20).is_ok());
    assert_eq!(validate_batch_size(21, 20), Err(SharedError::InvalidLength));
}

#[test]
fn accepts_valid_descriptions() {
    let valid_cases = [
        "Valid transfer description",
        "Payment for service!",
        "Invoice_123-A.",
        "Are you sure?",
        "It's a test",
        "Order 123, completed.",
    ];
    for text in valid_cases {
        assert_eq!(sanitize_description(text.as_bytes()), Ok(()));
    }
}

#[test]
fn rejects_invalid_characters() {
    let invalid_cases = [
        "Invalid\nnewline",
        "Invalid\ttab",
        "HTML <script>alert(1)</script>",
        "Symbols like @ or #",
        "Emoji 🔥",
        "€100 payment",
    ];
    for text in invalid_cases {
        assert_eq!(sanitize_description(text.as_bytes()), Err(SharedError::InvalidInput));
    }
}

#[test]
fn rejects_empty_description() {
    assert_eq!(sanitize_description("".as_bytes()), Err(SharedError::MissingRequiredField));
}

#[test]
fn accepts_max_length_boundary() {
    let text = "A".repeat(MAX_DESCRIPTION_LENGTH as usize);
    assert_eq!(sanitize_description(text.as_bytes()), Ok(()));
}

#[test]
fn rejects_too_long_description() {
    let text = "A".repeat((MAX_DESCRIPTION_LENGTH + 1) as usize);
    assert_eq!(sanitize_description(text.as_bytes()), Err(SharedError::InvalidLength));
}

#[test]
fn rejects_non_ascii_characters() {
    assert_eq!(sanitize_description("Café".as_bytes()), Err(SharedError::InvalidInput));
}

#[test]
fn allowed_ascii_covers_letters_digits_and_punctuation() {
    assert!(is_allowed_ascii(b'a'));
    assert!(is_allowed_ascii(b'Z'));
    assert!(is_allowed_ascii(b'7'));
    assert!(is_allowed_ascii(b' '));
    assert!(is_allowed_ascii(b'\''));
    assert!(!is_allowed_ascii(b'@'));
    assert!(!is_allowed_ascii(b'\n'));
}

#[test]
fn test_normalize_asset_symbol() {
    assert_eq!(normalize_asset_symbol(b"USDC"), b"USDC".to_vec());
    assert_eq!(normalize_asset_symbol(b"usdc"), b"USDC".to_vec());
    assert_eq!(normalize_asset_symbol(b"UsDc"), b"USDC".to_vec());
}

#[test]
fn error_codes_are_stable() {
    assert_eq!(SharedError::Unauthorized.code(), 1);
    assert_eq!(SharedError::InvalidLength.code(), 11);
}

#[test]
fn contains_address_finds_members() {
    assert!(contains_address(&[3, 5, 7], 5));
    assert!(!contains_address(&[3, 5, 7], 4));
    assert!(!contains_address(&[], 4));
}
