use stellarspend::merchant::{MerchantTaggingContract, MAX_QUERY_RESULTS};

const ADMIN: u64 = 1;

fn setup() -> MerchantTaggingContract {
    let mut client = MerchantTaggingContract::new();
    client.init(ADMIN).unwrap();
    client
}

fn make_tags(tags: &[&str]) -> Vec<Vec<u8>> {
    tags.iter().map(|t| t.as_bytes().to_vec()).collect()
}

fn id(s: &str) -> Vec<u8> {
    s.as_bytes().to_vec()
}

#[test]
fn test_init_sets_admin() {
    let client = setup();
    assert_eq!(client.get_admin(), Ok(ADMIN));
}

#[test]
fn double_init_is_refused() {
    let mut client = setup();
    assert_eq!(client.init(2), Err("already initialized"));
    assert_eq!(client.get_admin(), Ok(ADMIN));
}

#[test]
fn test_register_merchant() {
    let mut client = setup();
    client.register_merchant(ADMIN, id("AMAZON"), id("Amazon"), make_tags(&["retail", "ecommerce"]), None, 7).unwrap();
    let merchant = client.get_merchant(b"AMAZON").expect("merchant should exist");
    assert_eq!(merchant.id, id("AMAZON"));
    assert_eq!(merchant.name, id("Amazon"));
    assert!(merchant.active);
    assert_eq!(merchant.tags.len(), 2);
    assert_eq!(merchant.registered_at, 7);
}

#[test]
fn register_errors_follow_the_checks_in_order() {
    let mut client = MerchantTaggingContract::new();
    assert_eq!(client.register_merchant(ADMIN, id("A"), id("A"), Vec::new(), None, 0), Err("not initialized"));
    client.init(ADMIN).unwrap();
    assert_eq!(client.register_merchant(9, id("A"), id("A"), Vec::new(), None, 0), Err("unauthorized"));
    client.register_merchant(ADMIN, id("AMAZON"), id("Amazon"), Vec::new(), None, 0).unwrap();
    assert_eq!(client.register_merchant(ADMIN, id("AMAZON"), id("Amazon"), Vec::new(), None, 0), Err("merchant already exists"));
    assert_eq!(client.register_merchant(ADMIN, id("B"), Vec::new(), Vec::new(), None, 0), Err("name cannot be empty"));
    assert_eq!(client.register_merchant(ADMIN, id("B"), vec![b'x'; 65], Vec::new(), None, 0), Err("name too long"));
    let eleven: Vec<&str> = vec!["t"; 11];
    assert_eq!(client.register_merchant(ADMIN, id("B"), id("B"), make_tags(&eleven), None, 0), Err("too many tags"));
    let long_tag = "x".repeat(33);
    assert_eq!(client.register_merchant(ADMIN, id("B"), id("B"), make_tags(&[long_tag.as_str()]), None, 0), Err("tag too long"));
    assert_eq!(client.list_merchants().len(), 1);
}

#[test]
fn test_list_merchants() {
    let mut client = setup();
    client.register_merchant(ADMIN, id("AMAZON"), id("Amazon"), Vec::new(), None, 0).unwrap();
    client.register_merchant(ADMIN, id("NETFLIX"), id("Netflix"), Vec::new(), None, 0).unwrap();
    let list = client.list_merchants();
    assert_eq!(list.len(), 2);
    assert_eq!(list, vec![id("AMAZON"), id("NETFLIX")]);
}

#[test]
fn test_update_merchant_name() {
    let mut client = setup();
    client.register_merchant(ADMIN, id("AMAZON"), id("Amazon"), Vec::new(), None, 0).unwrap();
    client.update_merchant(ADMIN, b"AMAZON", Some(id("Amazon Inc.")), None, None).unwrap();
    let merchant = client.get_merchant(b"AMAZON").unwrap();
    assert_eq!(merchant.name, id("Amazon Inc."));
    assert_eq!(client.update_merchant(ADMIN, b"NOPE", None, None, None), Err("merchant not found"));
}

#[test]
fn test_deactivate_merchant() {
    let mut client = setup();
    client.register_merchant(ADMIN, id("AMAZON"), id("Amazon"), Vec::new(), None, 0).unwrap();
    client.deactivate_merchant(ADMIN, b"AMAZON").unwrap();
    let merchant = client.get_merchant(b"AMAZON").unwrap();
    assert!(!merchant.active);
}

#[test]
fn test_tag_transaction() {
    let mut client = setup();
    client.register_merchant(ADMIN, id("STARBUCKS"), id("Starbucks"), make_tags(&["food", "coffee"]), None, 0).unwrap();
    client.tag_transaction(1, &id("STARBUCKS"), 500_000, id("XLM"), id("Morning coffee"), 3).unwrap();
    let tag = client.get_transaction_tag(1, b"STARBUCKS").expect("tag should exist");
    assert_eq!(tag.tx_id, 1);
    assert_eq!(tag.amount, 500_000);
    assert_eq!(tag.merchant_id, id("STARBUCKS"));
    assert_eq!(tag.timestamp, 3);
}

#[test]
fn tagging_refusals() {
    let mut client = setup();
    client.register_merchant(ADMIN, id("STARBUCKS"), id("Starbucks"), Vec::new(), None, 0).unwrap();
    assert_eq!(client.tag_transaction(1, &id("STARBUCKS"), 0, id("XLM"), Vec::new(), 0), Err("amount must be positive"));
    assert_eq!(client.tag_transaction(1, &id("OTHER"), 5, id("XLM"), Vec::new(), 0), Err("merchant not found"));
    client.tag_transaction(1, &id("STARBUCKS"), 500_000, id("XLM"), Vec::new(), 0).unwrap();
    assert_eq!(client.tag_transaction(1, &id("STARBUCKS"), 500_000, id("XLM"), Vec::new(), 0), Err("already tagged"));
    client.deactivate_merchant(ADMIN, b"STARBUCKS").unwrap();
    assert_eq!(client.tag_transaction(2, &id("STARBUCKS"), 500_000, id("XLM"), Vec::new(), 0), Err("merchant inactive"));
    assert_eq!(client.get_total_tagged(), 1);
}

#[test]
fn volume_overflow_is_refused() {
    let mut client = setup();
    client.register_merchant(ADMIN, id("BIG"), id("Big"), Vec::new(), None, 0).unwrap();
    client.tag_transaction(1, &id("BIG"), i128::MAX, id("XLM"), Vec::new(), 0).unwrap();
    assert_eq!(client.tag_transaction(2, &id("BIG"), 1, id("XLM"), Vec::new(), 0), Err("volume overflow"));
    assert_eq!(client.get_merchant_transactions(b"BIG"), vec![1]);
}

#[test]
fn test_get_merchant_transactions() {
    let mut client = setup();
    client.register_merchant(ADMIN, id("AMAZON"), id("Amazon"), Vec::new(), None, 0).unwrap();
    client.tag_transaction(10, &id("AMAZON"), 1_000_000, id("USDC"), Vec::new(), 0).unwrap();
    client.tag_transaction(11, &id("AMAZON"), 2_000_000, id("USDC"), Vec::new(), 0).unwrap();
    client.tag_transaction(12, &id("AMAZON"), 3_000_000, id("USDC"), Vec::new(), 0).unwrap();
    let txs = client.get_merchant_transactions(b"AMAZON");
    assert_eq!(txs.len(), 3);
    assert_eq!(txs, vec![10, 11, 12]);
    assert!(client.get_merchant_transactions(b"UNKNOWN").is_empty());
}

#[test]
fn merchant_transactions_are_capped() {
    let mut client = setup();
    client.register_merchant(ADMIN, id("AMAZON"), id("Amazon"), Vec::new(), None, 0).unwrap();
    for tx in 0..(MAX_QUERY_RESULTS as u64 + 5) {
        client.tag_transaction(tx, &id("AMAZON"), 1, id("USDC"), Vec::new(), 0).unwrap();
    }
    let txs = client.get_merchant_transactions(b"AMAZON");
    assert_eq!(txs.len(), MAX_QUERY_RESULTS as usize);
    assert_eq!(txs[0], 0);
    assert_eq!(txs[99], 99);
}

#[test]
fn test_merchant_analytics_accumulate() {
    let mut client = setup();
    client.register_merchant(ADMIN, id("AMAZON"), id("Amazon"), Vec::new(), None, 0).unwrap();
    assert!(client.get_merchant_analytics(b"AMAZON").is_none());
    client.tag_transaction(1, &id("AMAZON"), 1_000, id("XLM"), Vec::new(), 5).unwrap();
    client.tag_transaction(2, &id("AMAZON"), 2_000, id("XLM"), Vec::new(), 9).unwrap();
    let analytics = client.get_merchant_analytics(b"AMAZON").expect("analytics should exist");
    assert_eq!(analytics.tx_count, 2);
    assert_eq!(analytics.total_volume, 3_000);
    assert_eq!(analytics.last_tx_at, 9);
}

#[test]
fn test_get_merchants_by_tag() {
    let mut client = setup();
    client.register_merchant(ADMIN, id("AMAZON"), id("Amazon"), make_tags(&["retail"]), None, 0).unwrap();
    client.register_merchant(ADMIN, id("WALMART"), id("Walmart"), make_tags(&["retail", "grocery"]), None, 0).unwrap();
    client.register_merchant(ADMIN, id("NETFLIX"), id("Netflix"), make_tags(&["streaming"]), None, 0).unwrap();
    let retail_merchants = client.get_merchants_by_tag(b"retail");
    assert_eq!(retail_merchants.len(), 2);
    assert_eq!(retail_merchants, vec![id("AMAZON"), id("WALMART")]);
    let streaming_merchants = client.get_merchants_by_tag(b"streaming");
    assert_eq!(streaming_merchants.len(), 1);
}

#[test]
fn test_total_tagged_counter() {
    let mut client = setup();
    client.register_merchant(ADMIN, id("AMAZON"), id("Amazon"), Vec::new(), None, 0).unwrap();
    assert_eq!(client.get_total_tagged(), 0);
    client.tag_transaction(1, &id("AMAZON"), 1_000, id("XLM"), Vec::new(), 0).unwrap();
    client.tag_transaction(2, &id("AMAZON"), 2_000, id("XLM"), Vec::new(), 0).unwrap();
    assert_eq!(client.get_total_tagged(), 2);
}

#[test]
fn test_remove_tag() {
    let mut client = setup();
    client.register_merchant(ADMIN, id("AMAZON"), id("Amazon"), Vec::new(), None, 0).unwrap();
    client.tag_transaction(1, &id("AMAZON"), 1_000, id("XLM"), Vec::new(), 0).unwrap();
    assert!(client.get_transaction_tag(1, b"AMAZON").is_some());
    client.remove_tag(ADMIN, 1, b"AMAZON").unwrap();
    assert!(client.get_transaction_tag(1, b"AMAZON").is_none());
    assert_eq!(client.remove_tag(ADMIN, 1, b"AMAZON"), Err("tag not found"));
    let analytics = client.get_merchant_analytics(b"AMAZON").unwrap();
    assert_eq!(analytics.tx_count, 1);
    assert_eq!(client.get_merchant_transactions(b"AMAZON"), vec![1]);
}
