use stellarspend::categories::{validate_category_name, CategoryError, SpendingCategoriesContract};

const ADMIN: u64 = 1;

fn setup_test_contract() -> SpendingCategoriesContract {
    let mut client = SpendingCategoriesContract::new();
    client.initialize(ADMIN).unwrap();
    client
}

fn name(s: &str) -> Vec<u8> {
    s.as_bytes().to_vec()
}

#[test]
fn test_initialize() {
    let client = setup_test_contract();
    assert_eq!(client.get_admin(), Ok(ADMIN));
    assert_eq!(client.get_total_categories(), 0);
}

#[test]
fn initialize_twice_is_refused() {
    let mut client = setup_test_contract();
    assert_eq!(client.initialize(2), Err("Contract already initialized"));
}

#[test]
fn test_create_category() {
    let mut client = setup_test_contract();
    let user = 10;
    let category = client.create_category(ADMIN, user, name("Food"), 5).unwrap();
    assert_eq!(category.category_id, 1);
    assert_eq!(category.user, user);
    assert_eq!(category.name, name("Food"));
    assert_eq!(category.created_at, 5);
    assert_eq!(client.get_total_categories(), 1);
    let fetched = client.get_category(1).unwrap();
    assert_eq!(fetched.name, name("Food"));
}

#[test]
fn test_create_multiple_categories_for_same_user() {
    let mut client = setup_test_contract();
    let user = 10;
    let cat1 = client.create_category(ADMIN, user, name("Food"), 0).unwrap();
    let cat2 = client.create_category(ADMIN, user, name("Transport"), 0).unwrap();
    assert_eq!(cat1.category_id, 1);
    assert_eq!(cat2.category_id, 2);
    assert_eq!(client.get_total_categories(), 2);
    let user_cats = client.get_user_categories(user);
    assert_eq!(user_cats.len(), 2);
    assert_eq!(user_cats, vec![1, 2]);
}

#[test]
fn test_create_categories_for_different_users() {
    let mut client = setup_test_contract();
    client.create_category(ADMIN, 10, name("Food"), 0).unwrap();
    client.create_category(ADMIN, 11, name("Food"), 0).unwrap();
    assert_eq!(client.get_total_categories(), 2);
    assert_eq!(client.get_user_categories(11), vec![2]);
}

#[test]
fn duplicate_category_for_same_user_is_refused() {
    let mut client = setup_test_contract();
    client.create_category(ADMIN, 10, name("Food"), 0).unwrap();
    assert!(matches!(client.create_category(ADMIN, 10, name("Food"), 0), Err(CategoryError::DuplicateName)));
    assert_eq!(client.get_total_categories(), 1);
}

#[test]
fn test_rename_category() {
    let mut client = setup_test_contract();
    client.create_category(ADMIN, 10, name("Food"), 1).unwrap();
    let renamed = client.rename_category(ADMIN, 1, name("Groceries"), 9).unwrap();
    assert_eq!(renamed.category_id, 1);
    assert_eq!(renamed.name, name("Groceries"));
    assert_eq!(renamed.created_at, 1);
    assert_eq!(renamed.updated_at, 9);
    let fetched = client.get_category(1).unwrap();
    assert_eq!(fetched.name, name("Groceries"));
}

#[test]
fn test_rename_to_same_name() {
    let mut client = setup_test_contract();
    client.create_category(ADMIN, 10, name("Food"), 0).unwrap();
    let renamed = client.rename_category(ADMIN, 1, name("Food"), 0).unwrap();
    assert_eq!(renamed.name, name("Food"));
}

#[test]
fn rename_to_duplicate_name_is_refused() {
    let mut client = setup_test_contract();
    client.create_category(ADMIN, 10, name("Food"), 0).unwrap();
    client.create_category(ADMIN, 10, name("Transport"), 0).unwrap();
    assert!(matches!(client.rename_category(ADMIN, 2, name("Food"), 0), Err(CategoryError::DuplicateName)));
}

#[test]
fn rename_of_missing_category_is_refused() {
    let mut client = setup_test_contract();
    assert!(matches!(client.rename_category(ADMIN, 999, name("Test"), 0), Err(CategoryError::CategoryNotFound)));
}

#[test]
fn test_rename_preserves_category_id() {
    let mut client = setup_test_contract();
    client.create_category(ADMIN, 10, name("Food"), 0).unwrap();
    let renamed = client.rename_category(ADMIN, 1, name("Groceries"), 0).unwrap();
    assert_eq!(renamed.category_id, 1);
}

#[test]
fn test_get_nonexistent_category() {
    let client = setup_test_contract();
    assert!(client.get_category(999).is_none());
}

#[test]
fn test_set_admin() {
    let mut client = setup_test_contract();
    client.set_admin(ADMIN, 2).unwrap();
    assert_eq!(client.get_admin(), Ok(2));
}

#[test]
fn category_errors() {
    let mut client = SpendingCategoriesContract::new();
    assert!(matches!(client.create_category(ADMIN, 10, name("Food"), 0), Err(CategoryError::NotInitialized)));
    client.initialize(ADMIN).unwrap();
    assert!(matches!(client.create_category(2, 10, name("Food"), 0), Err(CategoryError::Unauthorized)));
    assert!(matches!(client.create_category(ADMIN, 10, Vec::new(), 0), Err(CategoryError::InvalidName)));
    assert!(matches!(client.create_category(ADMIN, 10, vec![b'a'; 33], 0), Err(CategoryError::InvalidName)));
    assert_eq!(client.set_admin(2, 3), Err(CategoryError::Unauthorized));
    assert_eq!(CategoryError::DuplicateName.code(), 4);
}

#[test]
fn test_valid_category_name() {
    assert!(validate_category_name(b"Food").is_ok());
}

#[test]
fn test_valid_short_name() {
    assert!(validate_category_name(b"A").is_ok());
}

#[test]
fn test_valid_long_name() {
    assert!(validate_category_name(b"abcdefghijklmnopqrstuvwxyz012345").is_ok());
    assert!(validate_category_name(b"abcdefghijklmnopqrstuvwxyz0123456").is_err());
    assert!(validate_category_name(b"").is_err());
}
