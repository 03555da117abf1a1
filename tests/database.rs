use rusqlite::Result;
use user_db::database::Database;
use user_db::digest::hash_password;

fn setup() -> Result<Database> {
    let db = Database::open_in_memory()?;
    db.create_tables()?;
    Ok(db)
}

#[test]
fn create_database() {
    let result = match setup() {
        Ok(_) => true,
        Err(_) => false,
    };
    assert_eq!(result, true)
}

#[test]
fn create_user_success() {
    let mut db = setup().unwrap();
    let success = db.create_user("User", "123").expect("Error creating user");

    assert_eq!(success, true)
}

#[test]
fn create_user_failure() {
    let mut db = setup().unwrap();
    let success = db.create_user("", "").expect("Error creating user");

    assert_eq!(success, false)
}

#[test]
fn get_created_user_success() {
    let username = "new_user";
    let password = "password";

    let mut db = setup().unwrap();
    db.create_user(username, password).unwrap();

    let user = db.get_user(username, password).unwrap();
    assert_ne!(user.id, -1)
}

#[test]
fn get_created_user_with_empty_credentials() {
    let username = "";
    let password = "";

    let mut db = setup().unwrap();
    db.create_user(username, password).unwrap();

    let user = db.get_user(username, password).unwrap();
    assert_eq!(user.id, -1)
}

#[test]
fn create_multiple_users() {
    let mut db = setup().unwrap();
    for i in 0..5 {
        let i = &i.to_string();
        db.create_user(&(String::from("user") + i), "password").unwrap();
    }
    let users = db.get_all_users().unwrap();
    assert_eq!(users.len(), 5)
}

#[test]
fn rejected_user_leaves_table_unchanged() {
    let mut db = setup().unwrap();
    db.create_user("bob", "x").unwrap();
    assert_eq!(db.create_user("", "").unwrap(), false);
    assert_eq!(db.get_all_users().unwrap().len(), 1);
}

#[test]
fn whitespace_credentials_are_rejected() {
    let mut db = setup().unwrap();
    assert_eq!(db.create_user("  \t", "\n \u{3000}").unwrap(), false);
    assert_eq!(db.get_all_users().unwrap().len(), 0);
}

#[test]
fn one_blank_credential_is_accepted() {
    let mut db = setup().unwrap();
    assert_eq!(db.create_user("   ", "digest").unwrap(), true);
    assert_eq!(db.create_user("carol", "").unwrap(), true);
    assert_eq!(db.get_all_users().unwrap().len(), 2);
}

#[test]
fn unknown_user_is_absent() {
    let mut db = setup().unwrap();
    db.create_user("alice", "d1").unwrap();
    let user = db.get_user("nobody", "d1").unwrap();
    assert_eq!(user.id, -1);
    assert_eq!(user.username, "");
    assert_eq!(user.password(), "");
}

#[test]
fn empty_table_lists_nothing() {
    let db = setup().unwrap();
    assert!(db.get_all_users().unwrap().is_empty());
    assert!(db.get_all_products().unwrap().is_empty());
}

#[test]
fn listed_users_keep_order_and_fields() {
    let mut db = setup().unwrap();
    db.create_user("a", "da").unwrap();
    db.create_user("b", "db").unwrap();
    let users = db.get_all_users().unwrap();
    assert_eq!(users.len(), 2);
    assert_eq!(users[0].id, 1);
    assert_eq!(users[0].username, "a");
    assert_eq!(users[0].password(), "da");
    assert_eq!(users[1].id, 2);
    assert_eq!(users[1].username, "b");
    assert_eq!(users[1].password(), "db");
}

#[test]
fn last_matching_user_wins() {
    let mut db = setup().unwrap();
    db.create_user("dup", "same").unwrap();
    db.create_user("other", "same").unwrap();
    db.create_user("dup", "same").unwrap();
    let user = db.get_user("dup", "same").unwrap();
    assert_eq!(user.id, 3);
    assert_eq!(user.username, "dup");
    assert_eq!(user.password(), "same");
}

#[test]
fn found_user_keeps_stored_digest() {
    let mut db = setup().unwrap();
    let digest = hash_password("secret");
    db.create_user("alice", &digest).unwrap();
    let user = db.get_user("alice", &digest).unwrap();
    assert_eq!(user.password(), digest);
}

#[test]
fn queries_without_tables_fail() {
    let mut db = Database::open_in_memory().unwrap();
    assert!(db.get_all_users().is_err());
    assert!(db.create_user("a", "b").is_err());
    assert!(db.get_product("x").is_err());
}

#[test]
fn create_tables_is_idempotent() {
    let mut db = setup().unwrap();
    db.create_user("a", "b").unwrap();
    db.create_tables().unwrap();
    assert_eq!(db.get_all_users().unwrap().len(), 1);
}

#[test]
fn invalid_products_are_rejected() {
    let mut db = setup().unwrap();
    assert_eq!(db.create_product("", 10).unwrap(), false);
    assert_eq!(db.create_product("widget", -1).unwrap(), false);
    assert_eq!(db.create_product(" \t ", 5).unwrap(), false);
    assert!(db.get_all_products().unwrap().is_empty());
}

#[test]
fn stored_product_is_found() {
    let mut db = setup().unwrap();
    assert_eq!(db.create_product("widget", 10).unwrap(), true);
    let product = db.get_product("widget").unwrap();
    assert_ne!(product.id, -1);
    assert_eq!(product.name, "widget");
    assert_eq!(product.price, 10);
}

#[test]
fn zero_price_is_accepted() {
    let mut db = setup().unwrap();
    assert_eq!(db.create_product("free", 0).unwrap(), true);
    assert_eq!(db.get_all_products().unwrap().len(), 1);
}

#[test]
fn unknown_product_is_absent() {
    let mut db = setup().unwrap();
    db.create_product("widget", 10).unwrap();
    let product = db.get_product("gadget").unwrap();
    assert_eq!(product.id, -1);
    assert_eq!(product.name, "");
    assert_eq!(product.price, 0);
}

#[test]
fn last_matching_product_wins() {
    let mut db = setup().unwrap();
    db.create_product("widget", 1).unwrap();
    db.create_product("widget", 2).unwrap();
    let product = db.get_product("widget").unwrap();
    assert_eq!(product.id, 2);
    assert_eq!(product.price, 2);
    let all = db.get_all_products().unwrap();
    assert_eq!(all.len(), 2);
    assert_eq!(all[0].price, 1);
    assert_eq!(all[1].price, 2);
}

#[test]
fn alice_scenario() {
    let mut db = Database::open_in_memory().unwrap();
    db.create_tables().unwrap();
    assert_eq!(db.create_user("alice", &hash_password("secret")).unwrap(), true);
    assert_ne!(db.get_user("alice", &hash_password("secret")).unwrap().id, -1);
    assert_eq!(db.get_user("alice", &hash_password("wrong")).unwrap().id, -1);
}
