use user_db::database::Database;
use user_db::digest::hash_password;
use user_db::product::Product;
use user_db::user::User;

#[test]
fn user_password_encryption() {
    let hash = hash_password("password");
    let mut user = User::default();
    user.set_password("password");

    assert_eq!(user.password(), hash)
}

#[test]
fn register_success() {
    let mut db = Database::open_in_memory().unwrap();
    db.create_tables().unwrap();

    let user = User::new(-1, "user", "password");
    let success = user.register(&mut db).unwrap();

    assert_eq!(success, true)
}

#[test]
fn register_failure() {
    let mut db = Database::open_in_memory().unwrap();
    db.create_tables().unwrap();

    let user = User::default();
    let success = user.register(&mut db).unwrap();

    assert_eq!(success, false)
}

#[test]
fn login_success() {
    let mut db = Database::open_in_memory().unwrap();
    db.create_tables().unwrap();

    let user = User::new(-1, "user", "password");
    let success = user.register(&mut db).unwrap();
    assert_eq!(success, true);

    let success = user.login(&db, "user", "password").unwrap();
    assert_eq!(success, true)
}

#[test]
fn login_failure() {
    let mut db = Database::open_in_memory().unwrap();
    db.create_tables().unwrap();

    let user = User::default();
    user.register(&mut db).unwrap();

    let success = user.login(&db, "", "").unwrap();
    assert_eq!(success, false)
}

#[test]
fn login_with_wrong_password_fails() {
    let mut db = Database::open_in_memory().unwrap();
    db.create_tables().unwrap();
    let user = User::new(-1, "user", "password");
    assert_eq!(user.register(&mut db).unwrap(), true);
    assert_eq!(user.login(&db, "user", "passw0rd").unwrap(), false);
    assert_eq!(user.login(&db, "other", "password").unwrap(), false);
}

#[test]
fn empty_plaintext_is_registered_hashed() {
    let mut db = Database::open_in_memory().unwrap();
    db.create_tables().unwrap();
    let user = User::new(-1, "", "");
    assert_eq!(user.register(&mut db).unwrap(), true);
    assert_eq!(User::default().login(&db, "", "").unwrap(), true);
}

#[test]
fn hash_is_known_sha256_hex() {
    assert_eq!(
        hash_password("password"),
        "5e884898da28047151d0e56f8dc6292773603d0d6aabbdd62a11ef721d1542d8"
    );
    assert_eq!(
        hash_password(""),
        "e3b0c44298fc1c149afbf4c8996fb92427ae41e4649b934ca495991b7852b855"
    );
}

#[test]
fn hash_is_deterministic_and_distinguishes() {
    assert_eq!(hash_password("secret"), hash_password("secret"));
    assert_ne!(hash_password("secret"), hash_password("wrong"));
    assert_ne!(hash_password("a"), hash_password("b"));
    assert_eq!(hash_password("anything").len(), 64);
}

#[test]
fn new_user_holds_digest() {
    let user = User::new(7, "eve", "pw");
    assert_eq!(user.id, 7);
    assert_eq!(user.username, "eve");
    assert_eq!(user.password(), hash_password("pw"));
    assert_ne!(user.password(), "pw");
}

#[test]
fn set_password_keeps_identity() {
    let mut user = User::new(3, "dan", "old");
    user.set_password("new");
    assert_eq!(user.id, 3);
    assert_eq!(user.username, "dan");
    assert_eq!(user.password(), hash_password("new"));
}

#[test]
fn default_user_is_absent() {
    let user = User::default();
    assert_eq!(user.id, -1);
    assert_eq!(user.username, "");
    assert_eq!(user.password(), "");
}

#[test]
fn product_new_and_default() {
    let p = Product::new(4, "lamp", 25);
    assert_eq!(p.id, 4);
    assert_eq!(p.name, "lamp");
    assert_eq!(p.price, 25);
    let d = Product::default();
    assert_eq!(d.id, -1);
    assert_eq!(d.name, "");
    assert_eq!(d.price, 0);
}

#[test]
fn getters_read_fields() {
    let user = User::new(9, "fay", "pw");
    assert_eq!(user.id(), 9);
    assert_eq!(user.username(), "fay");
    let absent = User::default();
    assert_eq!(absent.id(), -1);
    assert_eq!(absent.username(), "");
}

#[test]
fn stored_ids_are_positive_and_rising() {
    let mut db = Database::open_in_memory().unwrap();
    db.create_tables().unwrap();
    for name in ["a", "b", "c"] {
        assert_eq!(User::new(-1, name, "pw").register(&mut db).unwrap(), true);
    }
    let users = db.get_all_users().unwrap();
    assert_eq!(users.len(), 3);
    assert!(users[0].id() >= 1);
    assert!(users[0].id() < users[1].id() && users[1].id() < users[2].id());
}
