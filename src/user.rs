//! A user identity, and registration and login against the store.

use vstd::prelude::*;

use crate::database::{
    appended, credentials_rejected, has_user, last_user_match, lemma_appended_is_last,
    lemma_user_match_found,
    Database,
};
use crate::digest::{hash_password, is_hex_digest, sha256_hex};

verus! {

/// A user row as the store holds it: id, username and password digest.
pub type UserRow = (int, Seq<char>, Seq<char>);

/// A user; the id `-1` stands for "not found" or "not yet stored".
#[derive(Debug)]
pub struct User {
    pub id: i32,
    pub username: String,
    password: String,
}

impl View for User {
    type V = UserRow;

    /// The user as a row: id, username and password digest.
    closed spec fn view(&self) -> UserRow {
        (self.id as int, self.username@, self.password@)
    }
}

impl User {
    /// The stored password digest.
    pub open spec fn digest(&self) -> Seq<char> {
        self@.2
    }

    /// Whether this is the "not found" user.
    pub open spec fn is_absent(&self) -> bool {
        self@ == (-1int, Seq::<char>::empty(), Seq::<char>::empty())
    }

    /// A user whose digest is the hash of the plaintext `password`.
    pub fn new(id: i32, username: &str, password: &str) -> (r: User)
        ensures
            r@ == (id as int, username@, sha256_hex(password@)),
            is_hex_digest(r.digest()),
    {
        User { id, username: username.to_owned(), password: hash_password(password) }
    }

    /// A user rebuilt from a stored row, digest as stored.
    pub(crate) fn from_row(id: i32, username: String, digest: String) -> (r: User)
        ensures
            r@ == (id as int, username@, digest@),
    {
        User { id, username, password: digest }
    }

    /// The id; `-1` when the user is absent or not yet stored.
    pub fn id(&self) -> (r: i32)
        ensures
            r as int == self@.0,
    {
        self.id
    }

    /// The username.
    pub fn username(&self) -> (r: String)
        ensures
            r@ == self@.1,
    {
        self.username.clone()
    }

    /// The password digest.
    pub fn password(&self) -> (r: String)
        ensures
            r@ == self.digest(),
    {
        self.password.clone()
    }

    /// Replaces the digest with the hash of `new_password`.
    pub fn set_password(&mut self, new_password: &str)
        ensures
            final(self)@ == (old(self)@.0, old(self)@.1, sha256_hex(new_password@)),
    {
        self.password = hash_password(new_password);
    }

    /// Stores this user's username and digest. `Ok(false)` when both are blank.
    pub fn register(&self, db: &mut Database) -> (r: Result<bool, rusqlite::Error>)
        ensures
            credentials_rejected(self@.1, self.digest()) ==> (r matches Ok(false))
                && final(db).users() == old(db).users(),
            !credentials_rejected(self@.1, self.digest()) ==> match r {
                Ok(b) => b && appended(old(db).users(), final(db).users(), self@.1, self.digest()),
                Err(_) => final(db).users() == old(db).users(),
            },
            final(db).products() == old(db).products(),
            old(db).wf() ==> final(db).wf(),
    {
        db.create_user(self.username.as_str(), self.password.as_str())
    }

    /// Whether a stored user has this username and the digest of `password`.
    /// The user it is called on plays no part.
    pub fn login(&self, db: &Database, username: &str, password: &str) -> (r: Result<bool, rusqlite::Error>)
        ensures
            r matches Ok(b) ==> b == login_accepts(db.users(), username@, password@),
            db.wf() ==> (r matches Ok(b) ==> (b <==> has_user(db.users(), username@, sha256_hex(password@)))),
    {
        let digest = hash_password(password);
        proof {
            lemma_user_match_found(db.users(), username@, digest@);
        }
        match db.get_user(username, digest.as_str()) {
            Ok(user) => Ok(user.id != -1),
            Err(e) => Err(e),
        }
    }
}

impl Default for User {
    fn default() -> (r: User)
        ensures
            r.is_absent(),
    {
        User { id: -1, username: String::new(), password: String::new() }
    }
}

/// Whether login with these credentials succeeds on these rows: the last row
/// with the username and the password's digest has an id other than `-1`.
pub open spec fn login_accepts(rows: Seq<UserRow>, username: Seq<char>, password: Seq<char>) -> bool {
    let i = last_user_match(rows, username, sha256_hex(password));
    i >= 0 && rows[i].0 != -1
}

/// Registering a user and then logging in with the same username and
/// password succeeds.
pub proof fn register_then_login(before: Seq<UserRow>, after: Seq<UserRow>, username: Seq<char>, password: Seq<char>)
    requires
        appended(before, after, username, sha256_hex(password)),
    ensures
        login_accepts(after, username, password),
{
    lemma_appended_is_last(before, after, username, sha256_hex(password));
}

/// After registering, logging in on that username with a password whose
/// digest differs from the one stored for it fails.
pub proof fn register_then_login_wrong_password(
    before: Seq<UserRow>,
    after: Seq<UserRow>,
    username: Seq<char>,
    password: Seq<char>,
    wrong: Seq<char>,
)
    requires
        appended(before, after, username, sha256_hex(password)),
        forall|i: int|
            0 <= i < before.len() && (#[trigger] before[i]).1 == username ==> before[i].2 == sha256_hex(
                password,
            ),
        sha256_hex(wrong) != sha256_hex(password),
    ensures
        !login_accepts(after, username, wrong),
{
    lemma_appended_is_last(before, after, username, sha256_hex(password));
    lemma_user_match_found(after, username, sha256_hex(wrong));
    if has_user(after, username, sha256_hex(wrong)) {
        let i = choose|i: int|
            0 <= i < after.len() && (#[trigger] after[i]).1 == username && after[i].2 == sha256_hex(wrong);
        if i < before.len() {
            assert(after[i] == after.drop_last()[i]);
        }
    }
}

} // verus!
