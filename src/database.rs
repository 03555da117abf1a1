//! The storage layer: two tables, `users(id, username, password)` and
//! `products(id, name, price)`, in an SQLite database.
//!
//! The rows of each table are modelled as a sequence in the order of their
//! ids. Ids come from `AUTOINCREMENT`, so a new row always sorts last.

use rusqlite::Connection;
use vstd::prelude::*;

use crate::product::{Product, ProductRow};
use crate::text::{is_blank, is_blank_str};
use crate::user::{User, UserRow};

verus! {

#[verifier::external_type_specification]
#[verifier::external_body]
pub struct ExConnection(rusqlite::Connection);

#[verifier::external_type_specification]
#[verifier::external_body]
pub struct ExError(rusqlite::Error);

/// The rows of the `users` table of `c`, in the order of their ids.
pub uninterp spec fn user_table(c: rusqlite::Connection) -> Seq<(int, Seq<char>, Seq<char>)>;

/// The rows of the `products` table of `c`, in the order of their ids.
pub uninterp spec fn product_table(c: rusqlite::Connection) -> Seq<(int, Seq<char>, int)>;

/// `after` is `before` with one more row, whose fresh id (at least 1 and
/// above every id of `before`) comes last.
pub open spec fn appended<K, V>(before: Seq<(int, K, V)>, after: Seq<(int, K, V)>, k: K, v: V) -> bool {
    exists|id: int|
        #![trigger before.push((id, k, v))]
        1 <= id && (forall|i: int| 0 <= i < before.len() ==> before[i].0 < id) && after
            == before.push((id, k, v))
}

/// Credentials that the store refuses: username and password both blank.
pub open spec fn credentials_rejected(username: Seq<char>, password: Seq<char>) -> bool {
    is_blank(username) && is_blank(password)
}

/// A product that the store refuses: a blank name or a negative price.
pub open spec fn product_rejected(name: Seq<char>, price: int) -> bool {
    is_blank(name) || price < 0
}

/// The index of the last row with this username and digest, or -1.
pub open spec fn last_user_match(rows: Seq<UserRow>, username: Seq<char>, digest: Seq<char>) -> int
    decreases rows.len(),
{
    if rows.len() == 0 {
        -1
    } else if rows.last().1 == username && rows.last().2 == digest {
        rows.len() - 1
    } else {
        last_user_match(rows.drop_last(), username, digest)
    }
}

/// The index of the last row with this name, or -1.
pub open spec fn last_product_match(rows: Seq<ProductRow>, name: Seq<char>) -> int
    decreases rows.len(),
{
    if rows.len() == 0 {
        -1
    } else if rows.last().1 == name {
        rows.len() - 1
    } else {
        last_product_match(rows.drop_last(), name)
    }
}

/// Ids as this library stores them: each at least 1, and rising along the rows.
pub open spec fn ids_valid<K, V>(rows: Seq<(int, K, V)>) -> bool {
    &&& forall|i: int| 0 <= i < rows.len() ==> (#[trigger] rows[i]).0 >= 1
    &&& forall|i: int, j: int|
        0 <= i < j < rows.len() ==> (#[trigger] rows[i]).0 < (#[trigger] rows[j]).0
}

/// Whether some row has this username and digest.
pub open spec fn has_user(rows: Seq<UserRow>, username: Seq<char>, digest: Seq<char>) -> bool {
    exists|i: int| 0 <= i < rows.len() && (#[trigger] rows[i]).1 == username && rows[i].2 == digest
}

/// Whether some row has this name.
pub open spec fn has_product(rows: Seq<ProductRow>, name: Seq<char>) -> bool {
    exists|i: int| 0 <= i < rows.len() && (#[trigger] rows[i]).1 == name
}

/// The last match is a matching row, and there is one exactly when some row matches.
pub proof fn lemma_user_match_found(rows: Seq<UserRow>, username: Seq<char>, digest: Seq<char>)
    ensures
        -1 <= last_user_match(rows, username, digest) < rows.len(),
        last_user_match(rows, username, digest) >= 0 <==> has_user(rows, username, digest),
        last_user_match(rows, username, digest) >= 0 ==> rows[last_user_match(rows, username, digest)].1
            == username && rows[last_user_match(rows, username, digest)].2 == digest,
    decreases rows.len(),
{
    if rows.len() > 0 {
        let init = rows.drop_last();
        lemma_user_match_found(init, username, digest);
        if has_user(init, username, digest) {
            let i = choose|i: int| 0 <= i < init.len() && (#[trigger] init[i]).1 == username && init[i].2 == digest;
            assert(rows[i] == init[i]);
        }
        if has_user(rows, username, digest) && !(rows.last().1 == username && rows.last().2 == digest) {
            let i = choose|i: int| 0 <= i < rows.len() && (#[trigger] rows[i]).1 == username && rows[i].2 == digest;
            assert(init[i] == rows[i]);
        }
        let j = last_user_match(init, username, digest);
        if j >= 0 {
            assert(rows[j] == init[j]);
        }
    }
}

/// The last match is a matching row, and there is one exactly when some row matches.
pub proof fn lemma_product_match_found(rows: Seq<ProductRow>, name: Seq<char>)
    ensures
        -1 <= last_product_match(rows, name) < rows.len(),
        last_product_match(rows, name) >= 0 <==> has_product(rows, name),
        last_product_match(rows, name) >= 0 ==> rows[last_product_match(rows, name)].1 == name,
    decreases rows.len(),
{
    if rows.len() > 0 {
        let init = rows.drop_last();
        lemma_product_match_found(init, name);
        if has_product(init, name) {
            let i = choose|i: int| 0 <= i < init.len() && (#[trigger] init[i]).1 == name;
            assert(rows[i] == init[i]);
        }
        if has_product(rows, name) && rows.last().1 != name {
            let i = choose|i: int| 0 <= i < rows.len() && (#[trigger] rows[i]).1 == name;
            assert(init[i] == rows[i]);
        }
        let j = last_product_match(init, name);
        if j >= 0 {
            assert(rows[j] == init[j]);
        }
    }
}

/// Appending a row under a fresh id keeps the ids valid.
pub proof fn lemma_appended_keeps_ids_valid<K, V>(before: Seq<(int, K, V)>, after: Seq<(int, K, V)>, k: K, v: V)
    requires
        appended(before, after, k, v),
        ids_valid(before),
    ensures
        ids_valid(after),
{
    let id = choose|id: int|
        #![trigger before.push((id, k, v))]
        1 <= id && (forall|i: int| 0 <= i < before.len() ==> before[i].0 < id) && after
            == before.push((id, k, v));
    assert forall|i: int, j: int| 0 <= i < j < after.len() implies (#[trigger] after[i]).0 < (
    #[trigger] after[j]).0 by {
        assert(after[i] == before[i]);
        if j < before.len() {
            assert(after[j] == before[j]);
        }
    }
    assert forall|i: int| 0 <= i < after.len() implies (#[trigger] after[i]).0 >= 1 by {
        if i < before.len() {
            assert(after[i] == before[i]);
        }
    }
}

/// What a user lookup returns: the last matching row, else the absent user.
pub open spec fn user_lookup(rows: Seq<UserRow>, username: Seq<char>, digest: Seq<char>, u: User) -> bool {
    let i = last_user_match(rows, username, digest);
    if i < 0 {
        u.is_absent()
    } else {
        u@ == rows[i]
    }
}

/// What a product lookup returns: the last matching row, else the absent product.
pub open spec fn product_lookup(rows: Seq<ProductRow>, name: Seq<char>, p: Product) -> bool {
    let i = last_product_match(rows, name);
    if i < 0 {
        p.is_absent()
    } else {
        p.has_row(rows[i])
    }
}

pub proof fn lemma_last_user_match(rows: Seq<UserRow>, username: Seq<char>, digest: Seq<char>, n: int)
    requires
        0 <= n < rows.len(),
    ensures
        -1 <= last_user_match(rows.take(n), username, digest) < n,
        last_user_match(rows.take(n + 1), username, digest) == if rows[n].1 == username
            && rows[n].2 == digest {
            n
        } else {
            last_user_match(rows.take(n), username, digest)
        },
    decreases n,
{
    assert(rows.take(n + 1).drop_last() =~= rows.take(n));
    if n > 0 {
        lemma_last_user_match(rows, username, digest, n - 1);
    }
}

pub proof fn lemma_last_product_match(rows: Seq<ProductRow>, name: Seq<char>, n: int)
    requires
        0 <= n < rows.len(),
    ensures
        -1 <= last_product_match(rows.take(n), name) < n,
        last_product_match(rows.take(n + 1), name) == if rows[n].1 == name {
            n
        } else {
            last_product_match(rows.take(n), name)
        },
    decreases n,
{
    assert(rows.take(n + 1).drop_last() =~= rows.take(n));
    if n > 0 {
        lemma_last_product_match(rows, name, n - 1);
    }
}

/// A user lookup with no row matching the username and digest returns the
/// absent user, whose id is `-1`.
pub proof fn lookup_of_unknown_user_is_absent(rows: Seq<UserRow>, username: Seq<char>, digest: Seq<char>)
    requires
        !has_user(rows, username, digest),
    ensures
        forall|u: User| #[trigger] user_lookup(rows, username, digest, u) ==> u.is_absent() && u@.0 == -1,
{
    lemma_user_match_found(rows, username, digest);
}

/// A row just appended comes last, with a positive id.
pub proof fn lemma_appended_is_last<K, V>(before: Seq<(int, K, V)>, after: Seq<(int, K, V)>, k: K, v: V)
    requires
        appended(before, after, k, v),
    ensures
        after.len() == before.len() + 1,
        after.drop_last() == before,
        after.last().1 == k,
        after.last().2 == v,
        after.last().0 >= 1,
{
    let id = choose|id: int|
        #![trigger before.push((id, k, v))]
        1 <= id && (forall|i: int| 0 <= i < before.len() ==> before[i].0 < id) && after
            == before.push((id, k, v));
    assert(after.last() == (id, k, v));
    assert(after.drop_last() =~= before);
}

/// After a product is stored, a lookup by its name finds a product whose id
/// is not `-1`.
pub proof fn stored_product_is_found(before: Seq<ProductRow>, after: Seq<ProductRow>, name: Seq<char>, price: int)
    requires
        appended(before, after, name, price),
    ensures
        last_product_match(after, name) == after.len() - 1,
        forall|p: Product| #[trigger] product_lookup(after, name, p) ==> p.id != -1 && p.has_row(after.last()),
{
    lemma_appended_is_last(before, after, name, price);
}

/// Each stored user adds one row, in the order of the calls: a run of
/// stores on an empty table lists exactly the users stored.
pub proof fn stored_users_are_listed(states: Seq<Seq<UserRow>>, credentials: Seq<(Seq<char>, Seq<char>)>)
    requires
        states.len() == credentials.len() + 1,
        states[0].len() == 0,
        forall|i: int|
            0 <= i < credentials.len() ==> appended(
                #[trigger] states[i],
                states[i + 1],
                credentials[i].0,
                credentials[i].1,
            ),
    ensures
        states.last().len() == credentials.len(),
        forall|i: int|
            0 <= i < credentials.len() ==> (#[trigger] states.last()[i]).1 == credentials[i].0
                && states.last()[i].2 == credentials[i].1,
    decreases credentials.len(),
{
    let n: int = credentials.len() as int;
    if n > 0 {
        let prefix = states.drop_last();
        let creds = credentials.drop_last();
        assert forall|i: int| 0 <= i < creds.len() implies appended(
            #[trigger] prefix[i],
            prefix[i + 1],
            creds[i].0,
            creds[i].1,
        ) by {
            assert(appended(states[i], states[i + 1], credentials[i].0, credentials[i].1));
        }
        stored_users_are_listed(prefix, creds);
        assert(appended(states[n - 1], states[n], credentials[n - 1].0, credentials[n - 1].1));
        lemma_appended_is_last(states[n - 1], states[n], credentials[n - 1].0, credentials[n - 1].1);
        assert(prefix.last() == states[n - 1]);
        assert forall|i: int| 0 <= i < n - 1 implies states[n][i] == states[n - 1][i] by {
            assert(states[n].drop_last()[i] == states[n][i]);
        }
    }
}

pub open spec fn user_rows_view(v: Seq<(i32, String, String)>) -> Seq<UserRow> {
    v.map_values(|t: (i32, String, String)| (t.0 as int, t.1@, t.2@))
}

pub open spec fn product_rows_view(v: Seq<(i32, String, i32)>) -> Seq<ProductRow> {
    v.map_values(|t: (i32, String, i32)| (t.0 as int, t.1@, t.2 as int))
}

/// Relies on `rusqlite::Connection::open`, which opens or creates the file;
/// nothing is known of the rows it already holds.
#[verifier::external_body]
fn open_file(fname: &str) -> (r: Result<Connection, rusqlite::Error>) {
    Connection::open(fname)
}

/// Relies on `rusqlite::Connection::open_in_memory`: a fresh database, with
/// no rows in any table.
#[verifier::external_body]
fn open_memory() -> (r: Result<Connection, rusqlite::Error>)
    ensures
        r matches Ok(c) ==> user_table(c).len() == 0 && product_table(c).len() == 0,
{
    Connection::open_in_memory()
}

/// The schema: `users(id, username, password)` and `products(id, name,
/// price)`, each created only where it is absent.
pub const SCHEMA: &'static str = "CREATE TABLE IF NOT EXISTS users(id INTEGER PRIMARY KEY AUTOINCREMENT, username TEXT NOT NULL, password TEXT NOT NULL); CREATE TABLE IF NOT EXISTS products(id INTEGER PRIMARY KEY AUTOINCREMENT, name TEXT NOT NULL, price INTEGER NOT NULL);";

/// The text of `SCHEMA`.
pub open spec fn schema_sql() -> Seq<char> {
    "CREATE TABLE IF NOT EXISTS users(id INTEGER PRIMARY KEY AUTOINCREMENT, username TEXT NOT NULL, password TEXT NOT NULL); CREATE TABLE IF NOT EXISTS products(id INTEGER PRIMARY KEY AUTOINCREMENT, name TEXT NOT NULL, price INTEGER NOT NULL);"@
}

/// Relies on `rusqlite::Connection::execute_batch`, which runs each
/// statement of `sql` in turn. Called with the schema alone, whose
/// `CREATE TABLE IF NOT EXISTS` statements leave the rows of existing tables
/// as they are.
#[verifier::external_body]
fn execute_batch(c: &Connection, sql: &str) -> (r: Result<(), rusqlite::Error>)
    requires
        sql@ == schema_sql(),
{
    c.execute_batch(sql)
}

/// Relies on `rusqlite::Connection::execute` of an `INSERT` into `users`:
/// on success one row is added. On the `AUTOINCREMENT` table that
/// `create_tables` makes, SQLite gives it an id of at least 1 and above every
/// id the table ever held. On failure the statement is rolled back.
#[verifier::external_body]
fn insert_user_row(c: &mut Connection, username: &str, digest: &str) -> (r: Result<usize, rusqlite::Error>)
    ensures
        r is Ok ==> appended(user_table(*old(c)), user_table(*final(c)), username@, digest@),
        r is Err ==> user_table(*final(c)) == user_table(*old(c)),
        product_table(*final(c)) == product_table(*old(c)),
{
    c.execute("INSERT INTO users (username, password) VALUES (?1, ?2);", [username, digest])
}

/// Relies on `rusqlite::Connection::execute` of an `INSERT` into `products`,
/// as `insert_user_row` does for `users`.
#[verifier::external_body]
fn insert_product_row(c: &mut Connection, name: &str, price: i32) -> (r: Result<usize, rusqlite::Error>)
    ensures
        r is Ok ==> appended(product_table(*old(c)), product_table(*final(c)), name@, price as int),
        r is Err ==> product_table(*final(c)) == product_table(*old(c)),
        user_table(*final(c)) == user_table(*old(c)),
{
    c.execute("INSERT INTO products (name, price) VALUES (?1, ?2);", (name, price))
}

/// Relies on `rusqlite::Connection::prepare`, `Statement::query_map` and
/// `Row::get`: the rows of `users` ordered by id, each read as
/// `(i32, String, String)`; a value that does not read so is an error.
#[verifier::external_body]
fn select_users(c: &Connection) -> (r: Result<Vec<(i32, String, String)>, rusqlite::Error>)
    ensures
        r matches Ok(v) ==> user_rows_view(v@) == user_table(*c),
{
    let mut stmt = c.prepare("SELECT id, username, password FROM users ORDER BY id;")?;
    let rows = stmt.query_map([], |row| Ok((row.get(0)?, row.get(1)?, row.get(2)?)))?;
    let v: Result<Vec<(i32, String, String)>, rusqlite::Error> = rows.collect();
    v
}

/// Relies on `rusqlite::Connection::prepare`, `Statement::query_map` and
/// `Row::get`: the rows of `products` ordered by id, each read as
/// `(i32, String, i32)`; a value that does not read so is an error.
#[verifier::external_body]
fn select_products(c: &Connection) -> (r: Result<Vec<(i32, String, i32)>, rusqlite::Error>)
    ensures
        r matches Ok(v) ==> product_rows_view(v@) == product_table(*c),
{
    let mut stmt = c.prepare("SELECT id, name, price FROM products ORDER BY id;")?;
    let rows = stmt.query_map([], |row| Ok((row.get(0)?, row.get(1)?, row.get(2)?)))?;
    let v: Result<Vec<(i32, String, i32)>, rusqlite::Error> = rows.collect();
    v
}

/// A handle on the SQLite database that holds users and products.
///
/// The handle is taken to be the only one on its database: the model reads
/// each table's rows from the connection, so a write through a second handle
/// on the same file would go unseen.
pub struct Database {
    conn: Connection,
}

impl Database {
    /// The rows of the `users` table.
    pub closed spec fn users(&self) -> Seq<UserRow> {
        user_table(self.conn)
    }

    /// The rows of the `products` table.
    pub closed spec fn products(&self) -> Seq<ProductRow> {
        product_table(self.conn)
    }

    /// Whether every stored id is at least 1 and ids rise along each table,
    /// as they do for rows that this library stores.
    pub open spec fn wf(&self) -> bool {
        ids_valid(self.users()) && ids_valid(self.products())
    }

    /// Opens (or creates) the database file `fname`.
    pub fn new(fname: &str) -> (r: Result<Database, rusqlite::Error>) {
        match open_file(fname) {
            Ok(conn) => Ok(Database { conn }),
            Err(e) => Err(e),
        }
    }

    /// Opens a fresh database in memory, with no rows.
    pub fn open_in_memory() -> (r: Result<Database, rusqlite::Error>)
        ensures
            r matches Ok(db) ==> db.users().len() == 0 && db.products().len() == 0 && db.wf(),
    {
        match open_memory() {
            Ok(conn) => Ok(Database { conn }),
            Err(e) => Err(e),
        }
    }

    /// Creates both tables where they are absent; safe to call on every start.
    pub fn create_tables(&self) -> (r: Result<(), rusqlite::Error>) {
        execute_batch(&self.conn, SCHEMA)
    }

    /// Stores a user with the given username and password digest. Returns
    /// `Ok(false)`, storing nothing, when both are blank.
    pub fn create_user(&mut self, username: &str, password: &str) -> (r: Result<bool, rusqlite::Error>)
        ensures
            credentials_rejected(username@, password@) ==> (r matches Ok(false)) && final(self).users() == old(self).users(),
            !credentials_rejected(username@, password@) ==> match r {
                Ok(b) => b && appended(old(self).users(), final(self).users(), username@, password@),
                Err(_) => final(self).users() == old(self).users(),
            },
            final(self).products() == old(self).products(),
            old(self).wf() ==> final(self).wf(),
    {
        if is_blank_str(username) && is_blank_str(password) {
            return Ok(false);
        }
        let ghost before = self.users();
        let r = insert_user_row(&mut self.conn, username, password);
        proof {
            if r is Ok && ids_valid(before) {
                lemma_appended_keeps_ids_valid(before, self.users(), username@, password@);
            }
        }
        match r {
            Ok(_) => Ok(true),
            Err(e) => Err(e),
        }
    }

    /// Finds the last user row with this username and password digest; the
    /// absent user (id `-1`) when there is none.
    pub fn get_user(&self, username: &str, password: &str) -> (r: Result<User, rusqlite::Error>)
        ensures
            r matches Ok(u) ==> user_lookup(self.users(), username@, password@, u),
            self.wf() ==> (r matches Ok(u) ==> (u@.0 != -1 <==> has_user(
                self.users(),
                username@,
                password@,
            ))),
    {
        let rows = match select_users(&self.conn) {
            Ok(rows) => rows,
            Err(e) => return Err(e),
        };
        let ghost model = self.users();
        let name: String = username.to_owned();
        let digest: String = password.to_owned();
        let mut user = User::default();
        let mut i: usize = 0;
        while i < rows.len()
            invariant
                i <= rows.len(),
                user_rows_view(rows@) == model,
                name@ == username@,
                digest@ == password@,
                user_lookup(model.take(i as int), username@, password@, user),
            decreases rows.len() - i,
        {
            proof {
                lemma_last_user_match(model, username@, password@, i as int);
                assert(model.take(i as int + 1).take(i as int) =~= model.take(i as int));
            }
            let row = &rows[i];
            if row.1 == name && row.2 == digest {
                user = User::from_row(row.0, row.1.clone(), row.2.clone());
            }
            proof {
                let j = last_user_match(model.take(i as int), username@, password@);
                if j >= 0 {
                    assert(model.take(i as int + 1)[j] == model.take(i as int)[j]);
                }
            }
            i = i + 1;
        }
        assert(model.take(rows.len() as int) =~= model);
        proof {
            lemma_user_match_found(model, username@, password@);
        }
        Ok(user)
    }

    /// All user rows, in the order of their ids.
    pub fn get_all_users(&self) -> (r: Result<Vec<User>, rusqlite::Error>)
        ensures
            r matches Ok(v) ==> v@.len() == self.users().len() && forall|i: int|
                0 <= i < v@.len() ==> (#[trigger] v@[i])@ == self.users()[i],
            self.wf() ==> (r matches Ok(v) ==> ids_valid(v@.map_values(|u: User| u@))),
    {
        let rows = match select_users(&self.conn) {
            Ok(rows) => rows,
            Err(e) => return Err(e),
        };
        let ghost model = self.users();
        let mut users: Vec<User> = Vec::new();
        let mut i: usize = 0;
        while i < rows.len()
            invariant
                i <= rows.len(),
                user_rows_view(rows@) == model,
                users@.len() == i,
                forall|k: int| 0 <= k < i ==> (#[trigger] users@[k])@ == model[k],
            decreases rows.len() - i,
        {
            let row = &rows[i];
            users.push(User::from_row(row.0, row.1.clone(), row.2.clone()));
            i = i + 1;
        }
        assert(users@.map_values(|u: User| u@) =~= model);
        Ok(users)
    }

    /// Stores a product. Returns `Ok(false)`, storing nothing, when the name
    /// is blank or the price negative.
    pub fn create_product(&mut self, name: &str, price: i32) -> (r: Result<bool, rusqlite::Error>)
        ensures
            product_rejected(name@, price as int) ==> (r matches Ok(false)) && final(self).products() == old(self).products(),
            !product_rejected(name@, price as int) ==> match r {
                Ok(b) => b && appended(old(self).products(), final(self).products(), name@, price as int),
                Err(_) => final(self).products() == old(self).products(),
            },
            final(self).users() == old(self).users(),
            old(self).wf() ==> final(self).wf(),
    {
        if is_blank_str(name) || price < 0 {
            return Ok(false);
        }
        let ghost before = self.products();
        let r = insert_product_row(&mut self.conn, name, price);
        proof {
            if r is Ok && ids_valid(before) {
                lemma_appended_keeps_ids_valid(before, self.products(), name@, price as int);
            }
        }
        match r {
            Ok(_) => Ok(true),
            Err(e) => Err(e),
        }
    }

    /// Finds the last product row with this name; the absent product (id
    /// `-1`) when there is none.
    pub fn get_product(&self, name: &str) -> (r: Result<Product, rusqlite::Error>)
        ensures
            r matches Ok(p) ==> product_lookup(self.products(), name@, p),
            self.wf() ==> (r matches Ok(p) ==> (p.id != -1 <==> has_product(self.products(), name@))),
    {
        let rows = match select_products(&self.conn) {
            Ok(rows) => rows,
            Err(e) => return Err(e),
        };
        let ghost model = self.products();
        let wanted: String = name.to_owned();
        let mut product = Product::default();
        let mut i: usize = 0;
        while i < rows.len()
            invariant
                i <= rows.len(),
                product_rows_view(rows@) == model,
                wanted@ == name@,
                product_lookup(model.take(i as int), name@, product),
            decreases rows.len() - i,
        {
            proof {
                lemma_last_product_match(model, name@, i as int);
            }
            let row = &rows[i];
            if row.1 == wanted {
                product = Product::new(row.0, row.1.as_str(), row.2);
            }
            proof {
                let j = last_product_match(model.take(i as int), name@);
                if j >= 0 {
                    assert(model.take(i as int + 1)[j] == model.take(i as int)[j]);
                }
            }
            i = i + 1;
        }
        assert(model.take(rows.len() as int) =~= model);
        proof {
            lemma_product_match_found(model, name@);
        }
        Ok(product)
    }

    /// All product rows, in the order of their ids.
    pub fn get_all_products(&self) -> (r: Result<Vec<Product>, rusqlite::Error>)
        ensures
            r matches Ok(v) ==> v@.len() == self.products().len() && forall|i: int|
                0 <= i < v@.len() ==> (#[trigger] v@[i]).has_row(self.products()[i]),
            self.wf() ==> (r matches Ok(v) ==> ids_valid(
                v@.map_values(|p: Product| (p.id as int, p.name@, p.price as int)),
            )),
    {
        let rows = match select_products(&self.conn) {
            Ok(rows) => rows,
            Err(e) => return Err(e),
        };
        let ghost model = self.products();
        let mut products: Vec<Product> = Vec::new();
        let mut i: usize = 0;
        while i < rows.len()
            invariant
                i <= rows.len(),
                product_rows_view(rows@) == model,
                products@.len() == i,
                forall|k: int| 0 <= k < i ==> (#[trigger] products@[k]).has_row(model[k]),
            decreases rows.len() - i,
        {
            let row = &rows[i];
            products.push(Product::new(row.0, row.1.as_str(), row.2));
            i = i + 1;
        }
        assert(products@.map_values(|p: Product| (p.id as int, p.name@, p.price as int)) =~= model);
        Ok(products)
    }
}

} // verus!
