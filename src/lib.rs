//! Accounts and a product catalog kept in an embedded SQL store.
//!
//! Passwords are stored as hex SHA-256 digests, lookups report absence with
//! the id `-1`, and blank credentials or invalid products are refused
//! before they reach the store.

pub mod text;
pub mod digest;
pub mod product;
pub mod database;
pub mod user;
