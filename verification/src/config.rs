//! The settings of the tool.

use vstd::prelude::*;

verus! {

/// What the user sets.
#[derive(Debug, PartialEq, Eq)]
pub struct Config {
    /// The connection URL for the SQLite database.
    pub database_url: String,
    pub api_id: i32,
    pub api_hash: String,
    /// The accounts that may give orders.
    pub admins: Vec<i64>,
    /// How many files are downloaded at a time.
    pub concurrency: usize,
}

} // verus!
