//! How the store is opened.

use vstd::prelude::*;
use vstd::string::*;

verus! {

/// How the store is opened.
#[derive(Clone, Debug)]
pub struct StoreOptions {
    pub database_url: String,
    pub max_connections: u32,
    /// How long a connection waits for another that writes, in milliseconds.
    pub busy_timeout_millis: u64,
    pub create_if_missing: bool,
}

impl StoreOptions {
    /// The usual way to open the store at a place: with up to five connections,
    /// each of which waits up to five seconds for a writer, and made anew where
    /// there is none.
    pub fn new(database_url: String) -> (r: StoreOptions)
        ensures
            r == (StoreOptions {
                database_url,
                max_connections: 5,
                busy_timeout_millis: 5000,
                create_if_missing: true,
            }),
    {
        StoreOptions {
            database_url,
            max_connections: 5,
            busy_timeout_millis: 5000,
            create_if_missing: true,
        }
    }
}

}
