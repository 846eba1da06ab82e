use vstd::prelude::*;
use crate::query::{Bind, Statement, binds_int};

verus! {

/// Failure of a model query.
#[derive(Debug)]
pub enum Error {
    /// No entity of the kind (first field) under the key (second field).
    EntityNotFound(String, String),
    /// An underlying query or connection failure, with the store's message.
    Sqlx(String),
    /// An input or output failure, with its message.
    IO(String),
}

/// Changes to a user; a field left `None` is not changed.
#[derive(Clone, Debug)]
pub struct UserPatch {
    pub full_name: Option<String>,
    pub rf_id: Option<String>,
}

impl Default for UserPatch {
    fn default() -> (r: Self)
        ensures
            r.full_name is None,
            r.rf_id is None,
    {
        UserPatch { full_name: None, rf_id: None }
    }
}

/// Every user, by ascending id.
pub open spec fn all_users_sql() -> Seq<char> {
    "SELECT id, full_name, rf_id FROM users ORDER BY id ASC"@
}

/// The first page of access events by ascending id; binds the page size, then the offset.
pub open spec fn first_access_logs_sql() -> Seq<char> {
    "SELECT id, rf_id, current_state, created_at, updated_at FROM access_logs ORDER BY id ASC LIMIT $1 OFFSET $2"@
}

/// Size of the page of access events that `AccessLogMac::list` reads.
pub const FIRST_PAGE_SIZE: i64 = 10;

/// Reads of the users table.
pub struct UserMac;

impl UserMac {
    /// Lists every user by ascending id.
    pub fn list() -> (r: Statement)
        ensures
            r.sql@ == all_users_sql(),
            r.binds@.len() == 0,
    {
        Statement {
            sql: String::from_str("SELECT id, full_name, rf_id FROM users ORDER BY id ASC"),
            binds: Vec::new(),
        }
    }
}

/// Reads of the access events table.
pub struct AccessLogMac;

impl AccessLogMac {
    /// Lists the first page of access events by ascending id.
    pub fn list() -> (r: Statement)
        ensures
            r.sql@ == first_access_logs_sql(),
            r.binds@.len() == 2,
            binds_int(r.binds@[0], FIRST_PAGE_SIZE as int),
            binds_int(r.binds@[1], 0),
    {
        let mut binds: Vec<Bind> = Vec::new();
        binds.push(Bind::Int(FIRST_PAGE_SIZE));
        binds.push(Bind::Int(0));
        Statement {
            sql: String::from_str(
                "SELECT id, rf_id, current_state, created_at, updated_at FROM access_logs ORDER BY id ASC LIMIT $1 OFFSET $2",
            ),
            binds,
        }
    }
}

} // verus!
