//! Verified core of a small HTTP event API: request parsing, routing,
//! bearer-token authentication, ownership checks, an in-memory model of the
//! two relational entities, and hand-built JSON/HTTP responses.
use vstd::prelude::*;

pub mod auth;
pub mod handlers;
pub mod http;
pub mod json;
pub mod query;
pub mod store;
pub mod text;

verus! {

/// Connection settings for the relational database the surrounding
/// application persists into.
pub struct DatabaseConfig {
    pub user: String,
    pub password: String,
    pub ip_address: String,
    pub port: String,
}

/// The fixed database connection settings.
pub fn get_db_info() -> (r: Result<DatabaseConfig, String>)
    ensures
        r is Ok,
        r matches Ok(db) ==> db.user@ == "root"@ && db.password@ == "password123"@
            && db.ip_address@ == "192.168.64.4"@ && db.port@ == "3306"@,
{
    Ok(DatabaseConfig {
        user: String::from_str("root"),
        password: String::from_str("password123"),
        ip_address: String::from_str("192.168.64.4"),
        port: String::from_str("3306"),
    })
}

} // verus!
