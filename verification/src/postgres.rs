//! Database connection settings.
//!
//! Connecting and pooling happen outside the library; verified here is only
//! what the connection is parameterized with.

use vstd::prelude::*;

verus! {

/// Connection settings for the task record database.
pub struct PostgresClientConfig {
    pub hostname: String,
    pub port: Option<u16>,
    pub user: Option<String>,
    pub password: Option<String>,
    pub db_name: String,
}

impl PostgresClientConfig {
    /// The port connected to: the configured one, or the server default.
    pub fn effective_port(&self) -> (r: u16)
        ensures
            r == match self.port {
                Option::Some(p) => p,
                Option::None => 5432u16,
            },
    {
        match self.port {
            Option::Some(p) => p,
            Option::None => 5432,
        }
    }
}

} // verus!
