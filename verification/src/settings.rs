//! Process configuration handed to the service as an explicit value.
//!
//! The loader that fills it from the process environment lives with the
//! transport layer; this core only carries the fields.

use vstd::prelude::*;

verus! {

/// Connection settings for the record store and the cache backend.
#[derive(Debug, PartialEq, Eq)]
pub struct ServiceConfig {
    pub db_host: String,
    pub db_name: String,
    pub db_user: String,
    pub db_password: String,
    pub db_port: u16,
    pub db_url: String,
    pub redis_url: String,
}

impl ServiceConfig {
    /// Builds a configuration from its parts, verbatim.
    pub fn new(
        db_host: String,
        db_name: String,
        db_user: String,
        db_password: String,
        db_port: u16,
        db_url: String,
        redis_url: String,
    ) -> (r: ServiceConfig)
        ensures
            r.db_host@ == db_host@,
            r.db_name@ == db_name@,
            r.db_user@ == db_user@,
            r.db_password@ == db_password@,
            r.db_port == db_port,
            r.db_url@ == db_url@,
            r.redis_url@ == redis_url@,
    {
        ServiceConfig { db_host, db_name, db_user, db_password, db_port, db_url, redis_url }
    }
}

impl Clone for ServiceConfig {
    fn clone(&self) -> (r: Self)
        ensures
            r == *self,
    {
        ServiceConfig {
            db_host: self.db_host.clone(),
            db_name: self.db_name.clone(),
            db_user: self.db_user.clone(),
            db_password: self.db_password.clone(),
            db_port: self.db_port,
            db_url: self.db_url.clone(),
            redis_url: self.redis_url.clone(),
        }
    }
}

} // verus!
