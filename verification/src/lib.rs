//! Credential cache-consistency core for a per-customer "wallet-connect"
//! credential service.
//!
//! The library issues credential records (a server key, a user key, and a
//! connection URI bound to a relay), keeps them in a record store that is the
//! system of record, and mirrors them in a per-customer cache that shortcuts
//! reads.  The orchestrator owns the consistency policy between the two.

pub mod cache;
pub mod customer_nwc;
pub mod errors;
pub mod generator;
pub mod laws;
pub mod service;
pub mod settings;
pub mod store;
pub mod views;
