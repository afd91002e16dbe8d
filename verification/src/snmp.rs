//! SNMP data model: value types, OIDs, configuration and polling decisions.

pub mod types;
pub mod oids;
pub mod values;
pub mod config;
pub mod poller;
pub mod session;
pub mod testing;
pub mod client;
