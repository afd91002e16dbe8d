//! Network device configuration templating and SNMP monitoring core.

pub mod snmp;
pub mod text;
pub mod order;
pub mod assoc;
pub mod time;
pub mod ids;
pub mod stateless;
pub mod patterns;
pub mod template;
