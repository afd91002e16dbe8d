//! SNMP credentials, session and client settings.

use vstd::prelude::*;
use crate::time::{Span, duration_debug, duration_debug_text, fits_duration};
use crate::text::{chars_to_string, decimal, push_decimal, push_str};

verus! {

/// SNMP credentials for authentication
#[derive(Debug, Clone, PartialEq, Eq)]
pub enum SnmpCredentials {
    /// SNMPv1/v2c community string
    Community {
        /// Community string (read-only or read-write)
        community: String,
    },
    /// `SNMPv3` user-based security
    UserBased {
        /// Username
        username: String,
        /// Authentication protocol and password
        auth: Option<(String, String)>,
        /// Privacy protocol and password
        privacy: Option<(String, String)>,
    },
}

impl Default for SnmpCredentials {
    /// The read community `public`.
    fn default() -> (c: Self)
        ensures
            c matches SnmpCredentials::Community { community } && community@ == "public"@,
    {
        SnmpCredentials::Community { community: "public".to_string() }
    }
}

/// Configuration for SNMP session
#[derive(Debug, Clone, PartialEq, Eq)]
pub struct SessionConfig {
    /// Target address and port, as `host:port`
    pub address: String,
    /// SNMP version (1, 2, or 3)
    pub version: u8,
    /// Authentication credentials
    pub credentials: SnmpCredentials,
    /// Request timeout
    pub timeout: Span,
    /// Number of retries
    pub retries: u32,
    /// Maximum number of variables per request
    pub max_vars_per_request: usize,
}

impl Default for SessionConfig {
    /// The local agent on the standard port, SNMPv2c with the `public`
    /// community, five seconds per request, three retries, ten variables
    /// per request.
    fn default() -> (c: Self)
        ensures
            c.address@ == "127.0.0.1:161"@,
            c.version == 2,
            c.credentials matches SnmpCredentials::Community { community } && community@ == "public"@,
            c.timeout.nanos == 5_000_000_000,
            c.retries == 3,
            c.max_vars_per_request == 10,
    {
        SessionConfig {
            address: "127.0.0.1:161".to_string(),
            version: 2,
            credentials: SnmpCredentials::default(),
            timeout: Span::from_secs(5),
            retries: 3,
            max_vars_per_request: 10,
        }
    }
}

/// Configuration for SNMP client
#[derive(Debug, Clone)]
pub struct SnmpClientConfig {
    /// Maximum number of concurrent connections
    pub max_connections: usize,
    /// Default session configuration
    pub default_session: SessionConfig,
    /// Health check interval
    pub health_check_interval: Span,
    /// Session timeout (unused sessions are cleaned up)
    pub session_timeout: Span,
}

impl Default for SnmpClientConfig {
    /// A hundred connections, the default session, a health check each
    /// minute, and sessions dropped after five idle minutes.
    fn default() -> (c: Self)
        ensures
            c.max_connections == 100,
            c.default_session.address@ == "127.0.0.1:161"@,
            c.default_session.version == 2,
            c.default_session.credentials matches SnmpCredentials::Community { community } && community@ == "public"@,
            c.default_session.timeout.nanos == 5_000_000_000,
            c.default_session.retries == 3,
            c.default_session.max_vars_per_request == 10,
            c.health_check_interval.nanos == 60_000_000_000,
            c.session_timeout.nanos == 300_000_000_000,
    {
        SnmpClientConfig {
            max_connections: 100,
            default_session: SessionConfig::default(),
            health_check_interval: Span::from_secs(60),
            session_timeout: Span::from_secs(300),
        }
    }
}

/// SNMP client statistics
#[derive(Debug, Clone)]
pub struct SnmpClientStats {
    /// Number of active sessions
    pub active_sessions: usize,
    /// Maximum allowed connections
    pub max_connections: usize,
    /// Available connection permits
    pub available_permits: usize,
    /// Active connections (for testing compatibility)
    pub active_connections: usize,
    /// Total requests processed
    pub total_requests: usize,
    /// Failed requests count
    pub failed_requests: usize,
    /// Average response time
    pub avg_response_time: Span,
}

impl Default for SnmpClientStats {
    /// All counters zero.
    fn default() -> (s: Self)
        ensures
            s.active_sessions == 0,
            s.max_connections == 0,
            s.available_permits == 0,
            s.active_connections == 0,
            s.total_requests == 0,
            s.failed_requests == 0,
            s.avg_response_time.nanos == 0,
    {
        SnmpClientStats {
            active_sessions: 0,
            max_connections: 0,
            available_permits: 0,
            active_connections: 0,
            total_requests: 0,
            failed_requests: 0,
            avg_response_time: Span::zero(),
        }
    }
}

impl SnmpClientStats {
    /// The statistics of a client with `active_sessions` open sessions out
    /// of `max_connections`, of which `available_permits` are free.
    pub fn of_client(active_sessions: usize, max_connections: usize, available_permits: usize) -> (s: Self)
        ensures
            s.active_sessions == active_sessions,
            s.max_connections == max_connections,
            s.available_permits == available_permits,
            s.active_connections == active_sessions,
            s.total_requests == 0,
            s.failed_requests == 0,
            s.avg_response_time.nanos == 0,
    {
        SnmpClientStats {
            active_sessions,
            max_connections,
            available_permits,
            active_connections: active_sessions,
            total_requests: 0,
            failed_requests: 0,
            avg_response_time: Span::zero(),
        }
    }
}

/// SNMP error types
#[derive(Debug, Clone, PartialEq, Eq)]
pub enum SnmpError {
    /// Network connection error, with the system's message
    Network(String),
    /// SNMP protocol error
    Protocol {
        /// The protocol error message
        message: String,
    },
    /// Timeout error
    Timeout {
        /// The timeout duration that was exceeded
        duration: Span,
    },
    /// Authentication failure
    Authentication,
    /// Invalid OID format
    InvalidOid {
        /// The invalid OID string
        oid: String,
    },
    /// Response parsing error
    ParseError {
        /// The reason for the parsing failure
        reason: String,
    },
    /// Connection pool exhausted
    PoolExhausted {
        /// The maximum number of connections in the pool
        max_connections: usize,
    },
}

/// SNMP operation result
/// The text of an SNMP error, as the error's `Display` writes it.
pub open spec fn snmp_error_text(e: SnmpError) -> Seq<char> {
    match e {
        SnmpError::Network(m) => "Network error: "@ + m@,
        SnmpError::Protocol { message } => "SNMP protocol error: "@ + message@,
        SnmpError::Timeout { duration } => "SNMP timeout after "@ + duration_debug(duration.nanos as nat),
        SnmpError::Authentication => "SNMP authentication failed"@,
        SnmpError::InvalidOid { oid } => "Invalid OID: "@ + oid@,
        SnmpError::ParseError { reason } => "Failed to parse SNMP response: "@ + reason@,
        SnmpError::PoolExhausted { max_connections } => "Connection pool exhausted, max connections: "@ + decimal(
            max_connections as nat,
        ),
    }
}

/// Whether the error can be written: a timeout's duration must be one that
/// `Duration` holds.
pub open spec fn snmp_error_writable(e: SnmpError) -> bool {
    e matches SnmpError::Timeout { duration } ==> fits_duration(duration)
}

impl SnmpError {
    /// The error's message (what `to_string` gives).
    pub fn message(&self) -> (s: String)
        requires
            snmp_error_writable(*self),
        ensures
            s@ == snmp_error_text(*self),
    {
        let mut m: Vec<char> = Vec::new();
        match self {
            SnmpError::Network(e) => {
                push_str(&mut m, "Network error: ");
                push_str(&mut m, e.as_str());
            },
            SnmpError::Protocol { message } => {
                push_str(&mut m, "SNMP protocol error: ");
                push_str(&mut m, message.as_str());
            },
            SnmpError::Timeout { duration } => {
                push_str(&mut m, "SNMP timeout after ");
                let d = duration_debug_text(*duration);
                push_str(&mut m, d.as_str());
            },
            SnmpError::Authentication => {
                push_str(&mut m, "SNMP authentication failed");
            },
            SnmpError::InvalidOid { oid } => {
                push_str(&mut m, "Invalid OID: ");
                push_str(&mut m, oid.as_str());
            },
            SnmpError::ParseError { reason } => {
                push_str(&mut m, "Failed to parse SNMP response: ");
                push_str(&mut m, reason.as_str());
            },
            SnmpError::PoolExhausted { max_connections } => {
                push_str(&mut m, "Connection pool exhausted, max connections: ");
                push_decimal(&mut m, *max_connections as u64);
            },
        }
        chars_to_string(m.as_slice())
    }
}

pub type SnmpResult<T> = Result<T, SnmpError>;

} // verus!
