//! Settings for running without local state, lock keys, and the health
//! report of the stateless components.

use vstd::prelude::*;
use crate::template::slice::cat2;

verus! {

/// Shared state settings
#[derive(Debug, Clone)]
pub struct StatelessSharedState {
    /// Backend type: "memory" or "redis"
    pub backend: String,
    /// Redis URL, for the Redis backend
    pub redis_url: Option<String>,
    /// Redis connection pool settings
    pub redis_pool: Option<RedisPoolConfig>,
    /// Prefix of every key
    pub key_prefix: String,
    /// Default time to live, in seconds
    pub default_ttl: u64,
    /// Whether state persists
    pub persistence: bool,
}

/// Redis connection pool settings
#[derive(Debug, Clone, Copy, PartialEq, Eq, Structural)]
pub struct RedisPoolConfig {
    pub max_connections: u32,
    pub min_connections: u32,
    /// Connection timeout, in seconds
    pub connection_timeout: u64,
    /// Command timeout, in seconds
    pub command_timeout: u64,
    /// Longest life of a connection, in seconds
    pub max_lifetime: u64,
}

/// Background task coordination settings
#[derive(Debug, Clone)]
pub struct BackgroundTaskConfig {
    pub enabled: bool,
    /// Coordination backend
    pub backend: String,
    pub leader_election: LeaderElectionConfig,
    /// How tasks are assigned
    pub assignment_strategy: String,
    /// Heartbeat interval, in seconds
    pub heartbeat_interval: u64,
    /// Task timeout, in seconds
    pub task_timeout: u64,
}

/// Leader election settings
#[derive(Debug, Clone, Copy, PartialEq, Eq, Structural)]
pub struct LeaderElectionConfig {
    pub enabled: bool,
    /// Lease duration, in seconds
    pub lease_duration: u64,
    /// Renewal interval, in seconds
    pub renewal_interval: u64,
    /// Election timeout, in seconds
    pub election_timeout: u64,
}

/// Session management settings
#[derive(Debug, Clone)]
pub struct SessionManagementConfig {
    /// Session backend
    pub backend: String,
    /// Session timeout, in seconds
    pub timeout: u64,
    pub cleanup_enabled: bool,
    /// Cleanup interval, in seconds
    pub cleanup_interval: u64,
    pub jwt: JwtSessionConfig,
}

/// JWT session settings
#[derive(Debug, Clone)]
pub struct JwtSessionConfig {
    pub issuer: String,
    pub audience: String,
    /// Token lifetime, in seconds
    pub expiration: u64,
    pub refresh_enabled: bool,
    /// Refresh token lifetime, in seconds
    pub refresh_expiration: u64,
}

/// Sliding window rate limiting settings
#[derive(Debug, Clone, Copy, PartialEq, Eq, Structural)]
pub struct SlidingWindowConfig {
    pub enabled: bool,
    /// Window size, in seconds
    pub window_size: u64,
    /// Number of sub-windows
    pub sub_windows: u32,
}

impl Default for RedisPoolConfig {
    fn default() -> (c: Self)
        ensures
            c == (RedisPoolConfig {
                max_connections: 10,
                min_connections: 1,
                connection_timeout: 30,
                command_timeout: 10,
                max_lifetime: 3600,
            }),
    {
        RedisPoolConfig {
            max_connections: 10,
            min_connections: 1,
            connection_timeout: 30,
            command_timeout: 10,
            max_lifetime: 3600,
        }
    }
}

impl Default for StatelessSharedState {
    fn default() -> (c: Self)
        ensures
            c.backend@ == "memory"@,
            c.redis_url is None,
            c.redis_pool == Some(
                RedisPoolConfig {
                    max_connections: 10,
                    min_connections: 1,
                    connection_timeout: 30,
                    command_timeout: 10,
                    max_lifetime: 3600,
                },
            ),
            c.key_prefix@ == "unet"@,
            c.default_ttl == 3600,
            !c.persistence,
    {
        StatelessSharedState {
            backend: "memory".to_string(),
            redis_url: None,
            redis_pool: Some(RedisPoolConfig::default()),
            key_prefix: "unet".to_string(),
            default_ttl: 3600,
            persistence: false,
        }
    }
}

impl Default for LeaderElectionConfig {
    fn default() -> (c: Self)
        ensures
            c == (LeaderElectionConfig {
                enabled: false,
                lease_duration: 60,
                renewal_interval: 30,
                election_timeout: 120,
            }),
    {
        LeaderElectionConfig { enabled: false, lease_duration: 60, renewal_interval: 30, election_timeout: 120 }
    }
}

impl Default for BackgroundTaskConfig {
    fn default() -> (c: Self)
        ensures
            !c.enabled,
            c.backend@ == "database"@,
            c.leader_election == (LeaderElectionConfig {
                enabled: false,
                lease_duration: 60,
                renewal_interval: 30,
                election_timeout: 120,
            }),
            c.assignment_strategy@ == "round_robin"@,
            c.heartbeat_interval == 30,
            c.task_timeout == 300,
    {
        BackgroundTaskConfig {
            enabled: false,
            backend: "database".to_string(),
            leader_election: LeaderElectionConfig::default(),
            assignment_strategy: "round_robin".to_string(),
            heartbeat_interval: 30,
            task_timeout: 300,
        }
    }
}

impl Default for JwtSessionConfig {
    fn default() -> (c: Self)
        ensures
            c.issuer@ == "unet"@,
            c.audience@ == "unet-api"@,
            c.expiration == 3600,
            c.refresh_enabled,
            c.refresh_expiration == 86400,
    {
        JwtSessionConfig {
            issuer: "unet".to_string(),
            audience: "unet-api".to_string(),
            expiration: 3600,
            refresh_enabled: true,
            refresh_expiration: 86400,
        }
    }
}

impl Default for SessionManagementConfig {
    fn default() -> (c: Self)
        ensures
            c.backend@ == "jwt"@,
            c.timeout == 3600,
            c.cleanup_enabled,
            c.cleanup_interval == 300,
            c.jwt.issuer@ == "unet"@,
            c.jwt.audience@ == "unet-api"@,
            c.jwt.expiration == 3600,
            c.jwt.refresh_enabled,
            c.jwt.refresh_expiration == 86400,
    {
        SessionManagementConfig {
            backend: "jwt".to_string(),
            timeout: 3600,
            cleanup_enabled: true,
            cleanup_interval: 300,
            jwt: JwtSessionConfig::default(),
        }
    }
}

impl Default for SlidingWindowConfig {
    fn default() -> (c: Self)
        ensures
            c == (SlidingWindowConfig { enabled: true, window_size: 60, sub_windows: 6 }),
    {
        SlidingWindowConfig { enabled: true, window_size: 60, sub_windows: 6 }
    }
}

/// Create a distributed lock key for the given resource
pub fn create_lock_key(key: &str) -> (s: String)
    ensures
        s@ == "lock:"@ + key@,
{
    cat2("lock:", key)
}

/// Health status for stateless components
#[derive(Debug, Clone)]
pub struct StatelessHealthStatus {
    pub enabled: bool,
    pub shared_state_status: String,
    pub background_tasks_status: String,
    pub distributed_locking_status: String,
    pub session_management_status: String,
}

/// "configured" or "disabled".
pub open spec fn configured_text(on: bool) -> Seq<char> {
    if on {
        "configured"@
    } else {
        "disabled"@
    }
}

fn configured_string(on: bool) -> (s: String)
    ensures
        s@ == configured_text(on),
{
    if on {
        "configured".to_string()
    } else {
        "disabled".to_string()
    }
}

/// The health of the stateless components: everything disabled when
/// stateless mode is off; else the shared state healthy when the probe
/// write succeeded, and the other components configured or disabled.
pub fn stateless_health(
    enabled: bool,
    shared_state_write_ok: bool,
    background_tasks_enabled: bool,
    distributed_locking_enabled: bool,
) -> (h: StatelessHealthStatus)
    ensures
        h.enabled == enabled,
        !enabled ==> h.shared_state_status@ == "disabled"@ && h.background_tasks_status@ == "disabled"@
            && h.distributed_locking_status@ == "disabled"@ && h.session_management_status@ == "disabled"@,
        enabled ==> h.shared_state_status@ == (if shared_state_write_ok {
            "healthy"@
        } else {
            "unhealthy"@
        }) && h.background_tasks_status@ == configured_text(background_tasks_enabled)
            && h.distributed_locking_status@ == configured_text(distributed_locking_enabled)
            && h.session_management_status@ == "configured"@,
{
    if enabled {
        StatelessHealthStatus {
            enabled,
            shared_state_status: if shared_state_write_ok {
                "healthy".to_string()
            } else {
                "unhealthy".to_string()
            },
            background_tasks_status: configured_string(background_tasks_enabled),
            distributed_locking_status: configured_string(distributed_locking_enabled),
            session_management_status: "configured".to_string(),
        }
    } else {
        StatelessHealthStatus {
            enabled,
            shared_state_status: "disabled".to_string(),
            background_tasks_status: "disabled".to_string(),
            distributed_locking_status: "disabled".to_string(),
            session_management_status: "disabled".to_string(),
        }
    }
}

} // verus!
