use unet_core::stateless::{
    BackgroundTaskConfig, JwtSessionConfig, LeaderElectionConfig, RedisPoolConfig,
    SessionManagementConfig, SlidingWindowConfig, StatelessSharedState, create_lock_key,
    stateless_health,
};

#[test]
fn test_stateless_config_default() {
    let shared = StatelessSharedState::default();
    assert_eq!(shared.backend, "memory");
    assert_eq!(shared.key_prefix, "unet");
    assert_eq!(shared.default_ttl, 3600);
    assert!(shared.redis_url.is_none());
    assert_eq!(shared.redis_pool, Some(RedisPoolConfig::default()));
}

#[test]
fn stateless_defaults() {
    let pool = RedisPoolConfig::default();
    assert_eq!((pool.max_connections, pool.min_connections, pool.max_lifetime), (10, 1, 3600));
    let tasks = BackgroundTaskConfig::default();
    assert!(!tasks.enabled);
    assert_eq!(tasks.backend, "database");
    assert_eq!(tasks.assignment_strategy, "round_robin");
    assert_eq!(tasks.leader_election, LeaderElectionConfig::default());
    assert_eq!(LeaderElectionConfig::default().election_timeout, 120);
    let sessions = SessionManagementConfig::default();
    assert_eq!(sessions.backend, "jwt");
    assert_eq!(sessions.jwt.audience, JwtSessionConfig::default().audience);
    assert_eq!(sessions.jwt.refresh_expiration, 86400);
    assert_eq!(SlidingWindowConfig::default().sub_windows, 6);
}

#[test]
fn lock_keys_are_prefixed() {
    assert_eq!(create_lock_key("job-1"), "lock:job-1");
    assert_eq!(create_lock_key(""), "lock:");
}

#[test]
fn test_health_check() {
    let health = stateless_health(false, true, true, true);
    assert!(!health.enabled);
    assert_eq!(health.shared_state_status, "disabled");
    assert_eq!(health.session_management_status, "disabled");
}

#[test]
fn test_stateless_mode_enabled() {
    let health = stateless_health(true, true, false, true);
    assert!(health.enabled);
    assert_eq!(health.shared_state_status, "healthy");
    assert_eq!(health.background_tasks_status, "disabled");
    assert_eq!(health.distributed_locking_status, "configured");
    assert_eq!(health.session_management_status, "configured");
    assert_eq!(stateless_health(true, false, false, false).shared_state_status, "unhealthy");
}
