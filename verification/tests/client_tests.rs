use unet_core::snmp::client::{
    SessionManager, SnmpClient, SnmpSession, client_creation_error, collect_walk_response, execute_get_requests,
    get_next_error, parse_start_oid,
};
use unet_core::snmp::config::{SessionConfig, SnmpClientConfig, SnmpCredentials, SnmpError};
use unet_core::snmp::session::ObjectValueData;
use unet_core::snmp::values::SnmpValue;
use unet_core::time::Span;

fn create_test_config() -> SessionConfig {
    SessionConfig {
        address: "127.0.0.1:161".to_string(),
        version: 2,
        credentials: SnmpCredentials::Community { community: "public".to_string() },
        timeout: Span::from_secs(5),
        retries: 3,
        max_vars_per_request: 10,
    }
}

fn create_core_test_config() -> SessionConfig {
    SessionConfig {
        address: "127.0.0.1:161".to_string(),
        version: 2,
        credentials: SnmpCredentials::Community { community: "test-community".to_string() },
        timeout: Span::from_secs(5),
        retries: 3,
        max_vars_per_request: 50,
    }
}

fn create_test_config_with_user_based() -> SessionConfig {
    SessionConfig {
        address: "127.0.0.1:161".to_string(),
        version: 3,
        credentials: SnmpCredentials::UserBased {
            username: "testuser".to_string(),
            auth: Some(("SHA".to_string(), "authpass".to_string())),
            privacy: Some(("AES".to_string(), "privpass".to_string())),
        },
        timeout: Span::from_secs(5),
        retries: 3,
        max_vars_per_request: 10,
    }
}

fn value_of<'a>(values: &'a [(String, SnmpValue)], oid: &str) -> Option<&'a SnmpValue> {
    values.iter().find(|(k, _)| k == oid).map(|(_, v)| v)
}

#[test]
fn session_test_session_creation() {
    let config = create_test_config();
    let session = SnmpSession::new(config.clone());

    assert_eq!(session.config(), &config);
    assert_eq!(session.last_success, None);
}

#[test]
fn test_session_accessors() {
    let config = create_test_config();
    let session = SnmpSession::new(config.clone());

    let session_id = session.id();
    assert_ne!(session_id, 0);

    assert_eq!(session.config(), &config);
}

#[test]
fn session_test_session_clone() {
    let config = create_test_config();
    let session = SnmpSession::new(config.clone());

    let cloned_session = session.clone();
    assert_eq!(cloned_session.config(), &config);
    assert_ne!(cloned_session.id(), session.id());
}

#[test]
fn test_session_debug() {
    let config = create_test_config();
    let session = SnmpSession::new(config);

    let debug_str = format!("{session:?}");
    assert!(debug_str.contains("SnmpSession"));
    assert!(debug_str.contains("config"));
    assert!(debug_str.contains("session_id"));
}

fn check_core_session_creation() {
    let config = create_core_test_config();
    let session = SnmpSession::new(config.clone());

    assert_eq!(session.config().address, config.address);
    assert_ne!(session.id(), 0);
}

fn check_core_session_const_methods() {
    let config = create_core_test_config();
    let session = SnmpSession::new(config.clone());

    let _id = session.id();
    let _config = session.config();

    assert_eq!(session.config().address, config.address);
}

#[test]
fn core_test_session_creation() {
    check_core_session_creation();
}

#[test]
fn core_tests_test_session_creation() {
    check_core_session_creation();
}

#[test]
fn core_test_session_const_methods() {
    check_core_session_const_methods();
}

#[test]
fn core_tests_test_session_const_methods() {
    check_core_session_const_methods();
}

#[test]
fn session_health_follows_the_last_success() {
    let mut session = SnmpSession::new(create_core_test_config());
    assert!(!session.is_healthy(Span::from_secs(300)));
    session.update_success_timestamp(true);
    assert!(session.is_healthy(Span::from_secs(300)));

    let mut old = SnmpSession::new(create_core_test_config());
    old.update_success_timestamp_at(true, Span::from_secs(100));
    assert!(old.is_healthy_at(Span::from_secs(10), Span::from_secs(110)));
    assert!(!old.is_healthy_at(Span::from_secs(10), Span::from_secs(111)));
    assert!(!old.is_healthy_at(Span::from_secs(10), Span::from_secs(99)));
    old.update_success_timestamp_at(false, Span::from_secs(200));
    assert_eq!(old.last_success, Some(Span::from_secs(100)));
}

#[test]
fn session_counts_connection_attempts() {
    let mut session = SnmpSession::new(create_core_test_config());
    assert_eq!(session.connection_attempts(), 0);
    session.increment_connection_attempts();
    assert_eq!(session.connection_attempts(), 1);
    session.increment_connection_attempts();
    assert_eq!(session.connection_attempts(), 2);
}

#[test]
fn session_credentials_for_a_connection() {
    let session = SnmpSession::new(create_core_test_config());
    assert_eq!(session.client_community().unwrap(), "test-community");

    let v3 = SnmpSession::new(create_test_config_with_user_based());
    match v3.client_community() {
        Err(SnmpError::Protocol { message }) => {
            assert!(message.contains("SNMPv3 user-based security not supported"));
        }
        _ => panic!("Expected Protocol error for SNMPv3"),
    }
    match client_creation_error("refused") {
        SnmpError::Protocol { message } => assert_eq!(message, "Failed to create SNMP client: refused"),
        e => panic!("unexpected {e:?}"),
    }
    match get_next_error("timeout") {
        SnmpError::Protocol { message } => assert_eq!(message, "SNMP GETNEXT failed: timeout"),
        e => panic!("unexpected {e:?}"),
    }
}

#[test]
fn get_counts_the_attempt_and_rejects_bad_oids() {
    let mut session = SnmpSession::new(create_test_config());
    match session.begin_get(&["invalid.oid", "1.3.6.1.2.1.1.1.0"]) {
        Err(SnmpError::InvalidOid { oid }) => assert_eq!(oid, "invalid.oid"),
        _ => panic!("Expected InvalidOid error"),
    }
    assert_eq!(session.connection_attempts(), 1);
    assert_eq!(session.begin_get(&["1.3.6.1.2.1.1.1.0"]).unwrap().len(), 1);
    assert_eq!(session.connection_attempts(), 2);
    assert!(parse_start_oid("1.3.6.1.2.1.2").is_ok());
    match parse_start_oid("not an oid") {
        Err(SnmpError::InvalidOid { oid }) => assert_eq!(oid, "not an oid"),
        _ => panic!("Expected InvalidOid error"),
    }
}

#[test]
fn get_results_by_oid() {
    let oids = ["1.3.6.1.2.1.1.1.0", "1.3.6.1.2.1.1.5.0"];
    let outcomes = vec![
        Some(("1.3.6.1.2.1.1.1.0".to_string(), ObjectValueData::String(b"router".to_vec()))),
        None,
    ];
    let result = execute_get_requests(&oids, &outcomes);
    assert_eq!(result.len(), 2);
    assert_eq!(value_of(&result, "1.3.6.1.2.1.1.1.0"), Some(&SnmpValue::String("router".to_string())));
    assert_eq!(value_of(&result, "1.3.6.1.2.1.1.5.0"), Some(&SnmpValue::NoSuchObject));

    let mut session = SnmpSession::new(create_test_config());
    let got = session.finish_get(&oids, &outcomes);
    assert_eq!(got.len(), 2);
    assert!(session.last_success.is_some());

    let mut quiet = SnmpSession::new(create_test_config());
    let nothing = quiet.finish_get(&[], &vec![]);
    assert!(nothing.is_empty());
    assert!(quiet.last_success.is_none());
}

#[test]
fn walk_results_by_oid() {
    let response = vec![
        ("1.3.6.1.2.1.2.2.1.1.1".to_string(), ObjectValueData::Integer(1)),
        ("1.3.6.1.2.1.2.2.1.1.2".to_string(), ObjectValueData::Counter32(7)),
    ];
    let result = collect_walk_response(&response);
    assert_eq!(result.len(), 2);
    assert_eq!(value_of(&result, "1.3.6.1.2.1.2.2.1.1.2"), Some(&SnmpValue::Counter32(7)));
}

#[test]
fn session_manager_creation_and_closing() {
    let config = SessionConfig::default();
    let mut manager = SessionManager::new(config, 10);
    assert_eq!(manager.max_connections, 10);
    assert_eq!(manager.active_session_count(), 0);
    manager.close_session("127.0.0.1:161");
    assert_eq!(manager.active_session_count(), 0);
    manager.close_all_sessions();
    assert_eq!(manager.active_session_count(), 0);
    manager.cleanup_sessions(Span::from_secs(3600));
    assert_eq!(manager.active_session_count(), 0);
}

#[test]
fn session_manager_pool_exhausted() {
    let manager = SessionManager::new(SessionConfig::default(), 0);
    match manager.get_session_mut("127.0.0.1:161", None) {
        Err(SnmpError::PoolExhausted { max_connections }) => assert_eq!(max_connections, 0),
        _ => panic!("Expected PoolExhausted error"),
    }
}

#[test]
fn session_manager_session_config() {
    let manager = SessionManager::new(SessionConfig::default(), 10);
    let given = SessionConfig {
        address: "10.0.0.1:161".to_string(),
        timeout: Span::from_secs(10),
        retries: 5,
        ..Default::default()
    };
    let s = manager.get_session_mut("10.0.0.1:161", Some(given.clone())).unwrap();
    assert_eq!(s.config, given);
    let d = manager.get_session_mut("10.0.0.2:1161", None).unwrap();
    assert_eq!(d.config.address, "10.0.0.2:1161");
    assert_eq!(d.config.retries, 3);
}

fn check_client_creation() {
    let config = SnmpClientConfig::default();
    let client = SnmpClient::new(config.clone());

    assert_eq!(client.max_connections, config.max_connections);
    assert_eq!(client.session_manager.default_config.version, config.default_session.version);
    assert_eq!(client.session_manager.default_config.timeout, config.default_session.timeout);
    assert_eq!(client.session_manager.default_config.retries, config.default_session.retries);
}

fn check_client_get_stats() {
    let config = SnmpClientConfig { max_connections: 10, ..Default::default() };
    let client = SnmpClient::new(config);
    let stats = client.get_stats(10);

    assert_eq!(stats.max_connections, 10);
    assert_eq!(stats.active_sessions, 0);
    assert_eq!(stats.active_connections, 0);
    assert_eq!(stats.total_requests, 0);
    assert_eq!(stats.failed_requests, 0);
    assert_eq!(stats.avg_response_time, Span::zero());
}

fn check_client_update_stats() {
    let config = SnmpClientConfig::default();
    let client = SnmpClient::new(config);

    client.update_stats(true, Span::from_millis(100));
    client.update_stats(false, Span::from_millis(200));

    let stats = client.get_stats(100);
    assert_eq!(stats.total_requests, 0);
}

#[test]
fn client_test_snmp_client_creation() {
    check_client_creation();
}

#[test]
fn mod_test_snmp_client_creation() {
    check_client_creation();
}

#[test]
fn client_test_snmp_client_get_stats() {
    check_client_get_stats();
}

#[test]
fn mod_test_snmp_client_get_stats() {
    check_client_get_stats();
}

#[test]
fn client_test_snmp_client_update_stats() {
    check_client_update_stats();
}

#[test]
fn mod_test_snmp_client_update_stats() {
    check_client_update_stats();
}

#[test]
fn client_pool_keeps_one_session_per_target() {
    let mut client = SnmpClient::new(SnmpClientConfig { max_connections: 2, ..Default::default() });
    let a = client.get_session("10.0.0.1:161", None).unwrap();
    assert_eq!(client.stats(2).active_sessions, 1);
    let again = client.get_session("10.0.0.1:161", None).unwrap();
    assert_eq!(again.config, a.config);
    assert_ne!(again.id(), a.id());
    assert_eq!(client.stats(2).active_sessions, 1);
    client.get_session("10.0.0.2:161", None).unwrap();
    match client.get_session("10.0.0.3:161", None) {
        Err(SnmpError::PoolExhausted { max_connections }) => assert_eq!(max_connections, 2),
        _ => panic!("Expected PoolExhausted error"),
    }
    client.close_session("10.0.0.1:161");
    assert_eq!(client.stats(2).active_sessions, 1);
    assert!(client.get_session("10.0.0.3:161", None).is_ok());
    // sessions that never succeeded are not healthy, so cleanup drops them
    client.cleanup_sessions_at(Span::from_secs(60), Span::from_secs(1000));
    assert_eq!(client.stats(2).active_sessions, 0);
    client.get_session("10.0.0.4:161", None).unwrap();
    client.close_all_sessions();
    assert_eq!(client.stats(2).active_sessions, 0);
}

#[test]
fn test_create_client_requires_explicit_community() {
    let config = SessionConfig::default();
    let session = SnmpSession::new(config);

    let result = session.client_community();
    assert!(result.is_err());
    if let Err(SnmpError::Protocol { message }) = result {
        assert!(message.contains("SNMP community must be configured explicitly"));
    } else {
        panic!("Expected protocol error for missing SNMP community");
    }
}

#[test]
fn test_create_client_with_community() {
    let session = SnmpSession::new(create_test_config());
    match session.client_community() {
        Ok(_) | Err(SnmpError::Network(_)) => {}
        Err(SnmpError::Protocol { message }) => {
            assert!(message.contains("Failed to create SNMP client"));
        }
        Err(e) => panic!("Unexpected error type: {e:?}"),
    }
}

#[test]
fn test_create_client_with_user_based() {
    let session = SnmpSession::new(create_test_config_with_user_based());
    match session.client_community() {
        Err(SnmpError::Protocol { message }) => {
            assert!(message.contains("SNMPv3 user-based security not supported"));
        }
        _ => panic!("Expected Protocol error for SNMPv3"),
    }
}

#[test]
fn explicit_community_opens_a_connection() {
    let session = SnmpSession::new(create_core_test_config());
    assert_eq!(session.client_community().unwrap(), "test-community");
}
