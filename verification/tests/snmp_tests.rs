use std::collections::HashSet;
use std::path::Path;

use unet_core::snmp::config::{
    SessionConfig, SnmpClientConfig, SnmpClientStats, SnmpCredentials, SnmpError, SnmpResult,
};
use unet_core::snmp::oids::{OidMap, StandardOid, VendorOid};
use unet_core::snmp::types::SnmpType;
use unet_core::snmp::values::SnmpValue;
use unet_core::time::Span;

fn check_default_credentials() {
    let creds = SnmpCredentials::default();
    match creds {
        SnmpCredentials::Community { community } => {
            assert_eq!(community, "public");
        }
        SnmpCredentials::UserBased { .. } => panic!("Expected Community credentials"),
    }
}

#[test]
fn snmp_test_snmp_credentials_default() {
    check_default_credentials();
}

#[test]
fn tests_test_snmp_credentials_default() {
    check_default_credentials();
}

#[test]
fn mod_test_snmp_credentials_default() {
    check_default_credentials();
}

#[test]
fn test_snmp_credentials_community() {
    let creds = SnmpCredentials::Community {
        community: "private".to_string(),
    };
    match creds {
        SnmpCredentials::Community { community } => {
            assert_eq!(community, "private");
        }
        SnmpCredentials::UserBased { .. } => panic!("Expected Community credentials"),
    }
}

#[test]
fn test_snmp_credentials_user_based() {
    let creds = SnmpCredentials::UserBased {
        username: "admin".to_string(),
        auth: Some(("SHA".to_string(), "auth_password".to_string())),
        privacy: Some(("AES".to_string(), "priv_password".to_string())),
    };
    match creds {
        SnmpCredentials::UserBased {
            username,
            auth,
            privacy,
        } => {
            assert_eq!(username, "admin");
            assert!(auth.is_some());
            assert!(privacy.is_some());
            if let Some((auth_proto, auth_pass)) = auth {
                assert_eq!(auth_proto, "SHA");
                assert_eq!(auth_pass, "auth_password");
            }
            if let Some((priv_proto, priv_pass)) = privacy {
                assert_eq!(priv_proto, "AES");
                assert_eq!(priv_pass, "priv_password");
            }
        }
        SnmpCredentials::Community { .. } => panic!("Expected UserBased credentials"),
    }
}

#[test]
fn test_snmp_credentials_user_based_no_auth() {
    let creds = SnmpCredentials::UserBased {
        username: "readonly".to_string(),
        auth: None,
        privacy: None,
    };
    match creds {
        SnmpCredentials::UserBased {
            username,
            auth,
            privacy,
        } => {
            assert_eq!(username, "readonly");
            assert!(auth.is_none());
            assert!(privacy.is_none());
        }
        SnmpCredentials::Community { .. } => panic!("Expected UserBased credentials"),
    }
}

#[test]
fn test_snmp_credentials_clone() {
    let creds = SnmpCredentials::Community {
        community: "test".to_string(),
    };
    let cloned = creds.clone();
    match (creds, cloned) {
        (
            SnmpCredentials::Community { community: c1 },
            SnmpCredentials::Community { community: c2 },
        ) => {
            assert_eq!(c1, c2);
        }
        _ => panic!("Clone failed"),
    }
}

fn check_session_config_default() {
    let config = SessionConfig::default();
    assert_eq!(config.version, 2);
    assert_eq!(config.timeout, Span::from_secs(5));
    assert_eq!(config.retries, 3);
    assert_eq!(config.max_vars_per_request, 10);
    assert_eq!(config.address, "127.0.0.1:161");
    match config.credentials {
        SnmpCredentials::Community { community } => {
            assert_eq!(community, "public");
        }
        SnmpCredentials::UserBased { .. } => panic!("Expected Community credentials"),
    }
}

#[test]
fn snmp_test_session_config_default() {
    check_session_config_default();
}

#[test]
fn tests_test_session_config_default() {
    check_session_config_default();
}

#[test]
fn mod_test_session_config_default() {
    check_session_config_default();
}

#[test]
fn test_snmp_client_config_default() {
    let config = SnmpClientConfig::default();
    assert_eq!(config.max_connections, 100);
    assert_eq!(config.health_check_interval, Span::from_secs(60));
    assert_eq!(config.session_timeout, Span::from_secs(300));
    assert_eq!(config.default_session.version, 2);
    assert_eq!(config.default_session.timeout, Span::from_secs(5));
    assert_eq!(config.default_session.retries, 3);
}

fn check_client_stats_default() {
    let stats = SnmpClientStats::default();
    assert_eq!(stats.active_sessions, 0);
    assert_eq!(stats.max_connections, 0);
    assert_eq!(stats.available_permits, 0);
    assert_eq!(stats.active_connections, 0);
    assert_eq!(stats.total_requests, 0);
    assert_eq!(stats.failed_requests, 0);
    assert_eq!(stats.avg_response_time, Span::zero());
}

fn check_client_stats_creation() {
    let stats = SnmpClientStats {
        active_sessions: 5,
        max_connections: 100,
        available_permits: 95,
        active_connections: 5,
        total_requests: 1_234,
        failed_requests: 10,
        avg_response_time: Span::from_millis(250),
    };
    assert_eq!(stats.active_sessions, 5);
    assert_eq!(stats.max_connections, 100);
    assert_eq!(stats.available_permits, 95);
    assert_eq!(stats.active_connections, 5);
    assert_eq!(stats.total_requests, 1_234);
    assert_eq!(stats.failed_requests, 10);
    assert_eq!(stats.avg_response_time, Span::from_millis(250));
}

#[test]
fn client_test_snmp_client_stats_default() {
    check_client_stats_default();
}

#[test]
fn client_test_snmp_client_stats_creation() {
    check_client_stats_creation();
}

#[test]
fn client_stats_test_snmp_client_stats_default() {
    check_client_stats_default();
}

#[test]
fn client_stats_test_snmp_client_stats_creation() {
    check_client_stats_creation();
}

#[test]
fn client_stats_test_snmp_client_stats_debug_format() {
    let stats = SnmpClientStats::default();
    let debug_output = format!("{stats:?}");
    assert!(debug_output.contains("SnmpClientStats"));
    assert!(debug_output.contains("active_sessions"));
    assert!(debug_output.contains("max_connections"));
}

#[test]
fn client_stats_test_snmp_client_stats_clone() {
    let stats = SnmpClientStats {
        active_sessions: 3,
        max_connections: 50,
        available_permits: 47,
        active_connections: 3,
        total_requests: 150,
        failed_requests: 2,
        avg_response_time: Span::from_millis(75),
    };
    let cloned_stats = stats.clone();
    assert_eq!(stats.active_sessions, cloned_stats.active_sessions);
    assert_eq!(stats.max_connections, cloned_stats.max_connections);
    assert_eq!(stats.total_requests, cloned_stats.total_requests);
    assert_eq!(stats.avg_response_time, cloned_stats.avg_response_time);
}

#[test]
fn stats_of_a_client_start_with_no_requests() {
    let stats = SnmpClientStats::of_client(4, 100, 96);
    assert_eq!(stats.active_sessions, 4);
    assert_eq!(stats.active_connections, 4);
    assert_eq!(stats.available_permits, 96);
    assert_eq!(stats.total_requests, 0);
    assert_eq!(stats.avg_response_time, Span::zero());
}

#[test]
fn test_snmp_result_type() {
    let success: SnmpResult<i32> = Ok(42);
    assert!(success.is_ok());
    assert_eq!(42, 42);

    let failure: SnmpResult<i32> = Err(SnmpError::Authentication);
    assert!(failure.is_err());

    match SnmpError::Authentication {
        SnmpError::Authentication => {}
        _ => panic!("Expected Authentication error"),
    }
}

#[test]
fn test_snmp_error_display() {
    let network_error = SnmpError::Network("Connection refused".to_string());
    assert!(network_error.message().contains("Network error"));
    assert!(network_error.message().contains("Connection refused"));

    let protocol_error = SnmpError::Protocol {
        message: "Invalid PDU".to_string(),
    };
    assert!(protocol_error.message().contains("SNMP protocol error"));
    assert!(protocol_error.message().contains("Invalid PDU"));

    let timeout_error = SnmpError::Timeout {
        duration: Span::from_secs(5),
    };
    assert!(timeout_error.message().contains("SNMP timeout"));
    assert!(timeout_error.message().contains("5s"));

    let auth_error = SnmpError::Authentication;
    assert!(auth_error.message().contains("authentication failed"));

    let invalid_oid_error = SnmpError::InvalidOid {
        oid: "1.3.6.1.invalid".to_string(),
    };
    assert!(invalid_oid_error.message().contains("Invalid OID"));
    assert!(invalid_oid_error.message().contains("1.3.6.1.invalid"));

    let parse_error = SnmpError::ParseError {
        reason: "Malformed ASN.1".to_string(),
    };
    assert!(parse_error.message().contains("parse SNMP response"));
    assert!(parse_error.message().contains("Malformed ASN.1"));

    let pool_error = SnmpError::PoolExhausted { max_connections: 10 };
    assert!(pool_error.message().contains("pool exhausted"));
    assert!(pool_error.message().contains("10"));
}

#[test]
fn snmp_error_messages_are_exact() {
    assert_eq!(
        SnmpError::Network("Connection refused".to_string()).message(),
        "Network error: Connection refused"
    );
    assert_eq!(
        SnmpError::Timeout {
            duration: Span::from_millis(1500)
        }
        .message(),
        "SNMP timeout after 1.5s"
    );
    assert_eq!(
        SnmpError::PoolExhausted { max_connections: 0 }.message(),
        "Connection pool exhausted, max connections: 0"
    );
}

#[test]
fn test_snmp_error_debug() {
    let error = SnmpError::Protocol {
        message: "Test error".to_string(),
    };
    let debug_str = format!("{error:?}");
    assert!(debug_str.contains("Protocol"));
    assert!(debug_str.contains("Test error"));
}

#[test]
fn test_snmp_error_all_variants() {
    let errors = vec![
        SnmpError::Network("test".to_string()),
        SnmpError::Protocol {
            message: "test".to_string(),
        },
        SnmpError::Timeout {
            duration: Span::from_secs(1),
        },
        SnmpError::Authentication,
        SnmpError::InvalidOid {
            oid: "test".to_string(),
        },
        SnmpError::ParseError {
            reason: "test".to_string(),
        },
        SnmpError::PoolExhausted { max_connections: 1 },
    ];
    for error in errors {
        assert!(!error.message().is_empty());
        let debug_str = format!("{error:?}");
        assert!(!debug_str.is_empty());
    }
}

fn check_value_is_error() {
    assert!(SnmpValue::NoSuchObject.is_error());
    assert!(SnmpValue::NoSuchInstance.is_error());
    assert!(SnmpValue::EndOfMibView.is_error());

    assert!(!SnmpValue::Integer(42).is_error());
    assert!(!SnmpValue::String("test".to_string()).is_error());
    assert!(!SnmpValue::Null.is_error());
    assert!(!SnmpValue::Counter32(100).is_error());
    assert!(!SnmpValue::Counter64(1000).is_error());
    assert!(!SnmpValue::Gauge32(50).is_error());
    assert!(!SnmpValue::TimeTicks(12345).is_error());
    assert!(!SnmpValue::Opaque(vec![1, 2, 3]).is_error());
    assert!(!SnmpValue::Oid("1.3.6.1.2.1.1.1.0".to_string()).is_error());
    assert!(!SnmpValue::IpAddress("192.168.1.1".to_string()).is_error());
}

#[test]
fn snmp_test_snmp_value_is_error() {
    check_value_is_error();
}

#[test]
fn mod_test_snmp_value_is_error() {
    check_value_is_error();
}

#[test]
fn values_test_snmp_value_is_error() {
    check_value_is_error();
}

fn check_value_to_string() {
    assert_eq!(SnmpValue::Integer(42).to_string(), "42");
    assert_eq!(SnmpValue::String("test".to_string()).to_string(), "test");
    assert_eq!(
        SnmpValue::Oid("1.3.6.1.2.1.1.1.0".to_string()).to_string(),
        "1.3.6.1.2.1.1.1.0"
    );
    assert_eq!(
        SnmpValue::IpAddress("192.168.1.1".to_string()).to_string(),
        "192.168.1.1"
    );
    assert_eq!(SnmpValue::Counter32(100).to_string(), "100");
    assert_eq!(SnmpValue::Counter64(1000).to_string(), "1000");
    assert_eq!(SnmpValue::Gauge32(50).to_string(), "50");
    assert_eq!(SnmpValue::TimeTicks(12345).to_string(), "12345");
    assert_eq!(SnmpValue::Opaque(vec![1, 2, 3]).to_string(), "Opaque(3 bytes)");
    assert_eq!(SnmpValue::Null.to_string(), "null");
    assert_eq!(SnmpValue::NoSuchObject.to_string(), "noSuchObject");
    assert_eq!(SnmpValue::NoSuchInstance.to_string(), "noSuchInstance");
    assert_eq!(SnmpValue::EndOfMibView.to_string(), "endOfMibView");
}

#[test]
fn test_snmp_value_display() {
    check_value_to_string();
}

#[test]
fn snmp_test_snmp_value_to_string() {
    check_value_to_string();
}

#[test]
fn mod_test_snmp_value_to_string() {
    check_value_to_string();
}

#[test]
fn negative_integers_are_written_with_their_sign() {
    assert_eq!(SnmpValue::Integer(-7).to_string(), "-7");
    assert_eq!(SnmpValue::Integer(i64::MIN).to_string(), "-9223372036854775808");
    assert_eq!(SnmpValue::Opaque(vec![]).to_string(), "Opaque(0 bytes)");
}

#[test]
fn test_snmp_value_equality() {
    assert_eq!(SnmpValue::Integer(42), SnmpValue::Integer(42));
    assert_ne!(SnmpValue::Integer(42), SnmpValue::Integer(43));
    assert_eq!(
        SnmpValue::String("test".to_string()),
        SnmpValue::String("test".to_string())
    );
    assert_ne!(
        SnmpValue::String("test".to_string()),
        SnmpValue::String("other".to_string())
    );
}

#[test]
fn test_snmp_type_as_str() {
    assert_eq!(SnmpType::Integer.as_str(), "INTEGER");
    assert_eq!(SnmpType::OctetString.as_str(), "OCTET STRING");
    assert_eq!(SnmpType::ObjectIdentifier.as_str(), "OBJECT IDENTIFIER");
    assert_eq!(SnmpType::IpAddress.as_str(), "IpAddress");
    assert_eq!(SnmpType::Counter32.as_str(), "Counter32");
    assert_eq!(SnmpType::Counter64.as_str(), "Counter64");
    assert_eq!(SnmpType::Gauge32.as_str(), "Gauge32");
    assert_eq!(SnmpType::TimeTicks.as_str(), "TimeTicks");
    assert_eq!(SnmpType::Opaque.as_str(), "Opaque");
    assert_eq!(SnmpType::Null.as_str(), "NULL");
}

#[test]
fn test_snmp_type_clone() {
    let snmp_type = SnmpType::Integer;
    let cloned = snmp_type;
    assert_eq!(snmp_type, cloned);
}

#[test]
fn test_snmp_type_copy() {
    let snmp_type = SnmpType::Counter32;
    let copied = snmp_type;
    assert_eq!(snmp_type, copied);
}

#[test]
fn test_snmp_type_eq() {
    assert_eq!(SnmpType::Integer, SnmpType::Integer);
    assert_ne!(SnmpType::Integer, SnmpType::OctetString);
}

#[test]
fn test_snmp_type_debug() {
    let snmp_type = SnmpType::Gauge32;
    let debug_str = format!("{snmp_type:?}");
    assert!(debug_str.contains("Gauge32"));
}

#[test]
fn test_all_snmp_types() {
    let types = vec![
        SnmpType::Integer,
        SnmpType::OctetString,
        SnmpType::ObjectIdentifier,
        SnmpType::IpAddress,
        SnmpType::Counter32,
        SnmpType::Counter64,
        SnmpType::Gauge32,
        SnmpType::TimeTicks,
        SnmpType::Opaque,
        SnmpType::Null,
    ];
    for snmp_type in types {
        assert!(!snmp_type.as_str().is_empty());
        assert_eq!(snmp_type, snmp_type);
    }
}

fn check_standard_oid_basic() {
    assert_eq!(StandardOid::SysDescr.oid(), "1.3.6.1.2.1.1.1.0");
    assert_eq!(StandardOid::SysName.oid(), "1.3.6.1.2.1.1.5.0");
    assert!(StandardOid::SysDescr.description().contains("System"));
}

#[test]
fn oids_test_standard_oid_basic() {
    check_standard_oid_basic();
}

#[test]
fn standard_test_standard_oid_basic() {
    check_standard_oid_basic();
}

#[test]
fn test_all_standard_oid_variants() {
    assert_eq!(StandardOid::SysObjectId.oid(), "1.3.6.1.2.1.1.2.0");
    assert_eq!(StandardOid::SysUpTime.oid(), "1.3.6.1.2.1.1.3.0");
    assert_eq!(StandardOid::SysContact.oid(), "1.3.6.1.2.1.1.4.0");
    assert_eq!(StandardOid::SysLocation.oid(), "1.3.6.1.2.1.1.6.0");
    assert_eq!(StandardOid::SysServices.oid(), "1.3.6.1.2.1.1.7.0");
    assert_eq!(StandardOid::IfNumber.oid(), "1.3.6.1.2.1.2.1.0");
    assert_eq!(StandardOid::IfTable.oid(), "1.3.6.1.2.1.2.2.1");
    assert_eq!(StandardOid::IfIndex.oid(), "1.3.6.1.2.1.2.2.1.1");
    assert_eq!(StandardOid::IfDescr.oid(), "1.3.6.1.2.1.2.2.1.2");
    assert_eq!(StandardOid::IfType.oid(), "1.3.6.1.2.1.2.2.1.3");
    assert_eq!(StandardOid::IfMtu.oid(), "1.3.6.1.2.1.2.2.1.4");
    assert_eq!(StandardOid::IfSpeed.oid(), "1.3.6.1.2.1.2.2.1.5");
    assert_eq!(StandardOid::IfPhysAddress.oid(), "1.3.6.1.2.1.2.2.1.6");
    assert_eq!(StandardOid::IfAdminStatus.oid(), "1.3.6.1.2.1.2.2.1.7");
    assert_eq!(StandardOid::IfOperStatus.oid(), "1.3.6.1.2.1.2.2.1.8");
    assert_eq!(StandardOid::IfLastChange.oid(), "1.3.6.1.2.1.2.2.1.9");
    assert_eq!(StandardOid::IfInOctets.oid(), "1.3.6.1.2.1.2.2.1.10");
    assert_eq!(StandardOid::IfInUcastPkts.oid(), "1.3.6.1.2.1.2.2.1.11");
    assert_eq!(StandardOid::IfInErrors.oid(), "1.3.6.1.2.1.2.2.1.14");
    assert_eq!(StandardOid::IfOutOctets.oid(), "1.3.6.1.2.1.2.2.1.16");
    assert_eq!(StandardOid::IfOutUcastPkts.oid(), "1.3.6.1.2.1.2.2.1.17");
    assert_eq!(StandardOid::IfOutErrors.oid(), "1.3.6.1.2.1.2.2.1.20");
}

#[test]
fn test_all_standard_oid_descriptions() {
    assert_eq!(StandardOid::SysObjectId.description(), "System object identifier");
    assert_eq!(
        StandardOid::SysUpTime.description(),
        "System uptime in hundredths of seconds"
    );
    assert_eq!(StandardOid::SysContact.description(), "System contact information");
    assert_eq!(StandardOid::SysName.description(), "System name");
    assert_eq!(StandardOid::SysLocation.description(), "System location");
    assert_eq!(StandardOid::SysServices.description(), "System services");
    assert_eq!(StandardOid::IfNumber.description(), "Number of network interfaces");
    assert_eq!(StandardOid::IfTable.description(), "Network interface table");
    assert_eq!(StandardOid::IfIndex.description(), "Interface index");
    assert_eq!(StandardOid::IfDescr.description(), "Interface description");
    assert_eq!(StandardOid::IfType.description(), "Interface type");
    assert_eq!(StandardOid::IfMtu.description(), "Interface MTU");
    assert_eq!(
        StandardOid::IfSpeed.description(),
        "Interface speed in bits per second"
    );
    assert_eq!(StandardOid::IfPhysAddress.description(), "Interface physical address");
    assert_eq!(
        StandardOid::IfAdminStatus.description(),
        "Interface administrative status"
    );
    assert_eq!(
        StandardOid::IfOperStatus.description(),
        "Interface operational status"
    );
    assert_eq!(StandardOid::IfLastChange.description(), "Interface last change time");
    assert_eq!(StandardOid::IfInOctets.description(), "Interface input octets");
    assert_eq!(
        StandardOid::IfInUcastPkts.description(),
        "Interface input unicast packets"
    );
    assert_eq!(StandardOid::IfInErrors.description(), "Interface input errors");
    assert_eq!(StandardOid::IfOutOctets.description(), "Interface output octets");
    assert_eq!(
        StandardOid::IfOutUcastPkts.description(),
        "Interface output unicast packets"
    );
    assert_eq!(StandardOid::IfOutErrors.description(), "Interface output errors");
}

#[test]
fn test_oid_collections() {
    let system_oids = StandardOid::system_oids();
    assert_eq!(system_oids.len(), 7);
    assert!(system_oids.contains(&StandardOid::SysDescr));
    assert!(system_oids.contains(&StandardOid::SysServices));

    let interface_oids = StandardOid::interface_oids();
    assert_eq!(interface_oids.len(), 16);
    assert!(interface_oids.contains(&StandardOid::IfNumber));
    assert!(interface_oids.contains(&StandardOid::IfOutErrors));
}

fn check_vendor_oid_cisco_common() {
    let cisco_oids = VendorOid::cisco_common();
    assert!(!cisco_oids.is_empty());
    assert!(cisco_oids.iter().all(|oid| oid.vendor() == "Cisco"));
}

fn check_vendor_oid_juniper_common() {
    let juniper_oids = VendorOid::juniper_common();
    assert!(!juniper_oids.is_empty());
    assert!(juniper_oids.iter().all(|oid| oid.vendor() == "Juniper"));
}

#[test]
fn oids_test_vendor_oid_cisco() {
    check_vendor_oid_cisco_common();
}

#[test]
fn oids_test_vendor_oid_juniper() {
    check_vendor_oid_juniper_common();
}

#[test]
fn vendor_test_vendor_oid_cisco() {
    check_vendor_oid_cisco_common();
    let cisco_oids = VendorOid::cisco_common();
    assert_eq!(cisco_oids.len(), 3);
    assert!(cisco_oids.iter().any(|oid| oid.oid() == "1.3.6.1.4.1.9.2.1.3.0"));
    assert!(cisco_oids.iter().any(|oid| oid.oid() == "1.3.6.1.4.1.9.2.1.8.0"));
    assert!(cisco_oids.iter().any(|oid| oid.oid() == "1.3.6.1.4.1.9.9.13.1.3.1.3"));
    assert!(cisco_oids.iter().any(|oid| oid.description().contains("CPU")));
    assert!(cisco_oids.iter().any(|oid| oid.description().contains("memory")));
    assert!(cisco_oids.iter().any(|oid| oid.description().contains("temperature")));
}

#[test]
fn vendor_test_vendor_oid_juniper() {
    check_vendor_oid_juniper_common();
    let juniper_oids = VendorOid::juniper_common();
    assert_eq!(juniper_oids.len(), 3);
    assert!(juniper_oids.iter().any(|oid| oid.oid() == "1.3.6.1.4.1.2636.3.1.13.1.8"));
    assert!(juniper_oids.iter().any(|oid| oid.oid() == "1.3.6.1.4.1.2636.3.1.13.1.11"));
    assert!(juniper_oids.iter().any(|oid| oid.oid() == "1.3.6.1.4.1.2636.3.1.13.1.7"));
    assert!(juniper_oids.iter().any(|oid| oid.description().contains("CPU")));
    assert!(juniper_oids.iter().any(|oid| oid.description().contains("memory")));
    assert!(juniper_oids.iter().any(|oid| oid.description().contains("temperature")));
}

#[test]
fn test_vendor_oid_new() {
    let oid = VendorOid::new(
        "Test Vendor".to_string(),
        "1.2.3.4.5".to_string(),
        "Test description".to_string(),
    );
    assert_eq!(oid.vendor(), "Test Vendor");
    assert_eq!(oid.oid(), "1.2.3.4.5");
    assert_eq!(oid.description(), "Test description");
    assert_eq!(oid.vendor, "Test Vendor");
    assert_eq!(oid.oid, "1.2.3.4.5");
    assert_eq!(oid.description, "Test description");
}

#[test]
fn test_vendor_oid_getters() {
    let oid = VendorOid {
        vendor: "Custom Corp".to_string(),
        oid: "1.3.6.1.4.1.12345.1.2.3".to_string(),
        description: "Custom metric for testing".to_string(),
    };
    assert_eq!(oid.vendor(), "Custom Corp");
    assert_eq!(oid.oid(), "1.3.6.1.4.1.12345.1.2.3");
    assert_eq!(oid.description(), "Custom metric for testing");
}

#[test]
fn test_vendor_oid_equality() {
    let oid1 = VendorOid::new(
        "Vendor".to_string(),
        "1.2.3".to_string(),
        "Description".to_string(),
    );
    let oid2 = VendorOid::new(
        "Vendor".to_string(),
        "1.2.3".to_string(),
        "Description".to_string(),
    );
    let oid3 = VendorOid::new(
        "Different".to_string(),
        "1.2.3".to_string(),
        "Description".to_string(),
    );
    assert_eq!(oid1, oid2);
    assert_ne!(oid1, oid3);
}

#[test]
fn test_vendor_oid_debug() {
    let oid = VendorOid::new(
        "DebugTest".to_string(),
        "1.2.3.4".to_string(),
        "Debug format test".to_string(),
    );
    let debug_str = format!("{oid:?}");
    assert!(debug_str.contains("VendorOid"));
    assert!(debug_str.contains("DebugTest"));
    assert!(debug_str.contains("1.2.3.4"));
    assert!(debug_str.contains("Debug format test"));
}

#[test]
fn test_vendor_oid_hash() {
    let oid1 = VendorOid::new("A".to_string(), "1".to_string(), "D1".to_string());
    let oid2 = VendorOid::new("A".to_string(), "1".to_string(), "D1".to_string());
    let oid3 = VendorOid::new("B".to_string(), "2".to_string(), "D2".to_string());
    let mut set = HashSet::new();
    set.insert(oid1.clone());
    set.insert(oid2);
    set.insert(oid3);
    assert_eq!(set.len(), 2);
    assert!(set.contains(&oid1));
}

#[test]
fn test_vendor_oid_empty_strings() {
    let oid = VendorOid::new(String::new(), String::new(), String::new());
    assert_eq!(oid.vendor(), "");
    assert_eq!(oid.oid(), "");
    assert_eq!(oid.description(), "");
}

fn check_oid_map_default() {
    let map = OidMap::default();
    assert!(!map.list_standard().is_empty());
    assert!(!map.list_vendor().is_empty());
    assert!(map.list_custom().is_empty());
}

#[test]
fn oids_test_oid_map_default() {
    check_oid_map_default();
}

#[test]
fn map_test_oid_map_default() {
    check_oid_map_default();
}

fn check_oid_map_operations() {
    let mut map = OidMap::new();
    map.add_custom("test_oid".to_string(), "1.2.3.4.5".to_string());
    assert_eq!(map.get_custom("test_oid"), Some("1.2.3.4.5"));
    assert!(map.resolve("SysDescr").is_some());
    assert_eq!(map.resolve("test_oid"), Some("1.2.3.4.5".to_string()));
    assert_eq!(map.resolve("nonexistent"), None);
}

#[test]
fn oids_test_oid_map_operations() {
    check_oid_map_operations();
}

#[test]
fn map_test_oid_map_operations() {
    check_oid_map_operations();
}

fn check_oid_map_list_operations() {
    let map = OidMap::default();
    let all_names = map.list_names();
    let standard_names = map.list_standard();
    let vendor_names = map.list_vendor();
    let custom_names = map.list_custom();
    assert!(!standard_names.is_empty());
    assert!(!vendor_names.is_empty());
    assert!(custom_names.is_empty());
    assert_eq!(all_names.len(), standard_names.len() + vendor_names.len());
}

#[test]
fn oids_test_oid_map_list_operations() {
    check_oid_map_list_operations();
}

#[test]
fn map_test_oid_map_list_operations() {
    check_oid_map_list_operations();
}

#[test]
fn test_add_standard_and_vendor_methods() {
    let mut map = OidMap::new();
    map.add_standard("TestStandard".to_string(), StandardOid::SysDescr);
    assert_eq!(map.get_standard("TestStandard"), Some(&StandardOid::SysDescr));
    let vendor_oid = VendorOid::cisco_common()[0].clone();
    map.add_vendor("TestVendor".to_string(), vendor_oid.clone());
    assert_eq!(map.get_vendor("TestVendor"), Some(&vendor_oid));
}

#[test]
fn standard_names_resolve_before_vendor_and_custom() {
    let mut map = OidMap::default();
    map.add_custom("SysDescr".to_string(), "9.9.9".to_string());
    assert_eq!(map.resolve("SysDescr"), Some("1.3.6.1.2.1.1.1.0".to_string()));
    map.add_custom("only_custom".to_string(), "9.9.9".to_string());
    assert_eq!(map.resolve("only_custom"), Some("9.9.9".to_string()));
}

#[test]
fn adding_a_name_twice_keeps_the_last_value() {
    let mut map = OidMap::new();
    map.add_custom("x".to_string(), "1".to_string());
    map.add_custom("x".to_string(), "2".to_string());
    assert_eq!(map.get_custom("x"), Some("2"));
    assert_eq!(map.list_custom(), vec!["x".to_string()]);
}

#[test]
fn listed_names_are_sorted() {
    let mut map = OidMap::new();
    map.add_custom("b".to_string(), "1".to_string());
    map.add_custom("a".to_string(), "2".to_string());
    map.add_custom("c".to_string(), "3".to_string());
    assert_eq!(
        map.list_custom(),
        vec!["a".to_string(), "b".to_string(), "c".to_string()]
    );
}

#[test]
fn test_poller_module_has_no_orphaned_duplicate_core_file() {
    let poller_dir = Path::new("src/snmp/poller");
    assert!(
        !poller_dir.join("core_main.rs").exists(),
        "found orphaned duplicate poller core file at {}",
        poller_dir.join("core_main.rs").display()
    );
}
