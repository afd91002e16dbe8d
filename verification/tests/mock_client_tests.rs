use unet_core::snmp::config::SnmpError;
use unet_core::snmp::testing::{DelayedMockSnmpClient, MockSnmpClient};
use unet_core::snmp::values::SnmpValue;
use unet_core::time::Span;

fn value_of<'a>(values: &'a [(String, SnmpValue)], oid: &str) -> Option<&'a SnmpValue> {
    values.iter().find(|(k, _)| k == oid).map(|(_, v)| v)
}

#[test]
fn test_mock_snmp_client_success() {
    let client = MockSnmpClient::success();
    let target = "192.168.1.1:161";
    let oids = vec!["1.3.6.1.2.1.1.1.0", "1.3.6.1.2.1.1.3.0"];

    let result = client.get(target, &oids);
    assert!(result.is_ok());

    let values = result.unwrap();
    assert_eq!(values.len(), 2);
    assert!(value_of(&values, "1.3.6.1.2.1.1.1.0").is_some());
    assert!(value_of(&values, "1.3.6.1.2.1.1.3.0").is_some());
}

#[test]
fn test_mock_snmp_client_failure() {
    let client = MockSnmpClient::failure();
    let target = "192.168.1.1:161";
    let oids = vec!["1.3.6.1.2.1.1.1.0"];

    let result = client.get(target, &oids);
    assert!(result.is_err());
}

#[test]
fn test_mock_snmp_client_predefined_response() {
    let target = "192.168.1.1:161";
    let oids = vec!["1.3.6.1.2.1.1.1.0"];

    let expected_values = vec![(
        "1.3.6.1.2.1.1.1.0".to_string(),
        SnmpValue::String("Custom Response".to_string()),
    )];

    let client = MockSnmpClient::new().with_get_response(target, &oids, Ok(expected_values.clone()));

    let result = client.get(target, &oids);
    assert!(result.is_ok());

    let values = result.unwrap();
    assert_eq!(
        value_of(&values, "1.3.6.1.2.1.1.1.0"),
        value_of(&expected_values, "1.3.6.1.2.1.1.1.0")
    );
}

#[test]
fn test_mock_snmp_client_walk() {
    let client = MockSnmpClient::success();
    let target = "192.168.1.1:161";
    let start_oid = "1.3.6.1.2.1.1";

    let result = client.walk(target, start_oid);
    assert!(result.is_ok());

    let values = result.unwrap();
    assert!(!values.is_empty());
}

#[test]
fn mock_default_values() {
    let client = MockSnmpClient::default();
    let oids = vec![
        "1.3.6.1.2.1.1.1.0",
        "1.3.6.1.2.1.1.3.0",
        "1.3.6.1.2.1.1.5.0",
        "1.3.6.1.2.1.2.1.0",
    ];
    let values = client.get("10.0.0.1:161", &oids).unwrap();
    assert_eq!(values.len(), 4);
    assert_eq!(
        value_of(&values, "1.3.6.1.2.1.1.1.0"),
        Some(&SnmpValue::String("Test Device".to_string()))
    );
    assert_eq!(value_of(&values, "1.3.6.1.2.1.1.3.0"), Some(&SnmpValue::Counter32(12345)));
    assert_eq!(
        value_of(&values, "1.3.6.1.2.1.1.5.0"),
        Some(&SnmpValue::String("test-device".to_string()))
    );
    assert_eq!(
        value_of(&values, "1.3.6.1.2.1.2.1.0"),
        Some(&SnmpValue::String("test-value-3".to_string()))
    );
}

#[test]
fn mock_repeated_oid_keeps_last_position() {
    let client = MockSnmpClient::success();
    let oids = vec!["1.3.6.1.9", "1.3.6.1.8", "1.3.6.1.9"];
    let values = client.get("10.0.0.1:161", &oids).unwrap();
    assert_eq!(values.len(), 2);
    assert_eq!(
        value_of(&values, "1.3.6.1.9"),
        Some(&SnmpValue::String("test-value-2".to_string()))
    );
}

#[test]
fn mock_failure_message() {
    let client = MockSnmpClient::failure();
    match client.walk("10.0.0.1:161", "1.3.6.1") {
        Err(SnmpError::Network(m)) => assert_eq!(m, "Mock connection refused"),
        other => panic!("unexpected {other:?}"),
    }
}

#[test]
fn mock_predefined_error_is_wrapped() {
    let client = MockSnmpClient::new().with_walk_response(
        "10.0.0.1:161",
        "1.3.6.1",
        Err(SnmpError::InvalidOid { oid: "x".to_string() }),
    );
    match client.walk("10.0.0.1:161", "1.3.6.1") {
        Err(SnmpError::Network(m)) => assert_eq!(m, "Mock error: Invalid OID: x"),
        other => panic!("unexpected {other:?}"),
    }
    // another start OID gets the default answer
    let values = client.walk("10.0.0.1:161", "1.3.6.2").unwrap();
    assert_eq!(values[0].0, "1.3.6.2.1");
    assert_eq!(values[0].1, SnmpValue::String("test-walk-value".to_string()));
}

#[test]
fn mock_predefined_response_is_keyed_by_target_and_oids() {
    let oids = vec!["1.3.6.1.2.1.1.1.0", "1.3.6.1.2.1.1.5.0"];
    let client = MockSnmpClient::new().with_get_response(
        "10.0.0.1:161",
        &oids,
        Ok(vec![("a".to_string(), SnmpValue::Integer(7))]),
    );
    let hit = client.get("10.0.0.1:161", &oids).unwrap();
    assert_eq!(hit, vec![("a".to_string(), SnmpValue::Integer(7))]);
    let miss = client.get("10.0.0.2:161", &oids).unwrap();
    assert_eq!(miss.len(), 2);
    let replaced = client.with_get_response("10.0.0.1:161", &oids, Ok(vec![]));
    assert_eq!(replaced.get("10.0.0.1:161", &oids).unwrap().len(), 0);
}

#[test]
fn delayed_mock_answers() {
    let ok = DelayedMockSnmpClient::new(Span { nanos: 5_000_000 }, true);
    assert_eq!(ok.delay, Span { nanos: 5_000_000 });
    let values = ok.get(&["1.3.6.1.2.1.1.5.0"]).unwrap();
    assert_eq!(values, vec![("1.3.6.1.2.1.1.5.0".to_string(), SnmpValue::String("test-device".to_string()))]);
    let walked = ok.walk("1.3.6.1").unwrap();
    assert_eq!(walked[0].0, "1.3.6.1.1");
    let bad = DelayedMockSnmpClient::new(Span { nanos: 0 }, false);
    assert!(bad.get(&["1.3.6.1"]).is_err());
    assert!(bad.walk("1.3.6.1").is_err());
}
