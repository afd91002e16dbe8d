use unet_core::snmp::config::SnmpError;
use unet_core::snmp::session::{ObjectValueData, convert_object_value_to_snmp_value, oid_arcs, parse_oids};
use unet_core::snmp::values::SnmpValue;

fn check_parse_oids_valid() {
    let oids = ["1.3.6.1.2.1.1.1.0", "1.3.6.1.2.1.1.2.0"];
    let result = parse_oids(&oids);
    assert!(result.is_ok());
    assert_eq!(result.unwrap().len(), 2);
}

fn check_parse_oids_invalid() {
    let oids = ["invalid.oid"];
    let result = parse_oids(&oids);
    assert!(result.is_err());
    if let Err(SnmpError::InvalidOid { oid }) = result {
        assert_eq!(oid, "invalid.oid");
    } else {
        panic!("Expected InvalidOid error");
    }
}

#[test]
fn session_test_parse_oids_valid() {
    check_parse_oids_valid();
}

#[test]
fn utils_test_parse_oids_valid() {
    check_parse_oids_valid();
}

#[test]
fn session_test_parse_oids_invalid() {
    check_parse_oids_invalid();
}

#[test]
fn utils_test_parse_oids_invalid() {
    check_parse_oids_invalid();
}

#[test]
fn test_parse_oids_empty() {
    let oids: [&str; 0] = [];
    let result = parse_oids(&oids);
    assert!(result.is_ok());
    assert!(result.unwrap().is_empty());
}

#[test]
fn test_parse_oids_mixed_valid_invalid() {
    let oids = ["1.3.6.1.2.1.1.1.0", "invalid.oid", "1.3.6.1.2.1.1.2.0"];
    let result = parse_oids(&oids);
    assert!(result.is_err());
    if let Err(SnmpError::InvalidOid { oid }) = result {
        assert_eq!(oid, "invalid.oid");
    } else {
        panic!("Expected InvalidOid error");
    }
}

#[test]
fn test_parse_oids_long_list() {
    let oids = [
        "1.3.6.1.2.1.1.1.0",
        "1.3.6.1.2.1.1.2.0",
        "1.3.6.1.2.1.1.3.0",
        "1.3.6.1.2.1.1.4.0",
        "1.3.6.1.2.1.1.5.0",
        "1.3.6.1.2.1.2.1.0",
        "1.3.6.1.2.1.2.2.1.1.1",
        "1.3.6.1.2.1.2.2.1.2.1",
    ];
    let result = parse_oids(&oids);
    assert!(result.is_ok());
    assert_eq!(result.unwrap().len(), 8);
}

#[test]
fn test_convert_object_value_integer() {
    let value = ObjectValueData::Integer(42);
    assert_eq!(convert_object_value_to_snmp_value(&value), SnmpValue::Integer(42));
    let value = ObjectValueData::Integer(-5);
    assert_eq!(convert_object_value_to_snmp_value(&value), SnmpValue::Integer(-5));
}

#[test]
fn test_convert_object_value_string_utf8() {
    let value = ObjectValueData::String(b"test".to_vec());
    assert_eq!(
        convert_object_value_to_snmp_value(&value),
        SnmpValue::String("test".to_string())
    );
}

#[test]
fn test_convert_object_value_string_non_utf8() {
    let value = ObjectValueData::String(vec![0xff, 0xfe]);
    assert_eq!(
        convert_object_value_to_snmp_value(&value),
        SnmpValue::String("0xfffe".to_string())
    );
}

#[test]
fn test_convert_object_value_ip_address() {
    let value = ObjectValueData::IpAddress([192, 168, 1, 1]);
    assert_eq!(
        convert_object_value_to_snmp_value(&value),
        SnmpValue::IpAddress("192.168.1.1".to_string())
    );
}

#[test]
fn test_convert_object_value_counter32() {
    let value = ObjectValueData::Counter32(12345);
    assert_eq!(convert_object_value_to_snmp_value(&value), SnmpValue::Counter32(12345));
}

#[test]
fn test_convert_object_value_counter64() {
    let value = ObjectValueData::Counter64(123_456_789);
    assert_eq!(
        convert_object_value_to_snmp_value(&value),
        SnmpValue::Counter64(123_456_789)
    );
}

#[test]
fn test_convert_object_value_opaque() {
    let data = vec![1, 2, 3, 4];
    let value = ObjectValueData::Opaque(data.clone());
    assert_eq!(convert_object_value_to_snmp_value(&value), SnmpValue::Opaque(data));
}

#[test]
fn test_convert_object_value_time_ticks() {
    let value = ObjectValueData::TimeTicks(987_654_321);
    assert_eq!(
        convert_object_value_to_snmp_value(&value),
        SnmpValue::TimeTicks(987_654_321)
    );
}

#[test]
fn test_convert_object_value_object_id() {
    let value = ObjectValueData::ObjectId("1.3.6.1.2.1.1.1.0".to_string());
    assert_eq!(
        convert_object_value_to_snmp_value(&value),
        SnmpValue::Oid("1.3.6.1.2.1.1.1.0".to_string())
    );
}

#[test]
fn test_convert_object_value_unsigned32() {
    let value = ObjectValueData::Unsigned32(42);
    assert_eq!(convert_object_value_to_snmp_value(&value), SnmpValue::Null);
}

#[test]
fn test_convert_object_value_string_empty() {
    let value = ObjectValueData::String(Vec::new());
    assert_eq!(
        convert_object_value_to_snmp_value(&value),
        SnmpValue::String(String::new())
    );
}

#[test]
fn test_convert_object_value_string_partial_utf8() {
    let mut bytes = b"hello".to_vec();
    bytes.extend_from_slice(&[0xff, 0xfe]);
    let value = ObjectValueData::String(bytes);
    assert_eq!(
        convert_object_value_to_snmp_value(&value),
        SnmpValue::String("0x68656c6c6ffffe".to_string())
    );
}

#[test]
fn test_convert_object_value_opaque_empty() {
    let value = ObjectValueData::Opaque(Vec::new());
    assert_eq!(
        convert_object_value_to_snmp_value(&value),
        SnmpValue::Opaque(Vec::new())
    );
}

#[test]
fn multibyte_utf8_is_decoded() {
    let value = ObjectValueData::String("héllo".as_bytes().to_vec());
    assert_eq!(
        convert_object_value_to_snmp_value(&value),
        SnmpValue::String("héllo".to_string())
    );
}

#[test]
fn oid_texts_read_into_their_sub_identifiers() {
    assert_eq!(oid_arcs("1.3.6.1.2.1.1.1.0"), Some(vec![1, 3, 6, 1, 2, 1, 1, 1, 0]));
    assert_eq!(oid_arcs(".1.3.6."), Some(vec![1, 3, 6]));
    assert_eq!(oid_arcs(""), Some(vec![]));
    assert_eq!(oid_arcs("."), Some(vec![]));
    assert_eq!(oid_arcs("+7.4294967295"), Some(vec![7, 4294967295]));
    assert_eq!(oid_arcs("1.4294967296"), None);
    assert_eq!(oid_arcs("1..2"), None);
    assert_eq!(oid_arcs("invalid.oid"), None);
    let long: Vec<String> = (0..129).map(|i| i.to_string()).collect();
    assert_eq!(oid_arcs(&long.join(".")), None);
    assert_eq!(oid_arcs(&long[..128].join(".")).map(|v| v.len()), Some(128));
}

#[test]
fn parsed_oids_keep_their_order_and_numbers() {
    let ids = parse_oids(&["1.3.6.1.2.1.1.1.0", "1.3.6.1.2.1.1.2.0"]).unwrap();
    assert_eq!(ids[0].as_slice(), &[1, 3, 6, 1, 2, 1, 1, 1, 0]);
    assert_eq!(ids[1].as_slice(), &[1, 3, 6, 1, 2, 1, 1, 2, 0]);
}
