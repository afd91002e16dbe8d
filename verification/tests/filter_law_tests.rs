use unet_core::snmp::oids::{OidMap, StandardOid};
use unet_core::template::filters::{ip_netmask, ip_wildcard};
use unet_core::template::testing::normalize_config_output;

#[test]
fn wildcard_is_the_inverse_of_the_netmask() {
    for prefix in 8u8..=32 {
        let mask = ip_netmask(prefix).unwrap();
        let wildcard = ip_wildcard(prefix).unwrap();
        let m: Vec<u32> = mask.split('.').map(|o| o.parse().unwrap()).collect();
        let w: Vec<u32> = wildcard.split('.').map(|o| o.parse().unwrap()).collect();
        assert_eq!(m.len(), 4);
        for i in 0..4 {
            assert_eq!(m[i] + w[i], 255, "prefix {prefix}");
        }
    }
    assert_eq!(ip_netmask(20).unwrap(), "255.255.240.0");
    assert_eq!(ip_wildcard(20).unwrap(), "0.0.15.255");
}

#[test]
fn normalizing_twice_changes_nothing() {
    let raw = "  interface Gi0/1 \r\n\n\t description uplink\t\n   \n shutdown";
    let once = normalize_config_output(raw);
    assert_eq!(once, "interface Gi0/1\ndescription uplink\nshutdown");
    assert_eq!(normalize_config_output(&once), once);
}

#[test]
fn standard_oids_are_distinct_and_under_mib2() {
    let mut all = StandardOid::system_oids();
    all.extend(StandardOid::interface_oids());
    all.push(StandardOid::IfTable);
    for (i, a) in all.iter().enumerate() {
        assert!(a.oid().starts_with("1.3.6.1.2.1."));
        for b in &all[i + 1..] {
            assert_ne!(a.oid(), b.oid());
        }
    }
    for x in StandardOid::system_oids() {
        assert!(x.oid().starts_with("1.3.6.1.2.1.1."));
    }
    for x in StandardOid::interface_oids() {
        assert!(x.oid().starts_with("1.3.6.1.2.1.2."));
    }
}

#[test]
fn adding_a_custom_oid_lists_it_once_in_order() {
    let mut map = OidMap::new();
    map.add_custom("zeta".to_string(), "1.3.6.1.4.1.9.1".to_string());
    map.add_custom("alpha".to_string(), "1.3.6.1.4.1.9.2".to_string());
    map.add_custom("zeta".to_string(), "1.3.6.1.4.1.9.3".to_string());
    assert_eq!(map.list_custom(), vec!["alpha".to_string(), "zeta".to_string()]);
    assert_eq!(map.get_custom("zeta"), Some("1.3.6.1.4.1.9.3"));
    let standard = map.list_standard();
    assert!(standard.windows(2).all(|w| w[0] < w[1]));
}
