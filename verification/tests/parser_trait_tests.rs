use unet_core::template::slice::{AristaParser, CiscoParser, ConfigParser, GenericParser, JuniperParser, VendorParser};

fn describe<P: ConfigParser>(p: &P, config: &str, path: &str) -> (String, usize, bool, bool) {
    let nodes = ConfigParser::parse(p, config).map(|t| t.nodes.len()).unwrap_or(0);
    let slice = ConfigParser::extract_slice(p, config, path).map(|s| s.is_some()).unwrap_or(false);
    let valid = ConfigParser::validate_syntax(p, config).map(|v| v.is_valid).unwrap_or(false);
    (ConfigParser::vendor(p).to_string(), nodes, slice, valid)
}

#[test]
fn parsers_answer_through_the_trait() {
    let config = "hostname r1\ninterface GigabitEthernet0/1\n description uplink\n";
    let (v, n, s, ok) = describe(&CiscoParser::new(), config, "interface.gigabitethernet0/1");
    assert_eq!(v, "cisco");
    assert!(n >= 2);
    assert!(s);
    assert!(ok);

    let (v, n, s, ok) = describe(&GenericParser::new(), "a 1\n# note\nb 2\n", "b");
    assert_eq!(v, "generic");
    assert_eq!(n, 2);
    assert!(s);
    assert!(ok);

    for (p, name) in [(VendorParser::Juniper(JuniperParser::new()), "juniper"), (VendorParser::Arista(AristaParser::new()), "arista")] {
        let (v, n, s, ok) = describe(&p, config, "interface");
        assert_eq!(v, name);
        assert_eq!(n, 0);
        assert!(!s);
        assert!(ok);
    }
    assert!(JuniperParser::new().extract_slice(config, "x").unwrap().is_none());
    assert!(AristaParser::new().extract_slice(config, "x").unwrap().is_none());
}

#[test]
fn slices_carry_no_attributes() {
    let config = "interface GigabitEthernet0/1\n shutdown\n";
    let slice = CiscoParser::new().extract_slice(config, "interface.gigabitethernet0/1").unwrap().unwrap();
    assert!(slice.metadata.attributes.is_empty());
}
