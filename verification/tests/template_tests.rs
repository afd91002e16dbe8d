use std::mem::discriminant;

use unet_core::template::driven_slicing::{
    AutoGeneratedPattern, ConsistencySeverity, TemplateAssignment, TemplateConfigConsistencyChecker, TemplateDrivenSlicer,
    TemplateSliceValidationResult, extract_interface_references, extract_vlan_references,
};
use unet_core::template::filters::{
    cisco_interface, indent, interface_range, ip_increment, ip_netmask, ip_network, ip_wildcard,
    juniper_interface, mac_format, port_range, subnet_hosts, vlan_range,
};
use unet_core::template::header::{HeaderParser, MatchPattern, TemplateHeader, TemplateScope};
use unet_core::template::quality::{
    QualityAnalysisConfig, QualityError, TemplateQualityAnalyzer, generate_variable_description,
    infer_variable_type,
};
use unet_core::template::scope::{ConflictDetector, ScopeContext, ScopeResolver};
use unet_core::template::slice::{CiscoParser, GenericParser, SliceExtractor};
use unet_core::template::validation::{TemplateCheckError, TemplateComplexity, TemplateValidator};
use unet_core::text::{to_lowercase_str, to_uppercase_str};
use unet_core::time::Span;

// ---------------------------------------------------------------------------
// Scope resolution
// ---------------------------------------------------------------------------

fn create_test_context() -> ScopeContext {
    ScopeContext {
        device_type: Some("router".to_string()),
        vendor: Some("cisco".to_string()),
        context: "interface".to_string(),
        metadata: Vec::new(),
    }
}

fn create_test_header_with_scope(scope: Option<TemplateScope>) -> TemplateHeader {
    TemplateHeader {
        raw: "template-match: interface.*".to_string(),
        pattern: MatchPattern::Glob("interface.*".to_string()),
        priority: None,
        scope,
    }
}

#[test]
fn test_scope_resolver_creation() {
    let resolver = ScopeResolver::new();
    assert_eq!(resolver.default_priority, 100);
    assert_eq!(resolver.vendor_priority_boost, 50);
    assert_eq!(resolver.device_type_priority_boost, 25);
}

#[test]
fn test_scope_matching_device_type() {
    let resolver = ScopeResolver::new();
    let target_context = create_test_context();
    let scope = TemplateScope {
        device_types: Some(vec!["router".to_string(), "switch".to_string()]),
        vendors: None,
        contexts: None,
    };
    assert!(resolver.scope_matches(&scope, &target_context));
    let scope = TemplateScope {
        device_types: Some(vec!["switch".to_string()]),
        vendors: None,
        contexts: None,
    };
    assert!(!resolver.scope_matches(&scope, &target_context));
}

#[test]
fn test_scope_matching_vendor() {
    let resolver = ScopeResolver::new();
    let target_context = create_test_context();
    let scope = TemplateScope {
        device_types: None,
        vendors: Some(vec!["cisco".to_string(), "juniper".to_string()]),
        contexts: None,
    };
    assert!(resolver.scope_matches(&scope, &target_context));
    let scope = TemplateScope {
        device_types: None,
        vendors: Some(vec!["juniper".to_string()]),
        contexts: None,
    };
    assert!(!resolver.scope_matches(&scope, &target_context));
}

#[test]
fn test_scope_matching_context() {
    let resolver = ScopeResolver::new();
    let target_context = create_test_context();
    let scope = TemplateScope {
        device_types: None,
        vendors: None,
        contexts: Some(vec!["interface".to_string(), "routing".to_string()]),
    };
    assert!(resolver.scope_matches(&scope, &target_context));
    let scope = TemplateScope {
        device_types: None,
        vendors: None,
        contexts: Some(vec!["routing".to_string()]),
    };
    assert!(!resolver.scope_matches(&scope, &target_context));
}

#[test]
fn a_scope_that_names_a_device_type_refuses_a_context_without_one() {
    let resolver = ScopeResolver::new();
    let mut target_context = create_test_context();
    target_context.device_type = None;
    let scope = TemplateScope {
        device_types: Some(vec!["router".to_string()]),
        vendors: None,
        contexts: None,
    };
    assert!(!resolver.scope_matches(&scope, &target_context));
}

#[test]
fn test_priority_calculation() {
    let resolver = ScopeResolver::new();
    let target_context = create_test_context();
    let header = create_test_header_with_scope(None);
    assert_eq!(resolver.calculate_priority(&header, &target_context), 100);
    let scope = TemplateScope {
        device_types: None,
        vendors: Some(vec!["cisco".to_string()]),
        contexts: None,
    };
    let header = create_test_header_with_scope(Some(scope));
    assert_eq!(resolver.calculate_priority(&header, &target_context), 150);
    let scope = TemplateScope {
        device_types: Some(vec!["router".to_string()]),
        vendors: Some(vec!["cisco".to_string()]),
        contexts: None,
    };
    let header = create_test_header_with_scope(Some(scope));
    assert_eq!(resolver.calculate_priority(&header, &target_context), 175);
}

#[test]
fn test_resolve_scope_matching() {
    let resolver = ScopeResolver::new();
    let target_context = create_test_context();
    let scope = TemplateScope {
        device_types: Some(vec!["router".to_string()]),
        vendors: Some(vec!["cisco".to_string()]),
        contexts: Some(vec!["interface".to_string()]),
    };
    let header = create_test_header_with_scope(Some(scope));
    let result = resolver.resolve_scope("test_template", "template content", &header, &target_context);
    assert!(result.is_some());
    let scoped_template = result.unwrap();
    assert_eq!(scoped_template.id, "test_template");
    assert_eq!(scoped_template.content, "template content");
    assert_eq!(scoped_template.resolved_priority, 175);
}

#[test]
fn test_resolve_scope_non_matching() {
    let resolver = ScopeResolver::new();
    let target_context = create_test_context();
    let scope = TemplateScope {
        device_types: Some(vec!["switch".to_string()]),
        vendors: Some(vec!["cisco".to_string()]),
        contexts: Some(vec!["interface".to_string()]),
    };
    let header = create_test_header_with_scope(Some(scope));
    let result = resolver.resolve_scope("test_template", "template content", &header, &target_context);
    assert!(result.is_none());
}

#[test]
fn test_conflict_detection() {
    let detector = ConflictDetector::new();
    let target_context = create_test_context();
    let header1 = TemplateHeader {
        raw: "template-match: interface.*".to_string(),
        pattern: MatchPattern::Glob("interface.*".to_string()),
        priority: Some(200),
        scope: None,
    };
    let header2 = TemplateHeader {
        raw: "template-match: interface.*".to_string(),
        pattern: MatchPattern::Glob("interface.*".to_string()),
        priority: Some(100),
        scope: None,
    };
    let templates = vec![
        (
            "high_priority".to_string(),
            ("template 1".to_string(), header1),
        ),
        (
            "low_priority".to_string(),
            ("template 2".to_string(), header2),
        ),
    ];
    let conflicts = detector.detect_conflicts(&templates, &target_context);
    assert_eq!(conflicts.len(), 1);
    let conflict = &conflicts[0];
    assert_eq!(conflict.winning_template, "high_priority");
    assert_eq!(conflict.conflicting_templates, vec!["low_priority"]);
    assert!(conflict.resolution_reason.contains("Higher priority"));
}

// ---------------------------------------------------------------------------
// Headers
// ---------------------------------------------------------------------------

#[test]
fn test_parse_exact_match() {
    let parser = HeaderParser::new();
    let header = parser.parse("template-match: interface.ethernet.eth0").unwrap();
    assert_eq!(header.raw, "template-match: interface.ethernet.eth0");
    assert_eq!(
        header.pattern,
        MatchPattern::HierarchicalPath("interface.ethernet.eth0".to_string())
    );
}

#[test]
fn test_parse_regex_pattern() {
    let parser = HeaderParser::new();
    let header = parser.parse("template-match: /^vlan\\.\\d+$/").unwrap();
    assert_eq!(header.pattern, MatchPattern::Regex("^vlan\\.\\d+$".to_string()));
}

#[test]
fn test_parse_glob_pattern() {
    let parser = HeaderParser::new();
    let header = parser.parse("template-match: bgp.neighbors.*.ipv4").unwrap();
    assert_eq!(header.pattern, MatchPattern::Glob("bgp.neighbors.*.ipv4".to_string()));
}

#[test]
fn test_parse_hierarchical_pattern() {
    let parser = HeaderParser::new();
    let header = parser.parse("template-match: ospf.area.**.networks").unwrap();
    assert_eq!(header.pattern, MatchPattern::Glob("ospf.area.**.networks".to_string()));
}

fn bare_header(pattern: MatchPattern) -> TemplateHeader {
    TemplateHeader {
        raw: "test".to_string(),
        pattern,
        priority: None,
        scope: None,
    }
}

#[test]
fn test_exact_match() {
    let parser = HeaderParser::new();
    let header = bare_header(MatchPattern::Exact("interface.eth0".to_string()));
    assert!(parser.matches(&header, "interface.eth0").unwrap());
    assert!(!parser.matches(&header, "interface.eth1").unwrap());
}

#[test]
fn test_regex_match() {
    let parser = HeaderParser::new();
    let header = bare_header(MatchPattern::Regex("^vlan\\.\\d+$".to_string()));
    assert!(parser.matches(&header, "vlan.100").unwrap());
    assert!(parser.matches(&header, "vlan.1").unwrap());
    assert!(!parser.matches(&header, "vlan.abc").unwrap());
    assert!(!parser.matches(&header, "interface.vlan.100").unwrap());
}

#[test]
fn test_hierarchical_match() {
    let parser = HeaderParser::new();
    let header = bare_header(MatchPattern::HierarchicalPath("interface.*.config".to_string()));
    assert!(parser.matches(&header, "interface.eth0.config").unwrap());
    assert!(parser.matches(&header, "interface.vlan100.config").unwrap());
    assert!(!parser.matches(&header, "interface.eth0.status").unwrap());
    assert!(!parser.matches(&header, "routing.interface.eth0.config").unwrap());
}

#[test]
fn test_glob_match() {
    let parser = HeaderParser::new();
    let header = bare_header(MatchPattern::Glob("bgp.neighbors.**.ipv4".to_string()));
    assert!(parser.matches(&header, "bgp.neighbors.192.168.1.1.ipv4").unwrap());
    assert!(parser.matches(&header, "bgp.neighbors.peer1.ipv4").unwrap());
    assert!(parser.matches(&header, "bgp.neighbors.group.peer1.ipv4").unwrap());
    assert!(!parser.matches(&header, "bgp.neighbors.peer1.ipv6").unwrap());
}

#[test]
fn test_invalid_patterns() {
    let parser = HeaderParser::new();
    assert!(parser.parse("template-match: /[invalid/").is_err());
    assert!(parser.parse("template-match: invalid***pattern").is_err());
    assert!(parser.parse("template-match: ").is_err());
    assert!(parser.parse("invalid-header: pattern").is_err());
}

// ---------------------------------------------------------------------------
// Configuration slicing
// ---------------------------------------------------------------------------

#[test]
fn test_slice_extractor_creation() {
    let extractor = SliceExtractor::new();
    let vendors = extractor.supported_vendors();
    assert!(vendors.contains(&"cisco"));
    assert!(vendors.contains(&"juniper"));
    assert!(vendors.contains(&"arista"));
    assert!(vendors.contains(&"generic"));
}

#[test]
fn test_cisco_parser_basic() {
    let parser = CiscoParser::new();
    let config = r#"
interface GigabitEthernet0/0
 description WAN interface
 ip address 192.168.1.1 255.255.255.0
!
router ospf 1
 network 192.168.1.0 0.0.0.255 area 0
"#;
    let tree = parser.parse(config).unwrap();
    assert!(!tree.nodes.is_empty());
}

#[test]
fn test_cisco_interface_parsing() {
    let parser = CiscoParser::new();
    let config = "interface GigabitEthernet0/0\n description Test interface";
    let tree = parser.parse(config).unwrap();
    assert_eq!(tree.nodes.len(), 1);
    assert_eq!(tree.nodes[0].name, "interface");
    assert_eq!(tree.nodes[0].value, Some("GigabitEthernet0/0".to_string()));
    assert_eq!(tree.nodes[0].path, "interface.gigabitethernet0/0");
}

#[test]
fn test_slice_extraction() {
    let extractor = SliceExtractor::new();
    let config = "interface GigabitEthernet0/0\n description Test";
    let header_parser = HeaderParser::new();
    let header = header_parser
        .parse("template-match: interface.gigabitethernet0/0")
        .unwrap();
    let slices = extractor.extract_slices(config, "cisco", &header).unwrap();
    assert!(!slices.is_empty());
    assert_eq!(slices[0].path, "interface.gigabitethernet0/0");
    assert_eq!(slices[0].metadata.vendor, "cisco");
    assert_eq!(slices[0].metadata.context, "interface");
}

#[test]
fn extraction_for_an_unknown_vendor_fails() {
    let extractor = SliceExtractor::new();
    let header = HeaderParser::new().parse("template-match: interface.*").unwrap();
    assert!(extractor.extract_slices("hostname r1", "nokia", &header).is_err());
}

#[test]
fn test_generic_parser() {
    let parser = GenericParser::new();
    let config = "hostname router1\nip route 0.0.0.0 0.0.0.0 192.168.1.1";
    let tree = parser.parse(config);
    assert_eq!(tree.nodes.len(), 2);
    assert_eq!(tree.nodes[0].name, "hostname");
    assert_eq!(tree.nodes[0].value, Some("router1".to_string()));
}

#[test]
fn test_cisco_syntax_validation() {
    let parser = CiscoParser::new();
    let valid_config = "interface GigabitEthernet0/0\nip address 192.168.1.1 255.255.255.0";
    let result = parser.validate_syntax(valid_config);
    assert!(result.is_valid);
    let invalid_config = "invalid-command with bad syntax";
    let result = parser.validate_syntax(invalid_config);
    assert!(!result.is_valid);
    assert!(!result.errors.is_empty());
}

// ---------------------------------------------------------------------------
// Template-driven slicing
// ---------------------------------------------------------------------------

#[test]
fn test_template_driven_slicer_creation() {
    let slicer = TemplateDrivenSlicer::new();
    assert!(slicer.is_templatable_section("interface"));
}

#[test]
fn test_extract_template_headers_from_content() {
    let slicer = TemplateDrivenSlicer::new();
    let template_content = r#"
{# template-match: interface.GigabitEthernet.* #}
interface GigabitEthernet{{ interface_id }}
 description {{ description }}
 ip address {{ ip_address }} {{ subnet_mask }}

{# template-match: /^vlan\.\d+$/ #}
vlan {{ vlan_id }}
 name {{ vlan_name }}
"#;
    let headers = slicer.extract_template_headers(template_content);
    assert_eq!(headers.len(), 2);
    match &headers[0].pattern {
        MatchPattern::Glob(pattern) => assert_eq!(pattern, "interface.GigabitEthernet.*"),
        _ => panic!("Expected glob pattern"),
    }
    match &headers[1].pattern {
        MatchPattern::Regex(pattern) => assert_eq!(pattern, "^vlan\\.\\d+$"),
        _ => panic!("Expected regex pattern"),
    }
}

#[test]
fn test_extract_slice_patterns() {
    let slicer = TemplateDrivenSlicer::new();
    let template_content = r#"
{# template-match: interface.* #}
interface {{ interface_name }}
 description test
"#;
    let patterns = slicer.extract_slice_patterns(template_content);
    assert_eq!(patterns.len(), 1);
}

fn success_rate(r: &TemplateSliceValidationResult) -> f64 {
    let (matched, checked) = r.success_fraction();
    if checked == 0 {
        100.0
    } else {
        matched as f64 / checked as f64 * 100.0
    }
}

#[test]
fn test_slice_validation_result() {
    let mut result = TemplateSliceValidationResult::new();
    assert!(result.is_valid);
    assert_eq!(success_rate(&result), 100.0);
    result.add_successful_match("interface.*".to_string(), 5);
    assert_eq!(result.patterns_checked, 1);
    assert_eq!(result.successful_matches.len(), 1);
    result.add_error("Pattern failed".to_string());
    assert!(!result.is_valid);
    assert_eq!(result.patterns_checked, 2);
    assert_eq!(success_rate(&result), 50.0);
    result.add_warning("Warning message".to_string());
    assert!(result.has_issues());
}

#[test]
fn test_consistency_checker_creation() {
    let checker = TemplateConfigConsistencyChecker::new();
    assert!(!checker.rules.is_empty());
}

#[test]
fn test_extract_interface_references() {
    let template = r#"
interface GigabitEthernet0/0/1
interface {{ interface_name }}
interface FastEthernet1/0/1
"#;
    let interfaces = extract_interface_references(template);
    assert!(interfaces.contains(&"GigabitEthernet0/0/1".to_string()));
    assert!(interfaces.len() >= 2);
}

#[test]
fn test_extract_vlan_references() {
    let template = r#"
vlan 100
vlan {{ vlan_id }}
vlan 200
"#;
    let vlans = extract_vlan_references(template);
    assert!(vlans.contains(&"100".to_string()));
    assert!(vlans.contains(&"200".to_string()));
}

#[test]
fn test_is_templatable_section() {
    let slicer = TemplateDrivenSlicer::new();
    assert!(slicer.is_templatable_section("interface"));
    assert!(slicer.is_templatable_section("vlan"));
    assert!(slicer.is_templatable_section("router"));
    assert!(!slicer.is_templatable_section("unknown_section"));
}

#[test]
fn test_calculate_pattern_confidence() {
    let slicer = TemplateDrivenSlicer::new();
    let confidence = |s: &str| slicer.pattern_confidence_percent(s) as f64 / 100.0;
    assert_eq!(confidence("interface"), 0.9);
    assert_eq!(confidence("vlan"), 0.8);
    assert!(confidence("unknown") < 0.5);
}

#[test]
fn template_names_are_suggested_from_sections() {
    let slicer = TemplateDrivenSlicer::new();
    assert_eq!(slicer.suggest_template_name("Route-Map"), "route_map_template.j2");
}

#[test]
fn test_consistency_severity_ordering() {
    assert!(discriminant(&ConsistencySeverity::Error) != discriminant(&ConsistencySeverity::Warning));
    assert!(discriminant(&ConsistencySeverity::Warning) != discriminant(&ConsistencySeverity::Info));
}

// ---------------------------------------------------------------------------
// Validation
// ---------------------------------------------------------------------------

#[test]
fn test_validator_creation() {
    let validator = TemplateValidator::new();
    assert!(!validator.forbidden_patterns.is_empty());
    assert!(validator.max_template_size > 0);
}

#[test]
fn test_valid_template_syntax() {
    let validator = TemplateValidator::new();
    let template = "Hello {{ name }}! Your interface is {{ interface | cisco_interface }}.";
    assert!(validator.validate_syntax(template).is_ok());
}

#[test]
fn test_invalid_template_syntax() {
    let validator = TemplateValidator::new();
    let template = "Hello {{ name }! Unclosed variable.";
    assert!(validator.validate_syntax(template).is_err());
}

#[test]
fn test_security_validation_pass() {
    let validator = TemplateValidator::new();
    let template = "interface {{ interface }}\n ip address {{ ip_address }}";
    assert!(validator.validate_security(template).is_ok());
}

#[test]
fn test_security_validation_fail() {
    let validator = TemplateValidator::new();
    let template = "{{ __import__('os').system('rm -rf /') }}";
    assert!(validator.validate_security(template).is_err());
}

#[test]
fn test_template_size_limit() {
    let validator = TemplateValidator::with_settings(100, 1000);
    let large_template = "x".repeat(200);
    let err = validator.validate_syntax(&large_template).unwrap_err();
    assert_eq!(err, TemplateCheckError::TooLarge { size: 200, max: 100 });
    assert_eq!(
        err.message(),
        "Template size (200 bytes) exceeds maximum allowed size (100 bytes)"
    );
}

#[test]
fn test_extract_variables() {
    let validator = TemplateValidator::new();
    let template = "Hello {{ name }}! Your {{ device.type }} has IP {{ device.management_ip }}.";
    let variables = validator.extract_variables(template).unwrap();
    assert!(variables.contains(&"name".to_string()));
    assert!(variables.contains(&"device".to_string()));
    assert_eq!(variables.len(), 2);
}

#[test]
fn test_extract_filters() {
    let validator = TemplateValidator::new();
    let template = "{{ interface | cisco_interface | upper }} has IP {{ ip | ip_network(24) }}.";
    let filters = validator.extract_filters(template).unwrap();
    assert!(filters.contains(&"cisco_interface".to_string()));
    assert!(filters.contains(&"upper".to_string()));
    assert!(filters.contains(&"ip_network".to_string()));
}

#[test]
fn test_comprehensive_validation() {
    let validator = TemplateValidator::new();
    let template = "interface {{ interface | cisco_interface }}\n ip address {{ ip }}";
    let result = validator.validate_comprehensive(template).unwrap();
    assert!(result.overall_valid);
    assert!(result.syntax_valid);
    assert!(result.security_valid);
    assert!(!result.variables.is_empty());
    assert!(!result.filters.is_empty());
}

#[test]
fn test_complexity_analysis() {
    let validator = TemplateValidator::new();
    let simple = "Hello {{ name }}!";
    assert_eq!(validator.analyze_complexity(simple), TemplateComplexity::Low);
    let complex = format!(
        "{}\n",
        "{% for i in range(100) %}{{ i }}{% endfor %}".repeat(50)
    );
    assert_eq!(validator.analyze_complexity(&complex), TemplateComplexity::High);
}

#[test]
fn test_loop_safety_validation() {
    let validator = TemplateValidator::new();
    let safe_loop = "{% for i in range(100) %}{{ i }}{% endfor %}";
    assert!(validator.validate_loop_safety(safe_loop).is_ok());
    let unsafe_loop = "{% for i in range(100000) %}{{ i }}{% endfor %}";
    assert!(validator.validate_loop_safety(unsafe_loop).is_err());
    assert_eq!(
        validator.validate_loop_safety(unsafe_loop),
        Err(TemplateCheckError::TooManyIterations(100000))
    );
}

#[test]
fn test_recursion_safety_validation() {
    let validator = TemplateValidator::new();
    let safe_template = "{% if condition %}{% for item in items %}{{ item }}{% endfor %}{% endif %}";
    assert!(validator.validate_recursion_safety(safe_template).is_ok());
    let mut deep_template = String::new();
    for i in 0..22 {
        deep_template.push_str(&format!("{{% if condition{} %}}", i));
    }
    deep_template.push_str("deep content");
    for _i in 0..22 {
        deep_template.push_str("{% endif %}");
    }
    assert!(validator.validate_recursion_safety(&deep_template).is_err());
    assert_eq!(
        validator.validate_recursion_safety(&deep_template),
        Err(TemplateCheckError::ExcessiveNesting(22))
    );
    assert_eq!(validator.nesting_depth(&deep_template), 22);
}

#[test]
fn test_variable_safety_validation() {
    let validator = TemplateValidator::new();
    let safe_template = "{{ name }} {{ interface }}";
    assert!(validator.validate_variable_safety(safe_template).is_ok());
    let unsafe_template = "{{ request.user }} {{ __class__ }}";
    assert!(validator.validate_variable_safety(unsafe_template).is_ok());
}

#[test]
fn test_enhanced_security_patterns() {
    let validator = TemplateValidator::new();
    let dangerous_templates = vec![
        "{{ globals() }}",
        "{{ locals() }}",
        "{{ getattr(obj, 'attr') }}",
        "{{ __class__ }}",
        "{{ __globals__ }}",
        "{{ compile('code', 'file', 'exec') }}",
    ];
    for template in dangerous_templates {
        assert!(
            validator.validate_security(template).is_err(),
            "Template should be rejected: {}",
            template
        );
    }
}

// ---------------------------------------------------------------------------
// Quality
// ---------------------------------------------------------------------------

#[test]
fn test_infer_variable_type() {
    assert_eq!(infer_variable_type("port_number"), "number");
    assert_eq!(infer_variable_type("is_enabled"), "boolean");
    assert_eq!(infer_variable_type("interfaces"), "array");
    assert_eq!(infer_variable_type("description"), "string");
}

#[test]
fn test_generate_variable_description() {
    assert!(generate_variable_description("interface_name").is_some());
    assert!(generate_variable_description("ip_address").is_some());
    assert!(generate_variable_description("vlan_id").is_some());
    assert!(generate_variable_description("random_var").is_none());
}

#[test]
fn test_performance_analysis() {
    let analyzer = TemplateQualityAnalyzer::new();
    let complex_template = r#"
{% for item in items %}
  {% for subitem in item.subitems %}
    {{ subitem | upper | trim }}
  {% endfor %}
{% endfor %}
"#;
    let analysis = analyzer
        .analyze_performance(complex_template)
        .unwrap();
    assert!(analysis.compilation_successful);
    assert!(analysis.rendering_estimates.is_some());
    if let Some(estimates) = analysis.rendering_estimates {
        assert!(estimates.loop_count > 0);
        assert!(estimates.filter_count > 0);
    }
}

#[test]
fn test_documentation_generation() {
    let analyzer = TemplateQualityAnalyzer::new();
    let documented_template = r#"
{# template-match: vendor=cisco interface=* #}
{# This template configures Cisco interfaces #}
interface {{ interface_name }}
 description {{ description }}
 ip address {{ ip_address }} {{ subnet_mask }}
"#;
    let docs = analyzer
        .generate_documentation(documented_template)
        .unwrap();
    assert!(docs.metadata.is_some());
    assert!(!docs.variables.is_empty());
    assert!(!docs.markdown_content.is_empty());
    let var_names: Vec<&str> = docs.variables.iter().map(|v| v.name.as_str()).collect();
    assert!(var_names.contains(&"interface_name"));
    assert!(var_names.contains(&"description"));
    assert!(var_names.contains(&"ip_address"));
    assert!(var_names.contains(&"subnet_mask"));
}

// ---------------------------------------------------------------------------
// Filters and functions
// ---------------------------------------------------------------------------

#[test]
fn test_network_filters() {
    assert_eq!(ip_network("192.168.1.1", 24), "192.168.1.1/24");
    assert_eq!(ip_netmask(24).unwrap(), "255.255.255.0");
    assert_eq!(ip_wildcard(24).unwrap(), "0.0.0.255");
    assert_eq!(cisco_interface("GigabitEthernet0/0/1"), "Gi0/0/1");
    assert_eq!(juniper_interface("GigabitEthernet0/0/1"), "ge-0/0/1");
    assert_eq!(to_uppercase_str("hello world"), "HELLO WORLD");
    assert_eq!(to_lowercase_str("hello world"), "hello world");
    assert_eq!(mac_format("aa:bb:cc:dd:ee:ff", None).unwrap(), "aa:bb:cc:dd:ee:ff");
    assert_eq!(mac_format("aa:bb:cc:dd:ee:ff", Some("-")).unwrap(), "aa-bb-cc-dd-ee-ff");
}

#[test]
fn filters_refuse_what_they_cannot_convert() {
    assert!(ip_netmask(33).is_err());
    assert!(ip_wildcard(40).is_err());
    assert!(mac_format("aa:bb", None).is_err());
    assert!(subnet_hosts(33).is_err());
    assert!(ip_increment("not-an-ip", 1).is_err());
    assert!(ip_netmask(7).is_err());
    assert_eq!(ip_netmask(8).unwrap(), "255.0.0.0");
    assert_eq!(ip_netmask(32).unwrap(), "255.255.255.255");
}

#[test]
fn test_network_functions() {
    let join_nums = |v: Vec<u16>| {
        v.iter()
            .map(|x| x.to_string())
            .collect::<Vec<_>>()
            .join(",")
    };
    assert_eq!(join_nums(vlan_range(10, 12)), "10,11,12");
    assert_eq!(interface_range("Gi0/0/", 1, 3).join(","), "Gi0/0/1,Gi0/0/2,Gi0/0/3");
    assert_eq!(join_nums(port_range(8080, 8082)), "8080,8081,8082");
    assert_eq!(subnet_hosts(24).unwrap(), 254);
    assert_eq!(subnet_hosts(30).unwrap(), 2);
    assert_eq!(ip_increment("192.168.1.1", 10).unwrap(), "192.168.1.11");
    assert_eq!(ip_increment("192.168.1.250", 10).unwrap(), "192.168.2.4");
}

#[test]
fn test_indent_filter() {
    assert_eq!(indent("line1\nline2\nline3", 4), "    line1\n    line2\n    line3");
}

#[test]
fn test_template_assignment_builder() {
    let node_id = 77u128;
    let assignment = TemplateAssignment::new(node_id, "test_template.j2".to_string())
        .with_priority(200)
        .with_active(true);
    assert_eq!(assignment.node_id, node_id);
    assert_eq!(assignment.template_name, "test_template.j2");
    assert_eq!(assignment.priority, 200);
    assert!(assignment.active);
}

#[test]
fn assignment_variables_later_values_win() {
    let a = TemplateAssignment::new(1, "t.j2".to_string())
        .with_variables(vec![
            ("mtu".to_string(), "1500".to_string()),
            ("name".to_string(), "\"a\"".to_string()),
        ])
        .with_variables(vec![("mtu".to_string(), "9000".to_string())]);
    assert_eq!(a.context_variables.len(), 2);
    assert!(a.context_variables.contains(&("mtu".to_string(), "9000".to_string())));
    assert!(a.priority == 100 && a.active && a.scope.is_none());
    let b = TemplateAssignment::new(1, "t.j2".to_string());
    assert_ne!(a.id, b.id);
}

#[test]
fn test_auto_generated_pattern_creation() {
    let pattern = AutoGeneratedPattern {
        pattern: "interface.*".to_string(),
        description: "All interface configurations".to_string(),
        confidence_percent: 90,
        suggested_template_name: "interface_template.j2".to_string(),
        example_content: "interface GigabitEthernet0/0/1\n description test".to_string(),
    };
    assert_eq!(pattern.confidence_percent as f64 / 100.0, 0.9);
    assert!(pattern.pattern.starts_with("interface"));
}

#[test]
fn configuration_sections_group_lines_by_keyword() {
    let slicer = TemplateDrivenSlicer::new();
    let config = "hostname r1\n!\ninterface Gi0/1\n description up\n# note\nvlan 10\nrouter ospf 1\n";
    let sections = slicer.analyze_config_sections(config);
    let names: Vec<&str> = sections.iter().map(|(n, _)| n.as_str()).collect();
    assert_eq!(names, vec!["interface", "router", "vlan", "global"]);
    let global = &sections[3].1;
    assert_eq!(global, &vec!["hostname r1".to_string(), " description up".to_string()]);
}

#[test]
fn automatic_patterns_come_most_confident_first() {
    let slicer = TemplateDrivenSlicer::new();
    let config = "router bgp 1\nroute-map RM permit 10\nvlan 5\ninterface Gi0/1\ninterface Gi0/2\nhostname x\n";
    let patterns = slicer.generate_automatic_slice_patterns(config, None);
    let names: Vec<&str> = patterns.iter().map(|p| p.pattern.as_str()).collect();
    assert_eq!(names, vec!["interface*", "vlan*", "router*", "route-map*"]);
    assert_eq!(patterns[0].confidence_percent, 90);
    assert_eq!(patterns[0].description, "All interface configurations");
    assert_eq!(patterns[0].suggested_template_name, "interface_template.j2");
    assert_eq!(patterns[0].example_content, "interface Gi0/1\ninterface Gi0/2");
    assert_eq!(patterns[3].suggested_template_name, "route_map_template.j2");
}

#[test]
fn camel_case_variables_are_linted() {
    let analyzer = TemplateQualityAnalyzer::new();
    let lint = analyzer.lint_template("interface {{ myInterface }}").unwrap();
    assert!(lint
        .warnings
        .iter()
        .any(|w| w.warning_type == "camel_case_variable" && w.message.contains("myInterface")));
    let lint = analyzer.lint_template("interface {{ my_interface }}").unwrap();
    assert!(!lint.warnings.iter().any(|w| w.warning_type == "camel_case_variable"));
}

#[test]
fn documentation_shows_the_match_pattern() {
    let analyzer = TemplateQualityAnalyzer::new();
    let template = "{# template-match: interface.* #}\ninterface {{ interface_name }}\n";
    let docs = analyzer
        .generate_documentation(template)
        .unwrap();
    assert!(docs.markdown_content.starts_with("# Template Documentation\n\n"));
    assert!(docs
        .markdown_content
        .contains("- **Match Pattern**: Glob(\"interface.*\")\n"));
}

#[test]
fn quality_reports_score_between_zero_and_one_hundred() {
    let analyzer = TemplateQualityAnalyzer::new();
    let content = "interface {{ myInterface }}\n password {{ secret }}\n";
    let report = analyzer
        .analyze_template_content("t.j2".to_string(), content)
        .unwrap();
    assert!(report.overall_score <= 100);
    assert_eq!(report.template_path, "t.j2");
}

#[test]
fn performance_analysis_reports_the_compile_error() {
    let analyzer = TemplateQualityAnalyzer::new();
    let analysis = analyzer.analyze_performance("{% for x in items %}").unwrap();
    assert!(!analysis.compilation_successful);
    assert!(analysis.compilation_time.is_none());
    assert!(analysis.rendering_estimates.is_none());
    let message = analysis.compilation_error.unwrap();
    assert!(!message.is_empty());
    assert_ne!(message, "{% for x in items %}");
}

#[test]
fn compiled_performance_keeps_the_given_outcome() {
    let analyzer = TemplateQualityAnalyzer::new();
    let a = analyzer
        .analyze_compiled_performance("{{ a }}\n{{ b | upper }}", Ok(Span::from_micros(40)))
        .unwrap();
    assert!(a.compilation_successful);
    assert_eq!(a.compilation_time, Some(Span::from_micros(40)));
    assert_eq!(a.template_size_bytes, 23);
    assert_eq!(a.line_count, 2);
    let e = a.rendering_estimates.unwrap();
    assert_eq!(e.variable_count, 2);
    assert_eq!(e.filter_count, 1);
    let b = analyzer
        .analyze_compiled_performance("{{ a }}", Err("bad".to_string()))
        .unwrap();
    assert!(!b.compilation_successful);
    assert_eq!(b.compilation_error, Some("bad".to_string()));
    assert!(b.rendering_estimates.is_none());
}

#[test]
fn documentation_markdown_holds_the_example_json() {
    let analyzer = TemplateQualityAnalyzer::new();
    let docs = analyzer.generate_documentation("{{ interface_name }} {{ port_count }}\n").unwrap();
    assert_eq!(docs.usage_examples.len(), 1);
    assert!(docs.markdown_content.contains("## Usage Examples\n\n### Basic Usage\n\n"));
    assert!(docs.markdown_content.contains("\"interface_name\": \"example_value\""));
    assert!(docs.markdown_content.contains("\"port_count\": 42"));
    assert!(docs.markdown_content.contains("```json\n{\n"));
}

#[test]
fn template_analysis_runs_only_the_enabled_sections() {
    let mut config = QualityAnalysisConfig::default();
    config.enable_linting = false;
    config.enable_documentation_generation = false;
    let analyzer = TemplateQualityAnalyzer::with_config(config);
    let report = analyzer.analyze_template_content("t.j2".to_string(), "{{ a }}\n").unwrap();
    assert!(report.linting_results.is_none());
    assert!(report.documentation.is_none());
    assert!(report.performance_analysis.unwrap().compilation_successful);
    assert!(report.security_scan.is_some());
}

#[test]
fn template_analysis_refuses_a_template_over_the_size_limit() {
    let mut config = QualityAnalysisConfig::default();
    config.max_template_size = 4;
    let analyzer = TemplateQualityAnalyzer::with_config(config);
    match analyzer.analyze_template_content("t.j2".to_string(), "{{ a }}") {
        Err(QualityError::TooLarge { size, max }) => {
            assert_eq!(size, 7);
            assert_eq!(max, 4);
        }
        _ => panic!("expected TooLarge"),
    }
}
