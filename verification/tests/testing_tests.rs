use unet_core::template::loader::{
    extract_dependencies, list_template_names, template_file_names, use_cached_template,
};
use unet_core::template::testing::{
    PerformanceTestResult, TemplateTestFramework, TemplateUnitTest, TestFrameworkConfig,
    TestSuiteResult, UnitTestResult, compare_with_baseline, normalize_config_output,
    summarize_performance,
};
use unet_core::time::Span;

#[test]
fn test_normalize_config_output() {
    let input = "  interface GigabitEthernet0/0  \n  \n   description test    \n\n";
    let expected = "interface GigabitEthernet0/0\ndescription test";
    let result = normalize_config_output(input);
    assert_eq!(result, expected);
}

#[test]
fn normalizing_nothing_gives_nothing() {
    assert_eq!(normalize_config_output(""), "");
    assert_eq!(normalize_config_output(" \n\t\n"), "");
    assert_eq!(normalize_config_output("a\r\n b \r\n"), "a\nb");
}

#[test]
fn test_test_suite_result_summary() {
    let mut suite_result = TestSuiteResult::new();
    suite_result.unit_test_results.push(UnitTestResult {
        test_name: "test1".to_string(),
        passed: true,
        duration: Span::from_millis(100),
        error: None,
    });
    suite_result.unit_test_results.push(UnitTestResult {
        test_name: "test2".to_string(),
        passed: false,
        duration: Span::from_millis(200),
        error: Some("Test failed".to_string()),
    });
    suite_result.calculate_summary();
    assert_eq!(suite_result.summary.total_tests, 2);
    assert_eq!(suite_result.summary.total_passed, 1);
    assert_eq!(suite_result.summary.total_failed, 1);
    assert_eq!(suite_result.summary.total_skipped, 0);
}

#[test]
fn test_framework_creation() {
    let framework = TemplateTestFramework::new();
    assert!(framework.is_ok());
}

#[test]
fn test_framework_with_config() {
    let config = TestFrameworkConfig {
        test_timeout: Span::from_secs(10),
        run_integration_tests: false,
        verbose: true,
        ..Default::default()
    };
    let framework = TemplateTestFramework::with_config(config);
    assert!(framework.is_ok());
    let framework = framework.unwrap();
    assert_eq!(framework.config.test_timeout, Span::from_secs(10));
    assert!(!framework.config.run_integration_tests);
    assert!(framework.config.run_regression_tests);
    assert_eq!(framework.config.suite_timeout, Span::from_secs(300));
}

fn hello_test() -> TemplateUnitTest {
    TemplateUnitTest {
        name: "test_basic_template".to_string(),
        template_content: "Hello {{ name }}!".to_string(),
        test_context: vec![("name".to_string(), "\"World\"".to_string())],
        expected_output: Some("Hello World!".to_string()),
        expected_patterns: None,
        forbidden_patterns: None,
        description: Some("Basic template rendering test".to_string()),
    }
}

#[test]
fn test_unit_test_registration() {
    let mut framework = TemplateTestFramework::new().unwrap();
    framework.register_unit_test(hello_test());
    assert_eq!(framework.test_registry.unit_tests.len(), 1);
}

#[test]
fn unit_output_checks() {
    let framework = TemplateTestFramework::new().unwrap();
    let test = hello_test();
    assert_eq!(framework.check_unit_output(&test, "Hello World!"), Ok(()));
    assert_eq!(
        framework.check_unit_output(&test, "Hello there!"),
        Err("Template output mismatch:\nExpected: Hello World!\nActual: Hello there!".to_string())
    );

    let mut with_patterns = hello_test();
    with_patterns.expected_output = None;
    with_patterns.expected_patterns = Some(vec!["^Hello".to_string(), "World".to_string()]);
    with_patterns.forbidden_patterns = Some(vec!["password".to_string()]);
    assert_eq!(framework.check_unit_output(&with_patterns, "Hello World!"), Ok(()));
    assert_eq!(
        framework.check_unit_output(&with_patterns, "Hi World!"),
        Err("Template output does not match pattern '^Hello': Hi World!".to_string())
    );
    assert_eq!(
        framework.check_unit_output(&with_patterns, "Hello World! password"),
        Err("Template output contains forbidden pattern 'password': Hello World! password".to_string())
    );
    with_patterns.expected_patterns = Some(vec!["[unclosed".to_string()]);
    assert_eq!(
        framework.check_unit_output(&with_patterns, "Hello World!"),
        Err("Invalid regex pattern: [unclosed".to_string())
    );
}

#[test]
fn baseline_comparison_allows_whitespace_differences() {
    assert_eq!(compare_with_baseline("  a\n b  ", "a\nb"), Ok(()));
    assert_eq!(compare_with_baseline("x\n\n  y", "x\ny\n"), Ok(()));
    assert_eq!(
        compare_with_baseline("a\nc", "a\nb"),
        Err("Regression test failed - output differs from baseline:\nExpected:\na\nb\nActual:\na\nc".to_string())
    );
}

#[test]
fn performance_statistics_and_limits() {
    let name = "perf".to_string();
    let ds = vec![Span::from_millis(10), Span::from_millis(30), Span::from_millis(20)];
    let r = summarize_performance(&name, &ds, None, None);
    assert!(r.passed);
    assert_eq!(r.iterations, 3);
    assert_eq!(r.total_duration, Span::from_millis(60));
    assert_eq!(r.average_duration, Span::from_millis(20));
    assert_eq!(r.min_duration, Span::from_millis(10));
    assert_eq!(r.max_duration, Span::from_millis(30));
    assert_eq!(r.error, None);

    let r = summarize_performance(&name, &ds, Some(Span::from_millis(15)), None);
    assert!(!r.passed);
    assert_eq!(r.error, Some("Average duration 20ms exceeds maximum 15ms".to_string()));

    let r = summarize_performance(
        &name,
        &ds,
        Some(Span::from_millis(15)),
        Some(Span::from_millis(25)),
    );
    assert!(!r.passed);
    assert_eq!(r.error, Some("Maximum duration 30ms exceeds limit 25ms".to_string()));

    let r = summarize_performance(&name, &ds, Some(Span::from_millis(20)), Some(Span::from_millis(30)));
    assert!(r.passed);
}

#[test]
fn the_report_lists_every_section() {
    let framework = TemplateTestFramework::new().unwrap();
    let mut result = TestSuiteResult::new();
    result.unit_test_results.push(UnitTestResult {
        test_name: "u1".to_string(),
        passed: true,
        duration: Span::from_millis(5),
        error: None,
    });
    result.unit_test_results.push(UnitTestResult {
        test_name: "u2".to_string(),
        passed: false,
        duration: Span::from_millis(7),
        error: Some("boom".to_string()),
    });
    result.performance_test_results.push(PerformanceTestResult {
        test_name: "p1".to_string(),
        passed: true,
        iterations: 3,
        total_duration: Span::from_millis(6),
        average_duration: Span::from_millis(2),
        min_duration: Span::from_millis(1),
        max_duration: Span::from_millis(3),
        error: None,
    });
    result.total_duration = Span::from_secs(1);
    result.calculate_summary();
    let report = framework.generate_report(&result).unwrap();
    let expected = "# Template Test Suite Report\n\n\
**Execution Time:** 1s\n\
**Total Tests:** 3\n\
**Passed:** 2\n\
**Failed:** 1\n\
**Skipped:** 0\n\n\
## Unit Tests\n\n\
- **u1**: ✅ PASSED (5ms)\n\
- **u2**: ❌ FAILED (7ms)\n  Error: boom\n\
\n\
## Performance Tests\n\n\
- **p1**: ✅ PASSED - 3 iterations, avg: 2ms\n";
    assert_eq!(report, expected);
}

#[test]
fn test_run_empty_test_suite() {
    let framework = TemplateTestFramework::new().unwrap();
    let mut suite_result = TestSuiteResult::new();
    suite_result.calculate_summary();
    assert_eq!(suite_result.summary.total_tests, 0);
    assert_eq!(suite_result.summary.total_passed, 0);
    assert_eq!(suite_result.summary.total_failed, 0);
    let report = framework.generate_report(&suite_result).unwrap();
    assert!(report.starts_with("# Template Test Suite Report\n\n"));
    assert!(!report.contains("## Unit Tests"));
}

// ---------------------------------------------------------------------------
// Loader decisions
// ---------------------------------------------------------------------------

#[test]
fn template_file_names_are_tried_in_order() {
    assert_eq!(
        template_file_names("base"),
        vec!["base", "base.j2", "base.jinja", "base.jinja2", "base.tmpl"]
    );
}

#[test]
fn dependencies_are_found_in_include_extends_and_import() {
    let content = "{% extends \"base.j2\" %}\n{% include 'header.j2' %}\n{% import \"macros.j2\" as m %}\n{% include \"footer.j2\" %}";
    assert_eq!(
        extract_dependencies(content),
        vec!["header.j2", "footer.j2", "base.j2", "macros.j2"]
    );
    assert!(extract_dependencies("no statements here").is_empty());
}

#[test]
fn cached_templates_are_used_when_fresh() {
    assert!(!use_cached_template(false, None, None));
    assert!(use_cached_template(false, Some(Span::from_secs(5)), None));
    assert!(!use_cached_template(true, Some(Span::from_secs(5)), None));
    assert!(use_cached_template(true, Some(Span::from_secs(5)), Some(Span::from_secs(5))));
    assert!(!use_cached_template(true, Some(Span::from_secs(5)), Some(Span::from_secs(6))));
}

#[test]
fn listed_template_names_are_sorted_and_distinct() {
    let found = vec![
        "b".to_string(),
        "a".to_string(),
        "b".to_string(),
        "c".to_string(),
    ];
    assert_eq!(list_template_names(found), vec!["a", "b", "c"]);
}

use unet_core::template::loader::{DependencyError, DependencyWalk, WalkAction, WalkEvent};

fn walk_with(root: &str, sources: &[(&str, &str)]) -> WalkAction {
    let (mut walk, mut action) = DependencyWalk::start(root.to_string());
    loop {
        match action {
            WalkAction::Load(name) => {
                let event = match sources.iter().find(|(n, _)| *n == name) {
                    Some((_, content)) => WalkEvent::Loaded(content.to_string()),
                    None => WalkEvent::LoadFailed(format!("Template '{}' not found", name)),
                };
                action = walk.step(event);
            }
            other => return other,
        }
    }
}

#[test]
fn dependencies_resolve_before_their_dependents() {
    let sources = [
        ("page", "{% extends \"base\" %}{% include \"nav\" %}"),
        ("base", "{% include \"nav\" %}"),
        ("nav", "plain"),
    ];
    match walk_with("page", &sources) {
        WalkAction::Done(order) => assert_eq!(order, vec!["nav", "base", "page"]),
        other => panic!("unexpected {other:?}"),
    }
}

#[test]
fn circular_dependencies_are_reported() {
    let sources = [
        ("a", "{% include \"b\" %}"),
        ("b", "{% include \"a\" %}"),
    ];
    match walk_with("a", &sources) {
        WalkAction::Failed(e) => {
            assert_eq!(e, DependencyError::Circular("a".to_string()));
            assert_eq!(e.message(), "Circular dependency detected involving template: a");
        }
        other => panic!("unexpected {other:?}"),
    }
    match walk_with("self", &[("self", "{% include \"self\" %}")]) {
        WalkAction::Failed(DependencyError::Circular(n)) => assert_eq!(n, "self"),
        other => panic!("unexpected {other:?}"),
    }
}

#[test]
fn a_missing_dependency_fails_the_walk() {
    match walk_with("a", &[("a", "{% include \"gone\" %}")]) {
        WalkAction::Failed(DependencyError::Load(m)) => assert_eq!(m, "Template 'gone' not found"),
        other => panic!("unexpected {other:?}"),
    }
}

use unet_core::template::testing::{TemplateTestScenarios, UnitTestBuilder};

#[test]
fn test_unit_test_builder() {
    let test = UnitTestBuilder::new("test", "Hello {{ name }}")
        .with_context_var("name", "\"World\"")
        .expect_output("Hello World")
        .expect_pattern(r"Hello\s+\w+")
        .with_description("Test builder test")
        .build();
    assert_eq!(test.name, "test");
    assert_eq!(test.template_content, "Hello {{ name }}");
    assert_eq!(
        test.test_context.iter().find(|(k, _)| k == "name").map(|(_, v)| v.as_str()),
        Some("\"World\"")
    );
    assert_eq!(test.expected_output, Some("Hello World".to_string()));
    assert!(test.expected_patterns.is_some());
    assert_eq!(test.description, Some("Test builder test".to_string()));
}

#[test]
fn builder_patterns_accumulate_and_variables_are_replaced() {
    let test = UnitTestBuilder::new("t", "x")
        .with_context_var("a", "1")
        .with_context_var("a", "2")
        .with_context(vec![("b".to_string(), "3".to_string())])
        .expect_pattern("p1")
        .expect_pattern("p2")
        .forbid_pattern("f1")
        .build();
    assert_eq!(
        test.test_context,
        vec![("a".to_string(), "2".to_string()), ("b".to_string(), "3".to_string())]
    );
    assert_eq!(test.expected_patterns, Some(vec!["p1".to_string(), "p2".to_string()]));
    assert_eq!(test.forbidden_patterns, Some(vec!["f1".to_string()]));
}

#[test]
fn test_template_scenarios() {
    let interface_test = TemplateTestScenarios::basic_interface_test();
    assert_eq!(interface_test.name, "basic_interface");
    assert!(interface_test.expected_output.is_some());
    let vlan_test = TemplateTestScenarios::vlan_config_test();
    assert_eq!(vlan_test.name, "vlan_config");
    assert!(vlan_test.expected_patterns.is_some());
    let routing_test = TemplateTestScenarios::routing_config_test();
    assert_eq!(routing_test.name, "routing_config");
    let acl_test = TemplateTestScenarios::acl_config_test();
    assert_eq!(acl_test.name, "acl_config");
    assert!(acl_test.forbidden_patterns.is_some());
}

#[test]
fn scenario_outputs_pass_their_own_checks() {
    let framework = TemplateTestFramework::new().unwrap();
    let vlan = TemplateTestScenarios::vlan_config_test();
    assert_eq!(framework.check_unit_output(&vlan, "vlan 100\n name Data_VLAN"), Ok(()));
    let acl = TemplateTestScenarios::acl_config_test();
    assert_eq!(
        framework.check_unit_output(&acl, "access-list 100 permit tcp 10.0.0.0 0.255.255.255 any"),
        Ok(())
    );
}
