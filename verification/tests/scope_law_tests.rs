use unet_core::template::header::{MatchPattern, TemplateHeader};
use unet_core::template::scope::{ConflictDetector, ScopeContext, ScopeResolver, TemplateComposer};

fn header(pattern: &str, priority: Option<u32>) -> TemplateHeader {
    TemplateHeader {
        raw: format!("template-match: {pattern}"),
        pattern: MatchPattern::Glob(pattern.to_string()),
        priority,
        scope: None,
    }
}

fn context() -> ScopeContext {
    ScopeContext {
        device_type: Some("router".to_string()),
        vendor: Some("cisco".to_string()),
        context: "interface".to_string(),
        metadata: Vec::new(),
    }
}

#[test]
fn resolution_and_conflicts_ignore_the_order_of_templates() {
    let entries = vec![
        ("b".to_string(), ("2".to_string(), header("interface.*", Some(100)))),
        ("a".to_string(), ("1".to_string(), header("interface.*", Some(100)))),
        ("c".to_string(), ("3".to_string(), header("vlan.*", Some(300)))),
        ("d".to_string(), ("4".to_string(), header("interface.*", Some(150)))),
    ];
    let mut reversed = entries.clone();
    reversed.reverse();
    let resolver = ScopeResolver::new();
    let one: Vec<String> = resolver.resolve_multiple(&entries, &context()).into_iter().map(|s| s.id).collect();
    let two: Vec<String> = resolver.resolve_multiple(&reversed, &context()).into_iter().map(|s| s.id).collect();
    assert_eq!(one, vec!["c", "d", "a", "b"]);
    assert_eq!(one, two);

    let c1 = ConflictDetector::new().detect_conflicts(&entries, &context());
    let c2 = ConflictDetector::with_resolver(ScopeResolver::new()).detect_conflicts(&reversed, &context());
    assert_eq!(c1.len(), 1);
    assert_eq!(c1, c2);
    assert_eq!(c1[0].winning_template, "d");
    assert_eq!(c1[0].conflicting_templates, vec!["a", "b"]);
}

#[test]
fn one_conflict_per_shared_pattern_with_the_highest_priority_winning() {
    let entries = vec![
        ("x".to_string(), ("1".to_string(), header("vlan.*", Some(200)))),
        ("b".to_string(), ("2".to_string(), header("interface.*", Some(100)))),
        ("a".to_string(), ("3".to_string(), header("interface.*", Some(100)))),
        ("y".to_string(), ("4".to_string(), header("vlan.*", Some(250)))),
        ("z".to_string(), ("5".to_string(), header("bgp.*", Some(10)))),
    ];
    let conflicts = ConflictDetector::new().detect_conflicts(&entries, &context());
    assert_eq!(conflicts.len(), 2);
    let vlan = conflicts.iter().find(|c| c.pattern == "glob:vlan.*").unwrap();
    assert_eq!(vlan.winning_template, "y");
    assert_eq!(vlan.conflicting_templates, vec!["x"]);
    assert_eq!(vlan.resolution_reason, "Higher priority (250 vs 200)");
    let interface = conflicts.iter().find(|c| c.pattern == "glob:interface.*").unwrap();
    assert_eq!(interface.winning_template, "a");
    assert_eq!(interface.conflicting_templates, vec!["b"]);
    assert_eq!(interface.resolution_reason, "Lexicographic ordering by template ID");
}

#[test]
fn composition_keeps_only_the_winner_of_each_matching_pattern() {
    let entries = vec![
        ("low".to_string(), ("1".to_string(), header("interface.*", Some(100)))),
        ("high".to_string(), ("2".to_string(), header("interface.*", Some(200)))),
        ("other".to_string(), ("3".to_string(), header("vlan.*", Some(300)))),
    ];
    let result = TemplateComposer::new()
        .compose(&entries, &context(), "interface.GigabitEthernet0/1")
        .unwrap();
    let ids: Vec<&str> = result.selected_templates.iter().map(|s| s.id.as_str()).collect();
    assert_eq!(ids, vec!["high"]);
    assert_eq!(result.conflicts.len(), 1);
    assert_eq!(result.conflicts[0].conflicting_templates, vec!["low"]);
}
