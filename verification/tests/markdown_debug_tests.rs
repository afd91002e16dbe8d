use unet_core::template::header::{MatchPattern, TemplateHeader, TemplateScope};
use unet_core::template::quality::{TemplateDocumentation, generate_markdown_documentation};

fn doc_with(header: TemplateHeader) -> String {
    let mut doc = TemplateDocumentation::new();
    doc.metadata = Some(header);
    generate_markdown_documentation(&doc)
}

#[test]
fn markdown_metadata_writes_the_debug_forms() {
    let scope = TemplateScope {
        device_types: Some(vec!["router".to_string(), "sw\"itch".to_string()]),
        vendors: None,
        contexts: Some(vec![]),
    };
    let header = TemplateHeader {
        raw: "template-match: interface.*".to_string(),
        pattern: MatchPattern::Glob("interface.*\n".to_string()),
        priority: Some(5),
        scope: Some(scope.clone()),
    };
    let md = doc_with(header.clone());
    assert!(md.contains(&format!("- **Match Pattern**: {:?}\n", header.pattern)));
    assert!(md.contains(&format!("- **Scope**: {:?}\n", scope)));
    assert!(md.contains("- **Scope**: TemplateScope { device_types: Some([\"router\", \"sw\\\"itch\"]), vendors: None, contexts: Some([]) }"));

    for pattern in [
        MatchPattern::Exact("a".to_string()),
        MatchPattern::Regex("^x$".to_string()),
        MatchPattern::HierarchicalPath("a.*.b".to_string()),
    ] {
        let h = TemplateHeader { raw: String::new(), pattern: pattern.clone(), priority: None, scope: None };
        let md = doc_with(h);
        assert!(md.contains(&format!("- **Match Pattern**: {:?}\n", pattern)));
        assert!(!md.contains("- **Scope**"));
    }
}
