use iced_docgen::{
    entries_by_kind, entries_by_section, entries_by_tag, test_scenarios_by_tag, DocEntry,
    DocKind, DocMetadata, TestScenarioEntry,
};

fn entry(id: &str, kind: DocKind, section: &str, tags: &[&str]) -> DocEntry {
    DocEntry {
        kind,
        id: id.to_string(),
        title: id.to_string(),
        section: section.to_string(),
        description: String::new(),
        source_file: "f.rs".to_string(),
        source_line: 1,
        tags: tags.iter().map(|t| t.to_string()).collect(),
        links_to: vec![],
        see_also: vec![],
        metadata: DocMetadata::Empty,
    }
}

#[test]
fn test_doc_kind_equality() {
    assert_eq!(DocKind::Function, DocKind::Function);
    assert_ne!(DocKind::Function, DocKind::Struct);
}

#[test]
fn filters_keep_order() {
    let es = vec![
        entry("a", DocKind::Function, "views", &["ui"]),
        entry("b", DocKind::Struct, "state", &[]),
        entry("c", DocKind::Function, "views", &["x", "ui"]),
    ];
    let v: Vec<&str> = entries_by_section(&es, "views").iter().map(|e| e.id.as_str()).collect();
    assert_eq!(v, vec!["a", "c"]);
    let k: Vec<&str> = entries_by_kind(&es, DocKind::Struct).iter().map(|e| e.id.as_str()).collect();
    assert_eq!(k, vec!["b"]);
    let t: Vec<&str> = entries_by_tag(&es, "ui").iter().map(|e| e.id.as_str()).collect();
    assert_eq!(t, vec!["a", "c"]);
    assert!(entries_by_section(&es, "none").is_empty());
}

#[test]
fn scenarios_by_tag() {
    let s = TestScenarioEntry {
        id: "s".into(),
        title: "S".into(),
        description: String::new(),
        actor: "User".into(),
        preconditions: vec![],
        outcomes: vec![],
        tags: vec!["smoke".into()],
        source_file: "t.rs".into(),
        source_line: 2,
    };
    let all = vec![s];
    assert_eq!(test_scenarios_by_tag(&all, "smoke").len(), 1);
    assert_eq!(test_scenarios_by_tag(&all, "slow").len(), 0);
}
