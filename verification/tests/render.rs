use iced_docgen::render::{chrono_date, date_from_unix, section_title, OrgRenderer};
use iced_docgen::{group_by_section, DocEntry, DocKind, DocMetadata, GenerateOptions};

#[test]
fn test_section_title() {
    assert_eq!(section_title("views"), "Views");
    assert_eq!(section_title("unknown"), "unknown");
}

#[test]
fn test_chrono_date_format() {
    let date = chrono_date();
    assert!(date.len() == 10);
    assert!(date.chars().nth(4) == Some('-'));
    assert!(date.chars().nth(7) == Some('-'));
}

#[test]
fn test_render_empty_section() {
    let options = GenerateOptions::default();
    let renderer = OrgRenderer::new(&options);
    let output = renderer.render_section("views", &[]);

    assert!(output.contains("#+TITLE:"));
    assert!(output.contains("Views"));
}

#[test]
fn civil_dates() {
    assert_eq!(date_from_unix(0), "1970-01-01");
    assert_eq!(date_from_unix(951_782_400), "2000-02-29");
    assert_eq!(date_from_unix(1_709_251_199), "2024-02-29");
    assert_eq!(date_from_unix(4_102_444_800), "2100-01-01");
}

fn entry(id: &str, section: &str) -> DocEntry {
    DocEntry {
        kind: DocKind::Function,
        id: id.to_string(),
        title: id.to_string(),
        section: section.to_string(),
        description: String::new(),
        source_file: "f.rs".to_string(),
        source_line: 1,
        tags: vec![],
        links_to: vec![],
        see_also: vec![],
        metadata: DocMetadata::Empty,
    }
}

#[test]
fn grouping_by_section() {
    let es = vec![entry("a", "views"), entry("b", "state"), entry("c", "views")];
    let g = group_by_section(&es);
    assert_eq!(g.len(), 2);
    assert_eq!(g[0].0, "views");
    assert_eq!(g[0].1.len(), 2);
    assert_eq!(g[1].0, "state");
    assert_eq!(g.iter().map(|(_, es)| es.len()).sum::<usize>(), es.len());
}

#[test]
fn section_titles_known() {
    assert_eq!(section_title("tests"), "End-to-End Tests");
    assert_eq!(section_title("usecases"), "Use Cases");
}

#[test]
fn documentation_files_for_project() {
    let options = GenerateOptions {
        output_dir: "out".to_string(),
        screenshots_dir: "screenshots".to_string(),
        project_name: "Test Project".to_string(),
        include_ai_export: false,
        ice_tests_dir: None,
    };
    let es = vec![entry("a", "views"), entry("b", "state"), entry("c", "views")];
    let files = iced_docgen::documentation_files(&options, &es, &[], "2024-01-02");
    let names: Vec<&str> = files.iter().map(|(n, _)| n.as_str()).collect();
    assert_eq!(names, vec!["views.org", "state.org", "index.org"]);
    assert!(files[2].1.contains("#+TITLE: Test Project Documentation"));
    assert!(files[2].1.contains("#+DATE: 2024-01-02"));
    assert!(files[0].1.starts_with("#+TITLE: Test Project - Views\n#+DATE: 2024-01-02\n\n"));
    let idx = &files[2].1;
    assert!(idx.find("[[file:state.org]").unwrap() < idx.find("[[file:views.org]").unwrap());
}

#[test]
fn index_ignores_section_order_and_sections_concatenate() {
    let options = GenerateOptions::default();
    let r = OrgRenderer::new(&options);
    let es = vec![entry("a", "views"), entry("b", "state")];
    let v: Vec<&DocEntry> = vec![&es[0]];
    let s: Vec<&DocEntry> = vec![&es[1]];
    let one = vec![("views".to_string(), v.clone()), ("state".to_string(), s.clone())];
    let two = vec![("state".to_string(), s.clone()), ("views".to_string(), v.clone())];
    assert_eq!(r.render_index_dated(&one, "2024-01-01"), r.render_index_dated(&two, "2024-01-01"));
    let both: Vec<&DocEntry> = vec![&es[0], &es[1]];
    let whole = r.render_section_dated("views", &both, "d");
    let first = r.render_section_dated("views", &v, "d");
    let second = r.render_section_dated("views", &s, "d");
    let header = "#+TITLE: Project - Views\n#+DATE: d\n\n";
    assert!(second.starts_with(header));
    assert_eq!(whole, format!("{}{}", first, &second[header.len()..]));
}
