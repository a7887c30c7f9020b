#[derive(Debug, Clone, Default)]
pub struct TestState {
    pub counter: i32,
    pub name: String,
}

#[test]
fn test_increment_counter() {
    let mut state = TestState::default();
    state.counter += 1;
    assert_eq!(state.counter, 1);
}

#[test]
fn ice_entry_for_test_file() {
    let meta = iced_docgen::ice::parse_ice_content("-----\nclick \"Go\"\n", "tests/ice/go.ice")
        .unwrap();
    let name = iced_docgen::ice::test_name_from_path("tests/ice/go.ice");
    let e = iced_docgen::ice_doc_entry(name, meta);
    assert_eq!(e.title, "Test: go");
    assert_eq!(e.section, "tests");
    assert_eq!(e.source_file, "tests/ice/go.ice");
}
