use iced_docgen::ice::{
    parse_ice_content, parse_instruction, parse_viewport, test_name_from_path,
    try_parse_ice_content, try_parse_instruction, unquote, IceError,
};

#[test]
fn test_parse_viewport() {
    assert_eq!(parse_viewport("800x600"), Some((800, 600)));
    assert_eq!(parse_viewport("1024x768"), Some((1024, 768)));
    assert_eq!(parse_viewport("invalid"), None);
}

#[test]
fn test_parse_instruction_click() {
    let instr = parse_instruction(r#"click "Submit""#).unwrap();
    assert_eq!(instr.kind, "click");
    assert_eq!(instr.target, "Submit");
}

#[test]
fn test_parse_instruction_type() {
    let instr = parse_instruction(r#"type "Hello World""#).unwrap();
    assert_eq!(instr.kind, "type");
    assert_eq!(instr.value, Some("Hello World".to_string()));
}

#[test]
fn test_parse_instruction_tap() {
    let instr = parse_instruction("tap Enter").unwrap();
    assert_eq!(instr.kind, "tap");
    assert_eq!(instr.target, "Enter");
}

#[test]
fn test_parse_ice_content() {
    let content = r#"
viewport: 800x600
mode: Immediate
preset: Empty
-----
click "New Task"
type "Buy groceries"
tap Enter
expect "Buy groceries"
screenshot "task_created"
"#;
    let meta = parse_ice_content(content, "test.ice").unwrap();

    assert_eq!(meta.viewport, Some((800, 600)));
    assert_eq!(meta.mode, "Immediate");
    assert_eq!(meta.preset, Some("Empty".to_string()));
    assert_eq!(meta.instructions.len(), 5);
    assert_eq!(meta.instructions[0].kind, "click");
    assert_eq!(meta.instructions[0].target, "New Task");
    assert_eq!(meta.instructions[4].kind, "screenshot");
}

#[test]
fn test_unquote() {
    assert_eq!(unquote(r#""hello""#), "hello");
    assert_eq!(unquote("'hello'"), "hello");
    assert_eq!(unquote("hello"), "hello");
}

#[test]
fn test_test_name_from_path() {
    assert_eq!(test_name_from_path("tests/ice/create_task.ice"), "create_task");
    assert_eq!(test_name_from_path("my_test.ice"), "my_test");
}

#[test]
fn viewport_edge_cases() {
    assert_eq!(parse_viewport("x600"), None);
    assert_eq!(parse_viewport("800x"), None);
    assert_eq!(parse_viewport("800x600x1"), None);
    assert_eq!(parse_viewport("+8x+6"), Some((8, 6)));
    assert_eq!(parse_viewport("4294967296x1"), None);
}

#[test]
fn instruction_edge_cases() {
    assert!(parse_instruction("   ").is_none());
    let i = parse_instruction("Move 10 20").unwrap();
    assert_eq!(i.kind, "move");
    assert_eq!(i.target, "10 20");
    let w = parse_instruction("write \"a\"").unwrap();
    assert_eq!(w.kind, "write");
    assert_eq!(w.target, "\"a\"");
    assert!(try_parse_instruction("click \"").is_none());
}

#[test]
fn ice_default_mode_and_no_header() {
    let meta = parse_ice_content("click \"A\"\n", "dir/x.ice").unwrap();
    assert_eq!(meta.mode, "Immediate");
    assert_eq!(meta.viewport, None);
    assert_eq!(meta.file_path, "dir/x.ice");
}

#[test]
fn ice_panicking_content_detected() {
    assert!(try_parse_ice_content("-----\nclick \"\n", "x.ice").is_none());
}

#[test]
fn ice_error_messages() {
    assert_eq!(IceError::Parse("bad".into()).message(), "Parse error: bad");
    let io: IceError = std::io::Error::new(std::io::ErrorKind::NotFound, "gone").into();
    assert_eq!(io.message(), "IO error: gone");
}

#[test]
fn viewport_and_unquote_round_trips() {
    assert_eq!(parse_viewport(&format!("{}x{}", u32::MAX, 0)), Some((u32::MAX, 0)));
    assert_eq!(unquote("\" a 'b' \""), " a 'b' ");
    assert_eq!(unquote("'say \"hi\"'"), "say \"hi\"");
}
