use iced_docgen::dsl::vision::{
    assertion_prompt, check_models, extract_json, fallback_answer, format_unavailable_warning,
    generate_url, installation_instructions, invalid_json_error, json_payload, tags_url,
    OllamaRequest, VisionError,
};

#[test]
fn test_extract_json() {
    let text = "Here is the result: {\"found\": true, \"confidence\": 0.9, \"description\": \"button visible\"} end";
    let json = extract_json(text).unwrap();
    assert_eq!(json, r#"{"found": true, "confidence": 0.9, "description": "button visible"}"#);
}

#[test]
fn test_extract_json_nested() {
    let text = r#"{"outer": {"inner": "value"}}"#;
    let json = extract_json(text).unwrap();
    assert_eq!(json, text);
}

#[test]
fn test_extract_json_no_json() {
    let text = "No JSON here";
    assert!(extract_json(text).is_none());
}

#[test]
fn extract_json_unbalanced_is_none() {
    assert!(extract_json("start { \"a\": { }").is_none());
    assert_eq!(extract_json("x}{y}z").as_deref(), Some("{y}"));
}

#[test]
fn test_installation_instructions() {
    let instructions = installation_instructions();
    assert!(instructions.contains("Linux"));
    assert!(instructions.contains("macOS"));
    assert!(instructions.contains("ollama pull moondream"));
}

#[test]
fn error_messages() {
    assert_eq!(VisionError::OllamaUnavailable("down".into()).message(), "Ollama unavailable: down");
    assert_eq!(VisionError::ModelNotInstalled.message(), "Moondream model not installed");
    assert_eq!(VisionError::ImageReadError("a".into()).message(), "Failed to read image: a");
    assert_eq!(VisionError::ParseError("b".into()).message(), "Failed to parse response: b");
    assert_eq!(VisionError::RequestError("c".into()).message(), "HTTP request failed: c");
}

#[test]
fn warnings_per_error() {
    let w = format_unavailable_warning(&VisionError::ModelNotInstalled);
    assert!(w.contains("Ollama is running but Moondream model is not installed."));
    assert!(w.ends_with("\nTests will continue without visual assertions.\n"));
    let u = format_unavailable_warning(&VisionError::OllamaUnavailable("x".into()));
    assert!(u.contains("Ollama is not running."));
    assert!(u.contains(&installation_instructions()));
    let p = format_unavailable_warning(&VisionError::ParseError("bad".into()));
    assert!(p.contains("Error: Failed to parse response: bad\n\n"));
}

#[test]
fn models_check() {
    assert!(matches!(check_models(None), Err(VisionError::ParseError(ref m)) if m == "No models array"));
    let none: Vec<Option<String>> = vec![Some("llava:7b".into()), None];
    assert!(matches!(check_models(Some(none.as_slice())), Err(VisionError::ModelNotInstalled)));
    let some: Vec<Option<String>> = vec![None, Some("moondream:latest".into())];
    assert!(check_models(Some(some.as_slice())).is_ok());
}

#[test]
fn urls_and_prompts() {
    assert_eq!(tags_url("http://h:1"), "http://h:1/api/tags");
    assert_eq!(generate_url("http://h:1"), "http://h:1/api/generate");
    assert!(assertion_prompt("Is it red?").starts_with("Check: Is it red?\n\nReturn ONLY"));
}

#[test]
fn payload_and_parse_errors() {
    assert_eq!(json_payload("a {\"x\": 1} b").unwrap(), "{\"x\": 1}");
    assert!(matches!(json_payload("nothing"),
        Err(VisionError::ParseError(ref m)) if m == "No JSON found in response: nothing"));
    assert!(matches!(invalid_json_error("eof", "{"),
        VisionError::ParseError(ref m) if m == "Invalid JSON: eof - {"));
}

#[test]
fn fallback_reads_free_text() {
    let (found, description, note) =
        fallback_answer("  YES, the button is there  ", &VisionError::ParseError("p".into()));
    assert!(found);
    assert_eq!(description, "YES, the button is there");
    assert_eq!(note, "JSON parse fallback: Failed to parse response: p");
    let (found2, _, _) = fallback_answer("nope", &VisionError::ModelNotInstalled);
    assert!(!found2);
}

#[test]
fn request_encodes_image() {
    let r = OllamaRequest::new("describe", b"hi");
    assert_eq!(r.model, "moondream");
    assert_eq!(r.images, vec!["aGk=".to_string()]);
    assert!(!r.stream);
}
