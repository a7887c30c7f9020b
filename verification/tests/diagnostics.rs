use iced_docgen::dsl::action::TestAction;
use iced_docgen::dsl::diagnostics::{AvailableAction, FailureReason, TestFailure};
use iced_docgen::dsl::inspector::{WidgetKind, WidgetNode, WidgetTree};

fn priorities(f: &TestFailure) -> Vec<u8> {
    f.hints.iter().map(|h| h.priority).collect()
}

#[test]
fn test_failure_hints_selector_not_found() {
    let mut failure = TestFailure::new(
        TestAction::click("Submit"),
        FailureReason::SelectorNotFound {
            selector: "Submit".to_string(),
            similar: vec!["Send".to_string(), "OK".to_string()],
        },
    );
    failure.generate_hints();

    assert!(!failure.hints.is_empty());
    assert!(failure.hints[0].message.contains("Did you mean"));
}

#[test]
fn selector_hints_exact() {
    let mut f = TestFailure::new(
        TestAction::click("Sbmit"),
        FailureReason::SelectorNotFound {
            selector: "Sbmit".to_string(),
            similar: vec!["A".into(), "B".into(), "C".into(), "D".into()],
        },
    )
    .with_available(vec![AvailableAction {
        selector: "Submit".into(),
        description: "button".into(),
        action_kind: "click".into(),
    }]);
    f.generate_hints();
    assert_eq!(priorities(&f), vec![0, 1, 2, 10, 20]);
    assert_eq!(f.hints[0].message, "Did you mean \"A\"?");
    assert_eq!(f.hints[0].code.as_deref(), Some("TestAction::click(\"A\")"));
    assert_eq!(
        f.hints[4].message,
        "If \"Sbmit\" should appear after an async operation, try adding a wait"
    );
}

#[test]
fn expectation_hints_typo() {
    let mut f = TestFailure::new(
        TestAction::expect("Helo"),
        FailureReason::ExpectationFailed { expected: "Helo".into(), found: Some("Hello".into()) },
    );
    f.generate_hints();
    assert_eq!(priorities(&f), vec![0, 1]);
    assert_eq!(f.hints[0].message, "Found \"Hello\" instead of \"Helo\"");
    assert_eq!(f.hints[1].code.as_deref(), Some("TestAction::expect(\"Hello\")"));
}

#[test]
fn expectation_hints_far_off() {
    let mut f = TestFailure::new(
        TestAction::expect("Welcome"),
        FailureReason::ExpectationFailed { expected: "Welcome".into(), found: Some("Error".into()) },
    );
    f.generate_hints();
    assert_eq!(priorities(&f), vec![0]);
}

#[test]
fn expectation_hints_list_available_text() {
    let tree = WidgetTree::new(
        WidgetNode::new(WidgetKind::Column)
            .with_child(WidgetNode::new(WidgetKind::Text).with_text("1"))
            .with_child(WidgetNode::new(WidgetKind::Text).with_text("2"))
            .with_child(WidgetNode::new(WidgetKind::Text).with_text("3"))
            .with_child(WidgetNode::new(WidgetKind::Text).with_text("4"))
            .with_child(WidgetNode::new(WidgetKind::Text).with_text("5"))
            .with_child(WidgetNode::new(WidgetKind::Text).with_text("6")),
    );
    let mut f = TestFailure::new(
        TestAction::expect("x"),
        FailureReason::ExpectationFailed { expected: "x".into(), found: None },
    )
    .with_tree(tree);
    f.generate_hints();
    assert_eq!(priorities(&f), vec![0, 5]);
    assert_eq!(f.hints[1].message, "Available text: \"1\", \"2\", \"3\", \"4\", \"5\"");
}

#[test]
fn not_interactive_hints_suggest_first_click() {
    let mut f = TestFailure::new(
        TestAction::click("Title"),
        FailureReason::NotInteractive { selector: "Title".into(), element_kind: "Text".into() },
    )
    .with_available(vec![
        AvailableAction { selector: "Name".into(), description: "input".into(), action_kind: "type".into() },
        AvailableAction { selector: "Go".into(), description: "button".into(), action_kind: "click".into() },
        AvailableAction { selector: "Stop".into(), description: "button".into(), action_kind: "click".into() },
    ]);
    f.generate_hints();
    assert_eq!(priorities(&f), vec![0, 5]);
    assert_eq!(f.hints[0].message, "\"Title\" is a Text which cannot be clicked");
    assert_eq!(f.hints[1].message, "Try clicking \"Go\" instead");
}

#[test]
fn timeout_and_visibility_hints() {
    let mut t = TestFailure::new(
        TestAction::expect("done"),
        FailureReason::Timeout { condition: "done".into() },
    );
    t.generate_hints();
    assert_eq!(priorities(&t), vec![0, 5]);
    assert_eq!(t.hints[0].message, "Timeout waiting for: done");

    let mut v = TestFailure::new(
        TestAction::click("Far"),
        FailureReason::NotVisible {
            selector: "Far".into(),
            bounds: Some(("10".into(), "2000".into(), "80".into(), "30".into())),
        },
    );
    v.generate_hints();
    assert_eq!(priorities(&v), vec![0, 5]);
    assert_eq!(
        v.hints[0].message,
        "\"Far\" exists but is not visible (bounds: 80x30 at (10, 2000))"
    );

    let mut w = TestFailure::new(
        TestAction::click("Far"),
        FailureReason::NotVisible { selector: "Far".into(), bounds: None },
    );
    w.generate_hints();
    assert_eq!(priorities(&w), vec![5]);
}

#[test]
fn reason_descriptions() {
    let f = TestFailure::new(
        TestAction::expect("a"),
        FailureReason::ExpectationFailed { expected: "a".into(), found: Some("b".into()) },
    );
    assert_eq!(f.reason_description(), "Expected \"a\" but found \"b\"");
    let g = TestFailure::new(
        TestAction::click("x"),
        FailureReason::NotInteractive { selector: "x".into(), element_kind: "Image".into() },
    );
    assert_eq!(g.reason_description(), "Element \"x\" (Image) is not interactive");
}

#[test]
fn failure_org_and_terminal() {
    let mut f = TestFailure::new(
        TestAction::click("Go"),
        FailureReason::Timeout { condition: "load".into() },
    )
    .with_screenshot("shot.png");
    f.generate_hints();
    let org = f.to_org();
    assert!(org.starts_with("* FAILED: click \"Go\" :fail:\n:PROPERTIES:\n:END:\n\n** Error\n#+begin_quote\nTimeout waiting for: load\n#+end_quote\n\n** Widget Tree\n#+begin_src\n└── Container\n#+end_src\n\n** Screenshot\n[[file:shot.png]]\n\n** Suggestions\n1. Timeout waiting for: load\n2. "));
    let term = f.to_terminal();
    assert!(term.starts_with("\x1b[1;31mFAILED\x1b[0m: click \"Go\"\n\n\x1b[1mReason:\x1b[0m Timeout waiting for: load\n\n\x1b[1mSuggestions:\x1b[0m\n  • Timeout waiting for: load\n"));
}
