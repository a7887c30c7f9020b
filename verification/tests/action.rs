use iced_docgen::dsl::action::{truncate, ActionKind, Key, TestAction, WaitDuration};
use iced_docgen::dsl::CapturePoint;

#[test]
fn test_action_builders() {
    let action = TestAction::click("Button")
        .described_as("Click the button")
        .expecting("Something happens")
        .with_screenshot();

    assert!(matches!(action.kind, ActionKind::Click(ref s) if s == "Button"));
    assert_eq!(action.description.as_deref(), Some("Click the button"));
    assert_eq!(action.expected.as_deref(), Some("Something happens"));
    assert_eq!(action.capture, CapturePoint::After);
}

#[test]
fn test_capture_point() {
    assert!(!CapturePoint::Never.captures_before());
    assert!(!CapturePoint::Never.captures_after());
    assert!(CapturePoint::Before.captures_before());
    assert!(!CapturePoint::Before.captures_after());
    assert!(!CapturePoint::After.captures_before());
    assert!(CapturePoint::After.captures_after());
    assert!(CapturePoint::Both.captures_before());
    assert!(CapturePoint::Both.captures_after());
}

#[test]
fn capture_point_default_is_never() {
    assert_eq!(CapturePoint::default(), CapturePoint::Never);
}

#[test]
fn display_short_of_each_kind() {
    assert_eq!(TestAction::click("OK").display_short(), "click \"OK\"");
    assert_eq!(TestAction::typewrite("hello").display_short(), "type \"hello\"");
    assert_eq!(TestAction::tap(Key::Enter).display_short(), "tap Enter");
    assert_eq!(TestAction::expect("Saved").display_short(), "expect \"Saved\"");
    assert_eq!(
        TestAction::wait(WaitDuration::from_millis(1500)).display_short(),
        "wait 1500ms"
    );
}

#[test]
fn long_text_is_cut_with_ellipsis() {
    let a = TestAction::typewrite("abcdefghijklmnopqrstuvwxyz");
    assert_eq!(a.display_short(), "type \"abcdefghijklmnopq...\"");
    assert_eq!(truncate("exactly twenty chars", 20), "exactly twenty chars");
    assert_eq!(truncate("twenty-one characters", 20), "twenty-one charac...");
}

#[test]
fn to_string_adds_description() {
    let a = TestAction::click("Save").described_as("Save the file");
    assert_eq!(a.to_string(), "click \"Save\" (Save the file)");
    assert_eq!(TestAction::click("Save").to_string(), "click \"Save\"");
}

#[test]
fn screenshot_builders_set_capture() {
    assert_eq!(TestAction::click("a").capture, CapturePoint::Never);
    assert_eq!(TestAction::click("a").with_screenshot_before().capture, CapturePoint::Before);
    assert_eq!(TestAction::click("a").with_screenshot_both().capture, CapturePoint::Both);
    assert_eq!(
        TestAction::click("a").with_capture(CapturePoint::After).capture,
        CapturePoint::After
    );
}

#[test]
fn wait_duration_millis() {
    let d = WaitDuration::from_millis(2345);
    assert_eq!(d.secs, 2);
    assert_eq!(d.nanos, 345_000_000);
    assert_eq!(d.as_millis(), 2345);
}
