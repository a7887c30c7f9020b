use iced_docgen::dsl::action::{Key, TestAction, WaitDuration};
use iced_docgen::dsl::context::{
    screenshot_failure, similar_selectors, ScenarioMeta, SimError, TestContext, UiState,
};
use iced_docgen::dsl::diagnostics::FailureReason;

#[test]
fn test_scenario_meta() {
    let meta = ScenarioMeta {
        title: "Test Scenario".to_string(),
        actor: "Developer".to_string(),
        ..Default::default()
    };
    assert_eq!(meta.title, "Test Scenario");
}

#[test]
fn successful_action_is_traced() {
    let mut ctx = TestContext::new();
    let r = ctx.record(TestAction::click("Go"), Ok(()), None);
    assert!(r.is_ok());
    assert_eq!(ctx.trace().len(), 1);
    assert!(ctx.trace()[0].success);
    assert!(ctx.trace()[0].error.is_none());
}

#[test]
fn missing_selector_becomes_failure() {
    let mut ctx = TestContext::new();
    let r = ctx.record(
        TestAction::click("Submit"),
        Err(SimError::SelectorNotFound { selector: "Submit".into() }),
        Some("s.png".into()),
    );
    let f = r.unwrap_err();
    assert_eq!(
        ctx.trace()[0].error.as_deref(),
        Some("no matching widget was found for the selector: Submit")
    );
    assert!(matches!(f.reason, FailureReason::SelectorNotFound { ref selector, ref similar }
        if selector == "Submit" && similar.is_empty()));
    assert_eq!(f.screenshot.as_deref(), Some("s.png"));
    assert_eq!(f.hints.len(), 1);
    assert_eq!(f.hints[0].priority, 20);
}

#[test]
fn other_error_expects_debug_of_action() {
    let mut ctx = TestContext::new();
    let f = ctx
        .record(
            TestAction::click("Sub\"mit"),
            Err(SimError::Other { message: "the matching target is not visible".into() }),
            None,
        )
        .unwrap_err();
    assert!(matches!(f.reason, FailureReason::ExpectationFailed { ref expected, ref found }
        if expected == "Click(\"Sub\\\"mit\")" && found.is_none()));
    let g = ctx
        .record(
            TestAction::wait(WaitDuration::from_millis(1500)),
            Err(SimError::Other { message: "x".into() }),
            None,
        )
        .unwrap_err();
    assert!(matches!(g.reason, FailureReason::ExpectationFailed { ref expected, .. }
        if expected == "Wait(1.5s)"));
    let h = ctx
        .record(TestAction::tap(Key::Tab), Err(SimError::Other { message: "x".into() }), None)
        .unwrap_err();
    assert!(matches!(h.reason, FailureReason::ExpectationFailed { ref expected, .. }
        if expected == "Tap(Tab)"));
    assert_eq!(ctx.trace()[0].error.as_deref(), Some("the matching target is not visible"));
}

#[test]
fn story_steps_follow_begun_steps() {
    let mut ctx = TestContext::new();
    ctx.step("Open dashboard");
    ctx.record(TestAction::click("Dashboard"), Ok(()), Some("1.png".into())).unwrap();
    ctx.record(TestAction::expect("Task Overview"), Ok(()), None).unwrap();
    ctx.step("Filter high priority");
    ctx.record(TestAction::click("Priority: High"), Ok(()), None).unwrap();
    let story = ctx.to_story();
    assert_eq!(story.steps.len(), 2);
    assert_eq!(story.steps[0].number, 1);
    assert_eq!(story.steps[0].description, "Open dashboard");
    assert_eq!(story.steps[0].actions.len(), 2);
    assert_eq!(story.steps[0].actions[1].display_short(), "expect \"Task Overview\"");
    assert_eq!(story.steps[0].screenshot.as_deref(), Some("1.png"));
    assert_eq!(story.steps[1].number, 2);
    assert_eq!(story.steps[1].description, "Filter high priority");
    assert_eq!(story.steps[1].actions.len(), 1);
    assert!(story.steps[1].screenshot.is_none());
}

#[test]
fn story_metadata_and_leading_actions() {
    let meta = ScenarioMeta {
        title: "Add task".into(),
        actor: "Dev".into(),
        description: "Add one".into(),
        tags: vec!["t".into()],
        source_file: Some("a.rs".into()),
        source_line: Some(3),
        ..Default::default()
    };
    let mut ctx = TestContext::new().with_scenario(meta);
    ctx.record(TestAction::click("A").described_as("Open form"), Ok(()), None).unwrap();
    ctx.record(TestAction::click("B"), Ok(()), Some("b.png".into())).unwrap();
    ctx.step("Save");
    ctx.step("Check");
    ctx.record(TestAction::click("C"), Ok(()), None).unwrap();
    let story = ctx.to_story();
    assert_eq!(story.title, "Add task");
    assert_eq!(story.actor, "Dev");
    assert_eq!(story.goal, "Add one");
    assert_eq!(story.tags, vec!["t".to_string()]);
    assert_eq!(story.source_file.as_deref(), Some("a.rs"));
    assert_eq!(story.source_line, Some(3));
    assert_eq!(story.steps.len(), 3);
    assert_eq!(story.steps[0].description, "Open form");
    assert_eq!(story.steps[0].actions.len(), 2);
    assert_eq!(story.steps[0].screenshot.as_deref(), Some("b.png"));
    assert_eq!(story.steps[1].description, "Save");
    assert!(story.steps[1].actions.is_empty());
    assert_eq!(story.steps[2].number, 3);
    assert_eq!(story.steps[2].actions.len(), 1);
}

#[test]
fn story_of_empty_trace_has_no_steps() {
    let ctx = TestContext::new();
    let story = ctx.to_story();
    assert!(story.steps.is_empty());
    assert!(story.source_file.is_none());
}

#[test]
fn leading_step_without_description() {
    let mut ctx = TestContext::new();
    ctx.record(TestAction::click("A"), Ok(()), None).unwrap();
    let story = ctx.to_story();
    assert_eq!(story.steps.len(), 1);
    assert_eq!(story.steps[0].description, "Final step");
}

#[test]
fn screenshot_names_and_paths() {
    let meta = ScenarioMeta { title: "My Test: Ünïcode!".into(), ..Default::default() };
    let mut ctx = TestContext::new().with_scenario(meta).with_screenshot_dir("out/");
    let a = TestAction::click("x").with_screenshot_both();
    assert_eq!(ctx.before_shot_name(&a).as_deref(), Some("before_0"));
    assert_eq!(ctx.after_shot_name(&a).as_deref(), Some("step_0"));
    assert!(ctx.before_shot_name(&TestAction::click("x")).is_none());
    let p = ctx.screenshot_path("step_0");
    assert_eq!(p, "out/my_test_ünïcode_step_0.png");
    ctx.screenshot_taken("step_0", &p);
    assert_eq!(ctx.screenshots().len(), 1);
    let mut d = TestContext::new();
    assert_eq!(d.screenshot_path("n"), "tests/visual/reports/screenshots/_n.png");
}

#[test]
fn screenshot_failure_reason() {
    let f = screenshot_failure("Io");
    assert!(matches!(f.reason, FailureReason::Timeout { ref condition }
        if condition == "screenshot capture: Io"));
}

#[test]
fn similar_selectors_ranked() {
    let state = UiState {
        clickable: vec!["Submit".into(), "Cancel".into(), "Submit order now please".into()],
        text_inputs: vec![],
        visible_text: vec!["SUBMIT".into(), "Zzzzzzzzzzzzzz".into()],
    };
    let r = similar_selectors("submt", &state);
    assert_eq!(r, vec!["Submit".to_string(), "SUBMIT".to_string()]);
    let r2 = similar_selectors("Submit", &state);
    assert_eq!(
        r2,
        vec![
            "Submit".to_string(),
            "SUBMIT".to_string(),
            "Submit order now please".to_string()
        ]
    );
}

#[test]
fn steps_advance() {
    let mut ctx = TestContext::new();
    ctx.step("first");
    ctx.step("second");
    assert_eq!(ctx.trace().len(), 0);
}
