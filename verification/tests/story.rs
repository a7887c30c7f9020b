use iced_docgen::dsl::action::TestAction;
use iced_docgen::dsl::story::{StoryStep, UserStory};

#[test]
fn test_story_building() {
    let story = UserStory::new("Login Flow")
        .with_actor("Developer")
        .with_goal("Access the dashboard")
        .with_preconditions(&["Account exists", "Not logged in"])
        .with_outcomes(&["User sees dashboard", "Session created"]);

    assert_eq!(story.title, "Login Flow");
    assert_eq!(story.actor, "Developer");
    assert_eq!(story.preconditions.len(), 2);
    assert_eq!(story.outcomes.len(), 2);
}

#[test]
fn test_story_org_output() {
    let mut story = UserStory::new("Test Story").with_actor("Tester").with_tags(&["test", "example"]);

    story.add_step(
        StoryStep::new(1, "Do something")
            .with_action(TestAction::click("Button"))
            .with_details("Click the button to proceed"),
    );

    let org = story.to_org();
    assert!(org.contains("* Test Story"));
    assert!(org.contains(":ACTOR: Tester"));
    assert!(org.contains("*** Step 1: Do something"));
    assert!(org.contains("click \"Button\""));
}

#[test]
fn new_story_defaults_to_user_actor() {
    let story = UserStory::new("S");
    assert_eq!(story.actor, "User");
    assert!(story.passed());
    assert!(story.first_failure().is_none());
}

#[test]
fn step_org_exact() {
    let step = StoryStep::new(2, "Save")
        .with_action(TestAction::click("Save"))
        .with_screenshot("shots/save.png")
        .failed("button missing");
    assert_eq!(
        step.to_org(),
        "*** Step 2: Save :fail:\n#+CAPTION: Step 2 screenshot\n[[file:shots/save.png]]\n\n#+begin_src\nclick \"Save\"\n#+end_src\n\n#+begin_quote\nERROR: button missing\n#+end_quote\n\n"
    );
}

#[test]
fn step_markdown_exact() {
    let step = StoryStep::new(1, "Open").with_details("Opens the app");
    assert_eq!(step.to_markdown(), "### Step 1: Open\n\nOpens the app\n\n");
}

#[test]
fn failed_story_is_marked() {
    let mut story = UserStory::new("Checkout").with_outcome("Order placed");
    story.add_step(StoryStep::new(1, "Pay"));
    story.add_step(StoryStep::new(2, "Confirm").failed("timeout"));
    assert!(!story.passed());
    assert_eq!(story.first_failure().map(|s| s.number), Some(2));
    let org = story.to_org();
    assert!(org.starts_with("* FAILED Checkout \n"));
    assert!(org.contains("- [ ] Order placed\n"));
}

#[test]
fn story_org_exact() {
    let story = UserStory::new("T")
        .with_goal("G")
        .with_tag("a")
        .with_tag("b")
        .with_source("src/x.rs", 7)
        .with_description("D")
        .with_precondition("P")
        .with_outcome("O");
    assert_eq!(
        story.to_org(),
        "* T :a:b:\n:PROPERTIES:\n:ACTOR: User\n:GOAL: G\n:SOURCE: [[file:src/x.rs::7][src/x.rs:7]]\n:END:\n\nD\n\n** Preconditions\n- P\n\n** Steps\n\n** Outcomes\n- [X] O\n\n"
    );
}

#[test]
fn story_markdown_exact() {
    let story = UserStory::new("T").with_tags(&["a", "b"]).with_outcome("O");
    assert_eq!(
        story.to_markdown(),
        "# T\n\n**Actor:** User\n**Tags:** a, b\n\n## Steps\n\n## Outcomes\n- [x] O\n\n"
    );
}
