use iced_docgen::attributes::{
    documented_entry, scenario_entry, screenshot_entry, state_doc_entry, usecase_entry,
    user_story_entry, workflow_entry, AttrArg, AttrValue, StateVariant,
};
use iced_docgen::{DocEntry, DocKind, DocMetadata};

fn s(v: &str) -> AttrValue {
    AttrValue::Str(v.to_string())
}

fn arr(vs: &[&str]) -> AttrValue {
    AttrValue::Array(vs.iter().map(|v| s(v)).collect())
}

fn tuple(vs: &[&str]) -> AttrValue {
    AttrValue::Tuple(vs.iter().map(|v| s(v)).collect())
}

fn arg(key: &str, value: AttrValue) -> AttrArg {
    AttrArg { key: key.to_string(), value }
}

fn entries() -> Vec<DocEntry> {
    let counter = documented_entry(
        "counter_view",
        &[
            arg("title", s("Counter View")),
            arg("section", s("views")),
            arg("tags", arr(&["ui", "counter"])),
            arg("links_to", arr(&["TestState", "TestMessage"])),
            arg("see_also", arr(&["another_view"])),
        ],
        &[
            " This is a test view that displays a counter".to_string(),
            "".to_string(),
            " It shows the current value and allows incrementing.".to_string(),
        ],
        "tests/integration.rs",
        28,
    );
    let shot = screenshot_entry(
        "screenshot_view",
        &[
            arg("name", s("test_view")),
            arg("theme", s("Light")),
            arg(
                "scenarios",
                AttrValue::Array(vec![
                    tuple(&["default", "TestState::default()"]),
                    tuple(&["with_value", "TestState { counter: 42, name: String::new() }"]),
                ]),
            ),
            arg("caption", s("A test view showing screenshot scenarios")),
        ],
        "tests/integration.rs",
        41,
    );
    let variant = |name: &str, args: Vec<AttrArg>| StateVariant {
        name: name.to_string(),
        state_attrs: vec![args],
    };
    let status = state_doc_entry(
        "TestStatus",
        &[
            arg("title", s("Test Status")),
            arg("description", s("Status for testing state documentation")),
            arg("initial", s("Pending")),
            arg("terminal", arr(&["Done", "Cancelled"])),
        ],
        &[
            variant(
                "Pending",
                vec![arg("description", s("Not started yet")), arg("transitions_to", arr(&["InProgress"]))],
            ),
            variant(
                "InProgress",
                vec![
                    arg("description", s("Currently working")),
                    arg("transitions_to", arr(&["Review", "Pending"])),
                ],
            ),
            variant(
                "Review",
                vec![
                    arg("description", s("Under review")),
                    arg("transitions_to", arr(&["Done", "InProgress"])),
                ],
            ),
            variant(
                "Done",
                vec![arg("description", s("Completed successfully")), arg("terminal", AttrValue::Bool(true))],
            ),
            variant(
                "Cancelled",
                vec![arg("description", s("Cancelled by user")), arg("terminal", AttrValue::Bool(true))],
            ),
        ],
        "tests/integration.rs",
        57,
    );
    let usecase = usecase_entry(
        "test_increment_counter",
        &[
            arg("title", s("Increment Counter")),
            arg("actor", s("User")),
            arg("goal", s("Increase the counter value by one")),
            arg("preconditions", arr(&["App is running", "Counter is visible"])),
            arg("steps", arr(&["Click increment button", "Counter increases by 1"])),
            arg("postconditions", arr(&["Counter value is increased"])),
            arg("tags", arr(&["counter", "interaction"])),
        ],
        "tests/integration.rs",
        80,
    );
    let workflow = workflow_entry(
        "document_counter_workflow",
        &[
            arg("title", s("Basic Counter Workflow")),
            arg("description", s("How users interact with the counter")),
            arg("persona", s("End User")),
            arg(
                "steps",
                AttrValue::Array(vec![
                    tuple(&["Counter", "View initial state", "workflow_1", "See the counter at 0"]),
                    tuple(&["Counter", "Click increment", "workflow_2", "Increase the counter"]),
                ]),
            ),
            arg("outcomes", arr(&["User understands counter functionality"])),
        ],
        "tests/integration.rs",
        99,
    );
    vec![counter, shot, status, usecase, workflow]
}

#[test]
fn test_documented_macro_registers_entry() {
    let entries = entries();
    let counter_entry = entries.iter().find(|e| e.id == "counter_view");
    assert!(counter_entry.is_some(), "counter_view should be registered");

    let entry = counter_entry.unwrap();
    assert_eq!(entry.title, "Counter View");
    assert_eq!(entry.section, "views");
    assert_eq!(entry.kind, DocKind::Function);
    assert!(entry.tags.contains(&"ui".to_string()));
    assert!(entry.tags.contains(&"counter".to_string()));
    assert!(entry.links_to.contains(&"TestState".to_string()));
    assert_eq!(
        entry.description,
        "This is a test view that displays a counter\n\nIt shows the current value and allows incrementing."
    );
}

#[test]
fn test_screenshot_macro_registers_metadata() {
    let entries = entries();
    let screenshot_entry = entries.iter().find(|e| e.id == "screenshot_view");
    assert!(screenshot_entry.is_some(), "screenshot_view should be registered");

    let entry = screenshot_entry.unwrap();
    if let DocMetadata::Screenshot(meta) = &entry.metadata {
        assert_eq!(meta.name, "test_view");
        assert_eq!(meta.theme, "Light");
        assert_eq!(meta.scenario_names.len(), 2);
        assert!(meta.scenario_names.contains(&"default".to_string()));
        assert!(meta.scenario_names.contains(&"with_value".to_string()));
    } else {
        panic!("Expected Screenshot metadata");
    }
}

#[test]
fn test_state_doc_macro_registers_state_machine() {
    let entries = entries();
    let state_entry = entries.iter().find(|e| e.id == "TestStatus");
    assert!(state_entry.is_some(), "TestStatus should be registered");

    let entry = state_entry.unwrap();
    assert_eq!(entry.kind, DocKind::Enum);

    if let DocMetadata::State(meta) = &entry.metadata {
        assert_eq!(meta.initial, "Pending");
        assert!(meta.terminal.contains(&"Done".to_string()));
        assert!(meta.terminal.contains(&"Cancelled".to_string()));
        assert_eq!(meta.state_names.len(), 5);
        assert_eq!(meta.state_transitions[1], "Review,Pending");
        assert_eq!(meta.state_transitions[3], "");
    } else {
        panic!("Expected State metadata");
    }
}

#[test]
fn test_usecase_macro_registers_usecase() {
    let entries = entries();
    let usecase_entry = entries.iter().find(|e| e.id == "test_increment_counter");
    assert!(usecase_entry.is_some(), "test_increment_counter should be registered");

    let entry = usecase_entry.unwrap();
    assert_eq!(entry.kind, DocKind::Usecase);

    if let DocMetadata::Usecase(meta) = &entry.metadata {
        assert_eq!(meta.actor, "User");
        assert!(meta.steps.len() >= 2);
    } else {
        panic!("Expected Usecase metadata");
    }
}

#[test]
fn test_workflow_macro_registers_workflow() {
    let entries = entries();
    let workflow_entry = entries.iter().find(|e| e.id == "document_counter_workflow");
    assert!(workflow_entry.is_some(), "document_counter_workflow should be registered");

    let entry = workflow_entry.unwrap();
    assert_eq!(entry.kind, DocKind::Workflow);

    if let DocMetadata::Workflow(meta) = &entry.metadata {
        assert_eq!(meta.persona, "End User");
        assert_eq!(meta.step_views.len(), 2);
        assert_eq!(meta.step_screenshots[1], "workflow_2");
    } else {
        panic!("Expected Workflow metadata");
    }
}

#[test]
fn defaults_and_overrides() {
    let e = documented_entry("f", &[arg("title", s("A")), arg("title", s("B")), arg("title", AttrValue::Other)], &[], "x.rs", 1);
    assert_eq!(e.title, "B");
    assert_eq!(e.section, "default");
    let g = documented_entry("f", &[arg("tags", arr(&["a"])), arg("tags", s("b"))], &[], "x.rs", 1);
    assert!(g.tags.is_empty());
    let sh = screenshot_entry(
        "v",
        &[arg(
            "scenarios",
            AttrValue::Array(vec![tuple(&["only"]), tuple(&["", "x"]), tuple(&["n", "st", "extra"])]),
        )],
        "x.rs",
        1,
    );
    if let DocMetadata::Screenshot(m) = &sh.metadata {
        assert_eq!(m.name, "v");
        assert_eq!(m.theme, "Light");
        assert_eq!(m.scenario_names, vec!["n".to_string()]);
        assert_eq!(m.caption, "");
    } else {
        panic!("Expected Screenshot metadata");
    }
}

#[test]
fn scenario_and_story_entries() {
    let sc = scenario_entry("test_add", &[arg("tags", arr(&["tasks"]))], "t.rs", 4);
    assert_eq!(sc.title, "test_add");
    assert_eq!(sc.actor, "User");
    assert_eq!(sc.tags, vec!["tasks".to_string()]);
    let us = user_story_entry(
        "story",
        &[arg("title", s("Review")), arg("actor", s("Developer")), arg("goal", s("Prioritize"))],
        "t.rs",
        9,
    );
    assert_eq!(us.title, "Review");
    assert_eq!(us.actor, "Developer");
    assert_eq!(us.description, "Prioritize");
}
