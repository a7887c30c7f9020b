use iced_docgen::dsl::inspector::{WidgetKind, WidgetNode, WidgetTree};

#[test]
fn test_widget_tree_ascii() {
    let tree = WidgetTree::new(
        WidgetNode::new(WidgetKind::Container)
            .with_child(
                WidgetNode::new(WidgetKind::TextInput)
                    .text_input()
                    .focused()
                    .with_text("Hello"),
            )
            .with_child(
                WidgetNode::new(WidgetKind::Row)
                    .with_child(WidgetNode::new(WidgetKind::Button).clickable().with_text("OK"))
                    .with_child(
                        WidgetNode::new(WidgetKind::Button).clickable().with_text("Cancel"),
                    ),
            ),
    );

    let ascii = tree.to_ascii();
    assert!(ascii.contains("Container"));
    assert!(ascii.contains("TextInput"));
    assert!(ascii.contains("[focused]"));
    assert!(ascii.contains("Button"));
}

#[test]
fn test_collect_clickable() {
    let tree = WidgetTree::new(
        WidgetNode::new(WidgetKind::Container)
            .with_child(WidgetNode::new(WidgetKind::Text).with_text("Label"))
            .with_child(WidgetNode::new(WidgetKind::Button).clickable().with_text("Click me")),
    );

    let clickable = tree.clickable();
    assert_eq!(clickable.len(), 1);
    assert_eq!(clickable[0].text.as_deref(), Some("Click me"));
}

#[test]
fn all_text_in_preorder() {
    let tree = WidgetTree::new(
        WidgetNode::new(WidgetKind::Column)
            .with_child(WidgetNode::new(WidgetKind::Text).with_text("a"))
            .with_child(
                WidgetNode::new(WidgetKind::Row)
                    .with_text("b")
                    .with_child(WidgetNode::new(WidgetKind::Text).with_text("c")),
            )
            .with_child(WidgetNode::new(WidgetKind::Text).with_text("d")),
    );
    assert_eq!(tree.all_text(), vec!["a", "b", "c", "d"]);
    assert!(tree.text_inputs().is_empty());
}

#[test]
fn kind_names() {
    assert_eq!(WidgetKind::TextInput.as_str(), "TextInput");
    assert_eq!(WidgetKind::Container.as_str(), "Container");
}

#[test]
fn empty_tree_org() {
    let t = WidgetTree::empty();
    assert_eq!(t.to_org(), "#+begin_src\n└── Container\n#+end_src\n");
}
