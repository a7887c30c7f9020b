//! Widget tree introspection: the widgets of a UI as a tree, the clickable
//! elements, text inputs and visible text in it, and an ASCII drawing.

use crate::text::{
    append_chars, byte_len, byte_prefix, chars_of, flatten, is_boundary, lemma_flatten_ends,
    lemma_flatten_take, prefix_bytes, utf8_len,
};
use crate::registry::{keep, lemma_keep_concat};
use vstd::prelude::*;

verus! {

/// The kind of widget
#[derive(Debug, Clone, Copy, PartialEq, Eq, Structural)]
pub enum WidgetKind {
    /// A container widget
    Container,
    /// A row layout
    Row,
    /// A column layout
    Column,
    /// A button
    Button,
    /// A text label
    Text,
    /// A text input
    TextInput,
    /// A scrollable area
    Scrollable,
    /// A pick list / dropdown
    PickList,
    /// A checkbox
    Checkbox,
    /// A toggler / switch
    Toggler,
    /// A slider
    Slider,
    /// An image
    Image,
    /// An SVG
    Svg,
    /// A space / padding element
    Space,
    /// An unknown widget type
    Unknown,
}

/// The name of a widget kind.
pub open spec fn kind_name(k: WidgetKind) -> Seq<char> {
    match k {
        WidgetKind::Container => "Container"@,
        WidgetKind::Row => "Row"@,
        WidgetKind::Column => "Column"@,
        WidgetKind::Button => "Button"@,
        WidgetKind::Text => "Text"@,
        WidgetKind::TextInput => "TextInput"@,
        WidgetKind::Scrollable => "Scrollable"@,
        WidgetKind::PickList => "PickList"@,
        WidgetKind::Checkbox => "Checkbox"@,
        WidgetKind::Toggler => "Toggler"@,
        WidgetKind::Slider => "Slider"@,
        WidgetKind::Image => "Image"@,
        WidgetKind::Svg => "Svg"@,
        WidgetKind::Space => "Space"@,
        WidgetKind::Unknown => "Unknown"@,
    }
}

impl WidgetKind {
    /// Get a string representation of the widget kind
    pub fn as_str(&self) -> (r: &'static str)
        ensures
            r@ == kind_name(*self),
    {
        match self {
            WidgetKind::Container => "Container",
            WidgetKind::Row => "Row",
            WidgetKind::Column => "Column",
            WidgetKind::Button => "Button",
            WidgetKind::Text => "Text",
            WidgetKind::TextInput => "TextInput",
            WidgetKind::Scrollable => "Scrollable",
            WidgetKind::PickList => "PickList",
            WidgetKind::Checkbox => "Checkbox",
            WidgetKind::Toggler => "Toggler",
            WidgetKind::Slider => "Slider",
            WidgetKind::Image => "Image",
            WidgetKind::Svg => "Svg",
            WidgetKind::Space => "Space",
            WidgetKind::Unknown => "Unknown",
        }
    }
}

/// A single node in the widget tree
#[derive(Debug)]
pub struct WidgetNode {
    /// The kind of widget
    pub kind: WidgetKind,
    /// Text content, if any
    pub text: Option<String>,
    /// Whether this widget is clickable
    pub is_clickable: bool,
    /// Whether this widget can receive text input
    pub is_text_input: bool,
    /// Whether this widget currently has focus
    pub is_focused: bool,
    /// Suggested selector text for this widget
    pub suggested_selector: Option<String>,
    /// Child widgets
    pub children: Vec<WidgetNode>,
}

/// A tree representation of the widget hierarchy
#[derive(Debug)]
pub struct WidgetTree {
    /// The root node of the tree
    pub root: WidgetNode,
}

impl WidgetNode {
    /// Create a new widget node
    pub fn new(kind: WidgetKind) -> (r: Self)
        ensures
            r.kind == kind,
            r.text is None,
            !r.is_clickable,
            !r.is_text_input,
            !r.is_focused,
            r.suggested_selector is None,
            r.children@.len() == 0,
    {
        WidgetNode {
            kind,
            text: None,
            is_clickable: false,
            is_text_input: false,
            is_focused: false,
            suggested_selector: None,
            children: Vec::new(),
        }
    }

    /// Add a child node
    pub fn with_child(self, child: WidgetNode) -> (r: Self)
        ensures
            r == (WidgetNode { children: r.children, ..self }),
            r.children@ == self.children@.push(child),
    {
        let mut n = self;
        n.children.push(child);
        n
    }

    /// Set text content
    pub fn with_text(self, text: &str) -> (r: Self)
        ensures
            r == (WidgetNode { text: r.text, ..self }),
            r.text matches Some(t) && t@ == text@,
    {
        let mut n = self;
        n.text = Some(String::from_str(text));
        n
    }

    /// Mark as clickable
    pub fn clickable(self) -> (r: Self)
        ensures
            r == (WidgetNode { is_clickable: true, ..self }),
    {
        let mut n = self;
        n.is_clickable = true;
        n
    }

    /// Mark as text input
    pub fn text_input(self) -> (r: Self)
        ensures
            r == (WidgetNode { is_text_input: true, ..self }),
    {
        let mut n = self;
        n.is_text_input = true;
        n
    }

    /// Mark as focused
    pub fn focused(self) -> (r: Self)
        ensures
            r == (WidgetNode { is_focused: true, ..self }),
    {
        let mut n = self;
        n.is_focused = true;
        n
    }

    /// Set suggested selector
    pub fn with_selector(self, selector: &str) -> (r: Self)
        ensures
            r == (WidgetNode { suggested_selector: r.suggested_selector, ..self }),
            r.suggested_selector matches Some(s) && s@ == selector@,
    {
        let mut n = self;
        n.suggested_selector = Some(String::from_str(selector));
        n
    }
}

/// The nodes of a tree in depth-first pre-order: the node, then the nodes of
/// each child in turn.
pub open spec fn preorder(n: WidgetNode) -> Seq<WidgetNode>
    decreases n, 1nat,
{
    seq![n] + preorder_list(n.children@)
}

/// The pre-order nodes of a sequence of trees, one tree after another.
pub open spec fn preorder_list(cs: Seq<WidgetNode>) -> Seq<WidgetNode>
    decreases cs, 0nat,
{
    if cs.len() == 0 {
        Seq::empty()
    } else {
        preorder_list(cs.subrange(0, cs.len() - 1)) + preorder(cs[cs.len() - 1])
    }
}

proof fn lemma_preorder_list_step(cs: Seq<WidgetNode>, i: int)
    requires
        0 <= i < cs.len(),
    ensures
        preorder_list(cs.take(i + 1)) == preorder_list(cs.take(i)) + preorder(cs[i]),
{
    assert(cs.take(i + 1).subrange(0, i) =~= cs.take(i));
}

/// Clickable nodes.
pub open spec fn is_clickable_node() -> spec_fn(WidgetNode) -> bool {
    |n: WidgetNode| n.is_clickable
}

/// Text-input nodes.
pub open spec fn is_text_input_node() -> spec_fn(WidgetNode) -> bool {
    |n: WidgetNode| n.is_text_input
}

/// Nodes that show text.
pub open spec fn has_text_node() -> spec_fn(WidgetNode) -> bool {
    |n: WidgetNode| n.text is Some
}

/// The nodes a sequence of references points to.
pub open spec fn deref_nodes(s: Seq<&WidgetNode>) -> Seq<WidgetNode> {
    s.map_values(|n: &WidgetNode| *n)
}

/// The texts of the nodes that show text, in pre-order.
pub open spec fn texts(n: WidgetNode) -> Seq<Seq<char>> {
    keep(preorder(n), has_text_node()).map_values(|m: WidgetNode| m.text->0@)
}

fn collect_nodes<'a>(node: &'a WidgetNode, result: &mut Vec<&'a WidgetNode>, inputs: bool)
    ensures
        deref_nodes(final(result)@) == deref_nodes(old(result)@) + keep(
            preorder(*node),
            if inputs {
                is_text_input_node()
            } else {
                is_clickable_node()
            },
        ),
    decreases node,
{
    let ghost p = if inputs {
        is_text_input_node()
    } else {
        is_clickable_node()
    };
    let ghost o = deref_nodes(result@);
    let pick = if inputs {
        node.is_text_input
    } else {
        node.is_clickable
    };
    if pick {
        result.push(node);
    }
    let ghost cs = node.children@;
    proof {
        crate::registry::lemma_keep_single(*node, p);
        assert(deref_nodes(result@) =~= o + keep(seq![*node], p));
        assert(cs.take(0) =~= Seq::<WidgetNode>::empty());
        assert(keep(seq![*node], p) + keep(preorder_list(cs.take(0)), p) =~= keep(seq![*node], p));
    }
    let mut i: usize = 0;
    while i < node.children.len()
        invariant
            i <= cs.len(),
            cs == node.children@,
            p == (if inputs {
                is_text_input_node()
            } else {
                is_clickable_node()
            }),
            deref_nodes(result@) == o + keep(seq![*node], p) + keep(preorder_list(cs.take(i as int)), p),
        decreases cs.len() - i,
    {
        let ghost before = deref_nodes(result@);
        proof {
            lemma_preorder_list_step(cs, i as int);
            lemma_keep_concat(preorder_list(cs.take(i as int)), preorder(cs[i as int]), p);
        }
        collect_nodes(&node.children[i], result, inputs);
        i = i + 1;
        assert(deref_nodes(result@) =~= o + keep(seq![*node], p) + keep(
            preorder_list(cs.take(i as int)),
            p,
        ));
    }
    proof {
        assert(cs.take(cs.len() as int) =~= cs);
        lemma_keep_concat(seq![*node], preorder_list(cs), p);
        assert(deref_nodes(result@) =~= o + keep(preorder(*node), p));
    }
}

fn collect_texts<'a>(node: &'a WidgetNode, result: &mut Vec<&'a str>)
    ensures
        final(result)@.map_values(|s: &str| s@) == old(result)@.map_values(|s: &str| s@) + keep(
            preorder(*node),
            has_text_node(),
        ).map_values(|m: WidgetNode| m.text->0@),
    decreases node,
{
    let ghost p = has_text_node();
    let ghost f = |m: WidgetNode| m.text->0@;
    let ghost g = |s: &str| s@;
    let ghost o = result@.map_values(g);
    match &node.text {
        Some(t) => {
            result.push(t.as_str());
        },
        None => {},
    }
    let ghost cs = node.children@;
    proof {
        crate::registry::lemma_keep_single(*node, p);
        assert(result@.map_values(g) =~= o + keep(seq![*node], p).map_values(f));
        assert(cs.take(0) =~= Seq::<WidgetNode>::empty());
        assert(keep(seq![*node], p) + keep(preorder_list(cs.take(0)), p) =~= keep(seq![*node], p));
    }
    let mut i: usize = 0;
    while i < node.children.len()
        invariant
            i <= cs.len(),
            cs == node.children@,
            p == has_text_node(),
            f == (|m: WidgetNode| m.text->0@),
            g == (|s: &str| s@),
            result@.map_values(g) == o + (keep(seq![*node], p) + keep(
                preorder_list(cs.take(i as int)),
                p,
            )).map_values(f),
        decreases cs.len() - i,
    {
        proof {
            lemma_preorder_list_step(cs, i as int);
            lemma_keep_concat(preorder_list(cs.take(i as int)), preorder(cs[i as int]), p);
        }
        collect_texts(&node.children[i], result);
        i = i + 1;
        assert(result@.map_values(g) =~= o + (keep(seq![*node], p) + keep(
            preorder_list(cs.take(i as int)),
            p,
        )).map_values(f));
    }
    proof {
        assert(cs.take(cs.len() as int) =~= cs);
        lemma_keep_concat(seq![*node], preorder_list(cs), p);
        assert(result@.map_values(g) =~= o + keep(preorder(*node), p).map_values(f));
    }
}

impl WidgetTree {
    /// Create a new widget tree with the given root
    pub fn new(root: WidgetNode) -> (r: Self)
        ensures
            r.root == root,
    {
        WidgetTree { root }
    }

    /// Create an empty tree
    pub fn empty() -> (r: Self)
        ensures
            r.root.kind == WidgetKind::Container,
            r.root.text is None,
            !r.root.is_clickable,
            !r.root.is_text_input,
            !r.root.is_focused,
            r.root.suggested_selector is None,
            r.root.children@.len() == 0,
    {
        WidgetTree { root: WidgetNode::new(WidgetKind::Container) }
    }

    /// Get all clickable elements in the tree, in pre-order
    pub fn clickable(&self) -> (r: Vec<&WidgetNode>)
        ensures
            deref_nodes(r@) == keep(preorder(self.root), is_clickable_node()),
    {
        let mut result: Vec<&WidgetNode> = Vec::new();
        collect_nodes(&self.root, &mut result, false);
        assert(deref_nodes(result@) =~= keep(preorder(self.root), is_clickable_node()));
        result
    }

    /// Get all text input elements in the tree, in pre-order
    pub fn text_inputs(&self) -> (r: Vec<&WidgetNode>)
        ensures
            deref_nodes(r@) == keep(preorder(self.root), is_text_input_node()),
    {
        let mut result: Vec<&WidgetNode> = Vec::new();
        collect_nodes(&self.root, &mut result, true);
        assert(deref_nodes(result@) =~= keep(preorder(self.root), is_text_input_node()));
        result
    }

    /// Get all visible text in the tree, in pre-order
    pub fn all_text(&self) -> (r: Vec<&str>)
        ensures
            r@.map_values(|s: &str| s@) == texts(self.root),
    {
        let mut result: Vec<&str> = Vec::new();
        collect_texts(&self.root, &mut result);
        assert(result@.map_values(|s: &str| s@) =~= texts(self.root));
        result
    }
}

/// The text of a node may be shown: it is at most 30 bytes long, or it can
/// be cut after 27 bytes.
pub open spec fn text_cut_ok(n: WidgetNode) -> bool {
    match n.text {
        Some(t) => utf8_len(t@) > 30 ==> is_boundary(t@, 27),
        None => true,
    }
}

/// Every node of the tree can be drawn.
pub open spec fn ascii_ok(n: WidgetNode) -> bool
    decreases n, 1nat,
{
    text_cut_ok(n) && ascii_ok_list(n.children@)
}

/// Every node of each tree can be drawn.
pub open spec fn ascii_ok_list(cs: Seq<WidgetNode>) -> bool
    decreases cs, 0nat,
{
    cs.len() == 0 || (ascii_ok_list(cs.subrange(0, cs.len() - 1)) && ascii_ok(cs[cs.len() - 1]))
}

proof fn lemma_ascii_ok_list(cs: Seq<WidgetNode>, i: int)
    requires
        ascii_ok_list(cs),
        0 <= i < cs.len(),
    ensures
        ascii_ok(cs[i]),
    decreases cs.len(),
{
    if i < cs.len() - 1 {
        let init = cs.subrange(0, cs.len() - 1);
        lemma_ascii_ok_list(init, i);
        assert(init[i] == cs[i]);
    }
}

/// The one-line description of a node: kind, focus and (possibly
/// shortened) text.
pub open spec fn node_desc(n: WidgetNode) -> Seq<char> {
    kind_name(n.kind) + (if n.is_focused {
        " [focused]"@
    } else {
        Seq::empty()
    }) + match n.text {
        Some(t) => if utf8_len(t@) <= 30 {
            " text=\""@ + t@ + "\""@
        } else {
            " text=\""@ + byte_prefix(t@, 27) + "...\""@
        },
        None => Seq::empty(),
    }
}

/// The drawing of a node and its descendants: the node's line after
/// `prefix` and a branch connector, then its children with a deeper prefix.
pub open spec fn ascii_node(n: WidgetNode, prefix: Seq<char>, is_last: bool) -> Seq<char>
    decreases n, 2nat,
{
    let connector = if is_last {
        "└── "@
    } else {
        "├── "@
    };
    let child_prefix = prefix + if is_last {
        "    "@
    } else {
        "│   "@
    };
    prefix + connector + node_desc(n) + "\n"@ + ascii_children(n.children@, child_prefix)
}

/// The drawings of sibling trees; only the final sibling is drawn as last.
pub open spec fn ascii_children(cs: Seq<WidgetNode>, prefix: Seq<char>) -> Seq<char>
    decreases cs, 1nat,
{
    if cs.len() == 0 {
        Seq::empty()
    } else {
        ascii_siblings(cs.subrange(0, cs.len() - 1), prefix) + ascii_node(
            cs[cs.len() - 1],
            prefix,
            true,
        )
    }
}

/// The drawings of sibling trees none of which is the final sibling.
pub open spec fn ascii_siblings(cs: Seq<WidgetNode>, prefix: Seq<char>) -> Seq<char>
    decreases cs, 0nat,
{
    if cs.len() == 0 {
        Seq::empty()
    } else {
        ascii_siblings(cs.subrange(0, cs.len() - 1), prefix) + ascii_node(
            cs[cs.len() - 1],
            prefix,
            false,
        )
    }
}

/// The tree drawn as ASCII art.
pub open spec fn ascii_tree(t: WidgetTree) -> Seq<char> {
    ascii_node(t.root, Seq::empty(), true)
}

proof fn lemma_ascii_children_split(cs: Seq<WidgetNode>, prefix: Seq<char>)
    requires
        cs.len() > 0,
    ensures
        ascii_children(cs, prefix) == ascii_siblings(cs.take(cs.len() - 1), prefix) + ascii_node(
            cs[cs.len() - 1],
            prefix,
            true,
        ),
{
    assert(cs.subrange(0, cs.len() - 1) =~= cs.take(cs.len() - 1));
}

proof fn lemma_ascii_siblings_step(cs: Seq<WidgetNode>, prefix: Seq<char>, i: int)
    requires
        0 <= i < cs.len(),
    ensures
        ascii_siblings(cs.take(i + 1), prefix) == ascii_siblings(cs.take(i), prefix) + ascii_node(
            cs[i],
            prefix,
            false,
        ),
{
    assert(cs.take(i + 1).subrange(0, i) =~= cs.take(i));
}

fn push_node_desc(output: &mut String, node: &WidgetNode)
    requires
        text_cut_ok(*node),
    ensures
        final(output)@ == old(output)@ + node_desc(*node),
{
    let ghost o = output@;
    output.append(node.kind.as_str());
    if node.is_focused {
        output.append(" [focused]");
    }
    let ghost mid = output@;
    match &node.text {
        Some(text) => {
            let tv = chars_of(text.as_str());
            if byte_len(tv.as_slice()) <= 30 {
                output.append(" text=\"");
                output.append(text.as_str());
                output.append("\"");
            } else {
                output.append(" text=\"");
                let p = prefix_bytes(tv.as_slice(), 27);
                append_chars(output, p.as_slice());
                output.append("...\"");
            }
        },
        None => {},
    }
    assert(output@ =~= o + node_desc(*node));
}

fn render_ascii(node: &WidgetNode, output: &mut String, prefix: &str, is_last: bool)
    requires
        ascii_ok(*node),
    ensures
        final(output)@ == old(output)@ + ascii_node(*node, prefix@, is_last),
    decreases node,
{
    let ghost o = output@;
    output.append(prefix);
    if is_last {
        output.append("└── ");
    } else {
        output.append("├── ");
    }
    push_node_desc(output, node);
    output.append("\n");
    let ghost head = output@;
    let mut child_prefix = String::from_str(prefix);
    if is_last {
        child_prefix.append("    ");
    } else {
        child_prefix.append("│   ");
    }
    let ghost cp = child_prefix@;
    let ghost cs = node.children@;
    let n = node.children.len();
    if n > 0 {
        proof {
            assert(cs.take(0) =~= Seq::<WidgetNode>::empty());
        }
        let mut i: usize = 0;
        while i < n - 1
            invariant
                n == cs.len(),
                n > 0,
                i <= n - 1,
                cs == node.children@,
                cp == child_prefix@,
                ascii_ok_list(cs),
                output@ == head + ascii_siblings(cs.take(i as int), cp),
            decreases n - 1 - i,
        {
            proof {
                lemma_ascii_siblings_step(cs, cp, i as int);
                lemma_ascii_ok_list(cs, i as int);
            }
            render_ascii(&node.children[i], output, child_prefix.as_str(), false);
            i = i + 1;
        }
        proof {
            lemma_ascii_ok_list(cs, n - 1);
            lemma_ascii_children_split(cs, cp);
        }
        render_ascii(&node.children[n - 1], output, child_prefix.as_str(), true);
    }
    assert(output@ =~= o + ascii_node(*node, prefix@, is_last));
}

impl WidgetTree {
    /// Render the tree as ASCII art
    pub fn to_ascii(&self) -> (r: String)
        requires
            ascii_ok(self.root),
        ensures
            r@ == ascii_tree(*self),
    {
        let mut output = String::new();
        render_ascii(&self.root, &mut output, "", true);
        proof {
            reveal_strlit("");
        }
        assert(""@ =~= Seq::<char>::empty());
        assert(output@ =~= ascii_tree(*self));
        output
    }

    /// Render the tree as org-mode: the ASCII drawing in a source block
    pub fn to_org(&self) -> (r: String)
        requires
            ascii_ok(self.root),
        ensures
            r@ == "#+begin_src\n"@ + ascii_tree(*self) + "#+end_src\n"@,
    {
        let mut output = String::new();
        output.append("#+begin_src\n");
        let a = self.to_ascii();
        output.append(a.as_str());
        output.append("#+end_src\n");
        assert(output@ =~= "#+begin_src\n"@ + ascii_tree(*self) + "#+end_src\n"@);
        output
    }
}

} // verus!
