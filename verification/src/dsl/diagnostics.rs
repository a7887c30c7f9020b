//! Failure diagnostics: what went wrong, what could have been done instead,
//! and hints for fixing the test.

use super::action::{action_display, displayable, kind_short, TestAction};
use super::edit_distance::{lev, levenshtein};
use super::inspector::{ascii_ok, ascii_tree, texts, WidgetTree};
use crate::registry::{opt_view, str_eq};
use crate::text::{dec, flatten, join, lemma_flatten_ends, lemma_flatten_take, push_dec};
use vstd::prelude::*;

verus! {

/// The reason a test action failed
#[derive(Debug)]
pub enum FailureReason {
    /// The selector didn't match any element
    SelectorNotFound {
        /// The selector that was used
        selector: String,
        /// Similar selectors that were found
        similar: Vec<String>,
    },
    /// The element was found but not visible
    NotVisible {
        /// The selector
        selector: String,
        /// The element's bounds `(x, y, width, height)` (may be outside the
        /// viewport), each written as a whole number
        bounds: Option<(String, String, String, String)>,
    },
    /// An expectation was not met
    ExpectationFailed {
        /// What was expected
        expected: String,
        /// What was actually found (if anything)
        found: Option<String>,
    },
    /// A timeout occurred waiting for something
    Timeout {
        /// What we were waiting for
        condition: String,
    },
    /// The element is not interactive
    NotInteractive {
        /// The selector
        selector: String,
        /// What kind of element it is
        element_kind: String,
    },
}

/// An action available in the current UI state
#[derive(Debug)]
pub struct AvailableAction {
    /// Selector to use for this action
    pub selector: String,
    /// Description of what the element is
    pub description: String,
    /// The kind of action possible (click, type, etc.)
    pub action_kind: String,
}

/// A hint for fixing a test failure
#[derive(Debug)]
pub struct TestHint {
    /// The suggestion
    pub message: String,
    /// Suggested code snippet, if applicable
    pub code: Option<String>,
    /// Priority (lower = more relevant)
    pub priority: u8,
}

/// A test failure with rich diagnostic context
#[derive(Debug)]
pub struct TestFailure {
    /// The action that failed
    pub action: TestAction,
    /// The reason for the failure
    pub reason: FailureReason,
    /// Actions that could have been performed instead
    pub available: Vec<AvailableAction>,
    /// Current widget tree state
    pub widget_tree: WidgetTree,
    /// Screenshot captured at failure point, if any
    pub screenshot: Option<String>,
    /// Suggested fixes
    pub hints: Vec<TestHint>,
}

/// A hint as plain values: message, code, priority.
pub type HintView = (Seq<char>, Option<Seq<char>>, u8);

/// The plain values of a hint.
pub open spec fn hint_view(h: TestHint) -> HintView {
    (h.message@, opt_view(h.code), h.priority)
}

/// The plain values of a list of hints.
pub open spec fn hint_views(hs: Seq<TestHint>) -> Seq<HintView> {
    hs.map_values(|h: TestHint| hint_view(h))
}

/// The hints come in order of priority, most relevant first.
pub open spec fn by_priority(hs: Seq<HintView>) -> bool {
    forall|i: int, j: int| 0 <= i <= j < hs.len() ==> (#[trigger] hs[i]).2 <= (#[trigger] hs[j]).2
}

/// `s` between double quotes.
pub open spec fn quoted(s: Seq<char>) -> Seq<char> {
    "\""@ + s + "\""@
}

/// The suggestion of one similar selector, at the given priority.
pub open spec fn similar_hint(s: Seq<char>, i: int) -> HintView {
    (
        "Did you mean \""@ + s + "\"?"@,
        Some("TestAction::click(\""@ + s + "\")"@),
        i as u8,
    )
}

/// The suggestions of the first three similar selectors.
pub open spec fn similar_hints(similar: Seq<Seq<char>>) -> Seq<HintView> {
    Seq::new(
        if similar.len() < 3 {
            similar.len()
        } else {
            3
        },
        |i: int| similar_hint(similar[i], i),
    )
}

/// The selector of the first available action that is a click.
pub open spec fn first_click(a: Seq<AvailableAction>) -> Option<Seq<char>>
    decreases a.len(),
{
    if a.len() == 0 {
        None
    } else if a[0].action_kind@ == "click"@ {
        Some(a[0].selector@)
    } else {
        first_click(a.drop_first())
    }
}

/// At most the first five texts, each quoted, joined by commas.
pub open spec fn text_list(ts: Seq<Seq<char>>) -> Seq<char> {
    let n = if ts.len() < 5 {
        ts.len()
    } else {
        5
    };
    join(Seq::new(n, |i: int| quoted(ts[i])), ", "@)
}

/// Hints for a selector that matched nothing.
pub open spec fn selector_hints(
    selector: Seq<char>,
    similar: Seq<Seq<char>>,
    available: Seq<AvailableAction>,
) -> Seq<HintView> {
    similar_hints(similar) + (if available.len() > 0 {
        seq![("Check the available actions table below"@, None, 10u8)]
    } else {
        Seq::empty()
    }) + seq![
        (
            "If \""@ + selector
                + "\" should appear after an async operation, try adding a wait"@,
            Some("TestAction::wait(Duration::from_millis(100))"@),
            20u8,
        ),
    ]
}

/// Hints for an expectation that was not met.
pub open spec fn expectation_hints(
    expected: Seq<char>,
    found: Option<Seq<char>>,
    shown: Seq<Seq<char>>,
) -> Seq<HintView> {
    match found {
        Some(actual) => seq![
            ("Found \""@ + actual + "\" instead of \""@ + expected + "\""@, None, 0u8),
        ] + (if lev(expected, actual) <= 3 {
            seq![
                (
                    "This looks like a typo - consider updating the expectation"@,
                    Some("TestAction::expect(\""@ + actual + "\")"@),
                    1u8,
                ),
            ]
        } else {
            Seq::empty()
        }),
        None => seq![("The expected text was not found anywhere in the UI"@, None, 0u8)] + (if shown.len()
            > 0 {
            seq![("Available text: "@ + text_list(shown), None, 5u8)]
        } else {
            Seq::empty()
        }),
    }
}

/// Hints for an element that cannot be interacted with.
pub open spec fn interactive_hints(
    selector: Seq<char>,
    element_kind: Seq<char>,
    available: Seq<AvailableAction>,
) -> Seq<HintView> {
    seq![
        ("\""@ + selector + "\" is a "@ + element_kind + " which cannot be clicked"@, None, 0u8),
    ] + match first_click(available) {
        Some(s) => seq![
            (
                "Try clicking \""@ + s + "\" instead"@,
                Some("TestAction::click(\""@ + s + "\")"@),
                5u8,
            ),
        ],
        None => Seq::empty(),
    }
}

/// Hints for a timeout.
pub open spec fn timeout_hints(condition: Seq<char>) -> Seq<HintView> {
    seq![
        ("Timeout waiting for: "@ + condition, None, 0u8),
        ("Consider increasing the wait duration or checking async operations"@, None, 5u8),
    ]
}

/// Hints for an element that exists but cannot be seen.
pub open spec fn visible_hints(
    selector: Seq<char>,
    bounds: Option<(Seq<char>, Seq<char>, Seq<char>, Seq<char>)>,
) -> Seq<HintView> {
    (match bounds {
        Some((x, y, w, h)) => seq![
            (
                "\""@ + selector + "\" exists but is not visible (bounds: "@ + w + "x"@ + h
                    + " at ("@ + x + ", "@ + y + "))"@,
                None,
                0u8,
            ),
        ],
        None => Seq::empty(),
    }) + seq![("The element may need to be scrolled into view"@, None, 5u8)]
}

/// The plain values of the bounds of an invisible element.
pub open spec fn bounds_view(b: Option<(String, String, String, String)>) -> Option<
    (Seq<char>, Seq<char>, Seq<char>, Seq<char>),
> {
    match b {
        Some((x, y, w, h)) => Some((x@, y@, w@, h@)),
        None => None,
    }
}

/// The hints that a failure calls for, most relevant first.
pub open spec fn hints_for(
    reason: FailureReason,
    available: Seq<AvailableAction>,
    tree: WidgetTree,
) -> Seq<HintView> {
    match reason {
        FailureReason::SelectorNotFound { selector, similar } => selector_hints(
            selector@,
            crate::text::string_views(similar@),
            available,
        ),
        FailureReason::ExpectationFailed { expected, found } => expectation_hints(
            expected@,
            opt_view(found),
            texts(tree.root),
        ),
        FailureReason::NotInteractive { selector, element_kind } => interactive_hints(
            selector@,
            element_kind@,
            available,
        ),
        FailureReason::Timeout { condition } => timeout_hints(condition@),
        FailureReason::NotVisible { selector, bounds } => visible_hints(
            selector@,
            bounds_view(bounds),
        ),
    }
}

/// Whatever the failure, its hints come out ordered by priority.
pub proof fn lemma_hints_by_priority(
    reason: FailureReason,
    available: Seq<AvailableAction>,
    tree: WidgetTree,
)
    ensures
        by_priority(hints_for(reason, available, tree)),
{
    let hs = hints_for(reason, available, tree);
    match reason {
        FailureReason::SelectorNotFound { selector, similar } => {
            let sv = crate::text::string_views(similar@);
            let sh = similar_hints(sv);
            assert forall|i: int| 0 <= i < sh.len() implies (#[trigger] sh[i]).2 < 3 by {
                assert(sh[i].2 == i as u8);
            }
            assert forall|i: int, j: int| 0 <= i <= j < hs.len() implies (
            #[trigger] hs[i]).2 <= (#[trigger] hs[j]).2 by {
                if j < sh.len() {
                    assert(hs[i] == sh[i]);
                    assert(hs[j] == sh[j]);
                } else if i < sh.len() {
                    assert(hs[i] == sh[i]);
                }
            }
        },
        _ => {},
    }
}

/// The failure described in one sentence.
pub open spec fn reason_text(r: FailureReason) -> Seq<char> {
    match r {
        FailureReason::SelectorNotFound { selector, .. } => "Could not find element matching \""@
            + selector@ + "\""@,
        FailureReason::NotVisible { selector, .. } => "Element \""@ + selector@
            + "\" exists but is not visible"@,
        FailureReason::ExpectationFailed { expected, found } => match found {
            Some(actual) => "Expected \""@ + expected@ + "\" but found \""@ + actual@ + "\""@,
            None => "Expected \""@ + expected@ + "\" but it was not found"@,
        },
        FailureReason::Timeout { condition } => "Timeout waiting for: "@ + condition@,
        FailureReason::NotInteractive { selector, element_kind } => "Element \""@ + selector@
            + "\" ("@ + element_kind@ + ") is not interactive"@,
    }
}

fn similar_hint_list(similar: &Vec<String>, hints: &mut Vec<TestHint>)
    ensures
        hint_views(final(hints)@) == hint_views(old(hints)@) + similar_hints(
            crate::text::string_views(similar@),
        ),
{
    let ghost o = hint_views(hints@);
    let ghost sv = crate::text::string_views(similar@);
    let n: usize = if similar.len() < 3 {
        similar.len()
    } else {
        3
    };
    let mut i: usize = 0;
    while i < n
        invariant
            n <= similar@.len(),
            n <= 3,
            n == similar_hints(sv).len(),
            i <= n,
            sv == crate::text::string_views(similar@),
            hint_views(hints@) == o + similar_hints(sv).take(i as int),
        decreases n - i,
    {
        let mut m = String::new();
        m.append("Did you mean \"");
        m.append(similar[i].as_str());
        m.append("\"?");
        let mut c = String::new();
        c.append("TestAction::click(\"");
        c.append(similar[i].as_str());
        c.append("\")");
        let ghost pre = hints@;
        hints.push(TestHint { message: m, code: Some(c), priority: i as u8 });
        assert(hint_views(hints@) =~= hint_views(pre).push(similar_hint(sv[i as int], i as int)));
        i = i + 1;
        assert(similar_hints(sv).take(i as int) =~= similar_hints(sv).take(i - 1).push(
            similar_hint(sv[i - 1], i - 1),
        ));
    }
    assert(similar_hints(sv).take(n as int) =~= similar_hints(sv));
}

fn push_hint(hints: &mut Vec<TestHint>, message: String, code: Option<String>, priority: u8)
    ensures
        hint_views(final(hints)@) == hint_views(old(hints)@).push(
            (message@, opt_view(code), priority),
        ),
{
    let ghost pre = hints@;
    hints.push(TestHint { message, code, priority });
    assert(hint_views(hints@) =~= hint_views(pre).push((message@, opt_view(code), priority)));
}

fn selector_hint_list(selector: &String, similar: &Vec<String>, available: &Vec<AvailableAction>) -> (r: Vec<TestHint>)
    ensures
        hint_views(r@) == selector_hints(
            selector@,
            crate::text::string_views(similar@),
            available@,
        ),
{
    let mut hints: Vec<TestHint> = Vec::new();
    similar_hint_list(similar, &mut hints);
    let ghost h1 = hint_views(hints@);
    if available.len() > 0 {
        push_hint(
            &mut hints,
            String::from_str("Check the available actions table below"),
            None,
            10,
        );
    }
    let mut m = String::new();
    m.append("If \"");
    m.append(selector.as_str());
    m.append("\" should appear after an async operation, try adding a wait");
    push_hint(
        &mut hints,
        m,
        Some(String::from_str("TestAction::wait(Duration::from_millis(100))")),
        20,
    );
    assert(hint_views(hints@) =~= selector_hints(
        selector@,
        crate::text::string_views(similar@),
        available@,
    ));
    hints
}

/// Appends at most the first five texts, each quoted, joined by commas.
fn push_text_list(out: &mut String, ts: &Vec<&str>)
    ensures
        final(out)@ == old(out)@ + text_list(ts@.map_values(|s: &str| s@)),
{
    let ghost o = out@;
    let ghost tv = ts@.map_values(|s: &str| s@);
    let n: usize = if ts.len() < 5 {
        ts.len()
    } else {
        5
    };
    let ghost ps = Seq::new(n as nat, |i: int| quoted(tv[i]));
    let mut i: usize = 0;
    assert(ps.take(0) =~= Seq::<Seq<char>>::empty());
    while i < n
        invariant
            n <= ts@.len(),
            i <= n,
            tv == ts@.map_values(|s: &str| s@),
            ps == Seq::new(n as nat, |i: int| quoted(tv[i])),
            out@ == o + join(ps.take(i as int), ", "@),
        decreases n - i,
    {
        if i > 0 {
            out.append(", ");
        }
        out.append("\"");
        out.append(ts[i]);
        out.append("\"");
        proof {
            let t = ps.take(i + 1);
            assert(t.drop_last() =~= ps.take(i as int));
            assert(t.last() == quoted(tv[i as int]));
            if i == 0 {
                assert(t.len() == 1);
            }
        }
        i = i + 1;
        assert(out@ =~= o + join(ps.take(i as int), ", "@));
    }
    assert(ps.take(n as int) =~= ps);
}

fn expectation_hint_list(expected: &String, found: &Option<String>, tree: &WidgetTree) -> (r: Vec<TestHint>)
    ensures
        hint_views(r@) == expectation_hints(expected@, opt_view(*found), texts(tree.root)),
{
    let mut hints: Vec<TestHint> = Vec::new();
    match found {
        Some(actual) => {
            let mut m = String::new();
            m.append("Found \"");
            m.append(actual.as_str());
            m.append("\" instead of \"");
            m.append(expected.as_str());
            m.append("\"");
            push_hint(&mut hints, m, None, 0);
            if levenshtein(expected.as_str(), actual.as_str()) <= 3 {
                let mut c = String::new();
                c.append("TestAction::expect(\"");
                c.append(actual.as_str());
                c.append("\")");
                push_hint(
                    &mut hints,
                    String::from_str(
                        "This looks like a typo - consider updating the expectation",
                    ),
                    Some(c),
                    1,
                );
            }
        },
        None => {
            push_hint(
                &mut hints,
                String::from_str("The expected text was not found anywhere in the UI"),
                None,
                0,
            );
            let ts = tree.all_text();
            if ts.len() > 0 {
                let mut m = String::new();
                m.append("Available text: ");
                push_text_list(&mut m, &ts);
                push_hint(&mut hints, m, None, 5);
            }
        },
    }
    assert(hint_views(hints@) =~= expectation_hints(
        expected@,
        opt_view(*found),
        texts(tree.root),
    ));
    hints
}

/// The selector of the first available action that is a click.
fn find_first_click(available: &Vec<AvailableAction>) -> (r: Option<&String>)
    ensures
        match r {
            Some(s) => first_click(available@) == Some(s@),
            None => first_click(available@) is None,
        },
{
    let mut i: usize = 0;
    assert(available@.skip(0) =~= available@);
    while i < available.len()
        invariant
            i <= available@.len(),
            first_click(available@) == first_click(available@.skip(i as int)),
        decreases available@.len() - i,
    {
        let a = &available[i];
        assert(available@.skip(i as int)[0] == available@[i as int]);
        if str_eq(a.action_kind.as_str(), "click") {
            return Some(&a.selector);
        }
        assert(available@.skip(i as int).drop_first() =~= available@.skip(i + 1));
        i = i + 1;
    }
    assert(available@.skip(i as int) =~= Seq::<AvailableAction>::empty());
    None
}

fn interactive_hint_list(selector: &String, element_kind: &String, available: &Vec<AvailableAction>) -> (r: Vec<TestHint>)
    ensures
        hint_views(r@) == interactive_hints(selector@, element_kind@, available@),
{
    let mut hints: Vec<TestHint> = Vec::new();
    let mut m = String::new();
    m.append("\"");
    m.append(selector.as_str());
    m.append("\" is a ");
    m.append(element_kind.as_str());
    m.append(" which cannot be clicked");
    push_hint(&mut hints, m, None, 0);
    match find_first_click(available) {
        Some(s) => {
            let mut m2 = String::new();
            m2.append("Try clicking \"");
            m2.append(s.as_str());
            m2.append("\" instead");
            let mut c = String::new();
            c.append("TestAction::click(\"");
            c.append(s.as_str());
            c.append("\")");
            push_hint(&mut hints, m2, Some(c), 5);
        },
        None => {},
    }
    assert(hint_views(hints@) =~= interactive_hints(selector@, element_kind@, available@));
    hints
}

fn timeout_hint_list(condition: &String) -> (r: Vec<TestHint>)
    ensures
        hint_views(r@) == timeout_hints(condition@),
{
    let mut hints: Vec<TestHint> = Vec::new();
    let mut m = String::new();
    m.append("Timeout waiting for: ");
    m.append(condition.as_str());
    push_hint(&mut hints, m, None, 0);
    push_hint(
        &mut hints,
        String::from_str("Consider increasing the wait duration or checking async operations"),
        None,
        5,
    );
    assert(hint_views(hints@) =~= timeout_hints(condition@));
    hints
}

fn visible_hint_list(selector: &String, bounds: &Option<(String, String, String, String)>) -> (r: Vec<TestHint>)
    ensures
        hint_views(r@) == visible_hints(selector@, bounds_view(*bounds)),
{
    let mut hints: Vec<TestHint> = Vec::new();
    match bounds {
        Some((x, y, w, h)) => {
            let mut m = String::new();
            m.append("\"");
            m.append(selector.as_str());
            m.append("\" exists but is not visible (bounds: ");
            m.append(w.as_str());
            m.append("x");
            m.append(h.as_str());
            m.append(" at (");
            m.append(x.as_str());
            m.append(", ");
            m.append(y.as_str());
            m.append("))");
            push_hint(&mut hints, m, None, 0);
        },
        None => {},
    }
    push_hint(
        &mut hints,
        String::from_str("The element may need to be scrolled into view"),
        None,
        5,
    );
    assert(hint_views(hints@) =~= visible_hints(selector@, bounds_view(*bounds)));
    hints
}

impl TestFailure {
    /// Create a new test failure
    pub fn new(action: TestAction, reason: FailureReason) -> (r: Self)
        ensures
            r.action == action,
            r.reason == reason,
            r.available@.len() == 0,
            r.widget_tree.root.kind == super::inspector::WidgetKind::Container,
            r.widget_tree.root.text is None,
            !r.widget_tree.root.is_clickable,
            !r.widget_tree.root.is_text_input,
            !r.widget_tree.root.is_focused,
            r.widget_tree.root.suggested_selector is None,
            r.widget_tree.root.children@.len() == 0,
            r.screenshot is None,
            r.hints@.len() == 0,
    {
        TestFailure {
            action,
            reason,
            available: Vec::new(),
            widget_tree: WidgetTree::empty(),
            screenshot: None,
            hints: Vec::new(),
        }
    }

    /// Add available actions
    pub fn with_available(self, available: Vec<AvailableAction>) -> (r: Self)
        ensures
            r == (TestFailure { available, ..self }),
    {
        let mut s = self;
        s.available = available;
        s
    }

    /// Add widget tree
    pub fn with_tree(self, tree: WidgetTree) -> (r: Self)
        ensures
            r == (TestFailure { widget_tree: tree, ..self }),
    {
        let mut s = self;
        s.widget_tree = tree;
        s
    }

    /// Add screenshot path
    pub fn with_screenshot(self, path: &str) -> (r: Self)
        ensures
            r == (TestFailure { screenshot: r.screenshot, ..self }),
            r.screenshot matches Some(p) && p@ == path@,
    {
        let mut s = self;
        s.screenshot = Some(String::from_str(path));
        s
    }

    /// Generate hints based on the failure context, most relevant first
    pub fn generate_hints(&mut self)
        ensures
            *final(self) == (TestFailure { hints: final(self).hints, ..*old(self) }),
            hint_views(final(self).hints@) == hints_for(
                old(self).reason,
                old(self).available@,
                old(self).widget_tree,
            ),
            by_priority(hint_views(final(self).hints@)),
    {
        let hints = match &self.reason {
            FailureReason::SelectorNotFound { selector, similar } => selector_hint_list(
                selector,
                similar,
                &self.available,
            ),
            FailureReason::ExpectationFailed { expected, found } => expectation_hint_list(
                expected,
                found,
                &self.widget_tree,
            ),
            FailureReason::NotInteractive { selector, element_kind } => interactive_hint_list(
                selector,
                element_kind,
                &self.available,
            ),
            FailureReason::Timeout { condition } => timeout_hint_list(condition),
            FailureReason::NotVisible { selector, bounds } => visible_hint_list(selector, bounds),
        };
        proof {
            lemma_hints_by_priority(self.reason, self.available@, self.widget_tree);
        }
        self.hints = hints;
    }

    /// The failure described in one sentence.
    pub fn reason_description(&self) -> (r: String)
        ensures
            r@ == reason_text(self.reason),
    {
        let mut r = String::new();
        match &self.reason {
            FailureReason::SelectorNotFound { selector, .. } => {
                r.append("Could not find element matching \"");
                r.append(selector.as_str());
                r.append("\"");
            },
            FailureReason::NotVisible { selector, .. } => {
                r.append("Element \"");
                r.append(selector.as_str());
                r.append("\" exists but is not visible");
            },
            FailureReason::ExpectationFailed { expected, found } => {
                r.append("Expected \"");
                r.append(expected.as_str());
                match found {
                    Some(actual) => {
                        r.append("\" but found \"");
                        r.append(actual.as_str());
                        r.append("\"");
                    },
                    None => {
                        r.append("\" but it was not found");
                    },
                }
            },
            FailureReason::Timeout { condition } => {
                r.append("Timeout waiting for: ");
                r.append(condition.as_str());
            },
            FailureReason::NotInteractive { selector, element_kind } => {
                r.append("Element \"");
                r.append(selector.as_str());
                r.append("\" (");
                r.append(element_kind.as_str());
                r.append(") is not interactive");
            },
        }
        assert(r@ =~= reason_text(self.reason));
        r
    }
}

/// One row of the org-mode table of available actions.
pub open spec fn action_row_org(a: AvailableAction) -> Seq<char> {
    "| \""@ + a.selector@ + "\" | "@ + a.description@ + " | "@ + a.action_kind@ + " |\n"@
}

/// One line of the terminal list of available actions.
pub open spec fn action_line_terminal(a: AvailableAction) -> Seq<char> {
    "  \x1b[36m\""@ + a.selector@ + "\"\x1b[0m - "@ + a.description@ + " ("@ + a.action_kind@
        + ")\n"@
}

/// The `i`-th hint (counting from zero) as an org-mode numbered item.
pub open spec fn hint_org(i: int, h: TestHint) -> Seq<char> {
    dec((i + 1) as nat) + ". "@ + h.message@ + match opt_view(h.code) {
        Some(c) => "\n"@ + "   #+begin_src rust\n"@ + "   "@ + c + "\n"@ + "   #+end_src\n"@,
        None => "\n"@,
    }
}

/// A hint as a terminal bullet, with its code highlighted below it.
pub open spec fn hint_terminal(h: TestHint) -> Seq<char> {
    "  • "@ + h.message@ + "\n"@ + match opt_view(h.code) {
        Some(c) => "    \x1b[33m"@ + c + "\x1b[0m\n"@,
        None => Seq::empty(),
    }
}

/// The org-mode table of available actions; nothing when there are none.
pub open spec fn actions_org(av: Seq<AvailableAction>) -> Seq<char> {
    if av.len() > 0 {
        "** Available Actions\n"@ + "| Selector | Description | Action |\n"@
            + "|----------+-------------+--------|\n"@ + flatten(
            Seq::new(av.len(), |i: int| action_row_org(av[i])),
        ) + "\n"@
    } else {
        Seq::empty()
    }
}

/// The org-mode list of suggestions; nothing when there are none.
pub open spec fn hints_org(hs: Seq<TestHint>) -> Seq<char> {
    if hs.len() > 0 {
        "** Suggestions\n"@ + flatten(Seq::new(hs.len(), |i: int| hint_org(i, hs[i])))
    } else {
        Seq::empty()
    }
}

/// The org-mode screenshot link; nothing when there is none.
pub open spec fn screenshot_org(p: Option<Seq<char>>) -> Seq<char> {
    match p {
        Some(p) => "** Screenshot\n"@ + "[[file:"@ + p + "]]\n"@ + "\n"@,
        None => Seq::empty(),
    }
}

/// A failure rendered as org-mode.
pub open spec fn failure_org(f: TestFailure) -> Seq<char> {
    "* FAILED: "@ + kind_short(f.action.kind) + " :fail:\n"@ + ":PROPERTIES:\n"@ + ":END:\n"@
        + "\n"@ + "** Error\n"@ + "#+begin_quote\n"@ + reason_text(f.reason) + "\n"@
        + "#+end_quote\n"@ + "\n"@ + actions_org(f.available@) + "** Widget Tree\n"@
        + "#+begin_src\n"@ + ascii_tree(f.widget_tree) + "#+end_src\n"@ + "\n"@ + screenshot_org(
        opt_view(f.screenshot),
    ) + hints_org(f.hints@)
}

/// The failure report lists every available action in the table whose
/// header is `| Selector | Description | Action |`, one row per action with
/// its selector (quoted), description and action kind in that column order.
pub proof fn lemma_actions_table_rows(f: TestFailure, i: int)
    requires
        0 <= i < f.available@.len(),
    ensures
        crate::text::contains_seq(failure_org(f), "| Selector | Description | Action |\n"@),
        crate::text::contains_seq(
            failure_org(f),
            "| \""@ + f.available@[i].selector@ + "\" | "@ + f.available@[i].description@ + " | "@
                + f.available@[i].action_kind@ + " |\n"@,
        ),
{
    let av = f.available@;
    let a = av[i];
    let rows = Seq::new(av.len(), |k: int| action_row_org(av[k]));
    let row = "| \""@ + a.selector@ + "\" | "@ + a.description@ + " | "@ + a.action_kind@ + " |\n"@;
    let head = "* FAILED: "@ + kind_short(f.action.kind) + " :fail:\n"@ + ":PROPERTIES:\n"@
        + ":END:\n"@ + "\n"@ + "** Error\n"@ + "#+begin_quote\n"@ + reason_text(f.reason) + "\n"@
        + "#+end_quote\n"@ + "\n"@;
    let tail = "** Widget Tree\n"@ + "#+begin_src\n"@ + ascii_tree(f.widget_tree) + "#+end_src\n"@
        + "\n"@ + screenshot_org(opt_view(f.screenshot)) + hints_org(f.hints@);
    assert(failure_org(f) =~= head + actions_org(av) + tail);
    crate::text::lemma_contains_middle(head, actions_org(av), tail);
    let h1 = "** Available Actions\n"@;
    let h2 = "| Selector | Description | Action |\n"@;
    let h3 = "|----------+-------------+--------|\n"@;
    assert(actions_org(av) =~= h1 + h2 + (h3 + flatten(rows) + "\n"@));
    crate::text::lemma_contains_middle(h1, h2, h3 + flatten(rows) + "\n"@);
    crate::text::lemma_contains_trans(failure_org(f), actions_org(av), h2);
    assert(actions_org(av) =~= (h1 + h2 + h3) + flatten(rows) + "\n"@);
    crate::text::lemma_contains_middle(h1 + h2 + h3, flatten(rows), "\n"@);
    crate::text::lemma_flatten_contains(rows, i);
    assert(rows[i] == row);
    crate::text::lemma_contains_trans(failure_org(f), actions_org(av), flatten(rows));
    crate::text::lemma_contains_trans(failure_org(f), flatten(rows), row);
}

/// The terminal list of available actions; nothing when there are none.
pub open spec fn actions_terminal(av: Seq<AvailableAction>) -> Seq<char> {
    if av.len() > 0 {
        "\x1b[1mAvailable actions:\x1b[0m\n"@ + flatten(
            Seq::new(av.len(), |i: int| action_line_terminal(av[i])),
        ) + "\n"@
    } else {
        Seq::empty()
    }
}

/// The terminal list of suggestions; nothing when there are none.
pub open spec fn hints_terminal(hs: Seq<TestHint>) -> Seq<char> {
    if hs.len() > 0 {
        "\x1b[1mSuggestions:\x1b[0m\n"@ + flatten(Seq::new(hs.len(), |i: int| hint_terminal(hs[i])))
    } else {
        Seq::empty()
    }
}

/// A failure rendered for a terminal, with ANSI colors.
pub open spec fn failure_terminal(f: TestFailure) -> Seq<char> {
    "\x1b[1;31mFAILED\x1b[0m: "@ + action_display(f.action) + "\n"@ + "\n"@
        + "\x1b[1mReason:\x1b[0m "@ + reason_text(f.reason) + "\n"@ + "\n"@ + actions_terminal(
        f.available@,
    ) + hints_terminal(f.hints@)
}

fn push_actions_org(out: &mut String, av: &Vec<AvailableAction>)
    ensures
        final(out)@ == old(out)@ + actions_org(av@),
{
    let ghost o = out@;
    if av.len() > 0 {
        out.append("** Available Actions\n");
        out.append("| Selector | Description | Action |\n");
        out.append("|----------+-------------+--------|\n");
        let ghost o1 = out@;
        let ghost parts = Seq::new(av@.len(), |i: int| action_row_org(av@[i]));
        proof {
            lemma_flatten_ends(parts);
        }
        let mut i: usize = 0;
        while i < av.len()
            invariant
                i <= av@.len(),
                parts == Seq::new(av@.len(), |i: int| action_row_org(av@[i])),
                out@ == o1 + flatten(parts.take(i as int)),
            decreases av@.len() - i,
        {
            proof {
                lemma_flatten_take(parts, i as int);
            }
            let a = &av[i];
            out.append("| \"");
            out.append(a.selector.as_str());
            out.append("\" | ");
            out.append(a.description.as_str());
            out.append(" | ");
            out.append(a.action_kind.as_str());
            out.append(" |\n");
            i = i + 1;
            assert(out@ =~= o1 + flatten(parts.take(i as int)));
        }
        proof {
            lemma_flatten_ends(parts);
        }
        out.append("\n");
    }
    assert(out@ =~= o + actions_org(av@));
}

fn push_actions_terminal(out: &mut String, av: &Vec<AvailableAction>)
    ensures
        final(out)@ == old(out)@ + actions_terminal(av@),
{
    let ghost o = out@;
    if av.len() > 0 {
        out.append("\x1b[1mAvailable actions:\x1b[0m\n");
        let ghost o1 = out@;
        let ghost parts = Seq::new(av@.len(), |i: int| action_line_terminal(av@[i]));
        proof {
            lemma_flatten_ends(parts);
        }
        let mut i: usize = 0;
        while i < av.len()
            invariant
                i <= av@.len(),
                parts == Seq::new(av@.len(), |i: int| action_line_terminal(av@[i])),
                out@ == o1 + flatten(parts.take(i as int)),
            decreases av@.len() - i,
        {
            proof {
                lemma_flatten_take(parts, i as int);
            }
            let a = &av[i];
            out.append("  \x1b[36m\"");
            out.append(a.selector.as_str());
            out.append("\"\x1b[0m - ");
            out.append(a.description.as_str());
            out.append(" (");
            out.append(a.action_kind.as_str());
            out.append(")\n");
            i = i + 1;
            assert(out@ =~= o1 + flatten(parts.take(i as int)));
        }
        proof {
            lemma_flatten_ends(parts);
        }
        out.append("\n");
    }
    assert(out@ =~= o + actions_terminal(av@));
}

fn push_hints_org(out: &mut String, hs: &Vec<TestHint>)
    ensures
        final(out)@ == old(out)@ + hints_org(hs@),
{
    let ghost o = out@;
    if hs.len() > 0 {
        out.append("** Suggestions\n");
        let ghost o1 = out@;
        let ghost parts = Seq::new(hs@.len(), |i: int| hint_org(i, hs@[i]));
        proof {
            lemma_flatten_ends(parts);
        }
        let mut i: usize = 0;
        while i < hs.len()
            invariant
                i <= hs@.len(),
                parts == Seq::new(hs@.len(), |i: int| hint_org(i, hs@[i])),
                out@ == o1 + flatten(parts.take(i as int)),
            decreases hs@.len() - i,
        {
            proof {
                lemma_flatten_take(parts, i as int);
            }
            let h = &hs[i];
            let ghost before = out@;
            push_dec(out, i as u128 + 1);
            out.append(". ");
            out.append(h.message.as_str());
            match &h.code {
                Some(c) => {
                    out.append("\n");
                    out.append("   #+begin_src rust\n");
                    out.append("   ");
                    out.append(c.as_str());
                    out.append("\n");
                    out.append("   #+end_src\n");
                },
                None => {
                    out.append("\n");
                },
            }
            assert(out@ =~= before + hint_org(i as int, hs@[i as int]));
            i = i + 1;
            assert(out@ =~= o1 + flatten(parts.take(i as int)));
        }
        proof {
            lemma_flatten_ends(parts);
        }
    }
    assert(out@ =~= o + hints_org(hs@));
}

fn push_hints_terminal(out: &mut String, hs: &Vec<TestHint>)
    ensures
        final(out)@ == old(out)@ + hints_terminal(hs@),
{
    let ghost o = out@;
    if hs.len() > 0 {
        out.append("\x1b[1mSuggestions:\x1b[0m\n");
        let ghost o1 = out@;
        let ghost parts = Seq::new(hs@.len(), |i: int| hint_terminal(hs@[i]));
        proof {
            lemma_flatten_ends(parts);
        }
        let mut i: usize = 0;
        while i < hs.len()
            invariant
                i <= hs@.len(),
                parts == Seq::new(hs@.len(), |i: int| hint_terminal(hs@[i])),
                out@ == o1 + flatten(parts.take(i as int)),
            decreases hs@.len() - i,
        {
            proof {
                lemma_flatten_take(parts, i as int);
            }
            let h = &hs[i];
            let ghost before = out@;
            out.append("  • ");
            out.append(h.message.as_str());
            out.append("\n");
            match &h.code {
                Some(c) => {
                    out.append("    \x1b[33m");
                    out.append(c.as_str());
                    out.append("\x1b[0m\n");
                },
                None => {},
            }
            assert(out@ =~= before + hint_terminal(hs@[i as int]));
            i = i + 1;
            assert(out@ =~= o1 + flatten(parts.take(i as int)));
        }
        proof {
            lemma_flatten_ends(parts);
        }
    }
    assert(out@ =~= o + hints_terminal(hs@));
}

impl TestFailure {
    /// Render to org-mode format
    pub fn to_org(&self) -> (r: String)
        requires
            displayable(self.action),
            ascii_ok(self.widget_tree.root),
        ensures
            r@ == failure_org(*self),
    {
        let mut output = String::new();
        output.append("* FAILED: ");
        let d = self.action.display_short();
        output.append(d.as_str());
        output.append(" :fail:\n");
        output.append(":PROPERTIES:\n");
        output.append(":END:\n");
        output.append("\n");
        output.append("** Error\n");
        output.append("#+begin_quote\n");
        let rd = self.reason_description();
        output.append(rd.as_str());
        output.append("\n");
        output.append("#+end_quote\n");
        output.append("\n");
        push_actions_org(&mut output, &self.available);
        output.append("** Widget Tree\n");
        let t = self.widget_tree.to_org();
        output.append(t.as_str());
        output.append("\n");
        let ghost o = output@;
        match &self.screenshot {
            Some(p) => {
                output.append("** Screenshot\n");
                output.append("[[file:");
                output.append(p.as_str());
                output.append("]]\n");
                output.append("\n");
            },
            None => {},
        }
        assert(output@ =~= o + screenshot_org(opt_view(self.screenshot)));
        push_hints_org(&mut output, &self.hints);
        assert(output@ =~= failure_org(*self));
        output
    }

    /// Render to terminal with ANSI colors
    pub fn to_terminal(&self) -> (r: String)
        requires
            displayable(self.action),
        ensures
            r@ == failure_terminal(*self),
    {
        let mut output = String::new();
        output.append("\x1b[1;31mFAILED\x1b[0m: ");
        let d = self.action.to_string();
        output.append(d.as_str());
        output.append("\n");
        output.append("\n");
        output.append("\x1b[1mReason:\x1b[0m ");
        let rd = self.reason_description();
        output.append(rd.as_str());
        output.append("\n");
        output.append("\n");
        push_actions_terminal(&mut output, &self.available);
        push_hints_terminal(&mut output, &self.hints);
        assert(output@ =~= failure_terminal(*self));
        output
    }
}

} // verus!
