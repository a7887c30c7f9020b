//! Test actions with documentation metadata: what to do, why, what should
//! happen and when to capture screenshots.

use crate::text::{byte_len, byte_prefix, chars_of, dec, is_boundary, prefix_bytes, push_dec, string_from_chars, utf8_len};
use vstd::prelude::*;

verus! {

/// When to capture screenshots relative to an action.
#[derive(Debug, Clone, Copy, PartialEq, Eq, Structural)]
pub enum CapturePoint {
    /// Don't capture any screenshot
    Never,
    /// Capture before the action
    Before,
    /// Capture after the action
    After,
    /// Capture both before and after
    Both,
}

impl CapturePoint {
    /// True when a screenshot is taken before the action.
    pub open spec fn spec_captures_before(self) -> bool {
        self == CapturePoint::Before || self == CapturePoint::Both
    }

    /// True when a screenshot is taken after the action.
    pub open spec fn spec_captures_after(self) -> bool {
        self == CapturePoint::After || self == CapturePoint::Both
    }

    /// Returns true if we should capture before the action
    pub fn captures_before(&self) -> (r: bool)
        ensures
            r == self.spec_captures_before(),
    {
        match self {
            CapturePoint::Before | CapturePoint::Both => true,
            _ => false,
        }
    }

    /// Returns true if we should capture after the action
    pub fn captures_after(&self) -> (r: bool)
        ensures
            r == self.spec_captures_after(),
    {
        match self {
            CapturePoint::After | CapturePoint::Both => true,
            _ => false,
        }
    }
}

impl Default for CapturePoint {
    fn default() -> (r: Self)
        ensures
            r == CapturePoint::Never,
    {
        CapturePoint::Never
    }
}

/// A keyboard key that an action can tap (the keys the simulator supports).
#[derive(Debug, Clone, Copy, PartialEq, Eq, Structural)]
pub enum Key {
    /// The Enter key
    Enter,
    /// The Escape key
    Escape,
    /// The Tab key
    Tab,
    /// The Backspace key
    Backspace,
}

/// The name of a key, as its debug form prints it.
pub open spec fn key_name_spec(k: Key) -> Seq<char> {
    match k {
        Key::Enter => "Enter"@,
        Key::Escape => "Escape"@,
        Key::Tab => "Tab"@,
        Key::Backspace => "Backspace"@,
    }
}

impl Key {
    /// The name of the key.
    pub fn name(&self) -> (r: &'static str)
        ensures
            r@ == key_name_spec(*self),
    {
        match self {
            Key::Enter => "Enter",
            Key::Escape => "Escape",
            Key::Tab => "Tab",
            Key::Backspace => "Backspace",
        }
    }
}

/// A span of time to wait: whole seconds and nanoseconds.
#[derive(Debug, Clone, Copy, PartialEq, Eq, Structural)]
pub struct WaitDuration {
    /// Whole seconds
    pub secs: u64,
    /// Additional nanoseconds
    pub nanos: u32,
}

impl WaitDuration {
    /// The total number of whole milliseconds.
    pub open spec fn spec_millis(self) -> nat {
        (self.secs * 1000 + self.nanos / 1_000_000) as nat
    }

    /// A wait of `ms` milliseconds.
    pub fn from_millis(ms: u64) -> (r: Self)
        ensures
            r.spec_millis() == ms,
            r.nanos < 1_000_000_000,
    {
        WaitDuration { secs: ms / 1000, nanos: ((ms % 1000) * 1_000_000) as u32 }
    }

    /// The total number of whole milliseconds (`Duration::as_millis`).
    pub fn as_millis(&self) -> (r: u128)
        ensures
            r == self.spec_millis(),
    {
        self.secs as u128 * 1000 + (self.nanos / 1_000_000) as u128
    }
}

/// The kind of test action
#[derive(Debug, Clone, PartialEq, Eq)]
pub enum ActionKind {
    /// Click on an element matching the selector
    Click(String),
    /// Type text into the focused element
    Type(String),
    /// Tap a special key
    Tap(Key),
    /// Expect text to be present in the UI
    Expect(String),
    /// Wait for a duration (for async operations)
    Wait(WaitDuration),
}

/// A test action with documentation metadata
#[derive(Debug, Clone)]
pub struct TestAction {
    /// The kind of action to perform
    pub kind: ActionKind,
    /// Human-readable description of what this action does
    pub description: Option<String>,
    /// What we expect to happen after this action
    pub expected: Option<String>,
    /// When to capture screenshots relative to this action
    pub capture: CapturePoint,
}

/// `s` shortened to at most `max` bytes: the first `max - 3` bytes and `...`
/// when longer.
pub open spec fn truncate_spec(s: Seq<char>, max: nat) -> Seq<char> {
    if utf8_len(s) <= max {
        s
    } else {
        byte_prefix(s, max - 3) + "..."@
    }
}

/// Shortening `s` to `max` bytes succeeds: either it fits, or the cut at
/// `max - 3` bytes exists and falls between two characters.
pub open spec fn truncate_ok(s: Seq<char>, max: nat) -> bool {
    utf8_len(s) > max ==> max >= 3 && is_boundary(s, max - 3)
}

/// A shortened text never exceeds its limit: when the cut exists, the result
/// is at most `max` bytes, and text that fits is left as it is.
pub proof fn lemma_truncate_fits(s: Seq<char>, max: nat)
    requires
        truncate_ok(s, max),
    ensures
        utf8_len(truncate_spec(s, max)) <= max,
        utf8_len(s) <= max ==> truncate_spec(s, max) == s,
{
    if utf8_len(s) > max {
        let k = max - 3;
        let i = choose|i: int| 0 <= i <= s.len() && utf8_len(s.take(i)) == k;
        assert(utf8_len(byte_prefix(s, k)) == k);
        crate::text::lemma_utf8_len_concat(byte_prefix(s, k), "..."@);
        assert(utf8_len("..."@) == 3) by {
            reveal_strlit("...");
            reveal_with_fuel(utf8_len, 4);
            assert("..."@.drop_first().drop_first().drop_first() =~= Seq::<char>::empty());
        }
    }
}

/// Shortens `s` to at most `max` bytes, ending in `...` when cut.
pub fn truncate(s: &str, max: usize) -> (r: String)
    requires
        truncate_ok(s@, max as nat),
    ensures
        r@ == truncate_spec(s@, max as nat),
{
    let v = chars_of(s);
    if byte_len(v.as_slice()) <= max as u128 {
        String::from_str(s)
    } else {
        let p = prefix_bytes(v.as_slice(), max - 3);
        let mut r = string_from_chars(p.as_slice());
        r.append("...");
        r
    }
}

/// The short form of an action kind.
pub open spec fn kind_short(k: ActionKind) -> Seq<char> {
    match k {
        ActionKind::Click(sel) => "click \""@ + sel@ + "\""@,
        ActionKind::Type(text) => "type \""@ + truncate_spec(text@, 20) + "\""@,
        ActionKind::Tap(key) => "tap "@ + key_name_spec(key),
        ActionKind::Expect(text) => "expect \""@ + truncate_spec(text@, 20) + "\""@,
        ActionKind::Wait(d) => "wait "@ + dec(d.spec_millis()) + "ms"@,
    }
}

/// The action's short form can be written: the text of a typing or an
/// expectation is short, or can be cut at 17 bytes.
pub open spec fn displayable(a: TestAction) -> bool {
    match a.kind {
        ActionKind::Type(text) => truncate_ok(text@, 20),
        ActionKind::Expect(text) => truncate_ok(text@, 20),
        _ => true,
    }
}

/// The action's short form with its description in parentheses.
pub open spec fn action_display(a: TestAction) -> Seq<char> {
    kind_short(a.kind) + match a.description {
        Some(d) => " ("@ + d@ + ")"@,
        None => Seq::empty(),
    }
}

fn new_action(kind: ActionKind) -> (r: TestAction)
    ensures
        r.kind == kind,
        r.description is None,
        r.expected is None,
        r.capture == CapturePoint::Never,
{
    TestAction { kind, description: None, expected: None, capture: CapturePoint::Never }
}

impl TestAction {
    /// Create a click action for the given selector
    pub fn click(selector: &str) -> (r: Self)
        ensures
            r.kind matches ActionKind::Click(s) && s@ == selector@,
            r.description is None,
            r.expected is None,
            r.capture == CapturePoint::Never,
    {
        new_action(ActionKind::Click(String::from_str(selector)))
    }

    /// Create a type action to enter text
    pub fn typewrite(text: &str) -> (r: Self)
        ensures
            r.kind matches ActionKind::Type(s) && s@ == text@,
            r.description is None,
            r.expected is None,
            r.capture == CapturePoint::Never,
    {
        new_action(ActionKind::Type(String::from_str(text)))
    }

    /// Create a key tap action
    pub fn tap(key: Key) -> (r: Self)
        ensures
            r.kind == ActionKind::Tap(key),
            r.description is None,
            r.expected is None,
            r.capture == CapturePoint::Never,
    {
        new_action(ActionKind::Tap(key))
    }

    /// Create an expectation that text should be present
    pub fn expect(text: &str) -> (r: Self)
        ensures
            r.kind matches ActionKind::Expect(s) && s@ == text@,
            r.description is None,
            r.expected is None,
            r.capture == CapturePoint::Never,
    {
        new_action(ActionKind::Expect(String::from_str(text)))
    }

    /// Create a wait action for async operations
    pub fn wait(duration: WaitDuration) -> (r: Self)
        ensures
            r.kind == ActionKind::Wait(duration),
            r.description is None,
            r.expected is None,
            r.capture == CapturePoint::Never,
    {
        new_action(ActionKind::Wait(duration))
    }

    /// Add a human-readable description
    pub fn described_as(self, desc: &str) -> (r: Self)
        ensures
            r.kind == self.kind,
            r.description matches Some(d) && d@ == desc@,
            r.expected == self.expected,
            r.capture == self.capture,
    {
        let mut a = self;
        a.description = Some(String::from_str(desc));
        a
    }

    /// Add an expected outcome description
    pub fn expecting(self, exp: &str) -> (r: Self)
        ensures
            r.kind == self.kind,
            r.description == self.description,
            r.expected matches Some(e) && e@ == exp@,
            r.capture == self.capture,
    {
        let mut a = self;
        a.expected = Some(String::from_str(exp));
        a
    }

    /// Capture a screenshot after this action
    pub fn with_screenshot(self) -> (r: Self)
        ensures
            r == (TestAction { capture: CapturePoint::After, ..self }),
    {
        let mut a = self;
        a.capture = CapturePoint::After;
        a
    }

    /// Capture a screenshot before this action
    pub fn with_screenshot_before(self) -> (r: Self)
        ensures
            r == (TestAction { capture: CapturePoint::Before, ..self }),
    {
        let mut a = self;
        a.capture = CapturePoint::Before;
        a
    }

    /// Capture screenshots both before and after this action
    pub fn with_screenshot_both(self) -> (r: Self)
        ensures
            r == (TestAction { capture: CapturePoint::Both, ..self }),
    {
        let mut a = self;
        a.capture = CapturePoint::Both;
        a
    }

    /// Set the capture point explicitly
    pub fn with_capture(self, capture: CapturePoint) -> (r: Self)
        ensures
            r == (TestAction { capture, ..self }),
    {
        let mut a = self;
        a.capture = capture;
        a
    }

    /// Get a short display string for this action
    pub fn display_short(&self) -> (r: String)
        requires
            displayable(*self),
        ensures
            r@ == kind_short(self.kind),
    {
        let mut r = String::new();
        match &self.kind {
            ActionKind::Click(sel) => {
                r.append("click \"");
                r.append(sel.as_str());
                r.append("\"");
            },
            ActionKind::Type(text) => {
                r.append("type \"");
                let t = truncate(text.as_str(), 20);
                r.append(t.as_str());
                r.append("\"");
            },
            ActionKind::Tap(key) => {
                r.append("tap ");
                r.append(key.name());
            },
            ActionKind::Expect(text) => {
                r.append("expect \"");
                let t = truncate(text.as_str(), 20);
                r.append(t.as_str());
                r.append("\"");
            },
            ActionKind::Wait(d) => {
                r.append("wait ");
                push_dec(&mut r, d.as_millis());
                r.append("ms");
            },
        }
        assert(r@ =~= kind_short(self.kind));
        r
    }

    /// The display form: the short form, then the description in parentheses.
    pub fn to_string(&self) -> (r: String)
        requires
            displayable(*self),
        ensures
            r@ == action_display(*self),
    {
        let mut r = self.display_short();
        match &self.description {
            Some(d) => {
                r.append(" (");
                r.append(d.as_str());
                r.append(")");
            },
            None => {},
        }
        assert(r@ =~= action_display(*self));
        r
    }
}

/// An exact copy of an optional string.
pub fn copy_opt_string(o: &Option<String>) -> (r: Option<String>)
    ensures
        r == *o,
{
    match o {
        Some(s) => Some(s.clone()),
        None => None,
    }
}

/// An exact copy of an action.
pub fn copy_action(a: &TestAction) -> (r: TestAction)
    ensures
        r == *a,
{
    let kind = match &a.kind {
        ActionKind::Click(s) => ActionKind::Click(s.clone()),
        ActionKind::Type(s) => ActionKind::Type(s.clone()),
        ActionKind::Tap(k) => ActionKind::Tap(*k),
        ActionKind::Expect(s) => ActionKind::Expect(s.clone()),
        ActionKind::Wait(d) => ActionKind::Wait(*d),
    };
    TestAction {
        kind,
        description: copy_opt_string(&a.description),
        expected: copy_opt_string(&a.expected),
        capture: a.capture,
    }
}

} // verus!
