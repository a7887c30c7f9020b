//! The state of a running visual test: the scenario, the trace of executed
//! actions and the screenshots taken, and the decisions made around each
//! action. The simulator that performs the actions is driven by the caller,
//! which hands back what each action produced.

use super::action::{copy_action, key_name_spec, ActionKind, TestAction, WaitDuration};
use super::diagnostics::{hint_views, hints_for, AvailableAction, FailureReason, TestFailure};
use super::edit_distance::{lev, levenshtein};
use super::inspector::{WidgetKind, WidgetTree};
use super::story::{StoryStep, UserStory};
use crate::registry::{keep, opt_view};
use crate::text::{
    chars_of, contains_chars, contains_seq, dec, lowercase, push_dec, string_from_chars,
    string_views, to_lowercase,
};
use vstd::prelude::*;

verus! {

/// Metadata for a test scenario
#[derive(Debug, Clone)]
pub struct ScenarioMeta {
    /// Scenario title
    pub title: String,
    /// Description
    pub description: String,
    /// Actor performing the test
    pub actor: String,
    /// Preconditions
    pub preconditions: Vec<String>,
    /// Expected outcomes
    pub outcomes: Vec<String>,
    /// Tags for categorization
    pub tags: Vec<String>,
    /// Source file
    pub source_file: Option<String>,
    /// Source line
    pub source_line: Option<u32>,
}

impl Default for ScenarioMeta {
    fn default() -> (r: Self)
        ensures
            r.title@.len() == 0,
            r.description@.len() == 0,
            r.actor@.len() == 0,
            r.preconditions@.len() == 0,
            r.outcomes@.len() == 0,
            r.tags@.len() == 0,
            r.source_file is None,
            r.source_line is None,
    {
        ScenarioMeta {
            title: String::new(),
            description: String::new(),
            actor: String::new(),
            preconditions: Vec::new(),
            outcomes: Vec::new(),
            tags: Vec::new(),
            source_file: None,
            source_line: None,
        }
    }
}

/// Captured UI state at a point in time
#[derive(Debug, Clone)]
pub struct UiState {
    /// Available clickable elements
    pub clickable: Vec<String>,
    /// Available text inputs
    pub text_inputs: Vec<String>,
    /// All visible text
    pub visible_text: Vec<String>,
}

/// Record of an executed action
#[derive(Debug)]
pub struct ActionTrace {
    /// The action that was executed
    pub action: TestAction,
    /// UI state before the action
    pub before: UiState,
    /// UI state after the action
    pub after: UiState,
    /// Whether the action succeeded
    pub success: bool,
    /// Error message if failed
    pub error: Option<String>,
    /// Screenshot path if captured
    pub screenshot: Option<String>,
}

/// What went wrong when the simulator ran an action.
#[derive(Debug)]
pub enum SimError {
    /// No widget matched the selector
    SelectorNotFound {
        /// A description of the selector
        selector: String,
    },
    /// Any other failure, by its message
    Other {
        /// The message describing the failure
        message: String,
    },
}

/// The message of a simulator failure.
pub open spec fn sim_error_text(e: SimError) -> Seq<char> {
    match e {
        SimError::SelectorNotFound { selector } => "no matching widget was found for the selector: "@
            + selector@,
        SimError::Other { message } => message@,
    }
}

impl SimError {
    /// The message describing the failure
    pub fn message(&self) -> (r: String)
        ensures
            r@ == sim_error_text(*self),
    {
        match self {
            SimError::SelectorNotFound { selector } => {
                let mut r = String::from_str("no matching widget was found for the selector: ");
                r.append(selector.as_str());
                r
            },
            SimError::Other { message } => message.clone(),
        }
    }
}

/// How Rust's `{:?}` writes a string: quoted, with special characters
/// escaped.
pub uninterp spec fn str_debug(s: Seq<char>) -> Seq<char>;

/// `<str as Debug>::fmt`, through `format!("{:?}", s)`: the result is
/// `str_debug` of the string.
#[verifier::external_body]
fn str_debug_text(s: &str) -> (r: String)
    ensures
        r@ == str_debug(s@),
{
    format!("{:?}", s)
}

/// How Rust's `{:?}` writes a `Duration` of `secs` seconds and `nanos`
/// nanoseconds (such as `100ms` or `1.5s`).
pub uninterp spec fn duration_debug(secs: u64, nanos: u32) -> Seq<char>;

/// `<Duration as Debug>::fmt` applied to `Duration::new(secs, nanos)`; the
/// result is `duration_debug` of the two numbers. `Duration::new` panics when
/// the nanoseconds carry the seconds past `u64::MAX`, which `requires` rules
/// out.
#[verifier::external_body]
fn duration_debug_text(secs: u64, nanos: u32) -> (r: String)
    requires
        secs + nanos / 1_000_000_000 <= u64::MAX,
    ensures
        r@ == duration_debug(secs, nanos),
{
    format!("{:?}", std::time::Duration::new(secs, nanos))
}

/// A wait can be turned into a `Duration`: its nanoseconds do not carry its
/// seconds past the largest `u64`.
pub open spec fn wait_ok(k: ActionKind) -> bool {
    match k {
        ActionKind::Wait(d) => d.secs + d.nanos / 1_000_000_000 <= u64::MAX,
        _ => true,
    }
}

/// The debug form of an action kind, as `{:?}` writes it.
pub open spec fn kind_debug(k: ActionKind) -> Seq<char> {
    match k {
        ActionKind::Click(s) => "Click("@ + str_debug(s@) + ")"@,
        ActionKind::Type(s) => "Type("@ + str_debug(s@) + ")"@,
        ActionKind::Tap(key) => "Tap("@ + key_name_spec(key) + ")"@,
        ActionKind::Expect(s) => "Expect("@ + str_debug(s@) + ")"@,
        ActionKind::Wait(d) => "Wait("@ + duration_debug(d.secs, d.nanos) + ")"@,
    }
}

fn kind_debug_text(k: &ActionKind) -> (r: String)
    requires
        wait_ok(*k),
    ensures
        r@ == kind_debug(*k),
{
    let mut r = String::new();
    match k {
        ActionKind::Click(s) => {
            r.append("Click(");
            let d = str_debug_text(s.as_str());
            r.append(d.as_str());
        },
        ActionKind::Type(s) => {
            r.append("Type(");
            let d = str_debug_text(s.as_str());
            r.append(d.as_str());
        },
        ActionKind::Tap(key) => {
            r.append("Tap(");
            r.append(key.name());
        },
        ActionKind::Expect(s) => {
            r.append("Expect(");
            let d = str_debug_text(s.as_str());
            r.append(d.as_str());
        },
        ActionKind::Wait(d) => {
            r.append("Wait(");
            let t = duration_debug_text(d.secs, d.nanos);
            r.append(t.as_str());
        },
    }
    r.append(")");
    r
}

/// How close a string is to the (lower-cased) target: its edit distance
/// when at most 5, else 1 when either contains the other, else not close.
pub open spec fn closeness(target_lower: Seq<char>, s: Seq<char>) -> Option<nat> {
    let d = lev(target_lower, lowercase(s));
    if d <= 5 {
        Some(d)
    } else if contains_seq(lowercase(s), target_lower) || contains_seq(target_lower, lowercase(s)) {
        Some(1)
    } else {
        None
    }
}

/// The strings close to the target, each with its closeness, in the order
/// of the pool.
pub open spec fn close_candidates(target_lower: Seq<char>, pool: Seq<Seq<char>>) -> Seq<
    (Seq<char>, nat),
>
    decreases pool.len(),
{
    if pool.len() == 0 {
        Seq::empty()
    } else {
        let rest = close_candidates(target_lower, pool.drop_last());
        match closeness(target_lower, pool.last()) {
            Some(d) => rest.push((pool.last(), d)),
            None => rest,
        }
    }
}

/// A candidate at distance exactly `d`.
pub open spec fn dist_is(d: nat) -> spec_fn((Seq<char>, nat)) -> bool {
    |x: (Seq<char>, nat)| x.1 == d
}

/// The candidates at distance exactly `d`, in their order.
pub open spec fn at_distance(c: Seq<(Seq<char>, nat)>, d: nat) -> Seq<Seq<char>> {
    keep(c, dist_is(d)).map_values(|x: (Seq<char>, nat)| x.0)
}

/// The candidates at distance at most `d`, nearest first; candidates at the
/// same distance keep their order.
pub open spec fn up_to_distance(c: Seq<(Seq<char>, nat)>, d: nat) -> Seq<Seq<char>>
    decreases d,
{
    if d == 0 {
        at_distance(c, 0)
    } else {
        up_to_distance(c, (d - 1) as nat) + at_distance(c, d)
    }
}

/// The (at most five) strings of the pool closest to the target, nearest
/// first, ties in the order of the pool.
pub open spec fn similar_to(target: Seq<char>, pool: Seq<Seq<char>>) -> Seq<Seq<char>> {
    let all = up_to_distance(close_candidates(lowercase(target), pool), 5);
    all.take(
        if all.len() < 5 {
            all.len() as int
        } else {
            5
        },
    )
}

/// The closeness of a string that is close to the target.
pub open spec fn distance_of(target_lower: Seq<char>, s: Seq<char>) -> nat {
    match closeness(target_lower, s) {
        Some(d) => d,
        None => 0,
    }
}

proof fn lemma_candidates_close(t: Seq<char>, pool: Seq<Seq<char>>)
    ensures
        forall|i: int|
            0 <= i < close_candidates(t, pool).len() ==> closeness(
                t,
                (#[trigger] close_candidates(t, pool)[i]).0,
            ) == Some(close_candidates(t, pool)[i].1),
    decreases pool.len(),
{
    if pool.len() > 0 {
        lemma_candidates_close(t, pool.drop_last());
    }
}

proof fn lemma_keep_pairs(c: Seq<(Seq<char>, nat)>, d: nat)
    ensures
        forall|i: int|
            0 <= i < keep(c, dist_is(d)).len() ==> (#[trigger] keep(c, dist_is(d))[i]).1 == d
                && c.contains(keep(c, dist_is(d))[i]),
    decreases c.len(),
{
    if c.len() > 0 {
        lemma_keep_pairs(c.drop_last(), d);
        let k = keep(c, dist_is(d));
        let k0 = keep(c.drop_last(), dist_is(d));
        assert forall|i: int| 0 <= i < k.len() implies (#[trigger] k[i]).1 == d && c.contains(k[i]) by {
            if i < k0.len() {
                assert(k[i] == k0[i]);
                let m = choose|m: int| 0 <= m < c.drop_last().len() && c.drop_last()[m] == k0[i];
                assert(c[m] == k0[i]);
            } else {
                assert(k[i] == c.last());
                assert(c[c.len() - 1] == c.last());
            }
        }
    }
}

proof fn lemma_up_to_distance(t: Seq<char>, pool: Seq<Seq<char>>, d: nat)
    ensures
        forall|i: int|
            0 <= i < up_to_distance(close_candidates(t, pool), d).len() ==> {
                &&& closeness(t, #[trigger] up_to_distance(close_candidates(t, pool), d)[i]) is Some
                &&& distance_of(t, up_to_distance(close_candidates(t, pool), d)[i]) <= d
            },
        forall|i: int, j: int|
            0 <= i < j < up_to_distance(close_candidates(t, pool), d).len() ==> distance_of(
                t,
                #[trigger] up_to_distance(close_candidates(t, pool), d)[i],
            ) <= distance_of(t, #[trigger] up_to_distance(close_candidates(t, pool), d)[j]),
    decreases d,
{
    let c = close_candidates(t, pool);
    lemma_candidates_close(t, pool);
    lemma_keep_pairs(c, d);
    let b = at_distance(c, d);
    assert forall|i: int| 0 <= i < b.len() implies closeness(t, #[trigger] b[i]) == Some(d) by {
        let k = keep(c, dist_is(d));
        assert(b[i] == k[i].0);
        let m = choose|m: int| 0 <= m < c.len() && c[m] == k[i];
        assert(closeness(t, c[m].0) == Some(c[m].1));
    }
    if d > 0 {
        lemma_up_to_distance(t, pool, (d - 1) as nat);
        let a = up_to_distance(c, (d - 1) as nat);
        let u = up_to_distance(c, d);
        assert(u == a + b);
        assert forall|i: int| 0 <= i < u.len() implies {
            &&& closeness(t, #[trigger] u[i]) is Some
            &&& distance_of(t, u[i]) <= d
        } by {
            if i < a.len() {
                assert(u[i] == a[i]);
            } else {
                assert(u[i] == b[i - a.len()]);
            }
        }
        assert forall|i: int, j: int| 0 <= i < j < u.len() implies distance_of(t, #[trigger] u[i])
            <= distance_of(t, #[trigger] u[j]) by {
            if j < a.len() {
                assert(u[i] == a[i]);
                assert(u[j] == a[j]);
            } else if i < a.len() {
                assert(u[i] == a[i]);
                assert(u[j] == b[j - a.len()]);
            } else {
                assert(u[i] == b[i - a.len()]);
                assert(u[j] == b[j - a.len()]);
            }
        }
    }
}

/// The similar strings come nearest first: each is close to the target, and
/// their distances never decrease along the list.
pub proof fn lemma_similar_nearest_first(target: Seq<char>, pool: Seq<Seq<char>>)
    ensures
        forall|i: int|
            0 <= i < similar_to(target, pool).len() ==> closeness(
                lowercase(target),
                #[trigger] similar_to(target, pool)[i],
            ) is Some,
        forall|i: int, j: int|
            0 <= i < j < similar_to(target, pool).len() ==> distance_of(
                lowercase(target),
                #[trigger] similar_to(target, pool)[i],
            ) <= distance_of(lowercase(target), #[trigger] similar_to(target, pool)[j]),
        similar_to(target, pool).len() <= 5,
{
    let t = lowercase(target);
    lemma_up_to_distance(t, pool, 5);
    let all = up_to_distance(close_candidates(t, pool), 5);
    let r = similar_to(target, pool);
    assert forall|i: int| 0 <= i < r.len() implies r[i] == all[i] by {}
}

/// The strings of a UI state that a selector is compared with: the clickable
/// elements, then the visible text.
pub open spec fn selector_pool(s: UiState) -> Seq<Seq<char>> {
    string_views(s.clickable@) + string_views(s.visible_text@)
}

fn push_string_views(out: &mut Vec<(String, usize)>, target_lower: &Vec<char>, pool: &Vec<String>)
    ensures
        cand_views(final(out)@) == cand_views(old(out)@) + close_candidates(
            target_lower@,
            string_views(pool@),
        ),
{
    let ghost o = cand_views(out@);
    let ghost pv = string_views(pool@);
    let mut i: usize = 0;
    assert(pv.take(0) =~= Seq::<Seq<char>>::empty());
    while i < pool.len()
        invariant
            i <= pool@.len(),
            pv == string_views(pool@),
            cand_views(out@) == o + close_candidates(target_lower@, pv.take(i as int)),
        decreases pool@.len() - i,
    {
        let s = &pool[i];
        let sl = to_lowercase(s.as_str());
        let slv = chars_of(sl.as_str());
        let d = super::edit_distance::levenshtein_chars(target_lower, &slv);
        assert(pv.take(i + 1).drop_last() =~= pv.take(i as int));
        assert(pv.take(i + 1).last() == s@);
        let ghost pre = out@;
        let ghost prev = close_candidates(target_lower@, pv.take(i as int));
        let ghost next = close_candidates(target_lower@, pv.take(i + 1));
        assert(lowercase(s@) == slv@);
        if d <= 5 {
            let c = s.clone();
            out.push((c, d));
            assert(next == prev.push((s@, d as nat)));
            assert(cand_views(out@) =~= cand_views(pre).push((s@, d as nat)));
        } else if contains_chars(slv.as_slice(), target_lower.as_slice()) || contains_chars(
            target_lower.as_slice(),
            slv.as_slice(),
        ) {
            let c = s.clone();
            out.push((c, 1));
            assert(next == prev.push((s@, 1nat)));
            assert(cand_views(out@) =~= cand_views(pre).push((s@, 1nat)));
        } else {
            assert(next == prev);
        }
        assert(cand_views(out@) =~= o + close_candidates(target_lower@, pv.take(i + 1)));
        i = i + 1;
    }
    assert(pv.take(pool@.len() as int) =~= pv);
}

/// The plain values of a list of candidates.
pub open spec fn cand_views(c: Seq<(String, usize)>) -> Seq<(Seq<char>, nat)> {
    c.map_values(|x: (String, usize)| (x.0@, x.1 as nat))
}

/// Appends the candidates at distance `d`, in their order.
fn push_at_distance(out: &mut Vec<String>, c: &Vec<(String, usize)>, d: usize)
    ensures
        string_views(final(out)@) == string_views(old(out)@) + at_distance(
            cand_views(c@),
            d as nat,
        ),
{
    let ghost o = string_views(out@);
    let ghost cv = cand_views(c@);
    let ghost p = dist_is(d as nat);
    let mut j: usize = 0;
    assert(cv.take(0) =~= Seq::<(Seq<char>, nat)>::empty());
    while j < c.len()
        invariant
            j <= c@.len(),
            cv == cand_views(c@),
            p == dist_is(d as nat),
            string_views(out@) == o + at_distance(cv.take(j as int), d as nat),
        decreases c@.len() - j,
    {
        assert(cv.take(j + 1).drop_last() =~= cv.take(j as int));
        assert(cv.take(j + 1).last() == cv[j as int]);
        let ghost pre = string_views(out@);
        if c[j].1 == d {
            let x = c[j].0.clone();
            out.push(x);
            assert(string_views(out@) =~= pre.push(cv[j as int].0));
            assert(keep(cv.take(j + 1), p) == keep(cv.take(j as int), p).push(cv[j as int]));
        } else {
            assert(keep(cv.take(j + 1), p) == keep(cv.take(j as int), p));
        }
        assert(string_views(out@) =~= o + at_distance(cv.take(j + 1), d as nat));
        j = j + 1;
    }
    assert(cv.take(c@.len() as int) =~= cv);
}

/// The (at most five) strings of the pool closest to the target, nearest
/// first, ties in the order of the pool.
pub fn similar_selectors(target: &str, state: &UiState) -> (r: Vec<String>)
    ensures
        string_views(r@) == similar_to(target@, selector_pool(*state)),
{
    let tl = to_lowercase(target);
    let tlv = chars_of(tl.as_str());
    let mut cands: Vec<(String, usize)> = Vec::new();
    push_string_views(&mut cands, &tlv, &state.clickable);
    push_string_views(&mut cands, &tlv, &state.visible_text);
    proof {
        lemma_close_concat(
            tlv@,
            string_views(state.clickable@),
            string_views(state.visible_text@),
        );
    }
    let ghost cv = cand_views(cands@);
    assert(cv == close_candidates(lowercase(target@), selector_pool(*state)));
    let mut all: Vec<String> = Vec::new();
    let mut d: usize = 0;
    assert(string_views(all@) =~= Seq::<Seq<char>>::empty());
    while d <= 5
        invariant
            d <= 6,
            cv == cand_views(cands@),
            d == 0 ==> string_views(all@) == Seq::<Seq<char>>::empty(),
            d > 0 ==> string_views(all@) == up_to_distance(cv, (d - 1) as nat),
        decreases 6 - d,
    {
        let ghost pre = string_views(all@);
        push_at_distance(&mut all, &cands, d);
        if d == 0 {
            assert(string_views(all@) =~= up_to_distance(cv, 0));
        }
        d = d + 1;
    }
    let n: usize = if all.len() < 5 {
        all.len()
    } else {
        5
    };
    all.truncate(n);
    assert(string_views(all@) =~= similar_to(target@, selector_pool(*state)));
    all
}

proof fn lemma_close_concat(t: Seq<char>, a: Seq<Seq<char>>, b: Seq<Seq<char>>)
    ensures
        close_candidates(t, a + b) == close_candidates(t, a) + close_candidates(t, b),
    decreases b.len(),
{
    if b.len() == 0 {
        assert(a + b =~= a);
        assert(close_candidates(t, b) =~= Seq::<(Seq<char>, nat)>::empty());
    } else {
        assert((a + b).drop_last() =~= a + b.drop_last());
        assert((a + b).last() == b.last());
        lemma_close_concat(t, a, b.drop_last());
        match closeness(t, b.last()) {
            Some(d) => {
                assert(close_candidates(t, a) + close_candidates(t, b) =~= (close_candidates(t, a)
                    + close_candidates(t, b.drop_last())).push((b.last(), d)));
            },
            None => {},
        }
    }
}

/// A UI state with nothing in it.
pub open spec fn blank_state(s: UiState) -> bool {
    s.clickable@.len() == 0 && s.text_inputs@.len() == 0 && s.visible_text@.len() == 0
}

/// A tree with one empty container as its root.
pub open spec fn blank_tree(t: WidgetTree) -> bool {
    &&& t.root.kind == WidgetKind::Container
    &&& t.root.text is None
    &&& !t.root.is_clickable
    &&& !t.root.is_text_input
    &&& !t.root.is_focused
    &&& t.root.suggested_selector is None
    &&& t.root.children@.len() == 0
}

/// `s` with each space replaced by an underscore.
pub open spec fn underscored(s: Seq<char>) -> Seq<char> {
    s.map_values(|c: char| if c == ' ' { '_' } else { c })
}

/// Whether a character is a letter or a digit in Unicode
/// (`char::is_alphanumeric`); its full definition is the Unicode tables.
pub uninterp spec fn alphanumeric(c: char) -> bool;

/// `char::is_alphanumeric`: the result is `alphanumeric` of the character.
#[verifier::external_body]
fn is_alphanumeric(c: char) -> (r: bool)
    ensures
        r == alphanumeric(c),
{
    c.is_alphanumeric()
}

/// The characters kept in a screenshot file name.
pub open spec fn name_char() -> spec_fn(char) -> bool {
    |c: char| alphanumeric(c) || c == '_'
}

/// The file name of a screenshot: the scenario title with spaces turned into
/// underscores, lower-cased, keeping letters, digits and underscores; then
/// `_`, the shot's name and `.png`.
pub open spec fn screenshot_file(title: Seq<char>, name: Seq<char>) -> Seq<char> {
    keep(lowercase(underscored(title)), name_char()) + "_"@ + name + ".png"@
}

/// `file` placed in the directory `dir`, with a `/` between them unless `dir`
/// is empty or already ends with one.
pub open spec fn join_path(dir: Seq<char>, file: Seq<char>) -> Seq<char> {
    if dir.len() == 0 {
        file
    } else if dir.last() == '/' {
        dir + file
    } else {
        dir + "/"@ + file
    }
}

/// A step of a story as plain values: number, description, actions,
/// screenshot.
pub type StepPlan = (nat, Seq<char>, Seq<TestAction>, Option<Seq<char>>);

/// What a story is told from, in the order it happened: a step begun with
/// its description, or an action executed with the screenshot taken after it.
#[derive(Debug)]
pub enum StoryEvent {
    /// A step begun
    Step(String),
    /// An action executed, with its screenshot if one was taken
    Action(TestAction, Option<String>),
}

/// The title of a step holding actions run before any step was begun: the
/// first action's description, or `Final step`.
pub open spec fn lead_title(a: TestAction) -> Seq<char> {
    match a.description {
        Some(d) => d@,
        None => "Final step"@,
    }
}

/// The steps of the story told by some events. Each begun step opens a new
/// story step, numbered after the ones before it and titled by its
/// description; each action joins the step open at that moment (actions run
/// before any step was begun open a first step of their own). A step shows
/// the last screenshot taken among its actions.
pub open spec fn event_steps(es: Seq<StoryEvent>) -> Seq<StepPlan>
    decreases es.len(),
{
    if es.len() == 0 {
        Seq::empty()
    } else {
        let prev = event_steps(es.drop_last());
        match es.last() {
            StoryEvent::Step(d) => prev.push(((prev.len() + 1) as nat, d@, Seq::empty(), None)),
            StoryEvent::Action(a, shot) => if prev.len() == 0 {
                seq![(1nat, lead_title(a), seq![a], opt_view(shot))]
            } else {
                let p = prev.last();
                prev.drop_last().push(
                    (
                        p.0,
                        p.1,
                        p.2.push(a),
                        if shot is Some {
                            opt_view(shot)
                        } else {
                            p.3
                        },
                    ),
                )
            },
        }
    }
}

/// The actions among some events, in order.
pub open spec fn event_actions(es: Seq<StoryEvent>) -> Seq<TestAction>
    decreases es.len(),
{
    if es.len() == 0 {
        Seq::empty()
    } else {
        match es.last() {
            StoryEvent::Action(a, _) => event_actions(es.drop_last()).push(a),
            StoryEvent::Step(_) => event_actions(es.drop_last()),
        }
    }
}

/// The actions of some steps, step after step.
pub open spec fn plan_actions(ps: Seq<StepPlan>) -> Seq<TestAction>
    decreases ps.len(),
{
    if ps.len() == 0 {
        Seq::empty()
    } else {
        plan_actions(ps.drop_last()) + ps.last().2
    }
}

/// A story step is the planned one, passed and without details or error.
pub open spec fn step_fits(s: StoryStep, p: StepPlan) -> bool {
    &&& s.number == p.0
    &&& s.description@ == p.1
    &&& s.details is None
    &&& s.actions@ == p.2
    &&& opt_view(s.screenshot) == p.3
    &&& s.passed
    &&& s.error is None
}

/// The story steps are the planned ones, in order.
pub open spec fn steps_fit(ss: Seq<StoryStep>, ps: Seq<StepPlan>) -> bool {
    ss.len() == ps.len() && forall|i: int| 0 <= i < ss.len() ==> step_fits(#[trigger] ss[i], ps[i])
}

/// The steps of a story are numbered 1, 2, 3, ... in order.
pub proof fn lemma_steps_numbered(es: Seq<StoryEvent>)
    ensures
        forall|i: int| 0 <= i < event_steps(es).len() ==> (#[trigger] event_steps(es)[i]).0 == i + 1,
    decreases es.len(),
{
    if es.len() > 0 {
        lemma_steps_numbered(es.drop_last());
        let prev = event_steps(es.drop_last());
        let cur = event_steps(es);
        assert forall|i: int| 0 <= i < cur.len() implies (#[trigger] cur[i]).0 == i + 1 by {
            if i < prev.len() {
                assert(prev[i].0 == i + 1);
            }
        }
    }
}

/// Every action lands in exactly one step, in the order the actions ran:
/// the steps' actions, one step after another, are the actions.
pub proof fn lemma_steps_cover(es: Seq<StoryEvent>)
    ensures
        plan_actions(event_steps(es)) == event_actions(es),
    decreases es.len(),
{
    lemma_steps_cover_len(es);
}

proof fn lemma_steps_cover_len(es: Seq<StoryEvent>)
    ensures
        plan_actions(event_steps(es)) == event_actions(es),
        event_steps(es).len() == 0 ==> event_actions(es).len() == 0,
    decreases es.len(),
{
    if es.len() > 0 {
        lemma_steps_cover_len(es.drop_last());
        let prev = event_steps(es.drop_last());
        let cur = event_steps(es);
        match es.last() {
            StoryEvent::Step(d) => {
                assert(cur.drop_last() =~= prev);
                assert(plan_actions(cur) =~= plan_actions(prev));
            },
            StoryEvent::Action(a, shot) => {
                if prev.len() == 0 {
                    assert(cur.drop_last() =~= Seq::<StepPlan>::empty());
                    assert(event_actions(es.drop_last()) =~= Seq::<TestAction>::empty());
                    assert(plan_actions(cur) =~= seq![a]);
                } else {
                    assert(cur.drop_last() =~= prev.drop_last());
                    assert(plan_actions(cur) =~= plan_actions(prev.drop_last()) + prev.last().2.push(a));
                    assert(plan_actions(cur) =~= plan_actions(prev).push(a));
                }
            },
        }
    }
}

/// Copies of the strings.
fn copy_strings(v: &Vec<String>) -> (r: Vec<String>)
    ensures
        string_views(r@) == string_views(v@),
{
    let mut r: Vec<String> = Vec::new();
    let mut i: usize = 0;
    while i < v.len()
        invariant
            i <= v@.len(),
            string_views(r@) == string_views(v@).take(i as int),
        decreases v@.len() - i,
    {
        let ghost pre = string_views(r@);
        let c = v[i].clone();
        r.push(c);
        assert(string_views(r@) =~= pre.push(v@[i as int]@));
        i = i + 1;
        assert(string_views(r@) =~= string_views(v@).take(i as int));
    }
    assert(string_views(v@).take(v@.len() as int) =~= string_views(v@));
    r
}

/// The state of a running visual test: the scenario it documents, the trace
/// of executed actions, the screenshots taken and the current step.
#[derive(Debug)]
pub struct TestContext {
    scenario: ScenarioMeta,
    trace: Vec<ActionTrace>,
    screenshots: Vec<(String, String)>,
    screenshot_dir: String,
    screenshot_counter: usize,
    current_step: usize,
    current_step_desc: Option<String>,
    story: Vec<StoryEvent>,
}

impl TestContext {
    /// The scenario documented.
    pub closed spec fn spec_scenario(&self) -> ScenarioMeta {
        self.scenario
    }

    /// The executed actions, in order.
    pub closed spec fn spec_trace(&self) -> Seq<ActionTrace> {
        self.trace@
    }

    /// The screenshots taken: name and path.
    pub closed spec fn spec_screenshots(&self) -> Seq<(Seq<char>, Seq<char>)> {
        self.screenshots@.map_values(|x: (String, String)| (x.0@, x.1@))
    }

    /// The directory screenshots go to.
    pub closed spec fn spec_dir(&self) -> Seq<char> {
        self.screenshot_dir@
    }

    /// How many screenshots were asked for.
    pub closed spec fn spec_counter(&self) -> nat {
        self.screenshot_counter as nat
    }

    /// The number of the current step.
    pub closed spec fn spec_step(&self) -> nat {
        self.current_step as nat
    }

    /// The description of the current step.
    pub closed spec fn spec_step_desc(&self) -> Option<Seq<char>> {
        opt_view(self.current_step_desc)
    }

    /// The steps begun and the actions executed, in the order they happened.
    pub closed spec fn spec_story(&self) -> Seq<StoryEvent> {
        self.story@
    }

    /// Create a new test context
    pub fn new() -> (r: Self)
        ensures
            r.spec_scenario().title@.len() == 0,
            r.spec_scenario().actor@.len() == 0,
            r.spec_scenario().description@.len() == 0,
            r.spec_scenario().preconditions@.len() == 0,
            r.spec_scenario().outcomes@.len() == 0,
            r.spec_scenario().tags@.len() == 0,
            r.spec_scenario().source_file is None,
            r.spec_scenario().source_line is None,
            r.spec_trace().len() == 0,
            r.spec_screenshots().len() == 0,
            r.spec_dir() == "tests/visual/reports/screenshots"@,
            r.spec_counter() == 0,
            r.spec_step() == 0,
            r.spec_step_desc() is None,
            r.spec_story().len() == 0,
    {
        let r = TestContext {
            scenario: ScenarioMeta::default(),
            trace: Vec::new(),
            screenshots: Vec::new(),
            screenshot_dir: String::from_str("tests/visual/reports/screenshots"),
            screenshot_counter: 0,
            current_step: 0,
            current_step_desc: None,
            story: Vec::new(),
        };
        assert(r.spec_screenshots() =~= Seq::<(Seq<char>, Seq<char>)>::empty());
        r
    }

    /// Set the screenshot output directory
    pub fn with_screenshot_dir(self, dir: &str) -> (r: Self)
        ensures
            r.spec_dir() == dir@,
            r.spec_scenario() == self.spec_scenario(),
            r.spec_trace() == self.spec_trace(),
            r.spec_screenshots() == self.spec_screenshots(),
            r.spec_counter() == self.spec_counter(),
            r.spec_step() == self.spec_step(),
            r.spec_step_desc() == self.spec_step_desc(),
            r.spec_story() == self.spec_story(),
    {
        let mut s = self;
        s.screenshot_dir = String::from_str(dir);
        s
    }

    /// Set scenario metadata
    pub fn with_scenario(self, meta: ScenarioMeta) -> (r: Self)
        ensures
            r.spec_scenario() == meta,
            r.spec_dir() == self.spec_dir(),
            r.spec_trace() == self.spec_trace(),
            r.spec_screenshots() == self.spec_screenshots(),
            r.spec_counter() == self.spec_counter(),
            r.spec_step() == self.spec_step(),
            r.spec_step_desc() == self.spec_step_desc(),
            r.spec_story() == self.spec_story(),
    {
        let mut s = self;
        s.scenario = meta;
        s
    }

    /// Begin a new step in the story
    ///
    /// Steps group related actions together for documentation purposes.
    pub fn step(&mut self, description: &str)
        requires
            old(self).spec_step() < usize::MAX,
        ensures
            final(self).spec_step() == old(self).spec_step() + 1,
            final(self).spec_step_desc() == Some(description@),
            final(self).spec_scenario() == old(self).spec_scenario(),
            final(self).spec_dir() == old(self).spec_dir(),
            final(self).spec_trace() == old(self).spec_trace(),
            final(self).spec_screenshots() == old(self).spec_screenshots(),
            final(self).spec_counter() == old(self).spec_counter(),
            final(self).spec_story().len() == old(self).spec_story().len() + 1,
            final(self).spec_story().drop_last() == old(self).spec_story(),
            final(self).spec_story().last() matches StoryEvent::Step(d) && d@ == description@,
    {
        self.current_step = self.current_step + 1;
        self.current_step_desc = Some(String::from_str(description));
        let ghost pre = self.story@;
        self.story.push(StoryEvent::Step(String::from_str(description)));
        assert(self.story@.drop_last() =~= pre);
    }

    /// Capture the current UI state (nothing is enumerated yet)
    pub fn capture_state(&mut self) -> (r: UiState)
        ensures
            *final(self) == *old(self),
            blank_state(r),
    {
        UiState { clickable: Vec::new(), text_inputs: Vec::new(), visible_text: Vec::new() }
    }

    /// Get available actions in current UI state (none are enumerated yet)
    pub fn available_actions(&mut self) -> (r: Vec<AvailableAction>)
        ensures
            *final(self) == *old(self),
            r@.len() == 0,
    {
        Vec::new()
    }

    /// Inspect the widget tree (an empty tree until the simulator exposes
    /// its widgets)
    pub fn inspect(&mut self) -> (r: WidgetTree)
        ensures
            *final(self) == *old(self),
            blank_tree(r),
    {
        WidgetTree::empty()
    }

    /// Find selectors similar to the given one, in the current UI state
    pub fn find_similar_selectors(&mut self, target: &str) -> (r: Vec<String>)
        ensures
            *final(self) == *old(self),
            string_views(r@) == similar_to(target@, Seq::empty()),
    {
        let state = self.capture_state();
        let r = similar_selectors(target, &state);
        assert(selector_pool(state) =~= Seq::<Seq<char>>::empty());
        r
    }

    /// The name of the screenshot to take before `action`, if it asks for one.
    pub fn before_shot_name(&self, action: &TestAction) -> (r: Option<String>)
        ensures
            match r {
                Some(n) => action.capture.spec_captures_before() && n@ == "before_"@ + dec(
                    self.spec_trace().len(),
                ),
                None => !action.capture.spec_captures_before(),
            },
    {
        if action.capture.captures_before() {
            let mut n = String::from_str("before_");
            push_dec(&mut n, self.trace.len() as u128);
            Some(n)
        } else {
            None
        }
    }

    /// The name of the screenshot to take after `action`, if it asks for one.
    pub fn after_shot_name(&self, action: &TestAction) -> (r: Option<String>)
        ensures
            match r {
                Some(n) => action.capture.spec_captures_after() && n@ == "step_"@ + dec(
                    self.spec_trace().len(),
                ),
                None => !action.capture.spec_captures_after(),
            },
    {
        if action.capture.captures_after() {
            let mut n = String::from_str("step_");
            push_dec(&mut n, self.trace.len() as u128);
            Some(n)
        } else {
            None
        }
    }

    /// Counts a screenshot about to be taken and returns the path it goes to.
    pub fn screenshot_path(&mut self, name: &str) -> (r: String)
        requires
            old(self).spec_counter() < usize::MAX,
        ensures
            r@ == join_path(
                old(self).spec_dir(),
                screenshot_file(old(self).spec_scenario().title@, name@),
            ),
            final(self).spec_counter() == old(self).spec_counter() + 1,
            final(self).spec_scenario() == old(self).spec_scenario(),
            final(self).spec_dir() == old(self).spec_dir(),
            final(self).spec_trace() == old(self).spec_trace(),
            final(self).spec_screenshots() == old(self).spec_screenshots(),
            final(self).spec_step() == old(self).spec_step(),
            final(self).spec_step_desc() == old(self).spec_step_desc(),
            final(self).spec_story() == old(self).spec_story(),
    {
        self.screenshot_counter = self.screenshot_counter + 1;
        let title = chars_of(self.scenario.title.as_str());
        let mut spaced: Vec<char> = Vec::new();
        let mut i: usize = 0;
        while i < title.len()
            invariant
                i <= title@.len(),
                spaced@ == underscored(title@).take(i as int),
            decreases title@.len() - i,
        {
            let c = title[i];
            spaced.push(if c == ' ' { '_' } else { c });
            i = i + 1;
            assert(spaced@ =~= underscored(title@).take(i as int));
        }
        assert(spaced@ =~= underscored(title@));
        let joined = string_from_chars(spaced.as_slice());
        let lower = to_lowercase(joined.as_str());
        let lv = chars_of(lower.as_str());
        let mut kept: Vec<char> = Vec::new();
        let mut j: usize = 0;
        assert(lv@.take(0) =~= Seq::<char>::empty());
        while j < lv.len()
            invariant
                j <= lv@.len(),
                kept@ == keep(lv@.take(j as int), name_char()),
            decreases lv@.len() - j,
        {
            let c = lv[j];
            assert(lv@.take(j + 1).drop_last() =~= lv@.take(j as int));
            assert(lv@.take(j + 1).last() == c);
            if is_alphanumeric(c) || c == '_' {
                kept.push(c);
            }
            j = j + 1;
        }
        assert(lv@.take(lv@.len() as int) =~= lv@);
        let mut file = string_from_chars(kept.as_slice());
        file.append("_");
        file.append(name);
        file.append(".png");
        let dir = chars_of(self.screenshot_dir.as_str());
        let mut path = String::new();
        if dir.len() == 0 {
            path.append(file.as_str());
        } else if dir[dir.len() - 1] == '/' {
            path.append(self.screenshot_dir.as_str());
            path.append(file.as_str());
        } else {
            path.append(self.screenshot_dir.as_str());
            path.append("/");
            path.append(file.as_str());
        }
        assert(path@ =~= join_path(
            self.screenshot_dir@,
            screenshot_file(self.scenario.title@, name@),
        ));
        path
    }

    /// Records a screenshot that was taken.
    pub fn screenshot_taken(&mut self, name: &str, path: &str)
        ensures
            final(self).spec_screenshots() == old(self).spec_screenshots().push((name@, path@)),
            final(self).spec_counter() == old(self).spec_counter(),
            final(self).spec_scenario() == old(self).spec_scenario(),
            final(self).spec_dir() == old(self).spec_dir(),
            final(self).spec_trace() == old(self).spec_trace(),
            final(self).spec_step() == old(self).spec_step(),
            final(self).spec_step_desc() == old(self).spec_step_desc(),
            final(self).spec_story() == old(self).spec_story(),
    {
        let ghost pre = self.screenshots@;
        self.screenshots.push((String::from_str(name), String::from_str(path)));
        assert(self.spec_screenshots() =~= pre.map_values(|x: (String, String)| (x.0@, x.1@)).push(
            (name@, path@),
        ));
    }

    /// The number of the current step
    pub fn current_step(&self) -> (r: usize)
        ensures
            r == self.spec_step(),
    {
        self.current_step
    }

    /// How many screenshots were asked for so far
    pub fn screenshot_count(&self) -> (r: usize)
        ensures
            r == self.spec_counter(),
    {
        self.screenshot_counter
    }

    /// Get the execution trace
    pub fn trace(&self) -> (r: &[ActionTrace])
        ensures
            r@ == self.spec_trace(),
    {
        self.trace.as_slice()
    }

    /// Get captured screenshots
    pub fn screenshots(&self) -> (r: &[(String, String)])
        ensures
            r@.map_values(|x: (String, String)| (x.0@, x.1@)) == self.spec_screenshots(),
    {
        self.screenshots.as_slice()
    }
}

/// The failure that a simulator error calls for: a selector that matched
/// nothing, with the similar selectors found; anything else as an unmet
/// expectation of the action's debug form.
pub open spec fn reason_fits(r: FailureReason, kind: ActionKind, e: SimError, similar: Seq<Seq<char>>) -> bool {
    match e {
        SimError::SelectorNotFound { selector } => r matches FailureReason::SelectorNotFound {
            selector: s,
            similar: v,
        } && s@ == selector@ && string_views(v@) == similar,
        SimError::Other { .. } => r matches FailureReason::ExpectationFailed { expected, found }
            && expected@ == kind_debug(kind) && found is None,
    }
}

/// A failure carries the action, the reason the error calls for, no
/// available actions, a blank tree, the screenshot, and its hints.
pub open spec fn failure_fits(
    f: TestFailure,
    action: TestAction,
    e: SimError,
    screenshot: Option<String>,
) -> bool {
    &&& f.action == action
    &&& reason_fits(
        f.reason,
        action.kind,
        e,
        match e {
            SimError::SelectorNotFound { selector } => similar_to(selector@, Seq::empty()),
            SimError::Other { .. } => Seq::empty(),
        },
    )
    &&& f.available@.len() == 0
    &&& blank_tree(f.widget_tree)
    &&& opt_view(f.screenshot) == opt_view(screenshot)
    &&& hint_views(f.hints@) == hints_for(f.reason, f.available@, f.widget_tree)
}

/// The failure reported when a screenshot could not be taken; `detail`
/// describes the simulator's error.
pub fn screenshot_failure(detail: &str) -> (r: TestFailure)
    ensures
        r.action.kind matches ActionKind::Expect(t) && t@ == "screenshot"@,
        r.action.description is None,
        r.action.expected is None,
        r.reason matches FailureReason::Timeout { condition } && condition@
            == "screenshot capture: "@ + detail@,
        r.available@.len() == 0,
        blank_tree(r.widget_tree),
        r.screenshot is None,
        r.hints@.len() == 0,
{
    let mut condition = String::from_str("screenshot capture: ");
    condition.append(detail);
    TestFailure::new(TestAction::expect("screenshot"), FailureReason::Timeout { condition })
}

impl TestContext {
    /// Build a failure from a simulator error
    fn build_failure(&mut self, action: TestAction, error: SimError, screenshot: Option<String>) -> (r: TestFailure)
        requires
            error is Other ==> wait_ok(action.kind),
        ensures
            *final(self) == *old(self),
            failure_fits(r, action, error, screenshot),
    {
        let reason = match &error {
            SimError::SelectorNotFound { selector } => {
                let similar = self.find_similar_selectors(selector.as_str());
                FailureReason::SelectorNotFound { selector: selector.clone(), similar }
            },
            SimError::Other { .. } => {
                let expected = kind_debug_text(&action.kind);
                FailureReason::ExpectationFailed { expected, found: None }
            },
        };
        let available = self.available_actions();
        let tree = self.inspect();
        let mut failure = TestFailure::new(action, reason).with_available(available).with_tree(
            tree,
        );
        match screenshot {
            Some(path) => {
                failure = failure.with_screenshot(path.as_str());
            },
            None => {},
        }
        failure.generate_hints();
        failure
    }

    /// Records an executed action with what the simulator reported, and
    /// turns an error into a failure with its diagnostics.
    pub fn record(
        &mut self,
        action: TestAction,
        outcome: Result<(), SimError>,
        screenshot: Option<String>,
    ) -> (r: Result<(), TestFailure>)
        requires
            outcome matches Err(SimError::Other { .. }) ==> wait_ok(action.kind),
        ensures
            final(self).spec_trace().len() == old(self).spec_trace().len() + 1,
            final(self).spec_trace().drop_last() == old(self).spec_trace(),
            final(self).spec_trace().last().action == action,
            blank_state(final(self).spec_trace().last().before),
            blank_state(final(self).spec_trace().last().after),
            final(self).spec_trace().last().success == outcome is Ok,
            opt_view(final(self).spec_trace().last().error) == match outcome {
                Ok(_) => None,
                Err(e) => Some(sim_error_text(e)),
            },
            opt_view(final(self).spec_trace().last().screenshot) == opt_view(screenshot),
            final(self).spec_scenario() == old(self).spec_scenario(),
            final(self).spec_dir() == old(self).spec_dir(),
            final(self).spec_screenshots() == old(self).spec_screenshots(),
            final(self).spec_counter() == old(self).spec_counter(),
            final(self).spec_step() == old(self).spec_step(),
            final(self).spec_step_desc() == old(self).spec_step_desc(),
            final(self).spec_story() == old(self).spec_story().push(StoryEvent::Action(action, screenshot)),
            r is Ok <==> outcome is Ok,
            r matches Err(f) ==> outcome matches Err(e) && failure_fits(f, action, e, screenshot),
    {
        let before = self.capture_state();
        let after = self.capture_state();
        let error = match &outcome {
            Ok(_) => None,
            Err(e) => Some(e.message()),
        };
        let trace = ActionTrace {
            action: copy_action(&action),
            before,
            after,
            success: outcome.is_ok(),
            error,
            screenshot: super::action::copy_opt_string(&screenshot),
        };
        let ghost pre = self.trace@;
        self.trace.push(trace);
        assert(self.trace@.drop_last() =~= pre);
        self.story.push(
            StoryEvent::Action(copy_action(&action), super::action::copy_opt_string(&screenshot)),
        );
        match outcome {
            Ok(_) => Ok(()),
            Err(e) => Err(self.build_failure(action, e, screenshot)),
        }
    }
}

/// The story steps told by some events (see `event_steps`).
fn story_steps_of(events: &Vec<StoryEvent>) -> (r: Vec<StoryStep>)
    ensures
        steps_fit(r@, event_steps(events@)),
{
    let mut steps: Vec<StoryStep> = Vec::new();
    let mut i: usize = 0;
    assert(events@.take(0) =~= Seq::<StoryEvent>::empty());
    while i < events.len()
        invariant
            i <= events@.len(),
            steps@.len() <= i,
            steps_fit(steps@, event_steps(events@.take(i as int))),
        decreases events@.len() - i,
    {
        let ghost prev = event_steps(events@.take(i as int));
        assert(events@.take(i + 1).drop_last() =~= events@.take(i as int));
        assert(events@.take(i + 1).last() == events@[i as int]);
        let ghost cur = event_steps(events@.take(i + 1));
        let ghost pre = steps@;
        match &events[i] {
            StoryEvent::Step(d) => {
                let st = StoryStep::new(steps.len() + 1, d.as_str());
                assert(st.actions@ =~= Seq::<TestAction>::empty());
                steps.push(st);
                assert forall|k: int| 0 <= k < steps@.len() implies step_fits(
                    #[trigger] steps@[k],
                    cur[k],
                ) by {
                    if k < pre.len() {
                        assert(steps@[k] == pre[k]);
                    }
                }
            },
            StoryEvent::Action(a, shot) => {
                if steps.len() == 0 {
                    let title = match &a.description {
                        Some(d) => d.clone(),
                        None => String::from_str("Final step"),
                    };
                    let mut st = StoryStep::new(1, title.as_str()).with_action(copy_action(a));
                    match shot {
                        Some(p) => {
                            st = st.with_screenshot(p.as_str());
                        },
                        None => {},
                    }
                    assert(st.actions@ =~= seq![*a]);
                    steps.push(st);
                    assert(steps@.len() == 1);
                    assert(step_fits(steps@[0], cur[0]));
                } else {
                    let last = steps.pop().unwrap();
                    let ghost base = steps@;
                    let mut st = last.with_action(copy_action(a));
                    match shot {
                        Some(p) => {
                            st = st.with_screenshot(p.as_str());
                        },
                        None => {},
                    }
                    steps.push(st);
                    assert forall|k: int| 0 <= k < steps@.len() implies step_fits(
                        #[trigger] steps@[k],
                        cur[k],
                    ) by {
                        if k < base.len() {
                            assert(steps@[k] == pre[k]);
                            assert(cur[k] == prev[k]);
                        }
                    }
                }
            },
        }
        i = i + 1;
    }
    assert(events@.take(events@.len() as int) =~= events@);
    steps
}

impl TestContext {
    /// Generate a user story from the execution trace
    pub fn to_story(&self) -> (r: UserStory)
        ensures
            r.title@ == self.spec_scenario().title@,
            r.actor@ == self.spec_scenario().actor@,
            r.goal@ == self.spec_scenario().description@,
            r.description is None,
            string_views(r.preconditions@) == string_views(self.spec_scenario().preconditions@),
            string_views(r.outcomes@) == string_views(self.spec_scenario().outcomes@),
            string_views(r.tags@) == string_views(self.spec_scenario().tags@),
            match (self.spec_scenario().source_file, self.spec_scenario().source_line) {
                (Some(f), Some(l)) => r.source_file matches Some(rf) && rf@ == f@ && r.source_line
                    == Some(l),
                _ => r.source_file is None && r.source_line is None,
            },
            steps_fit(r.steps@, event_steps(self.spec_story())),
    {
        let mut story = UserStory::new(self.scenario.title.as_str()).with_actor(
            self.scenario.actor.as_str(),
        ).with_goal(self.scenario.description.as_str());
        story.preconditions = copy_strings(&self.scenario.preconditions);
        story.outcomes = copy_strings(&self.scenario.outcomes);
        story.tags = copy_strings(&self.scenario.tags);
        match (&self.scenario.source_file, self.scenario.source_line) {
            (Some(file), Some(line)) => {
                story = story.with_source(file.as_str(), line);
            },
            _ => {},
        }
        story.steps = story_steps_of(&self.story);
        story
    }
}

} // verus!
