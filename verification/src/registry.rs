//! The model of documented items: entries, their kinds and metadata, and
//! the queries that select entries by section, kind or tag.
//!
//! Entries are registered at link time by the application; the queries here
//! take the registered entries as an argument.

use crate::text::{chars_eq, chars_of};
use vstd::prelude::*;

verus! {

/// A documented item entry
#[derive(Debug)]
pub struct DocEntry {
    /// What kind of item this is
    pub kind: DocKind,
    /// Unique identifier (usually the function/type name)
    pub id: String,
    /// Human-readable title for documentation
    pub title: String,
    /// Section this belongs to (views, models, usecases, etc.)
    pub section: String,
    /// Description text (from doc comments or explicit)
    pub description: String,
    /// Source file path
    pub source_file: String,
    /// Source line number
    pub source_line: u32,
    /// Tags for categorization and search
    pub tags: Vec<String>,
    /// Types/items this links to
    pub links_to: Vec<String>,
    /// Related items to reference
    pub see_also: Vec<String>,
    /// Type-specific metadata
    pub metadata: DocMetadata,
}

/// The kind of documented item
#[derive(Debug, Clone, Copy, PartialEq, Eq, Structural)]
pub enum DocKind {
    /// A function (view, helper, etc.)
    Function,
    /// A struct
    Struct,
    /// An enum
    Enum,
    /// A module
    Module,
    /// A user story / use case
    Usecase,
    /// A multi-step workflow
    Workflow,
    /// An .ice end-to-end test file
    IceTest,
    /// A test scenario
    Scenario,
    /// A user story test
    UserStory,
}

/// Type-specific metadata for documented items
#[derive(Debug)]
pub enum DocMetadata {
    /// No additional metadata
    Empty,
    /// Screenshot metadata
    Screenshot(ScreenshotMeta),
    /// Use case metadata
    Usecase(UsecaseMeta),
    /// Workflow metadata
    Workflow(WorkflowMeta),
    /// State machine metadata
    State(StateMeta),
    /// Ice test file metadata
    IceTest(IceTestMeta),
    /// Test scenario metadata
    Scenario(ScenarioMeta),
    /// User story metadata
    UserStoryMeta(UserStoryMeta),
}

/// Metadata for screenshot-annotated views
#[derive(Debug)]
pub struct ScreenshotMeta {
    /// Base name for screenshot files
    pub name: String,
    /// Theme to use (Light, Dark)
    pub theme: String,
    /// Names of each scenario
    pub scenario_names: Vec<String>,
    /// State expressions for each scenario
    pub scenario_states: Vec<String>,
    /// Caption text for the screenshot
    pub caption: String,
}

/// Metadata for use case documentation
#[derive(Debug)]
pub struct UsecaseMeta {
    /// Who performs this action
    pub actor: String,
    /// What they want to achieve
    pub goal: String,
    /// What must be true before
    pub preconditions: Vec<String>,
    /// Steps to perform
    pub steps: Vec<String>,
    /// What must be true after
    pub postconditions: Vec<String>,
}

/// Metadata for workflow documentation
#[derive(Debug)]
pub struct WorkflowMeta {
    /// User persona this workflow is for
    pub persona: String,
    /// View names for each step
    pub step_views: Vec<String>,
    /// Action descriptions for each step
    pub step_actions: Vec<String>,
    /// Screenshot names for each step
    pub step_screenshots: Vec<String>,
    /// Step descriptions
    pub step_descriptions: Vec<String>,
    /// Expected outcomes
    pub outcomes: Vec<String>,
}

/// Metadata for state machine documentation
#[derive(Debug)]
pub struct StateMeta {
    /// Initial state name
    pub initial: String,
    /// Terminal state names
    pub terminal: Vec<String>,
    /// Names of all states
    pub state_names: Vec<String>,
    /// Descriptions of each state
    pub state_descriptions: Vec<String>,
    /// Colors for each state (hex)
    pub state_colors: Vec<String>,
    /// Comma-separated transitions for each state
    pub state_transitions: Vec<String>,
}

/// Metadata for .ice end-to-end test files
#[derive(Debug)]
pub struct IceTestMeta {
    /// Path to the .ice file
    pub file_path: String,
    /// Viewport dimensions (width, height)
    pub viewport: Option<(u32, u32)>,
    /// Test mode (Immediate, Patient)
    pub mode: String,
    /// Preset name for initial state
    pub preset: Option<String>,
    /// List of test instructions
    pub instructions: Vec<IceInstruction>,
}

/// A single instruction in an .ice test file
#[derive(Debug)]
pub struct IceInstruction {
    /// Instruction type: click, type, expect, tap, screenshot, wait
    pub kind: String,
    /// Target selector or text
    pub target: String,
    /// Optional value (for type, screenshot, wait)
    pub value: Option<String>,
}

/// Metadata for test scenarios
#[derive(Debug)]
pub struct ScenarioMeta {
    /// Preconditions that must be true before the test
    pub preconditions: Vec<String>,
}

/// Metadata for user story tests
#[derive(Debug)]
pub struct UserStoryMeta {
    /// Actor performing the story (e.g., "Developer", "Admin")
    pub actor: String,
    /// What the actor wants to achieve
    pub goal: String,
    /// Prerequisites for this story
    pub preconditions: Vec<String>,
    /// Expected outcomes after the story completes
    pub outcomes: Vec<String>,
}

/// A test scenario entry
#[derive(Debug)]
pub struct TestScenarioEntry {
    /// Unique identifier for the scenario
    pub id: String,
    /// Human-readable title
    pub title: String,
    /// Description of what the scenario tests
    pub description: String,
    /// Actor performing the test (for user stories)
    pub actor: String,
    /// Preconditions that must be true
    pub preconditions: Vec<String>,
    /// Expected outcomes
    pub outcomes: Vec<String>,
    /// Tags for categorization
    pub tags: Vec<String>,
    /// Source file path
    pub source_file: String,
    /// Source line number
    pub source_line: u32,
}

/// The view of an optional string.
pub open spec fn opt_view(o: Option<String>) -> Option<Seq<char>> {
    match o {
        Some(s) => Some(s@),
        None => None,
    }
}

/// An instruction as (kind, target, value).
pub type InstructionView = (Seq<char>, Seq<char>, Option<Seq<char>>);

impl View for IceInstruction {
    type V = InstructionView;

    open spec fn view(&self) -> InstructionView {
        (self.kind@, self.target@, opt_view(self.value))
    }
}

/// The views of a sequence of instructions.
pub open spec fn instruction_views(s: Seq<IceInstruction>) -> Seq<InstructionView> {
    s.map_values(|i: IceInstruction| i@)
}

/// The elements of `s` that satisfy `p`, in order.
pub open spec fn keep<A>(s: Seq<A>, p: spec_fn(A) -> bool) -> Seq<A>
    decreases s.len(),
{
    if s.len() == 0 {
        Seq::empty()
    } else if p(s.last()) {
        keep(s.drop_last(), p).push(s.last())
    } else {
        keep(s.drop_last(), p)
    }
}

/// The entries a sequence of references points to.
pub open spec fn deref_entries(s: Seq<&DocEntry>) -> Seq<DocEntry> {
    s.map_values(|e: &DocEntry| *e)
}

/// `tags` holds `tag`.
pub open spec fn has_tag(tags: Seq<String>, tag: Seq<char>) -> bool {
    exists|i: int| 0 <= i < tags.len() && tags[i]@ == tag
}

/// String equality on slices.
pub fn str_eq(a: &str, b: &str) -> (r: bool)
    ensures
        r == (a@ == b@),
{
    let av = chars_of(a);
    let bv = chars_of(b);
    chars_eq(av.as_slice(), bv.as_slice())
}

/// Tag membership.
pub fn contains_tag(tags: &Vec<String>, tag: &str) -> (r: bool)
    ensures
        r == has_tag(tags@, tag@),
{
    let mut i: usize = 0;
    while i < tags.len()
        invariant
            i <= tags@.len(),
            forall|k: int| 0 <= k < i ==> tags@[k]@ != tag@,
        decreases tags@.len() - i,
    {
        if str_eq(tags[i].as_str(), tag) {
            return true;
        }
        i = i + 1;
    }
    false
}

/// Entries whose section is `section`.
pub open spec fn section_is(section: Seq<char>) -> spec_fn(DocEntry) -> bool {
    |e: DocEntry| e.section@ == section
}

/// Entries of kind `kind`.
pub open spec fn kind_is(kind: DocKind) -> spec_fn(DocEntry) -> bool {
    |e: DocEntry| e.kind == kind
}

/// Entries tagged `tag`.
pub open spec fn tagged(tag: Seq<char>) -> spec_fn(DocEntry) -> bool {
    |e: DocEntry| has_tag(e.tags@, tag)
}

/// Scenarios tagged `tag`.
pub open spec fn scenario_tagged(tag: Seq<char>) -> spec_fn(TestScenarioEntry) -> bool {
    |e: TestScenarioEntry| has_tag(e.tags@, tag)
}

/// Selecting from a single element.
pub proof fn lemma_keep_single<A>(x: A, p: spec_fn(A) -> bool)
    ensures
        keep(seq![x], p) == if p(x) {
            seq![x]
        } else {
            Seq::<A>::empty()
        },
{
    let s = seq![x];
    assert(s.drop_last() =~= Seq::<A>::empty());
    assert(s.last() == x);
    assert(keep(s.drop_last(), p) == Seq::<A>::empty());
    if p(x) {
        assert(keep(s, p) == keep(s.drop_last(), p).push(x));
        assert(Seq::<A>::empty().push(x) =~= seq![x]);
    } else {
        assert(keep(s, p) == keep(s.drop_last(), p));
    }
}

/// Selecting from a concatenation selects from each part.
pub proof fn lemma_keep_concat<A>(a: Seq<A>, b: Seq<A>, p: spec_fn(A) -> bool)
    ensures
        keep(a + b, p) == keep(a, p) + keep(b, p),
    decreases b.len(),
{
    if b.len() == 0 {
        assert(a + b =~= a);
        assert(keep(a, p) + keep(b, p) =~= keep(a, p));
    } else {
        assert((a + b).drop_last() =~= a + b.drop_last());
        assert((a + b).last() == b.last());
        lemma_keep_concat(a, b.drop_last(), p);
        if p(b.last()) {
            assert(keep(a, p) + keep(b, p) =~= (keep(a, p) + keep(b.drop_last(), p)).push(b.last()));
        }
    }
}

proof fn lemma_keep_step<A>(s: Seq<A>, i: int, p: spec_fn(A) -> bool)
    requires
        0 <= i < s.len(),
    ensures
        keep(s.take(i + 1), p) == if p(s[i]) {
            keep(s.take(i), p).push(s[i])
        } else {
            keep(s.take(i), p)
        },
{
    assert(s.take(i + 1).drop_last() =~= s.take(i));
}

/// Get entries filtered by section
pub fn entries_by_section<'a>(entries: &'a [DocEntry], section: &str) -> (r: Vec<&'a DocEntry>)
    ensures
        deref_entries(r@) == keep(entries@, section_is(section@)),
{
    let mut r: Vec<&'a DocEntry> = Vec::new();
    let mut i: usize = 0;
    assert(entries@.take(0) =~= Seq::<DocEntry>::empty());
    assert(deref_entries(r@) =~= keep(entries@.take(0), section_is(section@)));
    while i < entries.len()
        invariant
            i <= entries@.len(),
            deref_entries(r@) == keep(entries@.take(i as int), section_is(section@)),
        decreases entries@.len() - i,
    {
        proof {
            lemma_keep_step(entries@, i as int, section_is(section@));
        }
        let e = &entries[i];
        if str_eq(e.section.as_str(), section) {
            r.push(e);
            assert(deref_entries(r@) =~= keep(entries@.take(i + 1), section_is(section@)));
        }
        i = i + 1;
    }
    assert(entries@.take(entries@.len() as int) =~= entries@);
    r
}

/// Get entries filtered by kind
pub fn entries_by_kind<'a>(entries: &'a [DocEntry], kind: DocKind) -> (r: Vec<&'a DocEntry>)
    ensures
        deref_entries(r@) == keep(entries@, kind_is(kind)),
{
    let mut r: Vec<&'a DocEntry> = Vec::new();
    let mut i: usize = 0;
    assert(entries@.take(0) =~= Seq::<DocEntry>::empty());
    assert(deref_entries(r@) =~= keep(entries@.take(0), kind_is(kind)));
    while i < entries.len()
        invariant
            i <= entries@.len(),
            deref_entries(r@) == keep(entries@.take(i as int), kind_is(kind)),
        decreases entries@.len() - i,
    {
        proof {
            lemma_keep_step(entries@, i as int, kind_is(kind));
        }
        let e = &entries[i];
        if e.kind == kind {
            r.push(e);
            assert(deref_entries(r@) =~= keep(entries@.take(i + 1), kind_is(kind)));
        }
        i = i + 1;
    }
    assert(entries@.take(entries@.len() as int) =~= entries@);
    r
}

/// Get entries filtered by tag
pub fn entries_by_tag<'a>(entries: &'a [DocEntry], tag: &str) -> (r: Vec<&'a DocEntry>)
    ensures
        deref_entries(r@) == keep(entries@, tagged(tag@)),
{
    let mut r: Vec<&'a DocEntry> = Vec::new();
    let mut i: usize = 0;
    assert(entries@.take(0) =~= Seq::<DocEntry>::empty());
    assert(deref_entries(r@) =~= keep(entries@.take(0), tagged(tag@)));
    while i < entries.len()
        invariant
            i <= entries@.len(),
            deref_entries(r@) == keep(entries@.take(i as int), tagged(tag@)),
        decreases entries@.len() - i,
    {
        proof {
            lemma_keep_step(entries@, i as int, tagged(tag@));
        }
        let e = &entries[i];
        if contains_tag(&e.tags, tag) {
            r.push(e);
            assert(deref_entries(r@) =~= keep(entries@.take(i + 1), tagged(tag@)));
        }
        i = i + 1;
    }
    assert(entries@.take(entries@.len() as int) =~= entries@);
    r
}

/// The scenarios a sequence of references points to.
pub open spec fn deref_scenarios(s: Seq<&TestScenarioEntry>) -> Seq<TestScenarioEntry> {
    s.map_values(|e: &TestScenarioEntry| *e)
}

/// Get test scenarios filtered by tag
pub fn test_scenarios_by_tag<'a>(scenarios: &'a [TestScenarioEntry], tag: &str) -> (r: Vec<
    &'a TestScenarioEntry,
>)
    ensures
        deref_scenarios(r@) == keep(scenarios@, scenario_tagged(tag@)),
{
    let mut r: Vec<&'a TestScenarioEntry> = Vec::new();
    let mut i: usize = 0;
    assert(scenarios@.take(0) =~= Seq::<TestScenarioEntry>::empty());
    assert(deref_scenarios(r@) =~= keep(scenarios@.take(0), scenario_tagged(tag@)));
    while i < scenarios.len()
        invariant
            i <= scenarios@.len(),
            deref_scenarios(r@) == keep(scenarios@.take(i as int), scenario_tagged(tag@)),
        decreases scenarios@.len() - i,
    {
        proof {
            lemma_keep_step(scenarios@, i as int, scenario_tagged(tag@));
        }
        let e = &scenarios[i];
        if contains_tag(&e.tags, tag) {
            r.push(e);
            assert(deref_scenarios(r@) =~= keep(scenarios@.take(i + 1), scenario_tagged(tag@)));
        }
        i = i + 1;
    }
    assert(scenarios@.take(scenarios@.len() as int) =~= scenarios@);
    r
}

} // verus!
