//! User stories generated from test execution, rendered as org-mode or
//! markdown.

use super::action::{displayable, kind_short, TestAction};
use crate::registry::opt_view;
use crate::text::{
    flatten, join, lemma_flatten_ends, lemma_flatten_take, push_dec, push_joined, string_views,
};
use vstd::prelude::*;

verus! {

/// A user story generated from test execution
#[derive(Debug)]
pub struct UserStory {
    /// Story title
    pub title: String,
    /// Actor performing the story (e.g., "Developer", "Admin")
    pub actor: String,
    /// What the actor wants to achieve
    pub goal: String,
    /// Description of the story
    pub description: Option<String>,
    /// Prerequisites for this story
    pub preconditions: Vec<String>,
    /// Steps in the story
    pub steps: Vec<StoryStep>,
    /// Expected outcomes
    pub outcomes: Vec<String>,
    /// Tags for categorization
    pub tags: Vec<String>,
    /// Source file reference
    pub source_file: Option<String>,
    /// Source line number
    pub source_line: Option<u32>,
}

/// A single step in a user story
#[derive(Debug)]
pub struct StoryStep {
    /// Step number (1-indexed)
    pub number: usize,
    /// Short description of the step
    pub description: String,
    /// Detailed explanation of what happens
    pub details: Option<String>,
    /// Actions performed in this step
    pub actions: Vec<TestAction>,
    /// Screenshot captured for this step
    pub screenshot: Option<String>,
    /// Whether this step passed
    pub passed: bool,
    /// Error message if failed
    pub error: Option<String>,
}

/// All steps passed.
pub open spec fn all_passed(steps: Seq<StoryStep>) -> bool {
    forall|i: int| 0 <= i < steps.len() ==> (#[trigger] steps[i]).passed
}

/// Every action of every step can be displayed.
pub open spec fn steps_displayable(steps: Seq<StoryStep>) -> bool {
    forall|i: int| 0 <= i < steps.len() ==> actions_displayable((#[trigger] steps[i]).actions@)
}

/// Every action can be displayed.
pub open spec fn actions_displayable(actions: Seq<TestAction>) -> bool {
    forall|i: int| 0 <= i < actions.len() ==> displayable(#[trigger] actions[i])
}

/// The short forms of the actions, one per line.
pub open spec fn action_lines(actions: Seq<TestAction>) -> Seq<char> {
    flatten(Seq::new(actions.len(), |i: int| kind_short(actions[i].kind) + "\n"@))
}

/// An optional paragraph: the text followed by a blank line.
pub open spec fn opt_para(o: Option<Seq<char>>) -> Seq<char> {
    match o {
        Some(d) => d + "\n"@ + "\n"@,
        None => Seq::empty(),
    }
}

/// The actions' short forms between an opening and a closing line, followed
/// by a blank line; nothing when there are no actions.
pub open spec fn code_block(open: Seq<char>, actions: Seq<TestAction>, close: Seq<char>) -> Seq<char> {
    if actions.len() > 0 {
        open + action_lines(actions) + close + "\n"@
    } else {
        Seq::empty()
    }
}

/// The org-mode heading line of a step.
pub open spec fn step_head_org(s: StoryStep) -> Seq<char> {
    "*** Step "@ + crate::text::dec(s.number as nat) + ": "@ + s.description@ + (if s.passed {
        Seq::empty()
    } else {
        " :fail:"@
    }) + "\n"@
}

/// The org-mode screenshot block of a step.
pub open spec fn step_shot_org(s: StoryStep) -> Seq<char> {
    match opt_view(s.screenshot) {
        Some(p) => "#+CAPTION: Step "@ + crate::text::dec(s.number as nat) + " screenshot\n"@
            + "[[file:"@ + p + "]]\n"@ + "\n"@,
        None => Seq::empty(),
    }
}

/// The org-mode error block of a step.
pub open spec fn step_error_org(s: StoryStep) -> Seq<char> {
    match opt_view(s.error) {
        Some(e) => "#+begin_quote\n"@ + "ERROR: "@ + e + "\n"@ + "#+end_quote\n"@ + "\n"@,
        None => Seq::empty(),
    }
}

/// A step rendered as org-mode.
pub open spec fn step_org(s: StoryStep) -> Seq<char> {
    step_head_org(s) + opt_para(opt_view(s.details)) + step_shot_org(s) + code_block(
        "#+begin_src\n"@,
        s.actions@,
        "#+end_src\n"@,
    ) + step_error_org(s)
}

/// The markdown heading of a step, followed by a blank line.
pub open spec fn step_head_markdown(s: StoryStep) -> Seq<char> {
    "### Step "@ + crate::text::dec(s.number as nat) + ": "@ + s.description@ + (if s.passed {
        Seq::empty()
    } else {
        " ❌"@
    }) + "\n"@ + "\n"@
}

/// The markdown screenshot image of a step.
pub open spec fn step_shot_markdown(s: StoryStep) -> Seq<char> {
    match opt_view(s.screenshot) {
        Some(p) => "![Step "@ + crate::text::dec(s.number as nat) + " screenshot]("@ + p + ")\n"@
            + "\n"@,
        None => Seq::empty(),
    }
}

/// The markdown error line of a step.
pub open spec fn step_error_markdown(s: StoryStep) -> Seq<char> {
    match opt_view(s.error) {
        Some(e) => "> **ERROR:** "@ + e + "\n"@ + "\n"@,
        None => Seq::empty(),
    }
}

/// A step rendered as markdown.
pub open spec fn step_markdown(s: StoryStep) -> Seq<char> {
    step_head_markdown(s) + opt_para(opt_view(s.details)) + step_shot_markdown(s) + code_block(
        "```\n"@,
        s.actions@,
        "```\n"@,
    ) + step_error_markdown(s)
}

/// One line per item: `- `, the item, a newline.
pub open spec fn dash_lines(items: Seq<Seq<char>>, mark: Seq<char>) -> Seq<char> {
    flatten(Seq::new(items.len(), |i: int| "- "@ + mark + items[i] + "\n"@))
}

/// A titled list, one dashed line per item, then a blank line; nothing when
/// there are no items.
pub open spec fn dash_section(title: Seq<char>, items: Seq<Seq<char>>, mark: Seq<char>) -> Seq<char> {
    if items.len() > 0 {
        title + dash_lines(items, mark) + "\n"@
    } else {
        Seq::empty()
    }
}

/// The org-mode heading of a story: its status, title and tags.
pub open spec fn story_head_org(u: UserStory) -> Seq<char> {
    let tags = string_views(u.tags@);
    "* "@ + (if all_passed(u.steps@) {
        Seq::empty()
    } else {
        "FAILED "@
    }) + u.title@ + " "@ + (if tags.len() == 0 {
        Seq::empty()
    } else {
        ":"@ + join(tags, ":"@) + ":"@
    }) + "\n"@
}

/// The org-mode link to the source of a story, when both file and line are
/// known.
pub open spec fn story_source_org(u: UserStory) -> Seq<char> {
    match (opt_view(u.source_file), u.source_line) {
        (Some(f), Some(l)) => ":SOURCE: [[file:"@ + f + "::"@ + crate::text::dec(l as nat) + "]["@
            + f + ":"@ + crate::text::dec(l as nat) + "]]\n"@,
        _ => Seq::empty(),
    }
}

/// The org-mode properties drawer of a story, followed by a blank line.
pub open spec fn story_props_org(u: UserStory) -> Seq<char> {
    ":PROPERTIES:\n"@ + ":ACTOR: "@ + u.actor@ + "\n"@ + (if u.goal@.len() > 0 {
        ":GOAL: "@ + u.goal@ + "\n"@
    } else {
        Seq::empty()
    }) + story_source_org(u) + ":END:\n"@ + "\n"@
}

/// The steps of a story rendered as org-mode, one after the other.
pub open spec fn steps_org(steps: Seq<StoryStep>) -> Seq<char> {
    flatten(Seq::new(steps.len(), |i: int| step_org(steps[i])))
}

/// The steps of a story rendered as markdown, one after the other.
pub open spec fn steps_markdown(steps: Seq<StoryStep>) -> Seq<char> {
    flatten(Seq::new(steps.len(), |i: int| step_markdown(steps[i])))
}

/// A story rendered as org-mode.
pub open spec fn story_org(u: UserStory) -> Seq<char> {
    story_head_org(u) + story_props_org(u) + opt_para(opt_view(u.description)) + dash_section(
        "** Preconditions\n"@,
        string_views(u.preconditions@),
        ""@,
    ) + "** Steps\n"@ + "\n"@ + steps_org(u.steps@) + dash_section(
        "** Outcomes\n"@,
        string_views(u.outcomes@),
        if all_passed(u.steps@) {
            "[X] "@
        } else {
            "[ ] "@
        },
    )
}

/// The markdown title and metadata of a story, followed by a blank line.
pub open spec fn story_head_markdown(u: UserStory) -> Seq<char> {
    let tags = string_views(u.tags@);
    "# "@ + u.title@ + "\n"@ + "\n"@ + "**Actor:** "@ + u.actor@ + "\n"@ + (if u.goal@.len() > 0 {
        "**Goal:** "@ + u.goal@ + "\n"@
    } else {
        Seq::empty()
    }) + (if tags.len() > 0 {
        "**Tags:** "@ + join(tags, ", "@) + "\n"@
    } else {
        Seq::empty()
    }) + "\n"@
}

/// A story rendered as markdown.
pub open spec fn story_markdown(u: UserStory) -> Seq<char> {
    story_head_markdown(u) + opt_para(opt_view(u.description)) + dash_section(
        "## Preconditions\n"@,
        string_views(u.preconditions@),
        ""@,
    ) + "## Steps\n"@ + "\n"@ + steps_markdown(u.steps@) + dash_section(
        "## Outcomes\n"@,
        string_views(u.outcomes@),
        if all_passed(u.steps@) {
            "[x] "@
        } else {
            "[ ] "@
        },
    )
}

proof fn lemma_dash_item(title: Seq<char>, items: Seq<Seq<char>>, mark: Seq<char>, i: int)
    requires
        0 <= i < items.len(),
    ensures
        crate::text::contains_seq(dash_section(title, items, mark), "- "@ + mark + items[i] + "\n"@),
{
    let parts = Seq::new(items.len(), |k: int| "- "@ + mark + items[k] + "\n"@);
    crate::text::lemma_flatten_contains(parts, i);
    crate::text::lemma_contains_middle(title, dash_lines(items, mark), "\n"@);
    crate::text::lemma_contains_trans(dash_section(title, items, mark), dash_lines(items, mark), parts[i]);
}

proof fn lemma_mark_lines(o: Seq<char>)
    ensures
        "- "@ + "[x] "@ + o + "\n"@ == "- [x] "@ + o + "\n"@,
        "- "@ + "[X] "@ + o + "\n"@ == "- [X] "@ + o + "\n"@,
        "- "@ + "[ ] "@ + o + "\n"@ == "- [ ] "@ + o + "\n"@,
{
    reveal_strlit("- ");
    reveal_strlit("[x] ");
    reveal_strlit("[X] ");
    reveal_strlit("[ ] ");
    reveal_strlit("- [x] ");
    reveal_strlit("- [X] ");
    reveal_strlit("- [ ] ");
    assert("- "@ + "[x] "@ + o + "\n"@ =~= "- [x] "@ + o + "\n"@);
    assert("- "@ + "[X] "@ + o + "\n"@ =~= "- [X] "@ + o + "\n"@);
    assert("- "@ + "[ ] "@ + o + "\n"@ =~= "- [ ] "@ + o + "\n"@);
}

/// In a story's markdown, every outcome is a checklist line, ticked (`- [x]`)
/// when every step passed and open (`- [ ]`) when some step failed.
pub proof fn lemma_markdown_outcome_marks(u: UserStory, i: int)
    requires
        0 <= i < u.outcomes@.len(),
    ensures
        all_passed(u.steps@) ==> crate::text::contains_seq(
            story_markdown(u),
            "- [x] "@ + u.outcomes@[i]@ + "\n"@,
        ),
        !all_passed(u.steps@) ==> crate::text::contains_seq(
            story_markdown(u),
            "- [ ] "@ + u.outcomes@[i]@ + "\n"@,
        ),
{
    let outs = string_views(u.outcomes@);
    let o = outs[i];
    lemma_mark_lines(o);
    let mark = if all_passed(u.steps@) {
        "[x] "@
    } else {
        "[ ] "@
    };
    let sec = dash_section("## Outcomes\n"@, outs, mark);
    lemma_dash_item("## Outcomes\n"@, outs, mark, i);
    let pre = story_head_markdown(u) + opt_para(opt_view(u.description)) + dash_section(
        "## Preconditions\n"@,
        string_views(u.preconditions@),
        ""@,
    ) + "## Steps\n"@ + "\n"@ + steps_markdown(u.steps@);
    assert(story_markdown(u) == pre + sec);
    crate::text::lemma_contains_end(pre, sec);
    crate::text::lemma_contains_trans(story_markdown(u), sec, "- "@ + mark + o + "\n"@);
}

/// In a story's org-mode form, every outcome is a checklist line, ticked
/// (`- [X]`) when every step passed and open (`- [ ]`) when some step failed.
pub proof fn lemma_org_outcome_marks(u: UserStory, i: int)
    requires
        0 <= i < u.outcomes@.len(),
    ensures
        all_passed(u.steps@) ==> crate::text::contains_seq(
            story_org(u),
            "- [X] "@ + u.outcomes@[i]@ + "\n"@,
        ),
        !all_passed(u.steps@) ==> crate::text::contains_seq(
            story_org(u),
            "- [ ] "@ + u.outcomes@[i]@ + "\n"@,
        ),
{
    let outs = string_views(u.outcomes@);
    let o = outs[i];
    lemma_mark_lines(o);
    let mark = if all_passed(u.steps@) {
        "[X] "@
    } else {
        "[ ] "@
    };
    let sec = dash_section("** Outcomes\n"@, outs, mark);
    lemma_dash_item("** Outcomes\n"@, outs, mark, i);
    let pre = story_head_org(u) + story_props_org(u) + opt_para(opt_view(u.description))
        + dash_section("** Preconditions\n"@, string_views(u.preconditions@), ""@) + "** Steps\n"@
        + "\n"@ + steps_org(u.steps@);
    assert(story_org(u) == pre + sec);
    crate::text::lemma_contains_end(pre, sec);
    crate::text::lemma_contains_trans(story_org(u), sec, "- "@ + mark + o + "\n"@);
}

/// Appends the short forms of the actions, one per line.
fn push_action_lines(out: &mut String, actions: &Vec<TestAction>)
    requires
        actions_displayable(actions@),
    ensures
        final(out)@ == old(out)@ + action_lines(actions@),
{
    let ghost o = out@;
    let ghost parts = Seq::new(actions@.len(), |i: int| kind_short(actions@[i].kind) + "\n"@);
    proof {
        lemma_flatten_ends(parts);
    }
    let mut i: usize = 0;
    while i < actions.len()
        invariant
            i <= actions@.len(),
            actions_displayable(actions@),
            parts == Seq::new(actions@.len(), |i: int| kind_short(actions@[i].kind) + "\n"@),
            out@ == o + flatten(parts.take(i as int)),
        decreases actions@.len() - i,
    {
        proof {
            lemma_flatten_take(parts, i as int);
            assert(displayable(actions@[i as int]));
        }
        let d = actions[i].display_short();
        out.append(d.as_str());
        out.append("\n");
        i = i + 1;
        assert(out@ =~= o + flatten(parts.take(i as int)));
    }
    proof {
        lemma_flatten_ends(parts);
    }
}

/// Appends one line per item: `- `, `mark`, the item, a newline.
fn push_dash_lines(out: &mut String, items: &Vec<String>, mark: &str)
    ensures
        final(out)@ == old(out)@ + dash_lines(string_views(items@), mark@),
{
    let ghost o = out@;
    let ghost its = string_views(items@);
    let ghost parts = Seq::new(its.len(), |i: int| "- "@ + mark@ + its[i] + "\n"@);
    proof {
        lemma_flatten_ends(parts);
    }
    let mut i: usize = 0;
    while i < items.len()
        invariant
            i <= items@.len(),
            its == string_views(items@),
            parts == Seq::new(its.len(), |i: int| "- "@ + mark@ + its[i] + "\n"@),
            out@ == o + flatten(parts.take(i as int)),
        decreases items@.len() - i,
    {
        proof {
            lemma_flatten_take(parts, i as int);
        }
        out.append("- ");
        out.append(mark);
        out.append(items[i].as_str());
        out.append("\n");
        i = i + 1;
        assert(out@ =~= o + flatten(parts.take(i as int)));
    }
    proof {
        lemma_flatten_ends(parts);
    }
}

impl StoryStep {
    /// Create a new step
    pub fn new(number: usize, description: &str) -> (r: Self)
        ensures
            r.number == number,
            r.description@ == description@,
            r.details is None,
            r.actions@.len() == 0,
            r.screenshot is None,
            r.passed,
            r.error is None,
    {
        StoryStep {
            number,
            description: String::from_str(description),
            details: None,
            actions: Vec::new(),
            screenshot: None,
            passed: true,
            error: None,
        }
    }

    /// Add details
    pub fn with_details(self, details: &str) -> (r: Self)
        ensures
            r == (StoryStep { details: r.details, ..self }),
            r.details matches Some(d) && d@ == details@,
    {
        let mut s = self;
        s.details = Some(String::from_str(details));
        s
    }

    /// Add an action
    pub fn with_action(self, action: TestAction) -> (r: Self)
        ensures
            r == (StoryStep { actions: r.actions, ..self }),
            r.actions@ == self.actions@.push(action),
    {
        let mut s = self;
        s.actions.push(action);
        s
    }

    /// Add a screenshot
    pub fn with_screenshot(self, path: &str) -> (r: Self)
        ensures
            r == (StoryStep { screenshot: r.screenshot, ..self }),
            r.screenshot matches Some(p) && p@ == path@,
    {
        let mut s = self;
        s.screenshot = Some(String::from_str(path));
        s
    }

    /// Mark as failed
    pub fn failed(self, error: &str) -> (r: Self)
        ensures
            r == (StoryStep { passed: false, error: r.error, ..self }),
            r.error matches Some(e) && e@ == error@,
    {
        let mut s = self;
        s.passed = false;
        s.error = Some(String::from_str(error));
        s
    }

    /// Render to org-mode
    pub fn to_org(&self) -> (r: String)
        requires
            actions_displayable(self.actions@),
        ensures
            r@ == step_org(*self),
    {
        let mut output = String::new();
        self.push_head_org(&mut output);
        push_opt_para(&mut output, &self.details);
        self.push_shot_org(&mut output);
        push_code_block(&mut output, "#+begin_src\n", &self.actions, "#+end_src\n");
        self.push_error_org(&mut output);
        assert(output@ =~= step_org(*self));
        output
    }

    /// Render to markdown
    pub fn to_markdown(&self) -> (r: String)
        requires
            actions_displayable(self.actions@),
        ensures
            r@ == step_markdown(*self),
    {
        let mut output = String::new();
        self.push_head_markdown(&mut output);
        push_opt_para(&mut output, &self.details);
        self.push_shot_markdown(&mut output);
        push_code_block(&mut output, "```\n", &self.actions, "```\n");
        self.push_error_markdown(&mut output);
        assert(output@ =~= step_markdown(*self));
        output
    }

    fn push_head_org(&self, out: &mut String)
        ensures
            final(out)@ == old(out)@ + step_head_org(*self),
    {
        let ghost o = out@;
        out.append("*** Step ");
        push_dec(out, self.number as u128);
        out.append(": ");
        out.append(self.description.as_str());
        if !self.passed {
            out.append(" :fail:");
        }
        out.append("\n");
        assert(out@ =~= o + step_head_org(*self));
    }

    fn push_shot_org(&self, out: &mut String)
        ensures
            final(out)@ == old(out)@ + step_shot_org(*self),
    {
        let ghost o = out@;
        match &self.screenshot {
            Some(p) => {
                out.append("#+CAPTION: Step ");
                push_dec(out, self.number as u128);
                out.append(" screenshot\n");
                out.append("[[file:");
                out.append(p.as_str());
                out.append("]]\n");
                out.append("\n");
            },
            None => {},
        }
        assert(out@ =~= o + step_shot_org(*self));
    }

    fn push_error_org(&self, out: &mut String)
        ensures
            final(out)@ == old(out)@ + step_error_org(*self),
    {
        let ghost o = out@;
        match &self.error {
            Some(e) => {
                out.append("#+begin_quote\n");
                out.append("ERROR: ");
                out.append(e.as_str());
                out.append("\n");
                out.append("#+end_quote\n");
                out.append("\n");
            },
            None => {},
        }
        assert(out@ =~= o + step_error_org(*self));
    }

    fn push_head_markdown(&self, out: &mut String)
        ensures
            final(out)@ == old(out)@ + step_head_markdown(*self),
    {
        let ghost o = out@;
        out.append("### Step ");
        push_dec(out, self.number as u128);
        out.append(": ");
        out.append(self.description.as_str());
        if !self.passed {
            out.append(" ❌");
        }
        out.append("\n");
        out.append("\n");
        assert(out@ =~= o + step_head_markdown(*self));
    }

    fn push_shot_markdown(&self, out: &mut String)
        ensures
            final(out)@ == old(out)@ + step_shot_markdown(*self),
    {
        let ghost o = out@;
        match &self.screenshot {
            Some(p) => {
                out.append("![Step ");
                push_dec(out, self.number as u128);
                out.append(" screenshot](");
                out.append(p.as_str());
                out.append(")\n");
                out.append("\n");
            },
            None => {},
        }
        assert(out@ =~= o + step_shot_markdown(*self));
    }

    fn push_error_markdown(&self, out: &mut String)
        ensures
            final(out)@ == old(out)@ + step_error_markdown(*self),
    {
        let ghost o = out@;
        match &self.error {
            Some(e) => {
                out.append("> **ERROR:** ");
                out.append(e.as_str());
                out.append("\n");
                out.append("\n");
            },
            None => {},
        }
        assert(out@ =~= o + step_error_markdown(*self));
    }
}

/// Appends an optional paragraph: the text and a blank line.
fn push_opt_para(out: &mut String, o: &Option<String>)
    ensures
        final(out)@ == old(out)@ + opt_para(opt_view(*o)),
{
    let ghost before = out@;
    match o {
        Some(d) => {
            out.append(d.as_str());
            out.append("\n");
            out.append("\n");
        },
        None => {},
    }
    assert(out@ =~= before + opt_para(opt_view(*o)));
}

/// Appends the actions' short forms between `open` and `close`, then a blank
/// line; nothing when there are no actions.
fn push_code_block(out: &mut String, open: &str, actions: &Vec<TestAction>, close: &str)
    requires
        actions_displayable(actions@),
    ensures
        final(out)@ == old(out)@ + code_block(open@, actions@, close@),
{
    let ghost before = out@;
    if actions.len() > 0 {
        out.append(open);
        push_action_lines(out, actions);
        out.append(close);
        out.append("\n");
    }
    assert(out@ =~= before + code_block(open@, actions@, close@));
}

/// Appends a titled list, one dashed line per item, then a blank line;
/// nothing when there are no items.
fn push_dash_section(out: &mut String, title: &str, items: &Vec<String>, mark: &str)
    ensures
        final(out)@ == old(out)@ + dash_section(title@, string_views(items@), mark@),
{
    let ghost before = out@;
    if items.len() > 0 {
        out.append(title);
        push_dash_lines(out, items, mark);
        out.append("\n");
    }
    assert(out@ =~= before + dash_section(title@, string_views(items@), mark@));
}

/// Appends every step rendered as org-mode.
fn push_steps_org(out: &mut String, steps: &Vec<StoryStep>)
    requires
        steps_displayable(steps@),
    ensures
        final(out)@ == old(out)@ + steps_org(steps@),
{
    let ghost o = out@;
    let ghost parts = Seq::new(steps@.len(), |i: int| step_org(steps@[i]));
    proof {
        lemma_flatten_ends(parts);
    }
    let mut i: usize = 0;
    while i < steps.len()
        invariant
            i <= steps@.len(),
            steps_displayable(steps@),
            parts == Seq::new(steps@.len(), |i: int| step_org(steps@[i])),
            out@ == o + flatten(parts.take(i as int)),
        decreases steps@.len() - i,
    {
        proof {
            lemma_flatten_take(parts, i as int);
            assert(actions_displayable(steps@[i as int].actions@));
        }
        let r = steps[i].to_org();
        out.append(r.as_str());
        i = i + 1;
        assert(out@ =~= o + flatten(parts.take(i as int)));
    }
    proof {
        lemma_flatten_ends(parts);
    }
}

/// Appends every step rendered as markdown.
fn push_steps_markdown(out: &mut String, steps: &Vec<StoryStep>)
    requires
        steps_displayable(steps@),
    ensures
        final(out)@ == old(out)@ + steps_markdown(steps@),
{
    let ghost o = out@;
    let ghost parts = Seq::new(steps@.len(), |i: int| step_markdown(steps@[i]));
    proof {
        lemma_flatten_ends(parts);
    }
    let mut i: usize = 0;
    while i < steps.len()
        invariant
            i <= steps@.len(),
            steps_displayable(steps@),
            parts == Seq::new(steps@.len(), |i: int| step_markdown(steps@[i])),
            out@ == o + flatten(parts.take(i as int)),
        decreases steps@.len() - i,
    {
        proof {
            lemma_flatten_take(parts, i as int);
            assert(actions_displayable(steps@[i as int].actions@));
        }
        let r = steps[i].to_markdown();
        out.append(r.as_str());
        i = i + 1;
        assert(out@ =~= o + flatten(parts.take(i as int)));
    }
    proof {
        lemma_flatten_ends(parts);
    }
}

/// Appends each string of `items` to `v`.
fn extend_strings(v: &mut Vec<String>, items: &[&str])
    ensures
        string_views(final(v)@) == string_views(old(v)@) + Seq::new(
            items@.len(),
            |i: int| items@[i]@,
        ),
{
    let ghost o = string_views(v@);
    let mut i: usize = 0;
    while i < items.len()
        invariant
            i <= items@.len(),
            string_views(v@) == o + Seq::new(i as nat, |j: int| items@[j]@),
        decreases items@.len() - i,
    {
        let ghost pre = v@;
        let x = String::from_str(items[i]);
        v.push(x);
        assert(string_views(v@) =~= string_views(pre).push(items@[i as int]@));
        i = i + 1;
        assert(string_views(v@) =~= o + Seq::new(i as nat, |j: int| items@[j]@));
    }
    assert(Seq::new(i as nat, |j: int| items@[j]@) =~= Seq::new(
        items@.len(),
        |j: int| items@[j]@,
    ));
}

impl UserStory {
    /// Create a new user story
    pub fn new(title: &str) -> (r: Self)
        ensures
            r.title@ == title@,
            r.actor@ == "User"@,
            r.goal@.len() == 0,
            r.description is None,
            r.preconditions@.len() == 0,
            r.steps@.len() == 0,
            r.outcomes@.len() == 0,
            r.tags@.len() == 0,
            r.source_file is None,
            r.source_line is None,
    {
        UserStory {
            title: String::from_str(title),
            actor: String::from_str("User"),
            goal: String::new(),
            description: None,
            preconditions: Vec::new(),
            steps: Vec::new(),
            outcomes: Vec::new(),
            tags: Vec::new(),
            source_file: None,
            source_line: None,
        }
    }

    /// Set the actor
    pub fn with_actor(self, actor: &str) -> (r: Self)
        ensures
            r == (UserStory { actor: r.actor, ..self }),
            r.actor@ == actor@,
    {
        let mut s = self;
        s.actor = String::from_str(actor);
        s
    }

    /// Set the goal
    pub fn with_goal(self, goal: &str) -> (r: Self)
        ensures
            r == (UserStory { goal: r.goal, ..self }),
            r.goal@ == goal@,
    {
        let mut s = self;
        s.goal = String::from_str(goal);
        s
    }

    /// Set the description
    pub fn with_description(self, desc: &str) -> (r: Self)
        ensures
            r == (UserStory { description: r.description, ..self }),
            r.description matches Some(d) && d@ == desc@,
    {
        let mut s = self;
        s.description = Some(String::from_str(desc));
        s
    }

    /// Add a precondition
    pub fn with_precondition(self, pre: &str) -> (r: Self)
        ensures
            r == (UserStory { preconditions: r.preconditions, ..self }),
            string_views(r.preconditions@) == string_views(self.preconditions@).push(pre@),
    {
        let mut s = self;
        let ghost o = s.preconditions@;
        s.preconditions.push(String::from_str(pre));
        assert(string_views(s.preconditions@) =~= string_views(o).push(pre@));
        s
    }

    /// Add preconditions
    pub fn with_preconditions(self, pres: &[&str]) -> (r: Self)
        ensures
            r == (UserStory { preconditions: r.preconditions, ..self }),
            string_views(r.preconditions@) == string_views(self.preconditions@) + Seq::new(
                pres@.len(),
                |i: int| pres@[i]@,
            ),
    {
        let mut s = self;
        extend_strings(&mut s.preconditions, pres);
        s
    }

    /// Add an outcome
    pub fn with_outcome(self, outcome: &str) -> (r: Self)
        ensures
            r == (UserStory { outcomes: r.outcomes, ..self }),
            string_views(r.outcomes@) == string_views(self.outcomes@).push(outcome@),
    {
        let mut s = self;
        let ghost o = s.outcomes@;
        s.outcomes.push(String::from_str(outcome));
        assert(string_views(s.outcomes@) =~= string_views(o).push(outcome@));
        s
    }

    /// Add outcomes
    pub fn with_outcomes(self, outcomes: &[&str]) -> (r: Self)
        ensures
            r == (UserStory { outcomes: r.outcomes, ..self }),
            string_views(r.outcomes@) == string_views(self.outcomes@) + Seq::new(
                outcomes@.len(),
                |i: int| outcomes@[i]@,
            ),
    {
        let mut s = self;
        extend_strings(&mut s.outcomes, outcomes);
        s
    }

    /// Add a tag
    pub fn with_tag(self, tag: &str) -> (r: Self)
        ensures
            r == (UserStory { tags: r.tags, ..self }),
            string_views(r.tags@) == string_views(self.tags@).push(tag@),
    {
        let mut s = self;
        let ghost o = s.tags@;
        s.tags.push(String::from_str(tag));
        assert(string_views(s.tags@) =~= string_views(o).push(tag@));
        s
    }

    /// Add tags
    pub fn with_tags(self, tags: &[&str]) -> (r: Self)
        ensures
            r == (UserStory { tags: r.tags, ..self }),
            string_views(r.tags@) == string_views(self.tags@) + Seq::new(
                tags@.len(),
                |i: int| tags@[i]@,
            ),
    {
        let mut s = self;
        extend_strings(&mut s.tags, tags);
        s
    }

    /// Set source location
    pub fn with_source(self, file: &str, line: u32) -> (r: Self)
        ensures
            r == (UserStory { source_file: r.source_file, source_line: Some(line), ..self }),
            r.source_file matches Some(f) && f@ == file@,
    {
        let mut s = self;
        s.source_file = Some(String::from_str(file));
        s.source_line = Some(line);
        s
    }

    /// Add a step to the story
    pub fn add_step(&mut self, step: StoryStep)
        ensures
            *final(self) == (UserStory { steps: final(self).steps, ..*old(self) }),
            final(self).steps@ == old(self).steps@.push(step),
    {
        self.steps.push(step);
    }

    /// Check if all steps passed
    pub fn passed(&self) -> (r: bool)
        ensures
            r == all_passed(self.steps@),
    {
        let mut i: usize = 0;
        while i < self.steps.len()
            invariant
                i <= self.steps@.len(),
                all_passed(self.steps@.take(i as int)),
            decreases self.steps@.len() - i,
        {
            if !self.steps[i].passed {
                assert(!self.steps@[i as int].passed);
                return false;
            }
            i = i + 1;
            assert(all_passed(self.steps@.take(i as int))) by {
                assert forall|j: int| 0 <= j < i implies (#[trigger] self.steps@.take(
                    i as int,
                )[j]).passed by {
                    if j < i - 1 {
                        assert(self.steps@.take(i as int)[j] == self.steps@.take(i - 1)[j]);
                    }
                }
            }
        }
        assert(self.steps@.take(i as int) =~= self.steps@);
        true
    }

    /// Get the first failed step, if any
    pub fn first_failure(&self) -> (r: Option<&StoryStep>)
        ensures
            r is None <==> all_passed(self.steps@),
            r matches Some(s) ==> exists|i: int|
                0 <= i < self.steps@.len() && self.steps@[i] == *s && !s.passed && all_passed(
                    #[trigger] self.steps@.take(i),
                ),
    {
        let mut i: usize = 0;
        while i < self.steps.len()
            invariant
                i <= self.steps@.len(),
                all_passed(self.steps@.take(i as int)),
            decreases self.steps@.len() - i,
        {
            if !self.steps[i].passed {
                assert(self.steps@.take(i as int) == self.steps@.take(i as int));
                return Some(&self.steps[i]);
            }
            i = i + 1;
            assert(all_passed(self.steps@.take(i as int))) by {
                assert forall|j: int| 0 <= j < i implies (#[trigger] self.steps@.take(
                    i as int,
                )[j]).passed by {
                    if j < i - 1 {
                        assert(self.steps@.take(i as int)[j] == self.steps@.take(i - 1)[j]);
                    }
                }
            }
        }
        assert(self.steps@.take(i as int) =~= self.steps@);
        None
    }

    /// Render to org-mode format
    pub fn to_org(&self) -> (r: String)
        requires
            steps_displayable(self.steps@),
        ensures
            r@ == story_org(*self),
    {
        let passed = self.passed();
        let mut output = String::new();
        self.push_head_org(&mut output, passed);
        self.push_props_org(&mut output);
        push_opt_para(&mut output, &self.description);
        push_dash_section(&mut output, "** Preconditions\n", &self.preconditions, "");
        output.append("** Steps\n");
        output.append("\n");
        push_steps_org(&mut output, &self.steps);
        let mark = if passed {
            "[X] "
        } else {
            "[ ] "
        };
        push_dash_section(&mut output, "** Outcomes\n", &self.outcomes, mark);
        assert(output@ =~= story_org(*self));
        output
    }

    /// Render to markdown format
    pub fn to_markdown(&self) -> (r: String)
        requires
            steps_displayable(self.steps@),
        ensures
            r@ == story_markdown(*self),
    {
        let passed = self.passed();
        let mut output = String::new();
        self.push_head_markdown(&mut output);
        push_opt_para(&mut output, &self.description);
        push_dash_section(&mut output, "## Preconditions\n", &self.preconditions, "");
        output.append("## Steps\n");
        output.append("\n");
        push_steps_markdown(&mut output, &self.steps);
        let mark = if passed {
            "[x] "
        } else {
            "[ ] "
        };
        push_dash_section(&mut output, "## Outcomes\n", &self.outcomes, mark);
        assert(output@ =~= story_markdown(*self));
        output
    }

    fn push_head_org(&self, out: &mut String, passed: bool)
        requires
            passed == all_passed(self.steps@),
        ensures
            final(out)@ == old(out)@ + story_head_org(*self),
    {
        let ghost o = out@;
        out.append("* ");
        if !passed {
            out.append("FAILED ");
        }
        out.append(self.title.as_str());
        out.append(" ");
        if self.tags.len() > 0 {
            out.append(":");
            push_joined(out, &self.tags, ":");
            out.append(":");
        }
        out.append("\n");
        assert(out@ =~= o + story_head_org(*self));
    }

    fn push_props_org(&self, out: &mut String)
        ensures
            final(out)@ == old(out)@ + story_props_org(*self),
    {
        let ghost o = out@;
        out.append(":PROPERTIES:\n");
        out.append(":ACTOR: ");
        out.append(self.actor.as_str());
        out.append("\n");
        if !self.goal.as_str().is_empty() {
            out.append(":GOAL: ");
            out.append(self.goal.as_str());
            out.append("\n");
        }
        let ghost o2 = out@;
        match (&self.source_file, self.source_line) {
            (Some(f), Some(l)) => {
                out.append(":SOURCE: [[file:");
                out.append(f.as_str());
                out.append("::");
                push_dec(out, l as u128);
                out.append("][");
                out.append(f.as_str());
                out.append(":");
                push_dec(out, l as u128);
                out.append("]]\n");
            },
            _ => {},
        }
        assert(out@ =~= o2 + story_source_org(*self));
        out.append(":END:\n");
        out.append("\n");
        assert(out@ =~= o + story_props_org(*self));
    }

    fn push_head_markdown(&self, out: &mut String)
        ensures
            final(out)@ == old(out)@ + story_head_markdown(*self),
    {
        let ghost o = out@;
        out.append("# ");
        out.append(self.title.as_str());
        out.append("\n");
        out.append("\n");
        out.append("**Actor:** ");
        out.append(self.actor.as_str());
        out.append("\n");
        if !self.goal.as_str().is_empty() {
            out.append("**Goal:** ");
            out.append(self.goal.as_str());
            out.append("\n");
        }
        if self.tags.len() > 0 {
            out.append("**Tags:** ");
            push_joined(out, &self.tags, ", ");
            out.append("\n");
        }
        out.append("\n");
        assert(out@ =~= o + story_head_markdown(*self));
    }
}

} // verus!
