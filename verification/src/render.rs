//! Org-mode rendering for documented items

use crate::registry::{
    DocEntry, DocMetadata, IceInstruction, IceTestMeta, InstructionView, ScenarioMeta,
    ScreenshotMeta, StateMeta, UsecaseMeta, UserStoryMeta, WorkflowMeta, instruction_views,
    opt_view,
};
use crate::text::{
    append_chars, bullets, pair_le, pair_views, sort_pairs, chars_eq_str, chars_of, dec, flatten, get_or_empty, join,
    lemma_flatten_ends, lemma_flatten_take, nth_or, pad_zeros, push_bullets, push_dec,
    push_dec_padded, push_joined, split, split_chars, string_views, trim, trim_chars, views,
};
use crate::GenerateOptions;
use vstd::prelude::*;

verus! {

/// The title shown for a section.
pub open spec fn section_title_spec(section: Seq<char>) -> Seq<char> {
    if section == "views"@ {
        "Views"@
    } else if section == "models"@ {
        "Models"@
    } else if section == "usecases"@ {
        "Use Cases"@
    } else if section == "workflows"@ {
        "Workflows"@
    } else if section == "screenshots"@ {
        "Screenshots"@
    } else if section == "tests"@ {
        "End-to-End Tests"@
    } else if section == "default"@ {
        "Documentation"@
    } else {
        section
    }
}

/// Get a human-readable title for a section
pub fn section_title(section: &str) -> (r: &str)
    ensures
        r@ == section_title_spec(section@),
{
    let s = chars_of(section);
    if chars_eq_str(s.as_slice(), "views") {
        "Views"
    } else if chars_eq_str(s.as_slice(), "models") {
        "Models"
    } else if chars_eq_str(s.as_slice(), "usecases") {
        "Use Cases"
    } else if chars_eq_str(s.as_slice(), "workflows") {
        "Workflows"
    } else if chars_eq_str(s.as_slice(), "screenshots") {
        "Screenshots"
    } else if chars_eq_str(s.as_slice(), "tests") {
        "End-to-End Tests"
    } else if chars_eq_str(s.as_slice(), "default") {
        "Documentation"
    } else {
        section
    }
}

/// Gregorian leap year.
pub open spec fn is_leap(y: int) -> bool {
    y % 4 == 0 && (y % 100 != 0 || y % 400 == 0)
}

/// Number of days in year `y`.
pub open spec fn year_days(y: int) -> int {
    if is_leap(y) {
        366
    } else {
        365
    }
}

/// Number of days in month `m` (1-based) of a leap or common year.
pub open spec fn month_days(leap: bool, m: int) -> int {
    if m == 2 {
        if leap {
            29
        } else {
            28
        }
    } else if m == 4 || m == 6 || m == 9 || m == 11 {
        30
    } else {
        31
    }
}

/// The year reached after counting `d` days from the start of year `y`,
/// and the day of that year (0-based).
pub open spec fn year_of(y: int, d: nat) -> (int, nat)
    decreases d,
{
    if d < year_days(y) {
        (y, d)
    } else {
        year_of(y + 1, (d - year_days(y)) as nat)
    }
}

/// The month (1-based) and day of month (1-based) of day `d` (0-based),
/// counting from the start of month `m`; month `0` when `d` lies past December.
pub open spec fn month_of(leap: bool, d: nat, m: int) -> (int, nat)
    decreases 13 - m,
{
    if m > 12 || m < 1 {
        (0, d + 1)
    } else if d < month_days(leap, m) {
        (m, d + 1)
    } else {
        month_of(leap, (d - month_days(leap, m)) as nat, m + 1)
    }
}

/// The calendar date of a Unix timestamp, as (year, month, day).
pub open spec fn civil_date(secs: nat) -> (int, int, nat) {
    let (y, r) = year_of(1970, secs / 86400);
    let (m, d) = month_of(is_leap(y), r, 1);
    (y, m, d)
}

/// `YYYY-MM-DD` for a Unix timestamp.
pub open spec fn date_text(secs: nat) -> Seq<char> {
    let (y, m, d) = civil_date(secs);
    pad_zeros(dec(y as nat), 4) + "-"@ + pad_zeros(dec(m as nat), 2) + "-"@ + pad_zeros(dec(d), 2)
}

proof fn lemma_year_of_bounds(y: int, d: nat)
    requires
        y >= 1970,
    ensures
        year_of(y, d).0 >= y,
        year_of(y, d).1 < year_days(year_of(y, d).0),
        year_of(y, d).0 <= y + d,
    decreases d,
{
    if d >= year_days(y) {
        lemma_year_of_bounds(y + 1, (d - year_days(y)) as nat);
    }
}

/// Days from the start of month `m` to the end of the year.
pub open spec fn days_from_month(leap: bool, m: int) -> int
    decreases 13 - m,
{
    if m > 12 || m < 1 {
        0
    } else {
        month_days(leap, m) + days_from_month(leap, m + 1)
    }
}

proof fn lemma_month_of_valid(leap: bool, d: nat, m: int)
    requires
        1 <= m <= 12,
        d < days_from_month(leap, m),
    ensures
        1 <= month_of(leap, d, m).0 <= 12,
        1 <= month_of(leap, d, m).1 <= month_days(leap, month_of(leap, d, m).0),
    decreases 13 - m,
{
    assert(days_from_month(leap, 13) == 0);
    if d >= month_days(leap, m) {
        lemma_month_of_valid(leap, (d - month_days(leap, m)) as nat, m + 1);
    }
}

/// Every timestamp maps to a valid calendar date: a month between 1 and 12
/// and a day within that month.
pub proof fn lemma_civil_date_valid(secs: nat)
    ensures
        ({
            let (y, m, d) = civil_date(secs);
            &&& y >= 1970
            &&& 1 <= m <= 12
            &&& 1 <= d <= month_days(is_leap(y), m)
        }),
{
    let (y, r) = year_of(1970, secs / 86400);
    lemma_year_of_bounds(1970, secs / 86400);
    assert(days_from_month(is_leap(y), 1) == year_days(y)) by {
        reveal_with_fuel(days_from_month, 13);
    }
    lemma_month_of_valid(is_leap(y), r, 1);
}

fn year_len(year: u64) -> (r: u64)
    ensures
        r == year_days(year as int),
{
    if year % 4 == 0 && (year % 100 != 0 || year % 400 == 0) {
        366
    } else {
        365
    }
}

fn month_len(leap: bool, m: u64) -> (r: u64)
    ensures
        r == month_days(leap, m as int),
{
    if m == 2 {
        if leap {
            29
        } else {
            28
        }
    } else if m == 4 || m == 6 || m == 9 || m == 11 {
        30
    } else {
        31
    }
}

/// The date of a Unix timestamp in `YYYY-MM-DD` form.
pub fn date_from_unix(secs: u64) -> (r: String)
    ensures
        r@ == date_text(secs as nat),
{
    let days = secs / 86400;
    let mut year: u64 = 1970;
    let mut remaining: u64 = days;
    while remaining >= year_len(year)
        invariant
            year_of(1970, days as nat) == year_of(year as int, remaining as nat),
            1970 <= year,
            year - 1970 + remaining <= days,
            days <= u64::MAX / 86400,
        decreases remaining,
    {
        remaining = remaining - year_len(year);
        year = year + 1;
    }
    let leap = year % 4 == 0 && (year % 100 != 0 || year % 400 == 0);
    let mut month: u64 = 1;
    let mut day_of_year: u64 = remaining;
    while month <= 12 && day_of_year >= month_len(leap, month)
        invariant
            1 <= month <= 13,
            month_of(leap, remaining as nat, 1) == month_of(leap, day_of_year as nat, month as int),
            day_of_year <= remaining,
        decreases 13 - month,
    {
        day_of_year = day_of_year - month_len(leap, month);
        month = month + 1;
    }
    let (m, d) = if month <= 12 {
        (month, day_of_year + 1)
    } else {
        (0u64, day_of_year + 1)
    };
    proof {
        assert(is_leap(year as int) == leap);
        assert(year_of(year as int, remaining as nat) == (year as int, remaining as nat));
        assert((secs as nat) / 86400 == days as nat);
        assert(civil_date(secs as nat) == (year as int, m as int, d as nat));
    }
    let mut out = String::new();
    push_dec_padded(&mut out, year as u128, 4);
    out.append("-");
    push_dec_padded(&mut out, m as u128, 2);
    out.append("-");
    push_dec_padded(&mut out, d as u128, 2);
    assert(out@ =~= date_text(secs as nat));
    out
}

/// Seconds since the Unix epoch, read from the system clock (zero for a
/// clock set before the epoch); nothing about the value is stated.
#[verifier::external_body]
fn unix_now_secs() -> u64 {
    std::time::SystemTime::now().duration_since(std::time::UNIX_EPOCH).unwrap_or_default().as_secs()
}

/// Get current date in YYYY-MM-DD format
pub fn chrono_date() -> (r: String)
    ensures
        exists|secs: u64| r@ == date_text(secs as nat),
{
    let secs = unix_now_secs();
    date_from_unix(secs)
}

/// `[[file:DIR/NAME.png]]` followed by a newline.
pub open spec fn image_link(dir: Seq<char>, name: Seq<char>) -> Seq<char> {
    "[[file:"@ + dir + "/"@ + name + ".png]]\n"@
}

/// Screenshot section of an entry.
pub open spec fn screenshot_text(dir: Seq<char>, m: ScreenshotMeta) -> Seq<char> {
    let names = string_views(m.scenario_names@);
    if names.len() == 0 {
        image_link(dir, m.name@) + (if m.caption@.len() > 0 {
            "\n"@ + m.caption@ + "\n"@
        } else {
            Seq::empty()
        }) + "\n"@
    } else {
        "** Screenshots\n"@ + "\n"@ + flatten(
            Seq::new(
                names.len(),
                |i: int|
                    "*** "@ + names[i] + "\n"@ + image_link(dir, m.name@ + "-"@ + names[i])
                        + "\n"@,
            ),
        ) + "\n"@
    }
}

/// A bulleted block with a heading, or nothing for no items.
pub open spec fn titled_bullets(title: Seq<char>, items: Seq<Seq<char>>, prefix: Seq<char>) -> Seq<
    char,
> {
    if items.len() > 0 {
        title + bullets(items, prefix) + "\n"@
    } else {
        Seq::empty()
    }
}

/// Numbered lines `1. item`, `2. item`, ...
pub open spec fn numbered(items: Seq<Seq<char>>) -> Seq<char> {
    flatten(Seq::new(items.len(), |i: int| dec((i + 1) as nat) + ". "@ + items[i] + "\n"@))
}

/// Use case section of an entry.
pub open spec fn usecase_text(m: UsecaseMeta) -> Seq<char> {
    "** Actor\n"@ + m.actor@ + "\n"@ + "\n"@ + "** Goal\n"@ + m.goal@ + "\n"@ + "\n"@
        + titled_bullets("** Preconditions\n"@, string_views(m.preconditions@), "- "@)
        + "** Steps\n"@ + numbered(string_views(m.steps@)) + "\n"@ + titled_bullets(
        "** Postconditions\n"@,
        string_views(m.postconditions@),
        "- "@,
    )
}

/// `text` followed by an empty line, or nothing for empty text.
pub open spec fn paragraph(text: Seq<char>) -> Seq<char> {
    if text.len() > 0 {
        text + "\n"@ + "\n"@
    } else {
        Seq::empty()
    }
}

/// One step of a workflow.
pub open spec fn workflow_step_text(dir: Seq<char>, m: WorkflowMeta, i: int) -> Seq<char> {
    workflow_step_piece(
        dir,
        i,
        nth_or(string_views(m.step_views@), i, Seq::empty()),
        nth_or(string_views(m.step_actions@), i, Seq::empty()),
        nth_or(string_views(m.step_screenshots@), i, Seq::empty()),
        nth_or(string_views(m.step_descriptions@), i, Seq::empty()),
    )
}

/// The `i`-th workflow step (counting from zero) from its view, action,
/// screenshot and description.
pub open spec fn workflow_step_piece(
    dir: Seq<char>,
    i: int,
    view: Seq<char>,
    action: Seq<char>,
    shot: Seq<char>,
    desc: Seq<char>,
) -> Seq<char> {
    step_heading(i, action) + opt_image_line(dir, shot) + paragraph(desc) + step_view_action(
        view,
        action,
    )
}

/// The heading of the `i`-th workflow step (counting from zero).
pub open spec fn step_heading(i: int, action: Seq<char>) -> Seq<char> {
    "** Step "@ + dec((i + 1) as nat) + ": "@ + action + "\n"@
}

/// The image of a step and a newline, when it has a screenshot.
pub open spec fn opt_image_line(dir: Seq<char>, shot: Seq<char>) -> Seq<char> {
    if shot.len() > 0 {
        image_link(dir, shot) + "\n"@
    } else {
        Seq::empty()
    }
}

/// The view and action lines of a step, then an empty line.
pub open spec fn step_view_action(view: Seq<char>, action: Seq<char>) -> Seq<char> {
    "- *View:* "@ + view + "\n"@ + "- *Action:* "@ + action + "\n"@ + "\n"@
}

/// Workflow section of an entry.
pub open spec fn workflow_text(dir: Seq<char>, description: Seq<char>, m: WorkflowMeta) -> Seq<
    char,
> {
    ":PERSONA: "@ + m.persona@ + "\n"@ + "\n"@ + paragraph(description) + flatten(
        Seq::new(m.step_views@.len(), |i: int| workflow_step_text(dir, m, i)),
    ) + titled_bullets("** Outcomes\n"@, string_views(m.outcomes@), "- "@)
}

/// Mermaid transition lines from one state.
pub open spec fn transition_lines(name: Seq<char>, transitions: Seq<char>) -> Seq<char> {
    if transitions.len() > 0 {
        let targets = split(transitions, ',');
        flatten(
            Seq::new(
                targets.len(),
                |k: int|
                    if trim(targets[k]).len() > 0 {
                        "    "@ + name + " --> "@ + trim(targets[k]) + "\n"@
                    } else {
                        Seq::empty()
                    },
            ),
        )
    } else {
        Seq::empty()
    }
}

/// Each comma followed by a space (`replace(",", ", ")`).
pub open spec fn spaced_commas(t: Seq<char>) -> Seq<char> {
    flatten(
        Seq::new(
            t.len(),
            |k: int|
                if t[k] == ',' {
                    ", "@
                } else {
                    seq![t[k]]
                },
        ),
    )
}

/// The "Transitions To" cell of a state.
pub open spec fn transitions_cell(m: StateMeta, i: int) -> Seq<char> {
    let name = string_views(m.state_names@)[i];
    let t = nth_or(string_views(m.state_transitions@), i, Seq::empty());
    if string_views(m.terminal@).contains(name) {
        "(terminal)"@
    } else if t.len() == 0 {
        "-"@
    } else {
        spaced_commas(t)
    }
}

/// State machine section of an entry: a Mermaid diagram and a table.
pub open spec fn state_text(m: StateMeta) -> Seq<char> {
    let names = string_views(m.state_names@);
    "** State Diagram\n"@ + "\n"@ + "#+begin_src mermaid\n"@ + "stateDiagram-v2\n"@
        + "    [*] --> "@ + m.initial@ + "\n"@ + flatten(
        Seq::new(
            names.len(),
            |i: int|
                transition_lines(
                    names[i],
                    nth_or(string_views(m.state_transitions@), i, Seq::empty()),
                ),
        ),
    ) + flatten(
        Seq::new(
            m.terminal@.len(),
            |k: int| "    "@ + string_views(m.terminal@)[k] + " --> [*]\n"@,
        ),
    ) + "#+end_src\n"@ + "\n"@ + "** States\n"@ + "\n"@
        + "| State | Description | Color | Transitions To |\n"@
        + "|-------+-------------+-------+----------------|\n"@ + flatten(
        Seq::new(
            names.len(),
            |i: int|
                "| "@ + names[i] + " | "@ + nth_or(
                    string_views(m.state_descriptions@),
                    i,
                    Seq::empty(),
                ) + " | "@ + nth_or(string_views(m.state_colors@), i, Seq::empty()) + " | "@
                    + transitions_cell(m, i) + " |\n"@,
        ),
    ) + "\n"@
}

/// The string, or `default` when absent.
pub open spec fn opt_or(o: Option<Seq<char>>, default: Seq<char>) -> Seq<char> {
    match o {
        Some(v) => v,
        None => default,
    }
}

/// The numbered-step text of an instruction.
pub open spec fn ice_step_text(i: InstructionView) -> Seq<char> {
    let (k, t, v) = i;
    if k == "click"@ {
        "=click= \""@ + t + "\""@
    } else if k == "type"@ {
        "=type= \""@ + opt_or(v, Seq::empty()) + "\""@
    } else if k == "expect"@ {
        "=expect= \""@ + t + "\""@
    } else if k == "tap"@ {
        "=tap= "@ + t
    } else if k == "screenshot"@ {
        "=screenshot= \""@ + t + "\""@
    } else if k == "wait"@ {
        "=wait= "@ + opt_or(v, "0"@) + " ms"@
    } else {
        "="@ + k + ": "@ + t + "="@
    }
}

/// The Mermaid sequence-diagram line of an instruction.
pub open spec fn ice_sequence_line(i: InstructionView) -> Seq<char> {
    let (k, t, v) = i;
    if k == "click"@ {
        "    User->>App: click \""@ + t + "\"\n"@
    } else if k == "type"@ {
        "    User->>App: type \""@ + opt_or(v, Seq::empty()) + "\"\n"@
    } else if k == "expect"@ {
        "    App-->>User: shows \""@ + t + "\"\n"@
    } else if k == "tap"@ {
        "    User->>App: tap "@ + t + "\n"@
    } else if k == "screenshot"@ {
        "    Note over App: screenshot \""@ + t + "\"\n"@
    } else if k == "wait"@ {
        "    Note over User,App: wait "@ + opt_or(v, "0"@) + " ms\n"@
    } else {
        "    User->>App: "@ + k + " "@ + t + "\n"@
    }
}

/// A table cell: the text in quotes, or `-` when empty.
pub open spec fn quoted_cell(s: Seq<char>) -> Seq<char> {
    if s.len() == 0 {
        "-"@
    } else {
        "\""@ + s + "\""@
    }
}

/// The instructions-table row of instruction `n` (1-based).
pub open spec fn ice_row(n: nat, i: InstructionView) -> Seq<char> {
    let (k, t, v) = i;
    "| "@ + dec(n) + " | "@ + k + " | "@ + quoted_cell(t) + " | "@ + (match v {
        Some(x) => quoted_cell(x),
        None => "-"@,
    }) + " |\n"@
}

/// Setup part of an ice test section.
pub open spec fn ice_setup_text(m: IceTestMeta) -> Seq<char> {
    "** Setup\n"@ + (match m.viewport {
        Some((w, h)) => "- *Viewport:* "@ + dec(w as nat) + "x"@ + dec(h as nat) + "\n"@,
        None => Seq::empty(),
    }) + "- *Mode:* "@ + m.mode@ + "\n"@ + (match opt_view(m.preset) {
        Some(p) => "- *Preset:* "@ + p + "\n"@,
        None => Seq::empty(),
    }) + "\n"@
}

/// Numbered steps of an ice test.
pub open spec fn ice_steps_text(ins: Seq<InstructionView>) -> Seq<char> {
    "** Steps\n"@ + flatten(
        Seq::new(ins.len(), |i: int| dec((i + 1) as nat) + ". "@ + ice_step_text(ins[i]) + "\n"@),
    ) + "\n"@
}

/// Sequence diagram of an ice test.
pub open spec fn ice_sequence_text(ins: Seq<InstructionView>) -> Seq<char> {
    "** Sequence Diagram\n"@ + "\n"@ + "#+begin_src mermaid\n"@ + "sequenceDiagram\n"@
        + "    participant User\n"@ + "    participant App\n"@ + flatten(
        Seq::new(ins.len(), |i: int| ice_sequence_line(ins[i])),
    ) + "#+end_src\n"@ + "\n"@
}

/// Instructions table of an ice test.
pub open spec fn ice_table_text(ins: Seq<InstructionView>) -> Seq<char> {
    "** Instructions Table\n"@ + "\n"@ + "| Step | Action | Target | Value |\n"@
        + "|------+--------+--------+-------|\n"@ + flatten(
        Seq::new(ins.len(), |i: int| ice_row((i + 1) as nat, ins[i])),
    ) + "\n"@
}

/// The ice test section of an entry: setup, then (when there are
/// instructions) numbered steps, a sequence diagram and an instructions table.
pub open spec fn ice_test_text(m: IceTestMeta) -> Seq<char> {
    let ins = instruction_views(m.instructions@);
    ice_setup_text(m) + if ins.len() > 0 {
        ice_steps_text(ins) + ice_sequence_text(ins) + ice_table_text(ins)
    } else {
        Seq::empty()
    }
}

/// The scenario section of an entry.
pub open spec fn scenario_text(m: ScenarioMeta) -> Seq<char> {
    titled_bullets("** Preconditions\n"@, string_views(m.preconditions@), "- "@)
}

/// The user story section of an entry.
pub open spec fn user_story_meta_text(m: UserStoryMeta) -> Seq<char> {
    "** Actor\n"@ + m.actor@ + "\n"@ + "\n"@ + "** Goal\n"@ + m.goal@ + "\n"@ + "\n"@
        + titled_bullets("** Preconditions\n"@, string_views(m.preconditions@), "- "@)
        + titled_bullets("** Expected Outcomes\n"@, string_views(m.outcomes@), "- [ ] "@)
}

/// The type-specific part of an entry.
pub open spec fn metadata_text(dir: Seq<char>, e: DocEntry) -> Seq<char> {
    match e.metadata {
        DocMetadata::Screenshot(m) => screenshot_text(dir, m),
        DocMetadata::Usecase(m) => usecase_text(m),
        DocMetadata::Workflow(m) => workflow_text(dir, e.description@, m),
        DocMetadata::State(m) => state_text(m),
        DocMetadata::IceTest(m) => ice_test_text(m),
        DocMetadata::Scenario(m) => scenario_text(m),
        DocMetadata::UserStoryMeta(m) => user_story_meta_text(m),
        DocMetadata::Empty => Seq::empty(),
    }
}

/// A labelled comma-separated line followed by an empty line, or nothing.
pub open spec fn joined_block(label: Seq<char>, items: Seq<Seq<char>>) -> Seq<char> {
    if items.len() > 0 {
        label + join(items, ", "@) + "\n"@ + "\n"@
    } else {
        Seq::empty()
    }
}

/// The heading and property drawer of an entry.
pub open spec fn entry_header_text(e: DocEntry) -> Seq<char> {
    let tags = string_views(e.tags@);
    "* "@ + e.title@ + "\n"@ + ":PROPERTIES:\n"@ + ":ID: "@ + e.id@ + "\n"@ + ":SOURCE: [[file:"@
        + e.source_file@ + "::"@ + e.id@ + "]["@ + e.source_file@ + ":"@ + dec(
        e.source_line as nat,
    ) + "]]\n"@ + (if tags.len() > 0 {
        ":TAGS: "@ + join(tags, " "@) + "\n"@
    } else {
        Seq::empty()
    }) + ":END:\n"@ + "\n"@
}

/// The org-mode text of one entry: heading, property drawer, description,
/// type-specific content and cross-references.
pub open spec fn entry_text(dir: Seq<char>, e: DocEntry) -> Seq<char> {
    entry_header_text(e) + paragraph(e.description@) + metadata_text(dir, e) + joined_block(
        "*Related:* "@,
        string_views(e.links_to@),
    ) + joined_block("*See also:* "@, string_views(e.see_also@))
}

/// The org-mode file of one section.
pub open spec fn section_text(
    project: Seq<char>,
    dir: Seq<char>,
    date: Seq<char>,
    section: Seq<char>,
    entries: Seq<DocEntry>,
) -> Seq<char> {
    "#+TITLE: "@ + project + " - "@ + section_title_spec(section) + "\n"@ + "#+DATE: "@ + date
        + "\n"@ + "\n"@ + flatten(Seq::new(entries.len(), |i: int| entry_text(dir, entries[i])))
}

/// (section name, number of entries) for each section.
pub open spec fn section_counts(sections: Seq<(String, Vec<&DocEntry>)>) -> Seq<(Seq<char>, nat)> {
    sections.map_values(|p: (String, Vec<&DocEntry>)| (p.0@, p.1@.len()))
}

/// The index line of one section.
pub open spec fn index_line(p: (Seq<char>, nat)) -> Seq<char> {
    "- [[file:"@ + p.0 + ".org]["@ + section_title_spec(p.0) + "]] ("@ + dec(p.1) + " items)\n"@
}

/// The index file: a header, then one line per section in order of name.
pub open spec fn index_text(project: Seq<char>, date: Seq<char>, counts: Seq<(Seq<char>, nat)>) -> Seq<
    char,
> {
    let sorted = counts.sort_by(pair_le());
    "#+TITLE: "@ + project + " Documentation\n"@ + "#+DATE: "@ + date + "\n"@ + "\n"@
        + "* Contents\n"@ + "\n"@ + flatten(Seq::new(sorted.len(), |i: int| index_line(sorted[i])))
}

/// The index lists every section exactly once, in order of name (and, for
/// equal names, of count).
pub proof fn lemma_index_order(counts: Seq<(Seq<char>, nat)>)
    ensures
        vstd::relations::sorted_by(counts.sort_by(pair_le()), pair_le()),
        counts.sort_by(pair_le()).to_multiset() == counts.to_multiset(),
{
    crate::text::lemma_pair_le_total_ordering();
    counts.lemma_sort_by_ensures(pair_le());
}

/// The index does not depend on the order the sections are given in: two
/// lists of the same (name, count) pairs give the same index.
pub proof fn lemma_index_order_free(
    project: Seq<char>,
    date: Seq<char>,
    c1: Seq<(Seq<char>, nat)>,
    c2: Seq<(Seq<char>, nat)>,
)
    requires
        c1.to_multiset() == c2.to_multiset(),
    ensures
        index_text(project, date, c1) == index_text(project, date, c2),
{
    lemma_index_order(c1);
    lemma_index_order(c2);
    crate::text::lemma_pair_le_total_ordering();
    vstd::seq_lib::lemma_sorted_unique(c1.sort_by(pair_le()), c2.sort_by(pair_le()), pair_le());
}

/// The entries of a section drawn one after another.
pub open spec fn entries_text(dir: Seq<char>, es: Seq<DocEntry>) -> Seq<char> {
    flatten(Seq::new(es.len(), |i: int| entry_text(dir, es[i])))
}

/// Entries are drawn one after another, each on its own: a section of two
/// runs of entries is the section of the first run followed by the entries
/// of the second.
pub proof fn lemma_section_concat(
    project: Seq<char>,
    dir: Seq<char>,
    date: Seq<char>,
    section: Seq<char>,
    a: Seq<DocEntry>,
    b: Seq<DocEntry>,
)
    ensures
        section_text(project, dir, date, section, a + b) == section_text(
            project,
            dir,
            date,
            section,
            a,
        ) + entries_text(dir, b),
{
    let pa = Seq::new(a.len(), |i: int| entry_text(dir, a[i]));
    let pb = Seq::new(b.len(), |i: int| entry_text(dir, b[i]));
    let ab = a + b;
    assert(Seq::new(ab.len(), |i: int| entry_text(dir, ab[i])) =~= pa + pb);
    crate::text::lemma_flatten_concat(pa, pb);
}

/// Every entry with tags shows them all in its property drawer, on a line
/// `:TAGS: ` followed by the tags joined by single spaces.
pub proof fn lemma_entry_tags_line(dir: Seq<char>, e: DocEntry)
    requires
        e.tags@.len() > 0,
    ensures
        crate::text::contains_seq(
            entry_text(dir, e),
            ":TAGS: "@ + join(string_views(e.tags@), " "@) + "\n"@,
        ),
{
    let tags = string_views(e.tags@);
    let pre = "* "@ + e.title@ + "\n"@ + ":PROPERTIES:\n"@ + ":ID: "@ + e.id@ + "\n"@
        + ":SOURCE: [[file:"@ + e.source_file@ + "::"@ + e.id@ + "]["@ + e.source_file@ + ":"@
        + dec(e.source_line as nat) + "]]\n"@;
    let line = ":TAGS: "@ + join(tags, " "@) + "\n"@;
    let post = ":END:\n"@ + "\n"@ + paragraph(e.description@) + metadata_text(dir, e) + joined_block(
        "*Related:* "@,
        string_views(e.links_to@),
    ) + joined_block("*See also:* "@, string_views(e.see_also@));
    assert(entry_text(dir, e) =~= pre + line + post);
    crate::text::lemma_contains_middle(pre, line, post);
}

/// In a rendered section, every entry that has tags shows its tags line.
pub proof fn lemma_section_tags_line(
    project: Seq<char>,
    dir: Seq<char>,
    date: Seq<char>,
    section: Seq<char>,
    es: Seq<DocEntry>,
    i: int,
)
    requires
        0 <= i < es.len(),
        es[i].tags@.len() > 0,
    ensures
        crate::text::contains_seq(
            section_text(project, dir, date, section, es),
            ":TAGS: "@ + join(string_views(es[i].tags@), " "@) + "\n"@,
        ),
{
    let parts = Seq::new(es.len(), |k: int| entry_text(dir, es[k]));
    let head = "#+TITLE: "@ + project + " - "@ + section_title_spec(section) + "\n"@ + "#+DATE: "@
        + date + "\n"@ + "\n"@;
    lemma_entry_tags_line(dir, es[i]);
    crate::text::lemma_flatten_contains(parts, i);
    assert(section_text(project, dir, date, section, es) =~= head + flatten(parts) + Seq::empty());
    crate::text::lemma_contains_middle(head, flatten(parts), Seq::empty());
    crate::text::lemma_contains_trans(
        section_text(project, dir, date, section, es),
        flatten(parts),
        entry_text(dir, es[i]),
    );
    crate::text::lemma_contains_trans(
        section_text(project, dir, date, section, es),
        entry_text(dir, es[i]),
        ":TAGS: "@ + join(string_views(es[i].tags@), " "@) + "\n"@,
    );
}

/// Renders documentation entries to org-mode format
pub struct OrgRenderer<'a> {
    options: &'a GenerateOptions,
}

impl<'a> OrgRenderer<'a> {
    /// The options this renderer was made with.
    pub closed spec fn options(&self) -> &'a GenerateOptions {
        self.options
    }

    /// A renderer over the given options.
    pub fn new(options: &'a GenerateOptions) -> (r: Self)
        ensures
            r.options() == options,
    {
        OrgRenderer { options }
    }

    fn push_image_link(&self, output: &mut String, name: &str)
        ensures
            final(output)@ == old(output)@ + image_link(self.options().screenshots_dir@, name@),
    {
        output.append("[[file:");
        output.append(self.options.screenshots_dir.as_str());
        output.append("/");
        output.append(name);
        output.append(".png]]\n");
    }

    /// Appends the screenshot section of an entry.
    pub fn render_screenshot_meta(&self, output: &mut String, meta: &ScreenshotMeta)
        ensures
            final(output)@ == old(output)@ + screenshot_text(
                self.options().screenshots_dir@,
                *meta,
            ),
    {
        let ghost o = output@;
        let ghost dir = self.options().screenshots_dir@;
        if meta.scenario_names.len() == 0 {
            self.push_image_link(output, meta.name.as_str());
            if meta.caption.as_str().is_empty() {
            } else {
                output.append("\n");
                output.append(meta.caption.as_str());
                output.append("\n");
            }
            output.append("\n");
            assert(output@ =~= o + screenshot_text(dir, *meta));
        } else {
            output.append("** Screenshots\n");
            output.append("\n");
            let ghost names = string_views(meta.scenario_names@);
            let ghost parts = Seq::new(
                names.len(),
                |i: int|
                    "*** "@ + names[i] + "\n"@ + image_link(dir, meta.name@ + "-"@ + names[i])
                        + "\n"@,
            );
            let ghost o2 = output@;
            proof {
                lemma_flatten_ends(parts);
            }
            let mut i: usize = 0;
            while i < meta.scenario_names.len()
                invariant
                    i <= meta.scenario_names@.len(),
                    names == string_views(meta.scenario_names@),
                    dir == self.options().screenshots_dir@,
                    parts == Seq::new(
                        names.len(),
                        |i: int|
                            "*** "@ + names[i] + "\n"@ + image_link(
                                dir,
                                meta.name@ + "-"@ + names[i],
                            ) + "\n"@,
                    ),
                    output@ == o2 + flatten(parts.take(i as int)),
                decreases meta.scenario_names@.len() - i,
            {
                proof {
                    lemma_flatten_take(parts, i as int);
                }
                let name = meta.scenario_names[i].as_str();
                output.append("*** ");
                output.append(name);
                output.append("\n");
                let mut file = String::new();
                file.append(meta.name.as_str());
                file.append("-");
                file.append(name);
                self.push_image_link(output, file.as_str());
                output.append("\n");
                i = i + 1;
                assert(output@ =~= o2 + flatten(parts.take(i as int)));
            }
            proof {
                lemma_flatten_ends(parts);
            }
            output.append("\n");
            assert(output@ =~= o + screenshot_text(dir, *meta));
        }
    }

    /// Appends the use case section of an entry.
    pub fn render_usecase_meta(&self, output: &mut String, meta: &UsecaseMeta)
        ensures
            final(output)@ == old(output)@ + usecase_text(*meta),
    {
        let ghost o = output@;
        output.append("** Actor\n");
        output.append(meta.actor.as_str());
        output.append("\n");
        output.append("\n");
        output.append("** Goal\n");
        output.append(meta.goal.as_str());
        output.append("\n");
        output.append("\n");
        push_titled_bullets(output, "** Preconditions\n", &meta.preconditions, "- ");
        output.append("** Steps\n");
        push_numbered(output, &meta.steps);
        output.append("\n");
        push_titled_bullets(output, "** Postconditions\n", &meta.postconditions, "- ");
        assert(output@ =~= o + usecase_text(*meta));
    }

    fn render_workflow_step(&self, output: &mut String, meta: &WorkflowMeta, i: usize)
        requires
            i < usize::MAX,
        ensures
            final(output)@ == old(output)@ + workflow_step_text(
                self.options().screenshots_dir@,
                *meta,
                i as int,
            ),
    {
        let view = get_or_empty(&meta.step_views, i);
        let action = get_or_empty(&meta.step_actions, i);
        let screenshot = get_or_empty(&meta.step_screenshots, i);
        let description = get_or_empty(&meta.step_descriptions, i);
        self.push_workflow_step(output, i, view, action, screenshot, description);
    }

    fn push_workflow_step(
        &self,
        output: &mut String,
        i: usize,
        view: &str,
        action: &str,
        screenshot: &str,
        description: &str,
    )
        requires
            i < usize::MAX,
        ensures
            final(output)@ == old(output)@ + workflow_step_piece(
                self.options().screenshots_dir@,
                i as int,
                view@,
                action@,
                screenshot@,
                description@,
            ),
    {
        let ghost before = output@;
        push_step_heading(output, i, action);
        let ghost m1 = output@;
        if !screenshot.is_empty() {
            self.push_image_link(output, screenshot);
            output.append("\n");
        }
        let ghost m2 = output@;
        assert(m2 =~= m1 + opt_image_line(self.options().screenshots_dir@, screenshot@));
        push_paragraph(output, description);
        let ghost m3 = output@;
        push_step_view_action(output, view, action);
        assert(output@ =~= before + workflow_step_piece(
            self.options().screenshots_dir@,
            i as int,
            view@,
            action@,
            screenshot@,
            description@,
        ));
    }

    /// Appends the workflow section of an entry.
    pub fn render_workflow_meta(&self, output: &mut String, entry: &DocEntry, meta: &WorkflowMeta)
        ensures
            final(output)@ == old(output)@ + workflow_text(
                self.options().screenshots_dir@,
                entry.description@,
                *meta,
            ),
    {
        let ghost o = output@;
        let ghost dir = self.options().screenshots_dir@;
        output.append(":PERSONA: ");
        output.append(meta.persona.as_str());
        output.append("\n");
        output.append("\n");
        push_paragraph(output, entry.description.as_str());
        let ghost o2 = output@;
        let ghost parts = Seq::new(meta.step_views@.len(), |i: int| workflow_step_text(dir, *meta, i));
        proof {
            lemma_flatten_ends(parts);
        }
        let mut i: usize = 0;
        while i < meta.step_views.len()
            invariant
                i <= meta.step_views@.len(),
                dir == self.options().screenshots_dir@,
                parts == Seq::new(meta.step_views@.len(), |i: int| workflow_step_text(dir, *meta, i)),
                output@ == o2 + flatten(parts.take(i as int)),
            decreases meta.step_views@.len() - i,
        {
            proof {
                lemma_flatten_take(parts, i as int);
            }
            self.render_workflow_step(output, meta, i);
            i = i + 1;
            assert(output@ =~= o2 + flatten(parts.take(i as int)));
        }
        proof {
            lemma_flatten_ends(parts);
        }
        push_titled_bullets(output, "** Outcomes\n", &meta.outcomes, "- ");
        assert(output@ =~= o + workflow_text(dir, entry.description@, *meta));
    }

    /// Appends the state machine section of an entry.
    #[verifier::rlimit(60)]
    pub fn render_state_meta(&self, output: &mut String, meta: &StateMeta)
        ensures
            final(output)@ == old(output)@ + state_text(*meta),
    {
        let ghost o = output@;
        let ghost names = string_views(meta.state_names@);
        output.append("** State Diagram\n");
        output.append("\n");
        output.append("#+begin_src mermaid\n");
        output.append("stateDiagram-v2\n");
        output.append("    [*] --> ");
        output.append(meta.initial.as_str());
        output.append("\n");
        let ghost o2 = output@;
        let ghost parts = Seq::new(
            names.len(),
            |i: int|
                transition_lines(
                    names[i],
                    nth_or(string_views(meta.state_transitions@), i, Seq::empty()),
                ),
        );
        proof {
            lemma_flatten_ends(parts);
        }
        let mut i: usize = 0;
        while i < meta.state_names.len()
            invariant
                i <= meta.state_names@.len(),
                names == string_views(meta.state_names@),
                parts == Seq::new(
                    names.len(),
                    |i: int|
                        transition_lines(
                            names[i],
                            nth_or(string_views(meta.state_transitions@), i, Seq::empty()),
                        ),
                ),
                output@ == o2 + flatten(parts.take(i as int)),
            decreases meta.state_names@.len() - i,
        {
            proof {
                lemma_flatten_take(parts, i as int);
            }
            let transitions = get_or_empty(&meta.state_transitions, i);
            push_transition_lines(output, meta.state_names[i].as_str(), transitions);
            i = i + 1;
            assert(output@ =~= o2 + flatten(parts.take(i as int)));
        }
        proof {
            lemma_flatten_ends(parts);
        }
        let ghost o3 = output@;
        let ghost terms = string_views(meta.terminal@);
        let ghost tparts = Seq::new(meta.terminal@.len(), |k: int| "    "@ + terms[k] + " --> [*]\n"@);
        proof {
            lemma_flatten_ends(tparts);
        }
        let mut k: usize = 0;
        while k < meta.terminal.len()
            invariant
                k <= meta.terminal@.len(),
                terms == string_views(meta.terminal@),
                tparts == Seq::new(meta.terminal@.len(), |k: int| "    "@ + terms[k] + " --> [*]\n"@),
                output@ == o3 + flatten(tparts.take(k as int)),
            decreases meta.terminal@.len() - k,
        {
            proof {
                lemma_flatten_take(tparts, k as int);
            }
            output.append("    ");
            output.append(meta.terminal[k].as_str());
            output.append(" --> [*]\n");
            k = k + 1;
            assert(output@ =~= o3 + flatten(tparts.take(k as int)));
        }
        proof {
            lemma_flatten_ends(tparts);
        }
        output.append("#+end_src\n");
        output.append("\n");
        output.append("** States\n");
        output.append("\n");
        output.append("| State | Description | Color | Transitions To |\n");
        output.append("|-------+-------------+-------+----------------|\n");
        let ghost o4 = output@;
        let ghost rows = Seq::new(
            names.len(),
            |i: int|
                "| "@ + names[i] + " | "@ + nth_or(
                    string_views(meta.state_descriptions@),
                    i,
                    Seq::empty(),
                ) + " | "@ + nth_or(string_views(meta.state_colors@), i, Seq::empty()) + " | "@
                    + transitions_cell(*meta, i) + " |\n"@,
        );
        proof {
            lemma_flatten_ends(rows);
        }
        let mut i: usize = 0;
        while i < meta.state_names.len()
            invariant
                i <= meta.state_names@.len(),
                names == string_views(meta.state_names@),
                rows == Seq::new(
                    names.len(),
                    |i: int|
                        "| "@ + names[i] + " | "@ + nth_or(
                            string_views(meta.state_descriptions@),
                            i,
                            Seq::empty(),
                        ) + " | "@ + nth_or(string_views(meta.state_colors@), i, Seq::empty())
                            + " | "@ + transitions_cell(*meta, i) + " |\n"@,
                ),
                output@ == o4 + flatten(rows.take(i as int)),
            decreases meta.state_names@.len() - i,
        {
            proof {
                lemma_flatten_take(rows, i as int);
            }
            let ghost before = output@;
            let name = meta.state_names[i].as_str();
            let desc = get_or_empty(&meta.state_descriptions, i);
            let color = get_or_empty(&meta.state_colors, i);
            let transitions = get_or_empty(&meta.state_transitions, i);
            output.append("| ");
            output.append(name);
            output.append(" | ");
            output.append(desc);
            output.append(" | ");
            output.append(color);
            output.append(" | ");
            if contains_string(&meta.terminal, name) {
                output.append("(terminal)");
            } else if transitions.is_empty() {
                output.append("-");
            } else {
                push_spaced_commas(output, transitions);
            }
            output.append(" |\n");
            assert(output@ =~= before + rows[i as int]);
            i = i + 1;
            assert(output@ =~= o4 + flatten(rows.take(i as int)));
        }
        proof {
            lemma_flatten_ends(rows);
        }
        output.append("\n");
        assert(output@ =~= o + state_text(*meta));
    }

    fn render_ice_setup(&self, output: &mut String, meta: &IceTestMeta)
        ensures
            final(output)@ == old(output)@ + ice_setup_text(*meta),
    {
        let ghost o = output@;
        output.append("** Setup\n");
        match meta.viewport {
            Some((w, h)) => {
                output.append("- *Viewport:* ");
                push_dec(output, w as u128);
                output.append("x");
                push_dec(output, h as u128);
                output.append("\n");
            },
            None => {},
        }
        let ghost o1 = output@;
        output.append("- *Mode:* ");
        output.append(meta.mode.as_str());
        output.append("\n");
        let ghost o2 = output@;
        match &meta.preset {
            Some(p) => {
                output.append("- *Preset:* ");
                output.append(p.as_str());
                output.append("\n");
            },
            None => {},
        }
        output.append("\n");
        assert(output@ =~= o + ice_setup_text(*meta));
    }

    /// Appends the ice test section of an entry.
    #[verifier::rlimit(60)]
    pub fn render_ice_test_meta(&self, output: &mut String, meta: &IceTestMeta)
        ensures
            final(output)@ == old(output)@ + ice_test_text(*meta),
    {
        let ghost o = output@;
        self.render_ice_setup(output, meta);
        if meta.instructions.len() > 0 {
            push_ice_steps(output, &meta.instructions);
            push_ice_sequence(output, &meta.instructions);
            push_ice_table(output, &meta.instructions);
        }
        assert(output@ =~= o + ice_test_text(*meta));
    }

    /// Appends the scenario section of an entry.
    pub fn render_scenario_meta(&self, output: &mut String, meta: &ScenarioMeta)
        ensures
            final(output)@ == old(output)@ + scenario_text(*meta),
    {
        push_titled_bullets(output, "** Preconditions\n", &meta.preconditions, "- ");
    }

    /// Appends the user story section of an entry.
    pub fn render_user_story_meta(&self, output: &mut String, meta: &UserStoryMeta)
        ensures
            final(output)@ == old(output)@ + user_story_meta_text(*meta),
    {
        let ghost o = output@;
        output.append("** Actor\n");
        output.append(meta.actor.as_str());
        output.append("\n");
        output.append("\n");
        output.append("** Goal\n");
        output.append(meta.goal.as_str());
        output.append("\n");
        output.append("\n");
        push_titled_bullets(output, "** Preconditions\n", &meta.preconditions, "- ");
        push_titled_bullets(output, "** Expected Outcomes\n", &meta.outcomes, "- [ ] ");
        assert(output@ =~= o + user_story_meta_text(*meta));
    }

    fn render_metadata(&self, output: &mut String, entry: &DocEntry)
        ensures
            final(output)@ == old(output)@ + metadata_text(self.options().screenshots_dir@, *entry),
    {
        let ghost o = output@;
        match &entry.metadata {
            DocMetadata::Screenshot(meta) => {
                self.render_screenshot_meta(output, meta);
            },
            DocMetadata::Usecase(meta) => {
                self.render_usecase_meta(output, meta);
            },
            DocMetadata::Workflow(meta) => {
                self.render_workflow_meta(output, entry, meta);
            },
            DocMetadata::State(meta) => {
                self.render_state_meta(output, meta);
            },
            DocMetadata::IceTest(meta) => {
                self.render_ice_test_meta(output, meta);
            },
            DocMetadata::Scenario(meta) => {
                self.render_scenario_meta(output, meta);
            },
            DocMetadata::UserStoryMeta(meta) => {
                self.render_user_story_meta(output, meta);
            },
            DocMetadata::Empty => {
                assert(output@ =~= o + metadata_text(self.options().screenshots_dir@, *entry));
            },
        }
    }

    /// Appends a single documentation entry.
    #[verifier::rlimit(60)]
    pub fn render_entry(&self, output: &mut String, entry: &DocEntry)
        ensures
            final(output)@ == old(output)@ + entry_text(self.options().screenshots_dir@, *entry),
    {
        let ghost o = output@;
        let ghost dir = self.options().screenshots_dir@;
        push_entry_header(output, entry);
        push_paragraph(output, entry.description.as_str());
        self.render_metadata(output, entry);
        push_joined_block(output, "*Related:* ", &entry.links_to);
        push_joined_block(output, "*See also:* ", &entry.see_also);
        assert(output@ =~= o + entry_text(dir, *entry));
    }

    /// Render a section file with the given date in its header.
    pub fn render_section_dated(&self, section: &str, entries: &[&DocEntry], date: &str) -> (r:
        String)
        ensures
            r@ == section_text(
                self.options().project_name@,
                self.options().screenshots_dir@,
                date@,
                section@,
                crate::registry::deref_entries(entries@),
            ),
    {
        let mut output = String::new();
        let title = section_title(section);
        output.append("#+TITLE: ");
        output.append(self.options.project_name.as_str());
        output.append(" - ");
        output.append(title);
        output.append("\n");
        output.append("#+DATE: ");
        output.append(date);
        output.append("\n");
        output.append("\n");
        let ghost o = output@;
        let ghost dir = self.options().screenshots_dir@;
        let ghost es = crate::registry::deref_entries(entries@);
        let ghost parts = Seq::new(es.len(), |i: int| entry_text(dir, es[i]));
        proof {
            lemma_flatten_ends(parts);
        }
        let mut i: usize = 0;
        while i < entries.len()
            invariant
                i <= entries@.len(),
                dir == self.options().screenshots_dir@,
                es == crate::registry::deref_entries(entries@),
                parts == Seq::new(es.len(), |i: int| entry_text(dir, es[i])),
                output@ == o + flatten(parts.take(i as int)),
            decreases entries@.len() - i,
        {
            proof {
                lemma_flatten_take(parts, i as int);
            }
            self.render_entry(&mut output, entries[i]);
            i = i + 1;
            assert(output@ =~= o + flatten(parts.take(i as int)));
        }
        proof {
            lemma_flatten_ends(parts);
        }
        assert(output@ =~= section_text(
            self.options().project_name@,
            dir,
            date@,
            section@,
            es,
        ));
        output
    }

    /// Render a section file, dated today.
    pub fn render_section(&self, section: &str, entries: &[&DocEntry]) -> (r: String)
        ensures
            exists|secs: u64|
                r@ == section_text(
                    self.options().project_name@,
                    self.options().screenshots_dir@,
                    #[trigger] date_text(secs as nat),
                    section@,
                    crate::registry::deref_entries(entries@),
                ),
    {
        let date = chrono_date();
        self.render_section_dated(section, entries, date.as_str())
    }

    /// Render an index file linking to all sections, with the given date.
    pub fn render_index_dated(&self, sections: &[(String, Vec<&DocEntry>)], date: &str) -> (r:
        String)
        ensures
            r@ == index_text(self.options().project_name@, date@, section_counts(sections@)),
    {
        let mut output = String::new();
        output.append("#+TITLE: ");
        output.append(self.options.project_name.as_str());
        output.append(" Documentation\n");
        output.append("#+DATE: ");
        output.append(date);
        output.append("\n");
        output.append("\n");
        output.append("* Contents\n");
        output.append("\n");
        let ghost o = output@;
        let mut pairs: Vec<(String, usize)> = Vec::new();
        let mut i: usize = 0;
        while i < sections.len()
            invariant
                i <= sections@.len(),
                pair_views(pairs@) == section_counts(sections@).take(i as int),
            decreases sections@.len() - i,
        {
            let name = sections[i].0.clone();
            let n = sections[i].1.len();
            assert(name@ == sections@[i as int].0@);
            assert(n == sections@[i as int].1@.len());
            let ghost before = pairs@;
            pairs.push((name, n));
            assert(pair_views(pairs@) =~= pair_views(before).push((name@, n as nat)));
            i = i + 1;
            assert(pair_views(pairs@) =~= section_counts(sections@).take(i as int));
        }
        assert(section_counts(sections@).take(sections@.len() as int) =~= section_counts(sections@));
        let sorted = sort_pairs(pairs);
        let ghost sv = pair_views(sorted@);
        let ghost parts = Seq::new(sv.len(), |i: int| index_line(sv[i]));
        proof {
            lemma_flatten_ends(parts);
        }
        let mut k: usize = 0;
        while k < sorted.len()
            invariant
                k <= sorted@.len(),
                sv == pair_views(sorted@),
                parts == Seq::new(sv.len(), |i: int| index_line(sv[i])),
                output@ == o + flatten(parts.take(k as int)),
            decreases sorted@.len() - k,
        {
            proof {
                lemma_flatten_take(parts, k as int);
            }
            let name = sorted[k].0.as_str();
            output.append("- [[file:");
            output.append(name);
            output.append(".org][");
            output.append(section_title(name));
            output.append("]] (");
            push_dec(&mut output, sorted[k].1 as u128);
            output.append(" items)\n");
            k = k + 1;
            assert(output@ =~= o + flatten(parts.take(k as int)));
        }
        proof {
            lemma_flatten_ends(parts);
        }
        assert(output@ =~= index_text(self.options().project_name@, date@, section_counts(sections@)));
        output
    }

    /// Render an index file linking to all sections, dated today.
    pub fn render_index(&self, sections: &[(String, Vec<&DocEntry>)]) -> (r: String)
        ensures
            exists|secs: u64|
                r@ == index_text(
                    self.options().project_name@,
                    #[trigger] date_text(secs as nat),
                    section_counts(sections@),
                ),
    {
        let date = chrono_date();
        self.render_index_dated(sections, date.as_str())
    }
}

/// Appends a heading and one line per item, then an empty line; nothing when
/// there are no items.
pub fn push_titled_bullets(out: &mut String, title: &str, items: &Vec<String>, prefix: &str)
    ensures
        final(out)@ == old(out)@ + titled_bullets(title@, string_views(items@), prefix@),
{
    let ghost o = out@;
    if items.len() > 0 {
        out.append(title);
        push_bullets(out, items, prefix);
        out.append("\n");
        assert(out@ =~= o + titled_bullets(title@, string_views(items@), prefix@));
    } else {
        assert(out@ =~= o + titled_bullets(title@, string_views(items@), prefix@));
    }
}

/// Appends the numbered lines `1. item`, `2. item`, ...
pub fn push_numbered(out: &mut String, items: &Vec<String>)
    ensures
        final(out)@ == old(out)@ + numbered(string_views(items@)),
{
    let ghost o = out@;
    let ghost its = string_views(items@);
    let ghost parts = Seq::new(its.len(), |i: int| dec((i + 1) as nat) + ". "@ + its[i] + "\n"@);
    proof {
        lemma_flatten_ends(parts);
    }
    let mut i: usize = 0;
    while i < items.len()
        invariant
            i <= items@.len(),
            its == string_views(items@),
            parts == Seq::new(its.len(), |i: int| dec((i + 1) as nat) + ". "@ + its[i] + "\n"@),
            out@ == o + flatten(parts.take(i as int)),
        decreases items@.len() - i,
    {
        proof {
            lemma_flatten_take(parts, i as int);
        }
        push_dec(out, (i + 1) as u128);
        out.append(". ");
        out.append(items[i].as_str());
        out.append("\n");
        i = i + 1;
        assert(out@ =~= o + flatten(parts.take(i as int)));
    }
    proof {
        lemma_flatten_ends(parts);
    }
}

/// Appends `text` and an empty line, or nothing for empty text.
pub fn push_paragraph(out: &mut String, text: &str)
    ensures
        final(out)@ == old(out)@ + paragraph(text@),
{
    let ghost o = out@;
    if !text.is_empty() {
        out.append(text);
        out.append("\n");
        out.append("\n");
    }
    assert(out@ =~= o + paragraph(text@));
}

/// Appends the heading of the `i`-th workflow step (counting from zero).
fn push_step_heading(out: &mut String, i: usize, action: &str)
    requires
        i < usize::MAX,
    ensures
        final(out)@ == old(out)@ + step_heading(i as int, action@),
{
    let ghost o = out@;
    out.append("** Step ");
    push_dec(out, (i + 1) as u128);
    out.append(": ");
    out.append(action);
    out.append("\n");
    assert(out@ =~= o + step_heading(i as int, action@));
}

/// Appends the view and action lines of a step, then an empty line.
fn push_step_view_action(out: &mut String, view: &str, action: &str)
    ensures
        final(out)@ == old(out)@ + step_view_action(view@, action@),
{
    let ghost o = out@;
    out.append("- *View:* ");
    out.append(view);
    out.append("\n");
    out.append("- *Action:* ");
    out.append(action);
    out.append("\n");
    out.append("\n");
    assert(out@ =~= o + step_view_action(view@, action@));
}

/// Membership of a string in a vector of strings.
pub fn contains_string(v: &Vec<String>, x: &str) -> (r: bool)
    ensures
        r == string_views(v@).contains(x@),
{
    let b = crate::registry::contains_tag(v, x);
    proof {
        if b {
            let i = choose|i: int| 0 <= i < v@.len() && v@[i]@ == x@;
            assert(string_views(v@)[i] == x@);
        } else {
            assert forall|i: int| 0 <= i < string_views(v@).len() implies string_views(v@)[i]
                != x@ by {
                assert(v@[i]@ != x@);
            }
        }
    }
    b
}

/// Appends the Mermaid transition lines of one state.
pub fn push_transition_lines(out: &mut String, name: &str, transitions: &str)
    ensures
        final(out)@ == old(out)@ + transition_lines(name@, transitions@),
{
    let ghost o = out@;
    if transitions.is_empty() {
        assert(out@ =~= o + transition_lines(name@, transitions@));
        return;
    }
    let tv = chars_of(transitions);
    let targets = split_chars(tv.as_slice(), ',');
    let ghost ts = split(transitions@, ',');
    let ghost parts = Seq::new(
        ts.len(),
        |k: int|
            if trim(ts[k]).len() > 0 {
                "    "@ + name@ + " --> "@ + trim(ts[k]) + "\n"@
            } else {
                Seq::empty()
            },
    );
    proof {
        lemma_flatten_ends(parts);
    }
    let mut k: usize = 0;
    while k < targets.len()
        invariant
            k <= targets@.len(),
            views(targets@) == ts,
            parts == Seq::new(
                ts.len(),
                |k: int|
                    if trim(ts[k]).len() > 0 {
                        "    "@ + name@ + " --> "@ + trim(ts[k]) + "\n"@
                    } else {
                        Seq::empty()
                    },
            ),
            out@ == o + flatten(parts.take(k as int)),
        decreases targets@.len() - k,
    {
        proof {
            lemma_flatten_take(parts, k as int);
            assert(ts[k as int] == targets@[k as int]@);
        }
        let ghost before = out@;
        let t = trim_chars(targets[k].as_slice());
        if t.len() > 0 {
            out.append("    ");
            out.append(name);
            out.append(" --> ");
            append_chars(out, t.as_slice());
            out.append("\n");
        }
        assert(out@ =~= before + parts[k as int]);
        k = k + 1;
        assert(out@ =~= o + flatten(parts.take(k as int)));
    }
    proof {
        lemma_flatten_ends(parts);
    }
}

/// Appends `t` with a space after each comma.
pub fn push_spaced_commas(out: &mut String, t: &str)
    ensures
        final(out)@ == old(out)@ + spaced_commas(t@),
{
    let ghost o = out@;
    let tv = chars_of(t);
    let ghost parts = Seq::new(
        t@.len(),
        |k: int|
            if t@[k] == ',' {
                ", "@
            } else {
                seq![t@[k]]
            },
    );
    proof {
        lemma_flatten_ends(parts);
    }
    let mut k: usize = 0;
    while k < tv.len()
        invariant
            k <= tv@.len(),
            tv@ == t@,
            parts == Seq::new(
                t@.len(),
                |k: int|
                    if t@[k] == ',' {
                        ", "@
                    } else {
                        seq![t@[k]]
                    },
            ),
            out@ == o + flatten(parts.take(k as int)),
        decreases tv@.len() - k,
    {
        proof {
            lemma_flatten_take(parts, k as int);
        }
        let ghost before = out@;
        let c = tv[k];
        if c == ',' {
            out.append(", ");
        } else {
            let one = [c];
            append_chars(out, &one);
            assert(one@ =~= seq![c]);
        }
        assert(out@ =~= before + parts[k as int]);
        k = k + 1;
        assert(out@ =~= o + flatten(parts.take(k as int)));
    }
    proof {
        lemma_flatten_ends(parts);
    }
}

/// Appends a labelled comma-separated line and an empty line, or nothing.
pub fn push_joined_block(out: &mut String, label: &str, items: &Vec<String>)
    ensures
        final(out)@ == old(out)@ + joined_block(label@, string_views(items@)),
{
    let ghost o = out@;
    if items.len() > 0 {
        out.append(label);
        push_joined(out, items, ", ");
        out.append("\n");
        out.append("\n");
    }
    assert(out@ =~= o + joined_block(label@, string_views(items@)));
}

fn is_kind(k: &[char], name: &str) -> (r: bool)
    ensures
        r == (k@ == name@),
{
    crate::text::chars_eq_str(k, name)
}

fn value_or<'b>(v: &'b Option<String>, default: &'b str) -> (r: &'b str)
    ensures
        r@ == opt_or(opt_view(*v), default@),
{
    match v {
        Some(x) => x.as_str(),
        None => default,
    }
}

fn push_ice_step_text(out: &mut String, instr: &IceInstruction)
    ensures
        final(out)@ == old(out)@ + ice_step_text(instr@),
{
    let ghost o = out@;
    proof {
        reveal_strlit("");
    }
    assert(""@ =~= Seq::<char>::empty());
    let k = chars_of(instr.kind.as_str());
    let t = instr.target.as_str();
    if is_kind(k.as_slice(), "click") {
        out.append("=click= \"");
        out.append(t);
        out.append("\"");
    } else if is_kind(k.as_slice(), "type") {
        out.append("=type= \"");
        out.append(value_or(&instr.value, ""));
        out.append("\"");
    } else if is_kind(k.as_slice(), "expect") {
        out.append("=expect= \"");
        out.append(t);
        out.append("\"");
    } else if is_kind(k.as_slice(), "tap") {
        out.append("=tap= ");
        out.append(t);
    } else if is_kind(k.as_slice(), "screenshot") {
        out.append("=screenshot= \"");
        out.append(t);
        out.append("\"");
    } else if is_kind(k.as_slice(), "wait") {
        out.append("=wait= ");
        out.append(value_or(&instr.value, "0"));
        out.append(" ms");
    } else {
        out.append("=");
        out.append(instr.kind.as_str());
        out.append(": ");
        out.append(t);
        out.append("=");
    }
    assert(out@ =~= o + ice_step_text(instr@));
}

fn push_ice_sequence_line(out: &mut String, instr: &IceInstruction)
    ensures
        final(out)@ == old(out)@ + ice_sequence_line(instr@),
{
    let ghost o = out@;
    proof {
        reveal_strlit("");
    }
    assert(""@ =~= Seq::<char>::empty());
    let k = chars_of(instr.kind.as_str());
    let t = instr.target.as_str();
    if is_kind(k.as_slice(), "click") {
        out.append("    User->>App: click \"");
        out.append(t);
        out.append("\"\n");
    } else if is_kind(k.as_slice(), "type") {
        out.append("    User->>App: type \"");
        out.append(value_or(&instr.value, ""));
        out.append("\"\n");
    } else if is_kind(k.as_slice(), "expect") {
        out.append("    App-->>User: shows \"");
        out.append(t);
        out.append("\"\n");
    } else if is_kind(k.as_slice(), "tap") {
        out.append("    User->>App: tap ");
        out.append(t);
        out.append("\n");
    } else if is_kind(k.as_slice(), "screenshot") {
        out.append("    Note over App: screenshot \"");
        out.append(t);
        out.append("\"\n");
    } else if is_kind(k.as_slice(), "wait") {
        out.append("    Note over User,App: wait ");
        out.append(value_or(&instr.value, "0"));
        out.append(" ms\n");
    } else {
        out.append("    User->>App: ");
        out.append(instr.kind.as_str());
        out.append(" ");
        out.append(t);
        out.append("\n");
    }
    assert(out@ =~= o + ice_sequence_line(instr@));
}

fn push_quoted_cell(out: &mut String, s: &str)
    ensures
        final(out)@ == old(out)@ + quoted_cell(s@),
{
    let ghost o = out@;
    if s.is_empty() {
        out.append("-");
    } else {
        out.append("\"");
        out.append(s);
        out.append("\"");
    }
    assert(out@ =~= o + quoted_cell(s@));
}

fn push_ice_row(out: &mut String, n: usize, instr: &IceInstruction)
    ensures
        final(out)@ == old(out)@ + ice_row(n as nat, instr@),
{
    let ghost o = out@;
    out.append("| ");
    push_dec(out, n as u128);
    out.append(" | ");
    out.append(instr.kind.as_str());
    out.append(" | ");
    push_quoted_cell(out, instr.target.as_str());
    out.append(" | ");
    match &instr.value {
        Some(v) => push_quoted_cell(out, v.as_str()),
        None => out.append("-"),
    }
    out.append(" |\n");
    assert(out@ =~= o + ice_row(n as nat, instr@));
}

fn push_ice_steps(out: &mut String, ins: &Vec<IceInstruction>)
    requires
        ins@.len() > 0,
    ensures
        final(out)@ == old(out)@ + ice_steps_text(instruction_views(ins@)),
{
    let ghost o = out@;
    out.append("** Steps\n");
    let ghost o2 = out@;
    let ghost iv = instruction_views(ins@);
    let ghost parts = Seq::new(
        iv.len(),
        |i: int| dec((i + 1) as nat) + ". "@ + ice_step_text(iv[i]) + "\n"@,
    );
    proof {
        lemma_flatten_ends(parts);
    }
    let mut i: usize = 0;
    while i < ins.len()
        invariant
            i <= ins@.len(),
            iv == instruction_views(ins@),
            parts == Seq::new(
                iv.len(),
                |i: int| dec((i + 1) as nat) + ". "@ + ice_step_text(iv[i]) + "\n"@,
            ),
            out@ == o2 + flatten(parts.take(i as int)),
        decreases ins@.len() - i,
    {
        proof {
            lemma_flatten_take(parts, i as int);
        }
        push_dec(out, (i + 1) as u128);
        out.append(". ");
        push_ice_step_text(out, &ins[i]);
        out.append("\n");
        i = i + 1;
        assert(out@ =~= o2 + flatten(parts.take(i as int)));
    }
    proof {
        lemma_flatten_ends(parts);
    }
    out.append("\n");
    assert(out@ =~= o + "** Steps\n"@ + flatten(parts) + "\n"@);
}

fn push_ice_sequence(out: &mut String, ins: &Vec<IceInstruction>)
    ensures
        final(out)@ == old(out)@ + ice_sequence_text(instruction_views(ins@)),
{
    let ghost o = out@;
    out.append("** Sequence Diagram\n");
    out.append("\n");
    out.append("#+begin_src mermaid\n");
    out.append("sequenceDiagram\n");
    out.append("    participant User\n");
    out.append("    participant App\n");
    let ghost o2 = out@;
    let ghost iv = instruction_views(ins@);
    let ghost parts = Seq::new(iv.len(), |i: int| ice_sequence_line(iv[i]));
    proof {
        lemma_flatten_ends(parts);
    }
    let mut i: usize = 0;
    while i < ins.len()
        invariant
            i <= ins@.len(),
            iv == instruction_views(ins@),
            parts == Seq::new(iv.len(), |i: int| ice_sequence_line(iv[i])),
            out@ == o2 + flatten(parts.take(i as int)),
        decreases ins@.len() - i,
    {
        proof {
            lemma_flatten_take(parts, i as int);
        }
        push_ice_sequence_line(out, &ins[i]);
        i = i + 1;
        assert(out@ =~= o2 + flatten(parts.take(i as int)));
    }
    proof {
        lemma_flatten_ends(parts);
    }
    out.append("#+end_src\n");
    out.append("\n");
    assert(out@ =~= o + "** Sequence Diagram\n"@ + "\n"@ + "#+begin_src mermaid\n"@
        + "sequenceDiagram\n"@ + "    participant User\n"@ + "    participant App\n"@ + flatten(
        parts,
    ) + "#+end_src\n"@ + "\n"@);
}

fn push_ice_table(out: &mut String, ins: &Vec<IceInstruction>)
    ensures
        final(out)@ == old(out)@ + ice_table_text(instruction_views(ins@)),
{
    let ghost o = out@;
    out.append("** Instructions Table\n");
    out.append("\n");
    out.append("| Step | Action | Target | Value |\n");
    out.append("|------+--------+--------+-------|\n");
    let ghost o2 = out@;
    let ghost iv = instruction_views(ins@);
    let ghost parts = Seq::new(iv.len(), |i: int| ice_row((i + 1) as nat, iv[i]));
    proof {
        lemma_flatten_ends(parts);
    }
    let mut i: usize = 0;
    while i < ins.len()
        invariant
            i <= ins@.len(),
            iv == instruction_views(ins@),
            parts == Seq::new(iv.len(), |i: int| ice_row((i + 1) as nat, iv[i])),
            out@ == o2 + flatten(parts.take(i as int)),
        decreases ins@.len() - i,
    {
        proof {
            lemma_flatten_take(parts, i as int);
        }
        push_ice_row(out, i + 1, &ins[i]);
        i = i + 1;
        assert(out@ =~= o2 + flatten(parts.take(i as int)));
    }
    proof {
        lemma_flatten_ends(parts);
    }
    out.append("\n");
    assert(out@ =~= o + "** Instructions Table\n"@ + "\n"@ + "| Step | Action | Target | Value |\n"@
        + "|------+--------+--------+-------|\n"@ + flatten(parts) + "\n"@);
}

fn push_entry_header(output: &mut String, entry: &DocEntry)
    ensures
        final(output)@ == old(output)@ + entry_header_text(*entry),
{
    let ghost o = output@;
    output.append("* ");
    output.append(entry.title.as_str());
    output.append("\n");
    output.append(":PROPERTIES:\n");
    output.append(":ID: ");
    output.append(entry.id.as_str());
    output.append("\n");
    output.append(":SOURCE: [[file:");
    output.append(entry.source_file.as_str());
    output.append("::");
    output.append(entry.id.as_str());
    output.append("][");
    output.append(entry.source_file.as_str());
    output.append(":");
    push_dec(output, entry.source_line as u128);
    output.append("]]\n");
    let ghost o1 = output@;
    if entry.tags.len() > 0 {
        output.append(":TAGS: ");
        push_joined(output, &entry.tags, " ");
        output.append("\n");
    }
    let ghost o2 = output@;
    assert(o2 =~= o1 + (if string_views(entry.tags@).len() > 0 {
        ":TAGS: "@ + join(string_views(entry.tags@), " "@) + "\n"@
    } else {
        Seq::empty()
    }));
    output.append(":END:\n");
    output.append("\n");
    assert(output@ =~= o + entry_header_text(*entry));
}

} // verus!
