//! The documentation annotations: the arguments written in an annotation
//! such as `#[documented(title = "..", tags = [..])]`, and the registry entry
//! each annotation produces from them.
//!
//! An annotation's arguments are `key = value` pairs, read in order; when a
//! key is given twice the later value wins. A text field takes its value
//! only from a string literal; a list field takes the string literals of an
//! array (anything else gives an empty list).

use crate::registry::{opt_view, DocEntry, DocKind, DocMetadata, ScreenshotMeta, StateMeta, TestScenarioEntry, UsecaseMeta, WorkflowMeta};
use crate::text::{chars_of, join, push_joined, string_views, trim, trim_chars, string_from_chars};
use vstd::prelude::*;

verus! {

/// The value given to an annotation argument.
#[derive(Debug)]
pub enum AttrValue {
    /// A string literal, by its value
    Str(String),
    /// A boolean literal
    Bool(bool),
    /// An array `[..]`
    Array(Vec<AttrValue>),
    /// A tuple `(..)`
    Tuple(Vec<AttrValue>),
    /// Any other expression
    Other,
}

/// One `key = value` argument of an annotation.
#[derive(Debug)]
pub struct AttrArg {
    /// The argument's name
    pub key: String,
    /// The argument's value
    pub value: AttrValue,
}

/// The text of a string literal, if the value is one.
pub open spec fn str_of(v: AttrValue) -> Option<Seq<char>> {
    match v {
        AttrValue::Str(s) => Some(s@),
        _ => None,
    }
}

/// The string literals among some values, in order.
pub open spec fn strs_of(vs: Seq<AttrValue>) -> Seq<Seq<char>>
    decreases vs.len(),
{
    if vs.len() == 0 {
        Seq::empty()
    } else {
        match str_of(vs.last()) {
            Some(s) => strs_of(vs.drop_last()).push(s),
            None => strs_of(vs.drop_last()),
        }
    }
}

/// The string literals of an array value; empty for any other value.
pub open spec fn string_array(v: AttrValue) -> Seq<Seq<char>> {
    match v {
        AttrValue::Array(elems) => strs_of(elems@),
        _ => Seq::empty(),
    }
}

/// The text given to `key` by the last string literal for it, else `default`.
pub open spec fn text_arg(args: Seq<AttrArg>, key: Seq<char>, default: Option<Seq<char>>) -> Option<
    Seq<char>,
>
    decreases args.len(),
{
    if args.len() == 0 {
        default
    } else {
        let a = args.last();
        if a.key@ == key && str_of(a.value) is Some {
            str_of(a.value)
        } else {
            text_arg(args.drop_last(), key, default)
        }
    }
}

/// The value last given to `key`, if any.
pub open spec fn last_value(args: Seq<AttrArg>, key: Seq<char>) -> Option<AttrValue>
    decreases args.len(),
{
    if args.len() == 0 {
        None
    } else if args.last().key@ == key {
        Some(args.last().value)
    } else {
        last_value(args.drop_last(), key)
    }
}

/// The list given to `key` by its last value; empty when it has none.
pub open spec fn list_arg(args: Seq<AttrArg>, key: Seq<char>) -> Seq<Seq<char>> {
    match last_value(args, key) {
        Some(v) => string_array(v),
        None => Seq::empty(),
    }
}

/// The text of an argument, or the empty text.
pub open spec fn text_or_empty(args: Seq<AttrArg>, key: Seq<char>) -> Seq<char> {
    match text_arg(args, key, None) {
        Some(t) => t,
        None => Seq::empty(),
    }
}

/// The `k`-th element of a tuple as text, when it is a string literal;
/// else the empty text.
pub open spec fn tuple_text(t: Seq<AttrValue>, k: int) -> Seq<char> {
    if 0 <= k < t.len() {
        match str_of(t[k]) {
            Some(s) => s,
            None => Seq::empty(),
        }
    } else {
        Seq::empty()
    }
}

/// The screenshot scenarios of an array of `("name", "state")` tuples:
/// tuples of at least two elements whose first two are non-empty texts.
pub open spec fn scenario_pairs(vs: Seq<AttrValue>) -> Seq<(Seq<char>, Seq<char>)>
    decreases vs.len(),
{
    if vs.len() == 0 {
        Seq::empty()
    } else {
        let prev = scenario_pairs(vs.drop_last());
        match vs.last() {
            AttrValue::Tuple(t) => if t@.len() >= 2 && tuple_text(t@, 0).len() > 0 && tuple_text(
                t@,
                1,
            ).len() > 0 {
                prev.push((tuple_text(t@, 0), tuple_text(t@, 1)))
            } else {
                prev
            },
            _ => prev,
        }
    }
}

/// The workflow steps of an array of `("view", "action", "screenshot",
/// "description")` tuples; a missing or non-text element is empty.
pub open spec fn workflow_quads(vs: Seq<AttrValue>) -> Seq<
    (Seq<char>, Seq<char>, Seq<char>, Seq<char>),
>
    decreases vs.len(),
{
    if vs.len() == 0 {
        Seq::empty()
    } else {
        let prev = workflow_quads(vs.drop_last());
        match vs.last() {
            AttrValue::Tuple(t) => prev.push(
                (tuple_text(t@, 0), tuple_text(t@, 1), tuple_text(t@, 2), tuple_text(t@, 3)),
            ),
            _ => prev,
        }
    }
}

/// The elements of an array value; nothing for any other value.
pub open spec fn array_elems(v: Option<AttrValue>) -> Seq<AttrValue> {
    match v {
        Some(AttrValue::Array(elems)) => elems@,
        _ => Seq::empty(),
    }
}

fn str_value(v: &AttrValue) -> (r: Option<String>)
    ensures
        opt_view(r) == str_of(*v),
{
    match v {
        AttrValue::Str(s) => Some(s.clone()),
        _ => None,
    }
}

fn tuple_text_at(t: &Vec<AttrValue>, k: usize) -> (r: String)
    ensures
        r@ == tuple_text(t@, k as int),
{
    if k < t.len() {
        match &t[k] {
            AttrValue::Str(s) => s.clone(),
            _ => String::new(),
        }
    } else {
        String::new()
    }
}

/// The string literals of an array value; empty for any other value.
pub fn parse_string_array(v: &AttrValue) -> (r: Vec<String>)
    ensures
        string_views(r@) == string_array(*v),
{
    let mut r: Vec<String> = Vec::new();
    match v {
        AttrValue::Array(elems) => {
            let mut i: usize = 0;
            assert(elems@.take(0) =~= Seq::<AttrValue>::empty());
            while i < elems.len()
                invariant
                    i <= elems@.len(),
                    string_views(r@) == strs_of(elems@.take(i as int)),
                decreases elems@.len() - i,
            {
                assert(elems@.take(i + 1).drop_last() =~= elems@.take(i as int));
                assert(elems@.take(i + 1).last() == elems@[i as int]);
                let ghost pre = string_views(r@);
                match &elems[i] {
                    AttrValue::Str(s) => {
                        r.push(s.clone());
                        assert(string_views(r@) =~= pre.push(s@));
                    },
                    _ => {},
                }
                i = i + 1;
            }
            assert(elems@.take(elems@.len() as int) =~= elems@);
        },
        _ => {},
    }
    r
}

/// The text given to `key` by its last string literal, if any.
pub fn text_value(args: &[AttrArg], key: &str) -> (r: Option<String>)
    ensures
        opt_view(r) == text_arg(args@, key@, None),
{
    let mut r: Option<String> = None;
    let mut i: usize = 0;
    assert(args@.take(0) =~= Seq::<AttrArg>::empty());
    while i < args.len()
        invariant
            i <= args@.len(),
            opt_view(r) == text_arg(args@.take(i as int), key@, None),
        decreases args@.len() - i,
    {
        assert(args@.take(i + 1).drop_last() =~= args@.take(i as int));
        assert(args@.take(i + 1).last() == args@[i as int]);
        let a = &args[i];
        if crate::registry::str_eq(a.key.as_str(), key) {
            match str_value(&a.value) {
                Some(s) => {
                    r = Some(s);
                },
                None => {},
            }
        }
        i = i + 1;
    }
    assert(args@.take(args@.len() as int) =~= args@);
    r
}

/// The value last given to `key`, if any.
fn last_value_of<'a>(args: &'a [AttrArg], key: &str) -> (r: Option<&'a AttrValue>)
    ensures
        match r {
            Some(v) => last_value(args@, key@) == Some(*v),
            None => last_value(args@, key@) is None,
        },
{
    let mut r: Option<&AttrValue> = None;
    let mut i: usize = 0;
    assert(args@.take(0) =~= Seq::<AttrArg>::empty());
    while i < args.len()
        invariant
            i <= args@.len(),
            match r {
                Some(v) => last_value(args@.take(i as int), key@) == Some(*v),
                None => last_value(args@.take(i as int), key@) is None,
            },
        decreases args@.len() - i,
    {
        assert(args@.take(i + 1).drop_last() =~= args@.take(i as int));
        assert(args@.take(i + 1).last() == args@[i as int]);
        if crate::registry::str_eq(args[i].key.as_str(), key) {
            r = Some(&args[i].value);
        }
        i = i + 1;
    }
    assert(args@.take(args@.len() as int) =~= args@);
    r
}

/// The list given to `key` by its last value; empty when it has none.
pub fn list_value(args: &[AttrArg], key: &str) -> (r: Vec<String>)
    ensures
        string_views(r@) == list_arg(args@, key@),
{
    match last_value_of(args, key) {
        Some(v) => parse_string_array(v),
        None => Vec::new(),
    }
}

fn text_or_empty_value(args: &[AttrArg], key: &str) -> (r: String)
    ensures
        r@ == text_or_empty(args@, key@),
{
    match text_value(args, key) {
        Some(s) => s,
        None => String::new(),
    }
}

/// The screenshot scenarios given to `scenarios`: `("name", "state")` tuples
/// whose two texts are non-empty.
pub fn parse_scenarios(args: &[AttrArg]) -> (r: Vec<(String, String)>)
    ensures
        r@.map_values(|p: (String, String)| (p.0@, p.1@)) == scenario_pairs(
            array_elems(last_value(args@, "scenarios"@)),
        ),
{
    let mut r: Vec<(String, String)> = Vec::new();
    match last_value_of(args, "scenarios") {
        Some(AttrValue::Array(elems)) => {
            let mut i: usize = 0;
            assert(elems@.take(0) =~= Seq::<AttrValue>::empty());
            while i < elems.len()
                invariant
                    i <= elems@.len(),
                    r@.map_values(|p: (String, String)| (p.0@, p.1@)) == scenario_pairs(
                        elems@.take(i as int),
                    ),
                decreases elems@.len() - i,
            {
                assert(elems@.take(i + 1).drop_last() =~= elems@.take(i as int));
                assert(elems@.take(i + 1).last() == elems@[i as int]);
                let ghost pre = r@;
                match &elems[i] {
                    AttrValue::Tuple(t) => {
                        if t.len() >= 2 {
                            let name = tuple_text_at(t, 0);
                            let state = tuple_text_at(t, 1);
                            if !name.as_str().is_empty() && !state.as_str().is_empty() {
                                r.push((name, state));
                                assert(r@.map_values(|p: (String, String)| (p.0@, p.1@)) =~= pre.map_values(
                                    |p: (String, String)| (p.0@, p.1@),
                                ).push((tuple_text(t@, 0), tuple_text(t@, 1))));
                            }
                        }
                    },
                    _ => {},
                }
                i = i + 1;
            }
            assert(elems@.take(elems@.len() as int) =~= elems@);
        },
        _ => {},
    }
    r
}

/// The plain values of workflow steps.
pub open spec fn quad_views(q: Seq<(String, String, String, String)>) -> Seq<
    (Seq<char>, Seq<char>, Seq<char>, Seq<char>),
> {
    q.map_values(|x: (String, String, String, String)| (x.0@, x.1@, x.2@, x.3@))
}

/// The workflow steps given to `steps`: `("view", "action", "screenshot",
/// "description")` tuples.
pub fn parse_workflow_steps(args: &[AttrArg]) -> (r: Vec<(String, String, String, String)>)
    ensures
        quad_views(r@) == workflow_quads(array_elems(last_value(args@, "steps"@))),
{
    let mut r: Vec<(String, String, String, String)> = Vec::new();
    match last_value_of(args, "steps") {
        Some(AttrValue::Array(elems)) => {
            let mut i: usize = 0;
            assert(elems@.take(0) =~= Seq::<AttrValue>::empty());
            while i < elems.len()
                invariant
                    i <= elems@.len(),
                    quad_views(r@) == workflow_quads(elems@.take(i as int)),
                decreases elems@.len() - i,
            {
                assert(elems@.take(i + 1).drop_last() =~= elems@.take(i as int));
                assert(elems@.take(i + 1).last() == elems@[i as int]);
                let ghost pre = r@;
                match &elems[i] {
                    AttrValue::Tuple(t) => {
                        let q = (
                            tuple_text_at(t, 0),
                            tuple_text_at(t, 1),
                            tuple_text_at(t, 2),
                            tuple_text_at(t, 3),
                        );
                        r.push(q);
                        assert(quad_views(r@) =~= quad_views(pre).push(
                            (
                                tuple_text(t@, 0),
                                tuple_text(t@, 1),
                                tuple_text(t@, 2),
                                tuple_text(t@, 3),
                            ),
                        ));
                    },
                    _ => {},
                }
                i = i + 1;
            }
            assert(elems@.take(elems@.len() as int) =~= elems@);
        },
        _ => {},
    }
    r
}

/// The parts every registry entry has.
pub open spec fn entry_fits(
    e: DocEntry,
    kind: DocKind,
    id: Seq<char>,
    title: Seq<char>,
    section: Seq<char>,
    description: Seq<char>,
    file: Seq<char>,
    line: u32,
    tags: Seq<Seq<char>>,
) -> bool {
    &&& e.kind == kind
    &&& e.id@ == id
    &&& e.title@ == title
    &&& e.section@ == section
    &&& e.description@ == description
    &&& e.source_file@ == file
    &&& e.source_line == line
    &&& string_views(e.tags@) == tags
}

/// The description made of doc comments: each trimmed, one per line.
pub open spec fn doc_text(docs: Seq<Seq<char>>) -> Seq<char> {
    join(Seq::new(docs.len(), |i: int| trim(docs[i])), "\n"@)
}

fn option_or(o: Option<String>, default: &str) -> (r: String)
    ensures
        r@ == match opt_view(o) {
            Some(t) => t,
            None => default@,
        },
{
    match o {
        Some(s) => s,
        None => String::from_str(default),
    }
}

fn doc_description(docs: &[String]) -> (r: String)
    ensures
        r@ == doc_text(string_views(docs@)),
{
    let mut trimmed: Vec<String> = Vec::new();
    let mut i: usize = 0;
    while i < docs.len()
        invariant
            i <= docs@.len(),
            string_views(trimmed@) == Seq::new(i as nat, |k: int| trim(docs@[k]@)),
        decreases docs@.len() - i,
    {
        let v = chars_of(docs[i].as_str());
        let t = trim_chars(v.as_slice());
        let ghost pre = string_views(trimmed@);
        trimmed.push(string_from_chars(t.as_slice()));
        assert(string_views(trimmed@) =~= pre.push(trim(docs@[i as int]@)));
        i = i + 1;
        assert(string_views(trimmed@) =~= Seq::new(i as nat, |k: int| trim(docs@[k]@)));
    }
    let mut r = String::new();
    push_joined(&mut r, &trimmed, "\n");
    assert(string_views(trimmed@) =~= Seq::new(
        string_views(docs@).len(),
        |k: int| trim(string_views(docs@)[k]),
    ));
    assert(r@ =~= doc_text(string_views(docs@)));
    r
}

/// The entry of a `#[documented(..)]` function: titled by `title` (else the
/// function's name), in `section` (else `default`), described by its doc
/// comments, with its `tags`, `links_to` and `see_also`.
pub fn documented_entry(fn_name: &str, args: &[AttrArg], docs: &[String], file: &str, line: u32) -> (r: DocEntry)
    ensures
        entry_fits(
            r,
            DocKind::Function,
            fn_name@,
            match text_arg(args@, "title"@, None) {
                Some(t) => t,
                None => fn_name@,
            },
            match text_arg(args@, "section"@, None) {
                Some(t) => t,
                None => "default"@,
            },
            doc_text(string_views(docs@)),
            file@,
            line,
            list_arg(args@, "tags"@),
        ),
        string_views(r.links_to@) == list_arg(args@, "links_to"@),
        string_views(r.see_also@) == list_arg(args@, "see_also"@),
        r.metadata == DocMetadata::Empty,
{
    DocEntry {
        kind: DocKind::Function,
        id: String::from_str(fn_name),
        title: option_or(text_value(args, "title"), fn_name),
        section: option_or(text_value(args, "section"), "default"),
        description: doc_description(docs),
        source_file: String::from_str(file),
        source_line: line,
        tags: list_value(args, "tags"),
        links_to: list_value(args, "links_to"),
        see_also: list_value(args, "see_also"),
        metadata: DocMetadata::Empty,
    }
}

/// The entry of a `#[screenshot(..)]` view: the screenshot is named by
/// `name` (else the function's name), drawn in `theme` (else `Light`), with
/// its scenarios and `caption` (else empty), which also describes the entry.
pub fn screenshot_entry(fn_name: &str, args: &[AttrArg], file: &str, line: u32) -> (r: DocEntry)
    ensures
        entry_fits(
            r,
            DocKind::Function,
            fn_name@,
            fn_name@,
            "screenshots"@,
            text_or_empty(args@, "caption"@),
            file@,
            line,
            Seq::empty(),
        ),
        r.links_to@.len() == 0,
        r.see_also@.len() == 0,
        r.metadata matches DocMetadata::Screenshot(m) && {
            &&& m.name@ == (if text_or_empty(args@, "name"@).len() == 0 {
                fn_name@
            } else {
                text_or_empty(args@, "name"@)
            })
            &&& m.theme@ == match text_arg(args@, "theme"@, None) {
                Some(t) => t,
                None => "Light"@,
            }
            &&& string_views(m.scenario_names@) == scenario_pairs(
                array_elems(last_value(args@, "scenarios"@)),
            ).map_values(|p: (Seq<char>, Seq<char>)| p.0)
            &&& string_views(m.scenario_states@) == scenario_pairs(
                array_elems(last_value(args@, "scenarios"@)),
            ).map_values(|p: (Seq<char>, Seq<char>)| p.1)
            &&& m.caption@ == text_or_empty(args@, "caption"@)
        },
{
    let name_arg = text_or_empty_value(args, "name");
    let name = if name_arg.as_str().is_empty() {
        String::from_str(fn_name)
    } else {
        name_arg
    };
    let theme = option_or(text_value(args, "theme"), "Light");
    let caption = text_or_empty_value(args, "caption");
    let scenarios = parse_scenarios(args);
    let ghost sv = scenarios@.map_values(|p: (String, String)| (p.0@, p.1@));
    let mut names: Vec<String> = Vec::new();
    let mut states: Vec<String> = Vec::new();
    let mut i: usize = 0;
    while i < scenarios.len()
        invariant
            i <= scenarios@.len(),
            sv == scenarios@.map_values(|p: (String, String)| (p.0@, p.1@)),
            string_views(names@) == sv.take(i as int).map_values(
                |p: (Seq<char>, Seq<char>)| p.0,
            ),
            string_views(states@) == sv.take(i as int).map_values(
                |p: (Seq<char>, Seq<char>)| p.1,
            ),
        decreases scenarios@.len() - i,
    {
        let ghost pn = string_views(names@);
        let ghost ps = string_views(states@);
        names.push(scenarios[i].0.clone());
        states.push(scenarios[i].1.clone());
        assert(string_views(names@) =~= pn.push(sv[i as int].0));
        assert(string_views(states@) =~= ps.push(sv[i as int].1));
        i = i + 1;
        assert(string_views(names@) =~= sv.take(i as int).map_values(
            |p: (Seq<char>, Seq<char>)| p.0,
        ));
        assert(string_views(states@) =~= sv.take(i as int).map_values(
            |p: (Seq<char>, Seq<char>)| p.1,
        ));
    }
    assert(sv.take(scenarios@.len() as int) =~= sv);
    let description = caption.clone();
    let tags: Vec<String> = Vec::new();
    assert(string_views(tags@) =~= Seq::<Seq<char>>::empty());
    DocEntry {
        kind: DocKind::Function,
        id: String::from_str(fn_name),
        title: String::from_str(fn_name),
        section: String::from_str("screenshots"),
        description,
        source_file: String::from_str(file),
        source_line: line,
        tags,
        links_to: Vec::new(),
        see_also: Vec::new(),
        metadata: DocMetadata::Screenshot(
            ScreenshotMeta { name, theme, scenario_names: names, scenario_states: states, caption },
        ),
    }
}

/// The entry of a `#[usecase(..)]` test: its `title`, `actor`, `goal` (which
/// also describes it), `preconditions`, `steps`, `postconditions` and `tags`.
pub fn usecase_entry(fn_name: &str, args: &[AttrArg], file: &str, line: u32) -> (r: DocEntry)
    ensures
        entry_fits(
            r,
            DocKind::Usecase,
            fn_name@,
            text_or_empty(args@, "title"@),
            "usecases"@,
            text_or_empty(args@, "goal"@),
            file@,
            line,
            list_arg(args@, "tags"@),
        ),
        r.links_to@.len() == 0,
        r.see_also@.len() == 0,
        r.metadata matches DocMetadata::Usecase(m) && {
            &&& m.actor@ == text_or_empty(args@, "actor"@)
            &&& m.goal@ == text_or_empty(args@, "goal"@)
            &&& string_views(m.preconditions@) == list_arg(args@, "preconditions"@)
            &&& string_views(m.steps@) == list_arg(args@, "steps"@)
            &&& string_views(m.postconditions@) == list_arg(args@, "postconditions"@)
        },
{
    let goal = text_or_empty_value(args, "goal");
    let description = goal.clone();
    DocEntry {
        kind: DocKind::Usecase,
        id: String::from_str(fn_name),
        title: text_or_empty_value(args, "title"),
        section: String::from_str("usecases"),
        description,
        source_file: String::from_str(file),
        source_line: line,
        tags: list_value(args, "tags"),
        links_to: Vec::new(),
        see_also: Vec::new(),
        metadata: DocMetadata::Usecase(
            UsecaseMeta {
                actor: text_or_empty_value(args, "actor"),
                goal,
                preconditions: list_value(args, "preconditions"),
                steps: list_value(args, "steps"),
                postconditions: list_value(args, "postconditions"),
            },
        ),
    }
}

/// The entry of a `#[workflow(..)]` journey: its `title`, `description`,
/// `persona`, `steps` (as parallel lists of views, actions, screenshots and
/// descriptions) and `outcomes`.
pub fn workflow_entry(fn_name: &str, args: &[AttrArg], file: &str, line: u32) -> (r: DocEntry)
    ensures
        entry_fits(
            r,
            DocKind::Workflow,
            fn_name@,
            text_or_empty(args@, "title"@),
            "workflows"@,
            text_or_empty(args@, "description"@),
            file@,
            line,
            Seq::empty(),
        ),
        r.links_to@.len() == 0,
        r.see_also@.len() == 0,
        r.metadata matches DocMetadata::Workflow(m) && {
            let q = workflow_quads(array_elems(last_value(args@, "steps"@)));
            &&& m.persona@ == text_or_empty(args@, "persona"@)
            &&& string_views(m.step_views@) == q.map_values(
                |x: (Seq<char>, Seq<char>, Seq<char>, Seq<char>)| x.0,
            )
            &&& string_views(m.step_actions@) == q.map_values(
                |x: (Seq<char>, Seq<char>, Seq<char>, Seq<char>)| x.1,
            )
            &&& string_views(m.step_screenshots@) == q.map_values(
                |x: (Seq<char>, Seq<char>, Seq<char>, Seq<char>)| x.2,
            )
            &&& string_views(m.step_descriptions@) == q.map_values(
                |x: (Seq<char>, Seq<char>, Seq<char>, Seq<char>)| x.3,
            )
            &&& string_views(m.outcomes@) == list_arg(args@, "outcomes"@)
        },
{
    let steps = parse_workflow_steps(args);
    let ghost q = quad_views(steps@);
    let mut views: Vec<String> = Vec::new();
    let mut actions: Vec<String> = Vec::new();
    let mut shots: Vec<String> = Vec::new();
    let mut descs: Vec<String> = Vec::new();
    let mut i: usize = 0;
    while i < steps.len()
        invariant
            i <= steps@.len(),
            q == quad_views(steps@),
            string_views(views@) == q.take(i as int).map_values(
                |x: (Seq<char>, Seq<char>, Seq<char>, Seq<char>)| x.0,
            ),
            string_views(actions@) == q.take(i as int).map_values(
                |x: (Seq<char>, Seq<char>, Seq<char>, Seq<char>)| x.1,
            ),
            string_views(shots@) == q.take(i as int).map_values(
                |x: (Seq<char>, Seq<char>, Seq<char>, Seq<char>)| x.2,
            ),
            string_views(descs@) == q.take(i as int).map_values(
                |x: (Seq<char>, Seq<char>, Seq<char>, Seq<char>)| x.3,
            ),
        decreases steps@.len() - i,
    {
        let ghost (p0, p1, p2, p3) = (
            string_views(views@),
            string_views(actions@),
            string_views(shots@),
            string_views(descs@),
        );
        views.push(steps[i].0.clone());
        actions.push(steps[i].1.clone());
        shots.push(steps[i].2.clone());
        descs.push(steps[i].3.clone());
        assert(string_views(views@) =~= p0.push(q[i as int].0));
        assert(string_views(actions@) =~= p1.push(q[i as int].1));
        assert(string_views(shots@) =~= p2.push(q[i as int].2));
        assert(string_views(descs@) =~= p3.push(q[i as int].3));
        i = i + 1;
        assert(string_views(views@) =~= q.take(i as int).map_values(
            |x: (Seq<char>, Seq<char>, Seq<char>, Seq<char>)| x.0,
        ));
        assert(string_views(actions@) =~= q.take(i as int).map_values(
            |x: (Seq<char>, Seq<char>, Seq<char>, Seq<char>)| x.1,
        ));
        assert(string_views(shots@) =~= q.take(i as int).map_values(
            |x: (Seq<char>, Seq<char>, Seq<char>, Seq<char>)| x.2,
        ));
        assert(string_views(descs@) =~= q.take(i as int).map_values(
            |x: (Seq<char>, Seq<char>, Seq<char>, Seq<char>)| x.3,
        ));
    }
    assert(q.take(steps@.len() as int) =~= q);
    let tags: Vec<String> = Vec::new();
    assert(string_views(tags@) =~= Seq::<Seq<char>>::empty());
    DocEntry {
        kind: DocKind::Workflow,
        id: String::from_str(fn_name),
        title: text_or_empty_value(args, "title"),
        section: String::from_str("workflows"),
        description: text_or_empty_value(args, "description"),
        source_file: String::from_str(file),
        source_line: line,
        tags,
        links_to: Vec::new(),
        see_also: Vec::new(),
        metadata: DocMetadata::Workflow(
            WorkflowMeta {
                persona: text_or_empty_value(args, "persona"),
                step_views: views,
                step_actions: actions,
                step_screenshots: shots,
                step_descriptions: descs,
                outcomes: list_value(args, "outcomes"),
            },
        ),
    }
}

/// A variant of a documented state machine: its name and the arguments of
/// each of its `#[state(..)]` annotations.
#[derive(Debug)]
pub struct StateVariant {
    /// The variant's name
    pub name: String,
    /// The arguments of each `#[state(..)]` annotation, in order
    pub state_attrs: Vec<Vec<AttrArg>>,
}

/// What a variant's last `#[state(..)]` annotation says of it: description,
/// color and comma-separated transitions (all empty without one).
pub open spec fn state_info(v: StateVariant) -> (Seq<char>, Seq<char>, Seq<char>) {
    if v.state_attrs@.len() == 0 {
        (Seq::empty(), Seq::empty(), Seq::empty())
    } else {
        let a = v.state_attrs@.last()@;
        (
            text_or_empty(a, "description"@),
            text_or_empty(a, "color"@),
            join(list_arg(a, "transitions_to"@), ","@),
        )
    }
}

fn variant_info(v: &StateVariant) -> (r: (String, String, String))
    ensures
        (r.0@, r.1@, r.2@) == state_info(*v),
{
    let n = v.state_attrs.len();
    if n == 0 {
        (String::new(), String::new(), String::new())
    } else {
        let a = v.state_attrs[n - 1].as_slice();
        let mut t = String::new();
        let ts = list_value(a, "transitions_to");
        push_joined(&mut t, &ts, ",");
        (text_or_empty_value(a, "description"), text_or_empty_value(a, "color"), t)
    }
}

/// The entry of a `#[state_doc(..)]` state machine: titled by `title` (else
/// the enum's name), described by `description` (else empty), with its
/// `initial` and `terminal` states and, per variant, what its `#[state(..)]`
/// annotation says.
pub fn state_doc_entry(enum_name: &str, args: &[AttrArg], variants: &[StateVariant], file: &str, line: u32) -> (r: DocEntry)
    ensures
        entry_fits(
            r,
            DocKind::Enum,
            enum_name@,
            match text_arg(args@, "title"@, None) {
                Some(t) => t,
                None => enum_name@,
            },
            "models"@,
            text_or_empty(args@, "description"@),
            file@,
            line,
            seq!["state-machine"@],
        ),
        r.links_to@.len() == 0,
        r.see_also@.len() == 0,
        r.metadata matches DocMetadata::State(m) && {
            &&& m.initial@ == text_or_empty(args@, "initial"@)
            &&& string_views(m.terminal@) == list_arg(args@, "terminal"@)
            &&& string_views(m.state_names@) == variants@.map_values(|v: StateVariant| v.name@)
            &&& string_views(m.state_descriptions@) == variants@.map_values(
                |v: StateVariant| state_info(v).0,
            )
            &&& string_views(m.state_colors@) == variants@.map_values(
                |v: StateVariant| state_info(v).1,
            )
            &&& string_views(m.state_transitions@) == variants@.map_values(
                |v: StateVariant| state_info(v).2,
            )
        },
{
    let mut names: Vec<String> = Vec::new();
    let mut descs: Vec<String> = Vec::new();
    let mut colors: Vec<String> = Vec::new();
    let mut trans: Vec<String> = Vec::new();
    let mut i: usize = 0;
    while i < variants.len()
        invariant
            i <= variants@.len(),
            string_views(names@) == variants@.take(i as int).map_values(
                |v: StateVariant| v.name@,
            ),
            string_views(descs@) == variants@.take(i as int).map_values(
                |v: StateVariant| state_info(v).0,
            ),
            string_views(colors@) == variants@.take(i as int).map_values(
                |v: StateVariant| state_info(v).1,
            ),
            string_views(trans@) == variants@.take(i as int).map_values(
                |v: StateVariant| state_info(v).2,
            ),
        decreases variants@.len() - i,
    {
        let ghost (p0, p1, p2, p3) = (
            string_views(names@),
            string_views(descs@),
            string_views(colors@),
            string_views(trans@),
        );
        let v = &variants[i];
        let (d, c, t) = variant_info(v);
        names.push(v.name.clone());
        descs.push(d);
        colors.push(c);
        trans.push(t);
        assert(string_views(names@) =~= p0.push(variants@[i as int].name@));
        assert(string_views(descs@) =~= p1.push(state_info(variants@[i as int]).0));
        assert(string_views(colors@) =~= p2.push(state_info(variants@[i as int]).1));
        assert(string_views(trans@) =~= p3.push(state_info(variants@[i as int]).2));
        i = i + 1;
        assert(string_views(names@) =~= variants@.take(i as int).map_values(
            |v: StateVariant| v.name@,
        ));
        assert(string_views(descs@) =~= variants@.take(i as int).map_values(
            |v: StateVariant| state_info(v).0,
        ));
        assert(string_views(colors@) =~= variants@.take(i as int).map_values(
            |v: StateVariant| state_info(v).1,
        ));
        assert(string_views(trans@) =~= variants@.take(i as int).map_values(
            |v: StateVariant| state_info(v).2,
        ));
    }
    assert(variants@.take(variants@.len() as int) =~= variants@);
    let mut tags: Vec<String> = Vec::new();
    tags.push(String::from_str("state-machine"));
    assert(string_views(tags@) =~= seq!["state-machine"@]);
    DocEntry {
        kind: DocKind::Enum,
        id: String::from_str(enum_name),
        title: option_or(text_value(args, "title"), enum_name),
        section: String::from_str("models"),
        description: text_or_empty_value(args, "description"),
        source_file: String::from_str(file),
        source_line: line,
        tags,
        links_to: Vec::new(),
        see_also: Vec::new(),
        metadata: DocMetadata::State(
            StateMeta {
                initial: text_or_empty_value(args, "initial"),
                terminal: list_value(args, "terminal"),
                state_names: names,
                state_descriptions: descs,
                state_colors: colors,
                state_transitions: trans,
            },
        ),
    }
}

/// The registered scenario of a `#[scenario(..)]` test: titled by `title`
/// (else the function's name), with its `description`, `preconditions` and
/// `tags`, acted by `User`, with no outcomes.
pub fn scenario_entry(fn_name: &str, args: &[AttrArg], file: &str, line: u32) -> (r: TestScenarioEntry)
    ensures
        r.id@ == fn_name@,
        r.title@ == (if text_or_empty(args@, "title"@).len() == 0 {
            fn_name@
        } else {
            text_or_empty(args@, "title"@)
        }),
        r.description@ == text_or_empty(args@, "description"@),
        r.actor@ == "User"@,
        string_views(r.preconditions@) == list_arg(args@, "preconditions"@),
        r.outcomes@.len() == 0,
        string_views(r.tags@) == list_arg(args@, "tags"@),
        r.source_file@ == file@,
        r.source_line == line,
{
    let t = text_or_empty_value(args, "title");
    let title = if t.as_str().is_empty() {
        String::from_str(fn_name)
    } else {
        t
    };
    TestScenarioEntry {
        id: String::from_str(fn_name),
        title,
        description: text_or_empty_value(args, "description"),
        actor: String::from_str("User"),
        preconditions: list_value(args, "preconditions"),
        outcomes: Vec::new(),
        tags: list_value(args, "tags"),
        source_file: String::from_str(file),
        source_line: line,
    }
}

/// The registered scenario of a `#[user_story(..)]`: titled by `title`
/// (else the function's name), acted by `actor` (else `User`), described by
/// its `goal`, with its `preconditions`, `outcomes` and `tags`.
pub fn user_story_entry(fn_name: &str, args: &[AttrArg], file: &str, line: u32) -> (r: TestScenarioEntry)
    ensures
        r.id@ == fn_name@,
        r.title@ == (if text_or_empty(args@, "title"@).len() == 0 {
            fn_name@
        } else {
            text_or_empty(args@, "title"@)
        }),
        r.description@ == text_or_empty(args@, "goal"@),
        r.actor@ == match text_arg(args@, "actor"@, None) {
            Some(a) => a,
            None => "User"@,
        },
        string_views(r.preconditions@) == list_arg(args@, "preconditions"@),
        string_views(r.outcomes@) == list_arg(args@, "outcomes"@),
        string_views(r.tags@) == list_arg(args@, "tags"@),
        r.source_file@ == file@,
        r.source_line == line,
{
    let t = text_or_empty_value(args, "title");
    let title = if t.as_str().is_empty() {
        String::from_str(fn_name)
    } else {
        t
    };
    TestScenarioEntry {
        id: String::from_str(fn_name),
        title,
        description: text_or_empty_value(args, "goal"),
        actor: option_or(text_value(args, "actor"), "User"),
        preconditions: list_value(args, "preconditions"),
        outcomes: list_value(args, "outcomes"),
        tags: list_value(args, "tags"),
        source_file: String::from_str(file),
        source_line: line,
    }
}

} // verus!
