//! Generates org-mode documentation from annotated Iced applications:
//! a registry model of documented items, an org-mode renderer, a parser
//! for `.ice` end-to-end test files and a DSL for documented visual tests.

pub mod attributes;
pub mod dsl;
pub mod text;
pub mod registry;
pub mod ice;
pub mod render;

pub use registry::{
    entries_by_kind, entries_by_section, entries_by_tag, test_scenarios_by_tag, DocEntry, DocKind,
    DocMetadata, IceInstruction, IceTestMeta, ScenarioMeta, ScreenshotMeta, StateMeta,
    TestScenarioEntry, UsecaseMeta, UserStoryMeta, WorkflowMeta,
};

use vstd::prelude::*;

verus! {

/// Options for documentation generation
#[derive(Debug)]
pub struct GenerateOptions {
    /// Output directory for generated .org files
    pub output_dir: String,
    /// Directory containing screenshots (for linking)
    pub screenshots_dir: String,
    /// Project name (used in org-mode title)
    pub project_name: String,
    /// Whether to generate AI export files
    pub include_ai_export: bool,
    /// Directory containing .ice test files (optional)
    pub ice_tests_dir: Option<String>,
}

impl Default for GenerateOptions {
    fn default() -> (r: Self)
        ensures
            r.output_dir@ == "docs"@,
            r.screenshots_dir@ == "screenshots"@,
            r.project_name@ == "Project"@,
            !r.include_ai_export,
            r.ice_tests_dir is None,
    {
        GenerateOptions {
            output_dir: String::from_str("docs"),
            screenshots_dir: String::from_str("screenshots"),
            project_name: String::from_str("Project"),
            include_ai_export: false,
            ice_tests_dir: None,
        }
    }
}

/// Result of documentation generation
#[derive(Debug)]
pub struct GenerateResult {
    /// Number of documented entries processed
    pub entries_processed: usize,
    /// Paths to generated files
    pub files_written: Vec<String>,
}

/// The result of generating documentation: every entry and every ice test
/// entry counts as processed, and the files written are listed in order.
pub fn generate_result(entries: &[DocEntry], ice_entries: &[DocEntry], files: Vec<String>) -> (r:
    GenerateResult)
    requires
        entries@.len() + ice_entries@.len() <= usize::MAX,
    ensures
        r.entries_processed == entries@.len() + ice_entries@.len(),
        r.files_written@ == files@,
{
    GenerateResult { entries_processed: entries.len() + ice_entries.len(), files_written: files }
}

/// The sections of `entries`, each once, in order of first appearance.
pub open spec fn section_names(entries: Seq<DocEntry>) -> Seq<Seq<char>>
    decreases entries.len(),
{
    if entries.len() == 0 {
        Seq::empty()
    } else {
        let prev = section_names(entries.drop_last());
        if prev.contains(entries.last().section@) {
            prev
        } else {
            prev.push(entries.last().section@)
        }
    }
}

/// Groups entries by section: one group per section, in order of first
/// appearance, each holding that section's entries in the order given.
pub fn group_by_section<'a>(entries: &'a [DocEntry]) -> (r: Vec<(String, Vec<&'a DocEntry>)>)
    ensures
        r@.len() == section_names(entries@).len(),
        forall|k: int|
            0 <= k < r@.len() ==> {
                &&& (#[trigger] r@[k]).0@ == section_names(entries@)[k]
                &&& registry::deref_entries(r@[k].1@) == registry::keep(
                    entries@,
                    registry::section_is(r@[k].0@),
                )
            },
{
    let mut groups: Vec<(String, Vec<&'a DocEntry>)> = Vec::new();
    let mut i: usize = 0;
    assert(entries@.take(0) =~= Seq::<DocEntry>::empty());
    while i < entries.len()
        invariant
            i <= entries@.len(),
            groups@.len() == section_names(entries@.take(i as int)).len(),
            forall|k: int|
                0 <= k < groups@.len() ==> {
                    &&& (#[trigger] groups@[k]).0@ == section_names(entries@.take(i as int))[k]
                    &&& registry::deref_entries(groups@[k].1@) == registry::keep(
                        entries@.take(i as int),
                        registry::section_is(groups@[k].0@),
                    )
                },
            forall|a: int, b: int|
                0 <= a < b < groups@.len() ==> (#[trigger] groups@[a]).0@ != (
                #[trigger] groups@[b]).0@,
        decreases entries@.len() - i,
    {
        let e = &entries[i];
        let ghost pre = entries@.take(i as int);
        let ghost post = entries@.take(i + 1);
        proof {
            assert(post.drop_last() =~= pre);
            assert(post.last() == *e);
        }
        let mut k: usize = 0;
        while k < groups.len() && !registry::str_eq(groups[k].0.as_str(), e.section.as_str())
            invariant
                k <= groups@.len(),
                forall|m: int| 0 <= m < k ==> (#[trigger] groups@[m]).0@ != e.section@,
            decreases groups@.len() - k,
        {
            k = k + 1;
        }
        let found = k < groups.len();
        let ghost g0 = groups@;
        if found {
            let mut group = groups.remove(k);
            let ghost old_group = group.1@;
            group.1.push(e);
            groups.insert(k, group);
            proof {
                assert(section_names(pre).contains(e.section@)) by {
                    assert(section_names(pre)[k as int] == e.section@);
                }
                assert(section_names(post) == section_names(pre));
                assert forall|m: int| 0 <= m < groups@.len() implies {
                    &&& (#[trigger] groups@[m]).0@ == section_names(post)[m]
                    &&& registry::deref_entries(groups@[m].1@) == registry::keep(
                        post,
                        registry::section_is(groups@[m].0@),
                    )
                } by {
                    if m == k {
                        assert(registry::deref_entries(groups@[m].1@) =~= registry::deref_entries(
                            old_group,
                        ).push(*e));
                    } else {
                        assert(groups@[m] == g0[m]);
                        assert(g0[m].0@ != e.section@);
                    }
                }
            }
        } else {
            let mut v: Vec<&'a DocEntry> = Vec::new();
            v.push(e);
            let name = e.section.clone();
            groups.push((name, v));
            proof {
                assert(!section_names(pre).contains(e.section@)) by {
                    if section_names(pre).contains(e.section@) {
                        let m = choose|m: int|
                            0 <= m < section_names(pre).len() && section_names(pre)[m]
                                == e.section@;
                        assert(g0[m].0@ == section_names(pre)[m]);
                        assert(g0[m].0@ != e.section@);
                    }
                }
                assert(section_names(post) == section_names(pre).push(e.section@));
                assert(registry::keep(pre, registry::section_is(e.section@)) =~= Seq::empty()) by {
                    lemma_keep_absent(pre, e.section@);
                }
                assert forall|m: int| 0 <= m < groups@.len() implies {
                    &&& (#[trigger] groups@[m]).0@ == section_names(post)[m]
                    &&& registry::deref_entries(groups@[m].1@) == registry::keep(
                        post,
                        registry::section_is(groups@[m].0@),
                    )
                } by {
                    if m == g0.len() {
                        assert(registry::deref_entries(groups@[m].1@) =~= seq![*e]);
                        assert(registry::keep(post, registry::section_is(e.section@)) =~= seq![
                            *e,
                        ]);
                    } else {
                        assert(groups@[m] == g0[m]);
                        assert(g0[m].0@ != e.section@);
                    }
                }
            }
        }
        i = i + 1;
    }
    assert(entries@.take(entries@.len() as int) =~= entries@);
    groups
}

proof fn lemma_keep_absent(s: Seq<DocEntry>, name: Seq<char>)
    requires
        !section_names(s).contains(name),
    ensures
        registry::keep(s, registry::section_is(name)) == Seq::<DocEntry>::empty(),
    decreases s.len(),
{
    if s.len() > 0 {
        let prev = section_names(s.drop_last());
        if prev.contains(name) {
            let m = choose|m: int| 0 <= m < prev.len() && prev[m] == name;
            if !prev.contains(s.last().section@) {
                assert(section_names(s)[m] == name);
            } else {
                assert(section_names(s)[m] == name);
            }
        }
        if s.last().section@ == name {
            if prev.contains(s.last().section@) {
                let m = choose|m: int| 0 <= m < prev.len() && prev[m] == name;
                assert(section_names(s)[m] == name);
            } else {
                assert(section_names(s)[prev.len() as int] == name);
            }
        }
        lemma_keep_absent(s.drop_last(), name);
    }
}

/// The number of entries of the named sections, counted section by section.
pub open spec fn total_in(entries: Seq<DocEntry>, names: Seq<Seq<char>>) -> nat
    decreases names.len(),
{
    if names.len() == 0 {
        0
    } else {
        total_in(entries, names.drop_last()) + section_entries(entries, names.last()).len()
    }
}

/// How many times `name` occurs among `names`.
pub open spec fn occurrences(names: Seq<Seq<char>>, name: Seq<char>) -> nat
    decreases names.len(),
{
    if names.len() == 0 {
        0
    } else {
        occurrences(names.drop_last(), name) + if names.last() == name {
            1nat
        } else {
            0
        }
    }
}

proof fn lemma_total_step(entries: Seq<DocEntry>, names: Seq<Seq<char>>)
    requires
        entries.len() > 0,
    ensures
        total_in(entries, names) == total_in(entries.drop_last(), names) + occurrences(
            names,
            entries.last().section@,
        ),
    decreases names.len(),
{
    if names.len() > 0 {
        lemma_total_step(entries, names.drop_last());
    }
}

proof fn lemma_occurrences_absent(names: Seq<Seq<char>>, name: Seq<char>)
    requires
        !names.contains(name),
    ensures
        occurrences(names, name) == 0,
    decreases names.len(),
{
    if names.len() > 0 {
        assert(!names.drop_last().contains(name)) by {
            if names.drop_last().contains(name) {
                let m = choose|m: int| 0 <= m < names.drop_last().len() && names.drop_last()[m] == name;
                assert(names[m] == name);
            }
        }
        lemma_occurrences_absent(names.drop_last(), name);
    }
}

proof fn lemma_section_names_once(entries: Seq<DocEntry>, name: Seq<char>)
    requires
        section_names(entries).contains(name),
    ensures
        occurrences(section_names(entries), name) == 1,
    decreases entries.len(),
{
    let prev = section_names(entries.drop_last());
    let s = entries.last().section@;
    if prev.contains(s) {
        lemma_section_names_once(entries.drop_last(), name);
    } else {
        assert(section_names(entries).drop_last() =~= prev);
        if name == s {
            lemma_occurrences_absent(prev, name);
        } else {
            let m = choose|m: int| 0 <= m < section_names(entries).len() && section_names(entries)[m] == name;
            assert(prev[m] == name);
            lemma_section_names_once(entries.drop_last(), name);
        }
    }
}

/// Grouping by section loses and repeats nothing: the sections' entries
/// together are as many as the entries.
pub proof fn lemma_sections_cover(entries: Seq<DocEntry>)
    ensures
        total_in(entries, section_names(entries)) == entries.len(),
    decreases entries.len(),
{
    if entries.len() > 0 {
        let e = entries.drop_last();
        let x = entries.last();
        let prev = section_names(e);
        lemma_sections_cover(e);
        lemma_total_step(entries, prev);
        if prev.contains(x.section@) {
            lemma_section_names_once(e, x.section@);
        } else {
            lemma_occurrences_absent(prev, x.section@);
            lemma_keep_absent(e, x.section@);
            let names = prev.push(x.section@);
            assert(names.drop_last() =~= prev);
            assert(section_entries(entries, x.section@) =~= seq![x]) by {
                assert(entries.drop_last() == e);
            }
        }
    }
}

/// The entry documenting an ice test file.
pub fn ice_doc_entry(test_name: String, meta: IceTestMeta) -> (r: DocEntry)
    ensures
        r.kind == DocKind::IceTest,
        r.id@ == test_name@,
        r.title@ == "Test: "@ + test_name@,
        r.section@ == "tests"@,
        r.description@ == Seq::<char>::empty(),
        r.source_file@ == meta.file_path@,
        r.source_line == 0,
        r.tags@.len() == 0,
        r.links_to@.len() == 0,
        r.see_also@.len() == 0,
        r.metadata == DocMetadata::IceTest(meta),
{
    let mut title = String::from_str("Test: ");
    title.append(test_name.as_str());
    let file = meta.file_path.clone();
    DocEntry {
        kind: DocKind::IceTest,
        id: test_name,
        title,
        section: String::from_str("tests"),
        description: String::new(),
        source_file: file,
        source_line: 0,
        tags: Vec::new(),
        links_to: Vec::new(),
        see_also: Vec::new(),
        metadata: DocMetadata::IceTest(meta),
    }
}

/// The entries of one section of `entries`, in their order.
pub open spec fn section_entries(entries: Seq<DocEntry>, name: Seq<char>) -> Seq<DocEntry> {
    registry::keep(entries, registry::section_is(name))
}

/// The documentation files for some entries and ice test entries, each as
/// (file name, content), all dated `date`: one file per section in order of
/// first appearance, then `tests.org` when there are ice tests, then
/// `index.org` listing the sections.
pub fn documentation_files(
    options: &GenerateOptions,
    entries: &[DocEntry],
    ice_entries: &[DocEntry],
    date: &str,
) -> (r: Vec<(String, String)>)
    ensures
        ({
            let names = section_names(entries@);
            let n = names.len();
            let extra: int = if ice_entries@.len() > 0 {
                1
            } else {
                0
            };
            &&& r@.len() == n + extra + 1
            &&& forall|k: int|
                0 <= k < n ==> {
                    &&& (#[trigger] r@[k]).0@ == names[k] + ".org"@
                    &&& r@[k].1@ == render::section_text(
                        options.project_name@,
                        options.screenshots_dir@,
                        date@,
                        names[k],
                        section_entries(entries@, names[k]),
                    )
                }
            &&& ice_entries@.len() > 0 ==> {
                &&& r@[n as int].0@ == "tests.org"@
                &&& r@[n as int].1@ == render::section_text(
                    options.project_name@,
                    options.screenshots_dir@,
                    date@,
                    "tests"@,
                    ice_entries@,
                )
            }
            &&& r@[n + extra].0@ == "index.org"@
            &&& r@[n + extra].1@ == render::index_text(
                options.project_name@,
                date@,
                Seq::new(n, |k: int| (names[k], section_entries(entries@, names[k]).len())),
            )
        }),
{
    let renderer = render::OrgRenderer::new(options);
    let groups = group_by_section(entries);
    let ghost names = section_names(entries@);
    let mut files: Vec<(String, String)> = Vec::new();
    let mut k: usize = 0;
    while k < groups.len()
        invariant
            k <= groups@.len(),
            renderer.options() == *options,
            groups@.len() == names.len(),
            names == section_names(entries@),
            forall|m: int|
                0 <= m < groups@.len() ==> {
                    &&& (#[trigger] groups@[m]).0@ == names[m]
                    &&& registry::deref_entries(groups@[m].1@) == registry::keep(
                        entries@,
                        registry::section_is(groups@[m].0@),
                    )
                },
            files@.len() == k,
            forall|m: int|
                0 <= m < k ==> {
                    &&& (#[trigger] files@[m]).0@ == names[m] + ".org"@
                    &&& files@[m].1@ == render::section_text(
                        options.project_name@,
                        options.screenshots_dir@,
                        date@,
                        names[m],
                        section_entries(entries@, names[m]),
                    )
                },
        decreases groups@.len() - k,
    {
        let (name, list) = (&groups[k].0, &groups[k].1);
        let content = renderer.render_section_dated(name.as_str(), list.as_slice(), date);
        let mut file = name.clone();
        file.append(".org");
        files.push((file, content));
        k = k + 1;
    }
    let ghost n = names.len();
    if ice_entries.len() > 0 {
        let mut refs: Vec<&DocEntry> = Vec::new();
        let mut i: usize = 0;
        while i < ice_entries.len()
            invariant
                i <= ice_entries@.len(),
                registry::deref_entries(refs@) == ice_entries@.take(i as int),
            decreases ice_entries@.len() - i,
        {
            let ghost pre = refs@;
            let e = &ice_entries[i];
            refs.push(e);
            assert(registry::deref_entries(refs@) =~= registry::deref_entries(pre).push(
                ice_entries@[i as int],
            ));
            i = i + 1;
            assert(registry::deref_entries(refs@) =~= ice_entries@.take(i as int));
        }
        assert(ice_entries@.take(ice_entries@.len() as int) =~= ice_entries@);
        let content = renderer.render_section_dated("tests", refs.as_slice(), date);
        files.push((String::from_str("tests.org"), content));
    }
    let index = renderer.render_index_dated(groups.as_slice(), date);
    assert(render::section_counts(groups@) =~= Seq::new(
        n,
        |k: int| (names[k], section_entries(entries@, names[k]).len()),
    )) by {
        assert forall|k: int| 0 <= k < n implies render::section_counts(groups@)[k] == (
            names[k],
            section_entries(entries@, names[k]).len(),
        ) by {
            assert(groups@[k].0@ == names[k]);
            assert(registry::deref_entries(groups@[k].1@).len() == groups@[k].1@.len());
        }
    }
    files.push((String::from_str("index.org"), index));
    files
}

} // verus!
