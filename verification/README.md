# iced_docgen

Generates org-mode documentation for Iced applications from annotations on
their code, and supports documented visual tests.

The library under `src/` is verified with Verus:

- `registry` — documented entries and their metadata; filtering by section,
  kind and tag.
- `attributes` — the arguments of the documentation annotations and the
  registry entry each annotation produces. The annotation macros themselves
  (which read the tokens and emit the registration) are not part of this
  crate; registered entries are written as `StaticDocEntry` values.
- `render` — the org-mode text of entries, sections and the index.
- `ice` — the `.ice` end-to-end test file format.
- `dsl` — test actions, widget trees, failure diagnostics with hints, user
  stories and the state of a running visual test; helpers for the vision
  model.
- `text` — string operations with specifications, shared by the above.

`app/` holds what runs around the library: the link-time registry, writing
files, walking directories, the UI simulator and the HTTP client for the
vision model.
