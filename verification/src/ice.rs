//! Parser for `.ice` end-to-end test files.
//!
//! The format is a metadata block, a separator and one instruction per line:
//! ```text
//! viewport: WIDTHxHEIGHT
//! mode: Immediate|Patient
//! preset: PresetName
//! -----
//! click "selector"
//! type "text"
//! expect "text"
//! tap KeyName
//! screenshot "name"
//! wait milliseconds
//! ```
//! Blank lines and lines starting with `#` are ignored.

use crate::registry::{instruction_views, keep, opt_view, IceInstruction, IceTestMeta, InstructionView};
use crate::text::{
    append_chars, chars_eq_str, chars_of, ends_with, find_ws, first_ws, has_prefix, lower,
    parse_u32, parse_u32_spec, split, split_chars, starts_with, string_from_chars, sub_chars,
    to_lowercase, trim, trim_chars, views,
};
use vstd::prelude::*;

verus! {

/// Error type for ice file operations
#[derive(Debug)]
pub enum IceError {
    /// File system error
    Io(std::io::Error),
    /// Parse error
    Parse(String),
}

/// `std::io::Error`, carried by [`IceError::Io`].
#[verifier::external_type_specification]
#[verifier::external_body]
pub struct ExIoError(std::io::Error);

/// The text `std::io::Error` displays; no property of it is stated.
#[verifier::external_body]
fn io_error_text(e: &std::io::Error) -> String {
    e.to_string()
}

impl IceError {
    /// The message shown for this error (what `Display` prints).
    pub fn message(&self) -> (r: String)
        ensures
            self matches IceError::Parse(e) ==> r@ == "Parse error: "@ + e@,
            self is Io ==> has_prefix(r@, "IO error: "@),
    {
        match self {
            IceError::Io(e) => {
                let mut r = String::new();
                r.append("IO error: ");
                let t = io_error_text(e);
                r.append(t.as_str());
                assert(r@.subrange(0, "IO error: "@.len() as int) =~= "IO error: "@);
                r
            },
            IceError::Parse(e) => {
                let mut r = String::new();
                r.append("Parse error: ");
                r.append(e.as_str());
                assert(r@ =~= "Parse error: "@ + e@);
                r
            },
        }
    }
}

impl From<std::io::Error> for IceError {
    fn from(e: std::io::Error) -> (r: Self) {
        IceError::Io(e)
    }
}

impl vstd::std_specs::convert::FromSpecImpl<std::io::Error> for IceError {
    open spec fn obeys_from_spec() -> bool {
        true
    }

    open spec fn from_spec(e: std::io::Error) -> Self {
        IceError::Io(e)
    }
}

/// `t` is wrapped in a pair of double or single quotes (possibly the same character).
pub open spec fn quote_delimited(t: Seq<char>) -> bool {
    t.len() >= 1 && ((t[0] == '"' && t.last() == '"') || (t[0] == '\'' && t.last() == '\''))
}

/// `s` trimmed, without its surrounding quotes if it has them.
pub open spec fn unquote_spec(s: Seq<char>) -> Seq<char> {
    let t = trim(s);
    if quote_delimited(t) {
        t.subrange(1, t.len() - 1)
    } else {
        t
    }
}

/// Unquoting fails on a lone quote character: it both starts and ends the
/// text, and the slice between them is empty-reversed.
pub open spec fn unquote_panics(s: Seq<char>) -> bool {
    let t = trim(s);
    quote_delimited(t) && t.len() == 1
}

fn unquote_chars(v: &[char]) -> (r: Vec<char>)
    requires
        !unquote_panics(v@),
    ensures
        r@ == unquote_spec(v@),
{
    let t = trim_chars(v);
    let n = t.len();
    if n >= 1 && ((t[0] == '"' && t[n - 1] == '"') || (t[0] == '\'' && t[n - 1] == '\'')) {
        sub_chars(t.as_slice(), 1, n - 1)
    } else {
        t
    }
}

/// Remove surrounding quotes from a string
pub fn unquote(s: &str) -> (r: String)
    requires
        !unquote_panics(s@),
    ensures
        r@ == unquote_spec(s@),
{
    let v = chars_of(s);
    let r = unquote_chars(v.as_slice());
    string_from_chars(r.as_slice())
}

/// Instruction kinds whose argument is unquoted.
pub open spec fn quoted_kind(k: Seq<char>) -> bool {
    k == "click"@ || k == "type"@ || k == "expect"@ || k == "screenshot"@
}

/// The instruction built from a lower-cased command word and its argument.
pub open spec fn instruction_for(kind: Seq<char>, rest: Seq<char>) -> InstructionView {
    if kind == "click"@ {
        ("click"@, unquote_spec(rest), None)
    } else if kind == "type"@ {
        ("type"@, Seq::empty(), Some(unquote_spec(rest)))
    } else if kind == "expect"@ {
        ("expect"@, unquote_spec(rest), None)
    } else if kind == "tap"@ {
        ("tap"@, rest, None)
    } else if kind == "screenshot"@ {
        ("screenshot"@, unquote_spec(rest), None)
    } else if kind == "wait"@ {
        ("wait"@, Seq::empty(), Some(rest))
    } else {
        (kind, rest, None)
    }
}

/// A trimmed, non-empty line split at its first whitespace into the command
/// word and the trimmed rest.
pub open spec fn split_command(t: Seq<char>) -> (Seq<char>, Seq<char>) {
    match first_ws(t) {
        Some(i) => (t.take(i), trim(t.skip(i))),
        None => (t, Seq::empty()),
    }
}

/// The instruction a line describes; `None` for a blank line.
pub open spec fn instruction_spec(line: Seq<char>) -> Option<InstructionView> {
    let t = trim(line);
    if t.len() == 0 {
        None
    } else {
        let (w, rest) = split_command(t);
        Some(instruction_for(lower(w), rest))
    }
}

/// Parsing the line fails: its command takes a quoted argument that is a
/// lone quote character.
pub open spec fn instruction_panics(line: Seq<char>) -> bool {
    let t = trim(line);
    t.len() > 0 && {
        let (w, rest) = split_command(t);
        quoted_kind(lower(w)) && unquote_panics(rest)
    }
}

/// The view of an optional instruction.
pub open spec fn opt_instruction_view(o: Option<IceInstruction>) -> Option<InstructionView> {
    match o {
        Some(i) => Some(i@),
        None => None,
    }
}

/// Builds the instruction for a lower-cased command word and its argument.
pub fn instruction_from_parts(kind: &str, rest: &str) -> (r: IceInstruction)
    requires
        quoted_kind(kind@) ==> !unquote_panics(rest@),
    ensures
        r@ == instruction_for(kind@, rest@),
{
    let k = chars_of(kind);
    if chars_eq_str(k.as_slice(), "click") {
        IceInstruction { kind: String::from_str("click"), target: unquote(rest), value: None }
    } else if chars_eq_str(k.as_slice(), "type") {
        IceInstruction {
            kind: String::from_str("type"),
            target: String::new(),
            value: Some(unquote(rest)),
        }
    } else if chars_eq_str(k.as_slice(), "expect") {
        IceInstruction { kind: String::from_str("expect"), target: unquote(rest), value: None }
    } else if chars_eq_str(k.as_slice(), "tap") {
        IceInstruction { kind: String::from_str("tap"), target: String::from_str(rest), value: None }
    } else if chars_eq_str(k.as_slice(), "screenshot") {
        IceInstruction {
            kind: String::from_str("screenshot"),
            target: unquote(rest),
            value: None,
        }
    } else if chars_eq_str(k.as_slice(), "wait") {
        IceInstruction {
            kind: String::from_str("wait"),
            target: String::new(),
            value: Some(String::from_str(rest)),
        }
    } else {
        IceInstruction { kind: String::from_str(kind), target: String::from_str(rest), value: None }
    }
}

/// The command word and argument of a trimmed, non-empty line.
fn command_parts(t: &[char]) -> (r: (String, String))
    ensures
        r.0@ == split_command(t@).0,
        r.1@ == split_command(t@).1,
{
    match find_ws(t) {
        Some(i) => {
            let w = sub_chars(t, 0, i);
            let rest = sub_chars(t, i, t.len());
            let rest = trim_chars(rest.as_slice());
            assert(w@ =~= t@.take(i as int));
            assert(t@.subrange(i as int, t@.len() as int) =~= t@.skip(i as int));
            (string_from_chars(w.as_slice()), string_from_chars(rest.as_slice()))
        },
        None => (string_from_chars(t), String::new()),
    }
}

/// Parsing failure test for [`parse_instruction`].
pub fn instruction_would_panic(line: &str) -> (b: bool)
    ensures
        b == instruction_panics(line@),
{
    let v = chars_of(line);
    let t = trim_chars(v.as_slice());
    if t.len() == 0 {
        return false;
    }
    let (w, rest) = command_parts(t.as_slice());
    let k = to_lowercase(w.as_str());
    assert(k@ == crate::text::lower(w@));
    let kc = chars_of(k.as_str());
    let quoted = chars_eq_str(kc.as_slice(), "click") || chars_eq_str(kc.as_slice(), "type")
        || chars_eq_str(kc.as_slice(), "expect") || chars_eq_str(kc.as_slice(), "screenshot");
    if !quoted {
        return false;
    }
    let rc = chars_of(rest.as_str());
    let rt = trim_chars(rc.as_slice());
    rt.len() == 1 && (rt[0] == '"' || rt[0] == '\'')
}

/// Parse a single instruction line
pub fn parse_instruction(line: &str) -> (r: Option<IceInstruction>)
    requires
        !instruction_panics(line@),
    ensures
        opt_instruction_view(r) == instruction_spec(line@),
{
    let v = chars_of(line);
    let t = trim_chars(v.as_slice());
    if t.len() == 0 {
        return None;
    }
    let (w, rest) = command_parts(t.as_slice());
    let k = to_lowercase(w.as_str());
    assert(k@ == crate::text::lower(w@));
    Some(instruction_from_parts(k.as_str(), rest.as_str()))
}

/// Parses a line, or reports that the line cannot be parsed (`None`).
pub fn try_parse_instruction(line: &str) -> (r: Option<Option<IceInstruction>>)
    ensures
        r is None <==> instruction_panics(line@),
        r matches Some(i) ==> opt_instruction_view(i) == instruction_spec(line@),
{
    if instruction_would_panic(line) {
        None
    } else {
        Some(parse_instruction(line))
    }
}

/// The viewport a `WIDTHxHEIGHT` value describes.
pub open spec fn viewport_spec(s: Seq<char>) -> Option<(u32, u32)> {
    let parts = split(s, 'x');
    if parts.len() == 2 {
        match (parse_u32_spec(trim(parts[0])), parse_u32_spec(trim(parts[1]))) {
            (Some(w), Some(h)) => Some((w, h)),
            _ => None,
        }
    } else {
        None
    }
}

/// Parse viewport string like "800x600" into (width, height)
pub fn parse_viewport(s: &str) -> (r: Option<(u32, u32)>)
    ensures
        r == viewport_spec(s@),
{
    let v = chars_of(s);
    parse_viewport_chars(v.as_slice())
}

fn parse_viewport_chars(v: &[char]) -> (r: Option<(u32, u32)>)
    ensures
        r == viewport_spec(v@),
{
    let parts = split_chars(v, 'x');
    if parts.len() == 2 {
        assert(views(parts@)[0] == parts@[0]@);
        assert(views(parts@)[1] == parts@[1]@);
        let a = trim_chars(parts[0].as_slice());
        let w = match parse_u32(a.as_slice()) {
            Some(w) => w,
            None => {
                return None;
            },
        };
        let b = trim_chars(parts[1].as_slice());
        let h = match parse_u32(b.as_slice()) {
            Some(h) => h,
            None => {
                return None;
            },
        };
        Some((w, h))
    } else {
        None
    }
}

/// The state of parsing an ice file after some of its lines.
pub struct IceParse {
    /// Viewport dimensions
    pub viewport: Option<(u32, u32)>,
    /// Test mode
    pub mode: Seq<char>,
    /// Preset name
    pub preset: Option<Seq<char>>,
    /// Instructions read so far
    pub instructions: Seq<InstructionView>,
    /// A separator line has been read
    pub in_instructions: bool,
    /// Some instruction line cannot be parsed
    pub panics: bool,
}

/// The state before any line.
pub open spec fn ice_start() -> IceParse {
    IceParse {
        viewport: None,
        mode: "Immediate"@,
        preset: None,
        instructions: Seq::empty(),
        in_instructions: false,
        panics: false,
    }
}

/// The effect of one line.
pub open spec fn ice_step(st: IceParse, line: Seq<char>) -> IceParse {
    let l = trim(line);
    if l.len() == 0 || l[0] == '#' {
        st
    } else if has_prefix(l, "-----"@) || has_prefix(l, "---"@) {
        IceParse { in_instructions: true, ..st }
    } else if !st.in_instructions {
        if has_prefix(l, "viewport:"@) {
            match viewport_spec(trim(l.skip("viewport:"@.len() as int))) {
                Some(p) => IceParse { viewport: Some(p), ..st },
                None => st,
            }
        } else if has_prefix(l, "mode:"@) {
            IceParse { mode: trim(l.skip("mode:"@.len() as int)), ..st }
        } else if has_prefix(l, "preset:"@) {
            IceParse { preset: Some(trim(l.skip("preset:"@.len() as int))), ..st }
        } else {
            st
        }
    } else if instruction_panics(l) {
        IceParse { panics: true, ..st }
    } else {
        match instruction_spec(l) {
            Some(i) => IceParse { instructions: st.instructions.push(i), ..st },
            None => st,
        }
    }
}

/// The state after all of `lines`.
pub open spec fn ice_fold(lines: Seq<Seq<char>>) -> IceParse
    decreases lines.len(),
{
    if lines.len() == 0 {
        ice_start()
    } else {
        ice_step(ice_fold(lines.drop_last()), lines.last())
    }
}

/// The lines of an ice file (pieces between newlines; a trailing `\r` is
/// whitespace and trimmed away with the rest).
pub open spec fn ice_lines(content: Seq<char>) -> Seq<Seq<char>> {
    split(content, '\n')
}

/// Parsing `content` fails on some instruction line.
pub open spec fn ice_content_panics(content: Seq<char>) -> bool {
    ice_fold(ice_lines(content)).panics
}

/// An ice test description as (file path, viewport, mode, preset, instructions).
pub type IceTestView = (
    Seq<char>,
    Option<(u32, u32)>,
    Seq<char>,
    Option<Seq<char>>,
    Seq<InstructionView>,
);

impl View for IceTestMeta {
    type V = IceTestView;

    open spec fn view(&self) -> IceTestView {
        (
            self.file_path@,
            self.viewport,
            self.mode@,
            opt_view(self.preset),
            instruction_views(self.instructions@),
        )
    }
}

/// The test description parsed from `content`, read from `path`.
pub open spec fn ice_meta(content: Seq<char>, path: Seq<char>) -> IceTestView {
    let st = ice_fold(ice_lines(content));
    (path, st.viewport, st.mode, st.preset, st.instructions)
}

proof fn lemma_panics_monotone(lines: Seq<Seq<char>>, i: int)
    requires
        0 <= i <= lines.len(),
        ice_fold(lines.take(i)).panics,
    ensures
        ice_fold(lines).panics,
    decreases lines.len() - i,
{
    if i < lines.len() {
        assert(lines.take(i + 1).drop_last() =~= lines.take(i));
        lemma_panics_monotone(lines, i + 1);
    } else {
        assert(lines.take(i) =~= lines);
    }
}

/// The text after a prefix of known length.
fn skip_trim(l: &[char], n: usize) -> (r: Vec<char>)
    requires
        n <= l@.len(),
    ensures
        r@ == trim(l@.skip(n as int)),
{
    let rest = sub_chars(l, n, l.len());
    assert(rest@ =~= l@.skip(n as int));
    trim_chars(rest.as_slice())
}

/// Parse .ice content string into IceTestMeta
pub fn parse_ice_content(content: &str, path: &str) -> (r: Result<IceTestMeta, IceError>)
    requires
        !ice_content_panics(content@),
    ensures
        r matches Ok(m) && m@ == ice_meta(content@, path@),
{
    let cv = chars_of(content);
    let lines = split_chars(cv.as_slice(), '\n');
    let ghost ls = views(lines@);
    let sep5 = chars_of("-----");
    let sep3 = chars_of("---");
    let vp = chars_of("viewport:");
    let md = chars_of("mode:");
    let ps = chars_of("preset:");
    let mut viewport: Option<(u32, u32)> = None;
    let mut mode = String::from_str("Immediate");
    let mut preset: Option<String> = None;
    let mut instructions: Vec<IceInstruction> = Vec::new();
    let mut in_instructions = false;
    let mut i: usize = 0;
    assert(ls.take(0) =~= Seq::<Seq<char>>::empty());
    assert(instruction_views(instructions@) =~= Seq::<InstructionView>::empty());
    while i < lines.len()
        invariant
            ls == views(lines@),
            ls == ice_lines(content@),
            !ice_fold(ls).panics,
            sep5@ == "-----"@,
            sep3@ == "---"@,
            vp@ == "viewport:"@,
            md@ == "mode:"@,
            ps@ == "preset:"@,
            i <= lines@.len(),
            ({
                let st = ice_fold(ls.take(i as int));
                &&& st.viewport == viewport
                &&& st.mode == mode@
                &&& st.preset == opt_view(preset)
                &&& st.instructions == instruction_views(instructions@)
                &&& st.in_instructions == in_instructions
                &&& !st.panics
            }),
        decreases lines@.len() - i,
    {
        let ghost st0 = ice_fold(ls.take(i as int));
        proof {
            assert(ls.take(i + 1).drop_last() =~= ls.take(i as int));
            assert(ls.take(i + 1).last() == lines@[i as int]@);
        }
        let l = trim_chars(lines[i].as_slice());
        if l.len() == 0 || l[0] == '#' {
        } else if starts_with(l.as_slice(), sep5.as_slice()) || starts_with(
            l.as_slice(),
            sep3.as_slice(),
        ) {
            in_instructions = true;
        } else if !in_instructions {
            if starts_with(l.as_slice(), vp.as_slice()) {
                let value = skip_trim(l.as_slice(), vp.len());
                match parse_viewport_chars(value.as_slice()) {
                    Some(p) => {
                        viewport = Some(p);
                    },
                    None => {},
                }
            } else if starts_with(l.as_slice(), md.as_slice()) {
                let value = skip_trim(l.as_slice(), md.len());
                mode = string_from_chars(value.as_slice());
            } else if starts_with(l.as_slice(), ps.as_slice()) {
                let value = skip_trim(l.as_slice(), ps.len());
                preset = Some(string_from_chars(value.as_slice()));
            }
        } else {
            proof {
                if instruction_panics(l@) {
                    lemma_panics_monotone(ls, i + 1);
                }
            }
            let ls_str = string_from_chars(l.as_slice());
            match parse_instruction(ls_str.as_str()) {
                Some(instr) => {
                    instructions.push(instr);
                    assert(instruction_views(instructions@) =~= st0.instructions.push(
                        instr@,
                    ));
                },
                None => {},
            }
        }
        i = i + 1;
    }
    assert(ls.take(lines@.len() as int) =~= ls);
    Ok(
        IceTestMeta {
            file_path: String::from_str(path),
            viewport,
            mode,
            preset,
            instructions,
        },
    )
}

/// Parsing failure test for [`parse_ice_content`].
pub fn ice_content_would_panic(content: &str) -> (b: bool)
    ensures
        b == ice_content_panics(content@),
{
    let cv = chars_of(content);
    let lines = split_chars(cv.as_slice(), '\n');
    let ghost ls = views(lines@);
    let sep5 = chars_of("-----");
    let sep3 = chars_of("---");
    let mut in_instructions = false;
    let mut i: usize = 0;
    assert(ls.take(0) =~= Seq::<Seq<char>>::empty());
    while i < lines.len()
        invariant
            ls == views(lines@),
            ls == ice_lines(content@),
            sep5@ == "-----"@,
            sep3@ == "---"@,
            i <= lines@.len(),
            ice_fold(ls.take(i as int)).in_instructions == in_instructions,
            !ice_fold(ls.take(i as int)).panics,
        decreases lines@.len() - i,
    {
        proof {
            assert(ls.take(i + 1).drop_last() =~= ls.take(i as int));
            assert(ls.take(i + 1).last() == lines@[i as int]@);
        }
        let l = trim_chars(lines[i].as_slice());
        if l.len() == 0 || l[0] == '#' {
        } else if starts_with(l.as_slice(), sep5.as_slice()) || starts_with(
            l.as_slice(),
            sep3.as_slice(),
        ) {
            in_instructions = true;
        } else if in_instructions {
            let ls_str = string_from_chars(l.as_slice());
            if instruction_would_panic(ls_str.as_str()) {
                proof {
                    lemma_panics_monotone(ls, i + 1);
                }
                return true;
            }
        }
        i = i + 1;
    }
    assert(ls.take(lines@.len() as int) =~= ls);
    false
}

/// Parses ice content, or reports that some instruction line cannot be
/// parsed (`None`).
pub fn try_parse_ice_content(content: &str, path: &str) -> (r: Option<
    Result<IceTestMeta, IceError>,
>)
    ensures
        r is None <==> ice_content_panics(content@),
        r matches Some(res) ==> (res matches Ok(m) && m@ == ice_meta(content@, path@)),
{
    if ice_content_would_panic(content) {
        None
    } else {
        Some(parse_ice_content(content, path))
    }
}

/// The path components that name something: the pieces between `/` that
/// are neither empty nor `.` (a Unix path's normal, parent and root-free
/// components).
pub open spec fn path_components(path: Seq<char>) -> Seq<Seq<char>> {
    keep(split(path, '/'), |c: Seq<char>| c.len() > 0 && c != "."@)
}

/// The final component of a path, unless the path ends in `..` or has no
/// component (`Path::file_name` on Unix).
pub open spec fn file_name_spec(path: Seq<char>) -> Option<Seq<char>> {
    let cs = path_components(path);
    if cs.len() == 0 || cs.last() == ".."@ {
        None
    } else {
        Some(cs.last())
    }
}

/// The index of the last occurrence of `c` in `s`, if any.
pub open spec fn last_index(s: Seq<char>, c: char) -> Option<int>
    decreases s.len(),
{
    if s.len() == 0 {
        None
    } else if s.last() == c {
        Some(s.len() - 1)
    } else {
        last_index(s.drop_last(), c)
    }
}

/// The part of a file name before its final `.`; the whole name when it has
/// no `.` or its only `.` is the first character (`Path::file_stem`).
pub open spec fn file_stem_spec(name: Seq<char>) -> Seq<char> {
    match last_index(name, '.') {
        Some(p) => if p == 0 {
            name
        } else {
            name.take(p)
        },
        None => name,
    }
}

/// The test name of an ice file path: its file stem, or `unknown`.
pub open spec fn test_name_spec(path: Seq<char>) -> Seq<char> {
    match file_name_spec(path) {
        Some(n) => file_stem_spec(n),
        None => "unknown"@,
    }
}

proof fn lemma_last_index_step(s: Seq<char>, c: char, i: int)
    requires
        0 <= i < s.len(),
    ensures
        last_index(s.take(i + 1), c) == if s[i] == c {
            Some(i)
        } else {
            last_index(s.take(i), c)
        },
{
    assert(s.take(i + 1).drop_last() =~= s.take(i));
}

/// The final component of a Unix path, if it names something.
pub fn file_name(path: &str) -> (r: Option<String>)
    ensures
        opt_view(r) == file_name_spec(path@),
{
    let pv = chars_of(path);
    let pieces = split_chars(pv.as_slice(), '/');
    let ghost ps = views(pieces@);
    let ghost p = |c: Seq<char>| c.len() > 0 && c != "."@;
    let dot = chars_of(".");
    let mut last: Option<usize> = None;
    let mut count: usize = 0;
    let mut i: usize = 0;
    assert(ps.take(0) =~= Seq::<Seq<char>>::empty());
    while i < pieces.len()
        invariant
            i <= pieces@.len(),
            ps == views(pieces@),
            ps == split(path@, '/'),
            dot@ == "."@,
            p == (|c: Seq<char>| c.len() > 0 && c != "."@),
            count == keep(ps.take(i as int), p).len(),
            count <= i,
            count == 0 <==> last is None,
            last matches Some(k) ==> k < i && keep(ps.take(i as int), p).last() == ps[k as int],
        decreases pieces@.len() - i,
    {
        proof {
            assert(ps.take(i + 1).drop_last() =~= ps.take(i as int));
            assert(ps.take(i + 1).last() == pieces@[i as int]@);
        }
        let piece = &pieces[i];
        if piece.len() > 0 && !crate::text::chars_eq(piece.as_slice(), dot.as_slice()) {
            last = Some(i);
            count = count + 1;
        }
        i = i + 1;
    }
    assert(ps.take(pieces@.len() as int) =~= ps);
    match last {
        None => None,
        Some(k) => {
            assert(ps[k as int] == pieces@[k as int]@);
            if chars_eq_str(pieces[k].as_slice(), "..") {
                None
            } else {
                Some(string_from_chars(pieces[k].as_slice()))
            }
        },
    }
}

/// The file stem of a file name.
pub fn file_stem(name: &[char]) -> (r: Vec<char>)
    ensures
        r@ == file_stem_spec(name@),
{
    let mut last: Option<usize> = None;
    let mut i: usize = 0;
    assert(name@.take(0) =~= Seq::<char>::empty());
    while i < name.len()
        invariant
            i <= name@.len(),
            match last {
                Some(k) => last_index(name@.take(i as int), '.') == Some(k as int) && k < i,
                None => last_index(name@.take(i as int), '.') is None,
            },
        decreases name@.len() - i,
    {
        proof {
            lemma_last_index_step(name@, '.', i as int);
        }
        if name[i] == '.' {
            last = Some(i);
        }
        i = i + 1;
    }
    assert(name@.take(name@.len() as int) =~= name@);
    match last {
        Some(k) => if k == 0 {
            sub_chars(name, 0, name.len())
        } else {
            sub_chars(name, 0, k)
        },
        None => sub_chars(name, 0, name.len()),
    }
}

/// Get the test name from a file path (filename without extension)
pub fn test_name_from_path(path: &str) -> (r: String)
    ensures
        r@ == test_name_spec(path@),
{
    match file_name(path) {
        Some(n) => {
            let nv = chars_of(n.as_str());
            let stem = file_stem(nv.as_slice());
            string_from_chars(stem.as_slice())
        },
        None => String::from_str("unknown"),
    }
}

/// Two numbers written in decimal around an `x` read back as that viewport.
pub proof fn lemma_viewport_roundtrip(w: u32, h: u32)
    ensures
        viewport_spec(crate::text::dec(w as nat) + "x"@ + crate::text::dec(h as nat)) == Some((w, h)),
{
    let a = crate::text::dec(w as nat);
    let b = crate::text::dec(h as nat);
    crate::text::lemma_dec_digits(w as nat);
    crate::text::lemma_dec_digits(h as nat);
    reveal_strlit("x");
    assert("x"@ =~= seq!['x']);
    assert forall|i: int| 0 <= i < a.len() implies a[i] != 'x' by {
        assert(crate::text::is_digit(a[i]));
    }
    assert forall|i: int| 0 <= i < b.len() implies b[i] != 'x' by {
        assert(crate::text::is_digit(b[i]));
    }
    crate::text::lemma_split_pair(a, b, 'x');
    assert(crate::text::is_digit(a[0]) && crate::text::is_digit(a.last()));
    assert(crate::text::is_digit(b[0]) && crate::text::is_digit(b.last()));
    crate::text::lemma_trim_plain(a);
    crate::text::lemma_trim_plain(b);
    assert(crate::text::strip_plus(a) == a);
    assert(crate::text::strip_plus(b) == b);
}

/// Unquoting text wrapped in one pair of matching quotes gives the text
/// back, inner whitespace and quotes included.
pub proof fn lemma_unquote_roundtrip(s: Seq<char>)
    ensures
        unquote_spec("\""@ + s + "\""@) == s,
        unquote_spec("'"@ + s + "'"@) == s,
{
    reveal_strlit("\"");
    reveal_strlit("'");
    let d = "\""@ + s + "\""@;
    let q = "'"@ + s + "'"@;
    assert(d[0] == '"' && d.last() == '"');
    assert(q[0] == '\'' && q.last() == '\'');
    trim_plain(d);
    trim_plain(q);
    assert(d.subrange(1, d.len() - 1) =~= s);
    assert(q.subrange(1, q.len() - 1) =~= s);
}

proof fn trim_plain(s: Seq<char>)
    requires
        s.len() > 0,
        s[0] == '"' || s[0] == '\'',
        s.last() == '"' || s.last() == '\'',
    ensures
        trim(s) == s,
{
    crate::text::lemma_trim_plain(s);
}

proof fn lemma_word_line(w: Seq<char>, s: Seq<char>)
    requires
        w.len() > 0,
        forall|k: int| 0 <= k < w.len() ==> 97 <= #[trigger] (w[k] as u32) <= 122,
    ensures
        instruction_spec(w + seq![' ', '"'] + s + seq!['"']) == Some(
            instruction_for(w, seq!['"'] + s + seq!['"']),
        ),
{
    let a = seq!['"'] + s + seq!['"'];
    let t = w + seq![' ', '"'] + s + seq!['"'];
    assert(t =~= w + seq![' '] + a);
    assert(t[0] == w[0]);
    assert(t.last() == '"');
    crate::text::lemma_trim_plain(t);
    assert forall|k: int| 0 <= k < w.len() implies !crate::text::is_ws(t[k]) by {
        assert(t[k] == w[k]);
    }
    crate::text::lemma_first_ws_at(t, w.len() as int);
    assert(t.take(w.len() as int) =~= w);
    let u = t.skip(w.len() as int);
    assert(u =~= seq![' '] + a);
    assert(u.drop_first() =~= a);
    assert(a[0] == '"' && a.last() == '"');
    crate::text::lemma_trim_plain(a);
    assert(crate::text::trim_start(u) == crate::text::trim_start(a));
    assert(trim(u) == a);
    assert(crate::text::is_ascii_text(w));
    assert(crate::text::ascii_lower(w) =~= w);
}

/// The argument of every quoted command comes out without its quotes: the
/// line `click "s"` clicks `s`, `type "s"` types `s`, `expect "s"` expects
/// `s` and `screenshot "s"` names the screenshot `s`, whatever `s` holds.
pub proof fn lemma_quoted_arguments(s: Seq<char>)
    ensures
        instruction_spec("click \""@ + s + "\""@) == Some(("click"@, s, None::<Seq<char>>)),
        instruction_spec("type \""@ + s + "\""@) == Some(("type"@, Seq::<char>::empty(), Some(s))),
        instruction_spec("expect \""@ + s + "\""@) == Some(("expect"@, s, None::<Seq<char>>)),
        instruction_spec("screenshot \""@ + s + "\""@) == Some(
            ("screenshot"@, s, None::<Seq<char>>),
        ),
{
    reveal_strlit("\"");
    reveal_strlit("click \"");
    reveal_strlit("type \"");
    reveal_strlit("expect \"");
    reveal_strlit("screenshot \"");
    reveal_strlit("click");
    reveal_strlit("type");
    reveal_strlit("expect");
    reveal_strlit("screenshot");
    reveal_strlit("tap");
    assert("tap"@.len() == 3);
    lemma_unquote_roundtrip(s);
    let q = seq!['"'];
    assert("\""@ =~= q);
    let c = seq!['c', 'l', 'i', 'c', 'k'];
    let ty = seq!['t', 'y', 'p', 'e'];
    let e = seq!['e', 'x', 'p', 'e', 'c', 't'];
    let sc = seq!['s', 'c', 'r', 'e', 'e', 'n', 's', 'h', 'o', 't'];
    assert("click"@ =~= c);
    assert("type"@ =~= ty);
    assert("expect"@ =~= e);
    assert("screenshot"@ =~= sc);
    assert("click \""@ + s + "\""@ =~= c + seq![' ', '"'] + s + q);
    assert("type \""@ + s + "\""@ =~= ty + seq![' ', '"'] + s + q);
    assert("expect \""@ + s + "\""@ =~= e + seq![' ', '"'] + s + q);
    assert("screenshot \""@ + s + "\""@ =~= sc + seq![' ', '"'] + s + q);
    lemma_word_line(c, s);
    lemma_word_line(ty, s);
    lemma_word_line(e, s);
    lemma_word_line(sc, s);
    assert(q + s + q =~= "\""@ + s + "\""@);
}

} // verus!
