//! Vision-model assistance: locating JSON payloads in model replies, the
//! request sent to the model and the messages shown when it is unavailable.

use crate::text::{
    chars_of, contains_chars, contains_seq, find_char, first_index, has_prefix, lower,
    starts_with, string_from_chars, sub_chars, to_lowercase, trim, trim_chars,
};
use vstd::prelude::*;

verus! {

/// Nesting change contributed by one character: `{` opens, `}` closes.
pub open spec fn brace_delta(c: char) -> int {
    if c == '{' {
        1
    } else if c == '}' {
        -1
    } else {
        0
    }
}

/// Net brace nesting of `s`: opening minus closing braces.
#[verifier::opaque]
pub open spec fn brace_depth(s: Seq<char>) -> int
    decreases s.len(),
{
    if s.len() == 0 {
        0
    } else {
        brace_depth(s.drop_last()) + brace_delta(s.last())
    }
}

/// `s[start..end]` is non-empty and its braces balance.
pub open spec fn balanced_span(s: Seq<char>, start: int, end: int) -> bool {
    start < end <= s.len() && brace_depth(s.subrange(start, end)) == 0
}

/// The JSON object found in `s`: the shortest balanced span that starts at
/// the first `{`, if there is such a span.
pub open spec fn json_object(s: Seq<char>) -> Option<Seq<char>> {
    match first_index(s, '{') {
        None => None,
        Some(st) => if exists|e: int| balanced_span(s, st, e) {
            let e = choose|e: int|
                balanced_span(s, st, e) && forall|f: int| st < f < e ==> !balanced_span(s, st, f);
            Some(s.subrange(st, e))
        } else {
            None
        },
    }
}

proof fn lemma_depth_step(s: Seq<char>, st: int, k: int)
    requires
        0 <= st <= k < s.len(),
    ensures
        brace_depth(s.subrange(st, k + 1)) == brace_depth(s.subrange(st, k)) + brace_delta(s[k]),
{
    assert(s.subrange(st, k + 1).drop_last() =~= s.subrange(st, k));
    reveal(brace_depth);
}

proof fn lemma_first_balanced(s: Seq<char>, st: int, end: int)
    requires
        first_index(s, '{') == Some(st),
        balanced_span(s, st, end),
        forall|f: int| st < f < end ==> !balanced_span(s, st, f),
    ensures
        json_object(s) == Some(s.subrange(st, end)),
{
    let e = choose|e: int|
        balanced_span(s, st, e) && forall|f: int| st < f < e ==> !balanced_span(s, st, f);
    assert(balanced_span(s, st, e) && forall|f: int| st < f < e ==> !balanced_span(s, st, f));
    if e < end {
        assert(!balanced_span(s, st, e));
    } else if e > end {
        assert(!balanced_span(s, st, end));
    }
}

proof fn lemma_depth_positive(s: Seq<char>, st: int, e: int, f: int)
    requires
        0 <= st < e <= s.len(),
        s[st] == '{',
        forall|g: int| st < g < e ==> !balanced_span(s, st, g),
        st < f < e,
    ensures
        brace_depth(s.subrange(st, f)) >= 1,
    decreases f - st,
{
    lemma_depth_step(s, st, f - 1);
    if f == st + 1 {
        assert(s.subrange(st, st) =~= Seq::<char>::empty());
        reveal(brace_depth);
    } else {
        lemma_depth_positive(s, st, e, f - 1);
        assert(!balanced_span(s, st, f));
    }
}

/// The object found runs from an opening brace to the closing brace that
/// balances it.
pub proof fn lemma_json_object_shape(s: Seq<char>)
    ensures
        json_object(s) matches Some(j) ==> j.len() >= 2 && j[0] == '{' && j.last() == '}'
            && brace_depth(j) == 0,
{
    crate::text::lemma_first_index(s, '{');
    match first_index(s, '{') {
        None => {},
        Some(st) => {
            if exists|e: int| balanced_span(s, st, e) {
                let e0 = choose|e: int| balanced_span(s, st, e);
                lemma_min_span(s, st, e0);
                let e = choose|e: int|
                    balanced_span(s, st, e) && forall|f: int| st < f < e ==> !balanced_span(s, st, f);
                if e == st + 1 {
                    lemma_depth_step(s, st, st);
                    assert(s.subrange(st, st) =~= Seq::<char>::empty());
                    reveal(brace_depth);
                    assert(false);
                }
                lemma_depth_positive(s, st, e, e - 1);
                lemma_depth_step(s, st, e - 1);
                let j = s.subrange(st, e);
                assert(j[0] == s[st]);
                assert(j.last() == s[e - 1]);
            }
        },
    }
}

proof fn lemma_min_span(s: Seq<char>, st: int, e: int)
    requires
        balanced_span(s, st, e),
    ensures
        exists|m: int|
            balanced_span(s, st, m) && forall|f: int| st < f < m ==> !balanced_span(s, st, f),
    decreases e - st,
{
    if exists|f: int| st < f < e && balanced_span(s, st, f) {
        let f = choose|f: int| st < f < e && balanced_span(s, st, f);
        lemma_min_span(s, st, f);
    } else {
        assert(forall|f: int| st < f < e ==> !balanced_span(s, st, f));
    }
}

/// Extracts the JSON object embedded in text that may contain other content:
/// from the first `{` to the brace that closes it.
pub fn extract_json(text: &str) -> (r: Option<String>)
    ensures
        r matches Some(j) ==> json_object(text@) == Some(j@),
        r is None ==> json_object(text@) is None,
{
    let v = chars_of(text);
    let start = match find_char(v.as_slice(), '{') {
        Some(i) => i,
        None => {
            return None;
        },
    };
    let ghost s = v@;
    let n = v.len();
    let mut depth: usize = 0;
    let mut k: usize = start;
    assert(s.subrange(start as int, start as int) =~= Seq::<char>::empty());
    assert(brace_depth(s.subrange(start as int, start as int)) == 0) by {
        reveal(brace_depth);
    }
    while k < n
        invariant
            n == s.len(),
            s == v@,
            s == text@,
            start < n,
            s[start as int] == '{',
            first_index(s, '{') == Some(start as int),
            start <= k <= n,
            depth == brace_depth(s.subrange(start as int, k as int)),
            k > start ==> depth >= 1,
            depth <= k - start,
            forall|f: int|
                #![trigger balanced_span(s, start as int, f)]
                start < f <= k ==> !balanced_span(s, start as int, f),
        decreases n - k,
    {
        let ghost d0 = depth;
        proof {
            lemma_depth_step(s, start as int, k as int);
        }
        let c = v[k];
        if c == '{' {
            depth = depth + 1;
        } else if c == '}' {
            depth = depth - 1;
            if depth == 0 {
                let end = k + 1;
                proof {
                    lemma_first_balanced(s, start as int, end as int);
                }
                let j = sub_chars(v.as_slice(), start, end);
                return Some(string_from_chars(j.as_slice()));
            }
        }
        proof {
            assert(depth == brace_depth(s.subrange(start as int, k + 1)));
            assert(depth != 0);
        }
        k = k + 1;
    }
    None
}

/// Error type for vision operations
#[derive(Debug, Clone)]
pub enum VisionError {
    /// Ollama server is not available
    OllamaUnavailable(String),
    /// Moondream model is not installed
    ModelNotInstalled,
    /// Failed to read the image file
    ImageReadError(String),
    /// Failed to parse response from Moondream
    ParseError(String),
    /// HTTP request failed
    RequestError(String),
}

/// The message of a vision error.
pub open spec fn vision_error_text(e: VisionError) -> Seq<char> {
    match e {
        VisionError::OllamaUnavailable(m) => "Ollama unavailable: "@ + m@,
        VisionError::ModelNotInstalled => "Moondream model not installed"@,
        VisionError::ImageReadError(m) => "Failed to read image: "@ + m@,
        VisionError::ParseError(m) => "Failed to parse response: "@ + m@,
        VisionError::RequestError(m) => "HTTP request failed: "@ + m@,
    }
}

impl VisionError {
    /// The message describing the error
    pub fn message(&self) -> (r: String)
        ensures
            r@ == vision_error_text(*self),
    {
        match self {
            VisionError::OllamaUnavailable(m) => {
                let mut r = String::from_str("Ollama unavailable: ");
                r.append(m.as_str());
                r
            },
            VisionError::ModelNotInstalled => String::from_str("Moondream model not installed"),
            VisionError::ImageReadError(m) => {
                let mut r = String::from_str("Failed to read image: ");
                r.append(m.as_str());
                r
            },
            VisionError::ParseError(m) => {
                let mut r = String::from_str("Failed to parse response: ");
                r.append(m.as_str());
                r
            },
            VisionError::RequestError(m) => {
                let mut r = String::from_str("HTTP request failed: ");
                r.append(m.as_str());
                r
            },
        }
    }
}

/// Structured UI description from vision analysis
#[derive(Debug, Clone)]
pub struct UiDescription {
    /// 2-3 sentence summary of the UI
    pub summary: String,
    /// List of UI elements identified
    pub elements: Vec<String>,
}

/// The address of a local Ollama server.
pub fn default_ollama_url() -> (r: String)
    ensures
        r@ == "http://localhost:11434"@,
{
    String::from_str("http://localhost:11434")
}

/// The URL listing the installed models.
pub fn tags_url(base_url: &str) -> (r: String)
    ensures
        r@ == base_url@ + "/api/tags"@,
{
    let mut r = String::from_str(base_url);
    r.append("/api/tags");
    r
}

/// The URL that generates answers.
pub fn generate_url(base_url: &str) -> (r: String)
    ensures
        r@ == base_url@ + "/api/generate"@,
{
    let mut r = String::from_str(base_url);
    r.append("/api/generate");
    r
}

/// The failure for a model server that answered with an error status.
pub fn unavailable_status(status: &str) -> (r: VisionError)
    ensures
        r matches VisionError::OllamaUnavailable(m) && m@ == "HTTP "@ + status@,
{
    let mut m = String::from_str("HTTP ");
    m.append(status);
    VisionError::OllamaUnavailable(m)
}

/// The failure for a generation request answered with an error status and
/// body.
pub fn request_status_error(status: &str, body: &str) -> (r: VisionError)
    ensures
        r matches VisionError::RequestError(m) && m@ == "HTTP "@ + status@ + ": "@ + body@,
{
    let mut m = String::from_str("HTTP ");
    m.append(status);
    m.append(": ");
    m.append(body);
    VisionError::RequestError(m)
}

/// The failure for an image that could not be read.
pub fn image_read_error(path: &str, detail: &str) -> (r: VisionError)
    ensures
        r matches VisionError::ImageReadError(m) && m@ == path@ + ": "@ + detail@,
{
    let mut m = String::from_str(path);
    m.append(": ");
    m.append(detail);
    VisionError::ImageReadError(m)
}

/// A model name that is a Moondream model.
pub open spec fn is_moondream(name: Option<String>) -> bool {
    match name {
        Some(n) => has_prefix(n@, "moondream"@),
        None => false,
    }
}

/// Some listed model is a Moondream model.
pub open spec fn lists_moondream(models: Seq<Option<String>>) -> bool {
    exists|i: int| 0 <= i < models.len() && is_moondream(#[trigger] models[i])
}

/// Decides from the list of installed models (each by its name, when it has
/// one) whether Moondream can be used; no list at all is a malformed reply.
pub fn check_models(models: Option<&[Option<String>]>) -> (r: Result<(), VisionError>)
    ensures
        match models {
            None => r matches Err(VisionError::ParseError(m)) && m@ == "No models array"@,
            Some(ms) => if lists_moondream(ms@) {
                r is Ok
            } else {
                r matches Err(VisionError::ModelNotInstalled)
            },
        },
{
    let ms = match models {
        None => {
            return Err(VisionError::ParseError(String::from_str("No models array")));
        },
        Some(ms) => ms,
    };
    let prefix = chars_of("moondream");
    let mut i: usize = 0;
    while i < ms.len()
        invariant
            i <= ms@.len(),
            models == Some(ms),
            prefix@ == "moondream"@,
            forall|k: int| 0 <= k < i ==> !is_moondream(#[trigger] ms@[k]),
        decreases ms@.len() - i,
    {
        match &ms[i] {
            Some(n) => {
                let nv = chars_of(n.as_str());
                if starts_with(nv.as_slice(), prefix.as_slice()) {
                    assert(is_moondream(ms@[i as int]));
                    return Ok(());
                }
            },
            None => {},
        }
        i = i + 1;
    }
    Err(VisionError::ModelNotInstalled)
}

/// The question put to the model for a visual assertion.
pub open spec fn assertion_prompt_text(question: Seq<char>) -> Seq<char> {
    "Check: "@ + question
        + "\n\nReturn ONLY a JSON object with this exact format (no other text):\n{\"found\": true, \"confidence\": 0.95, \"description\": \"brief description\"}\n\nUse true/false for found, 0.0-1.0 for confidence."@
}

/// The prompt asking the model whether a visual condition holds.
pub fn assertion_prompt(question: &str) -> (r: String)
    ensures
        r@ == assertion_prompt_text(question@),
{
    let mut r = String::from_str("Check: ");
    r.append(question);
    r.append(
        "\n\nReturn ONLY a JSON object with this exact format (no other text):\n{\"found\": true, \"confidence\": 0.95, \"description\": \"brief description\"}\n\nUse true/false for found, 0.0-1.0 for confidence.",
    );
    r
}

/// The prompt asking the model to describe a UI.
pub fn ui_description_prompt() -> (r: String)
    ensures
        r@ == "Describe this UI for a user-friendly test report.\n\nReturn ONLY a JSON object with this exact format (no other text):\n{\"summary\": \"2-3 sentence description of what the user sees and can do\", \"elements\": [\"element1\", \"element2\", \"element3\"]}\n\nFocus on buttons, inputs, text, and interactive elements."@,
{
    String::from_str(
        "Describe this UI for a user-friendly test report.\n\nReturn ONLY a JSON object with this exact format (no other text):\n{\"summary\": \"2-3 sentence description of what the user sees and can do\", \"elements\": [\"element1\", \"element2\", \"element3\"]}\n\nFocus on buttons, inputs, text, and interactive elements.",
    )
}

/// The JSON object of a model reply, or the parse error naming the reply.
pub fn json_payload(text: &str) -> (r: Result<String, VisionError>)
    ensures
        match json_object(text@) {
            Some(j) => r matches Ok(s) && s@ == j,
            None => r matches Err(VisionError::ParseError(m)) && m@ == "No JSON found in response: "@
                + text@,
        },
{
    match extract_json(text) {
        Some(j) => Ok(j),
        None => {
            let mut m = String::from_str("No JSON found in response: ");
            m.append(text);
            Err(VisionError::ParseError(m))
        },
    }
}

/// The parse error for a JSON payload that does not have the expected shape.
pub fn invalid_json_error(detail: &str, json: &str) -> (r: VisionError)
    ensures
        r matches VisionError::ParseError(m) && m@ == "Invalid JSON: "@ + detail@ + " - "@ + json@,
{
    let mut m = String::from_str("Invalid JSON: ");
    m.append(detail);
    m.append(" - ");
    m.append(json);
    VisionError::ParseError(m)
}

/// A free-text reply reads as a yes: lower-cased, it mentions `yes`, `found`
/// or `visible`.
pub open spec fn reads_as_found(text: Seq<char>) -> bool {
    contains_seq(lower(text), "yes"@) || contains_seq(lower(text), "found"@) || contains_seq(
        lower(text),
        "visible"@,
    )
}

/// A free-text reply that says `yes`, `found` or `visible`, in any letter
/// case and anywhere in ASCII text, reads as found; ASCII text whose lower
/// case holds none of the three words reads as not found.
pub proof fn lemma_reads_as_found(a: Seq<char>, x: Seq<char>, b: Seq<char>)
    ensures
        crate::text::is_ascii_text(a) && crate::text::is_ascii_text(x) && crate::text::is_ascii_text(b)
            && (crate::text::ascii_lower(x) == "yes"@ || crate::text::ascii_lower(x) == "found"@
            || crate::text::ascii_lower(x) == "visible"@) ==> reads_as_found(a + x + b),
        crate::text::is_ascii_text(a) && !contains_seq(crate::text::ascii_lower(a), "yes"@)
            && !contains_seq(crate::text::ascii_lower(a), "found"@) && !contains_seq(
            crate::text::ascii_lower(a),
            "visible"@,
        ) ==> !reads_as_found(a),
{
    let t = a + x + b;
    crate::text::lemma_ascii_lower_concat(a, x);
    crate::text::lemma_ascii_lower_concat(a + x, b);
    crate::text::lemma_contains_middle(
        crate::text::ascii_lower(a),
        crate::text::ascii_lower(x),
        crate::text::ascii_lower(b),
    );
}

/// What a reply that holds no usable JSON is taken to say: whether the
/// element was found, the reply itself trimmed as the description, and the
/// note on the fallback.
pub fn fallback_answer(response_text: &str, error: &VisionError) -> (r: (bool, String, String))
    ensures
        r.0 == reads_as_found(response_text@),
        r.1@ == trim(response_text@),
        r.2@ == "JSON parse fallback: "@ + vision_error_text(*error),
{
    let lowered = to_lowercase(response_text);
    let lv = chars_of(lowered.as_str());
    assert(lv@ == lower(response_text@));
    let yes = chars_of("yes");
    let found_word = chars_of("found");
    let visible = chars_of("visible");
    let found = contains_chars(lv.as_slice(), yes.as_slice()) || contains_chars(
        lv.as_slice(),
        found_word.as_slice(),
    ) || contains_chars(lv.as_slice(), visible.as_slice());
    let tv = chars_of(response_text);
    let t = trim_chars(tv.as_slice());
    let description = string_from_chars(t.as_slice());
    let mut note = String::from_str("JSON parse fallback: ");
    let m = error.message();
    note.append(m.as_str());
    (found, description, note)
}

/// The character of a 6-bit value in the standard base64 alphabet
/// (`A`-`Z`, `a`-`z`, `0`-`9`, `+`, `/`).
pub open spec fn base64_char(v: int) -> char {
    if v < 26 {
        (65 + v) as char
    } else if v < 52 {
        (97 + v - 26) as char
    } else if v < 62 {
        (48 + v - 52) as char
    } else if v == 62 {
        '+'
    } else {
        '/'
    }
}

/// The standard base64 encoding (RFC 4648, with `=` padding) of some bytes:
/// each group of three bytes becomes four characters of six bits each; a
/// final group of one or two bytes is padded with `=`.
pub open spec fn base64_standard(bytes: Seq<u8>) -> Seq<char>
    decreases bytes.len(),
{
    if bytes.len() == 0 {
        Seq::empty()
    } else if bytes.len() == 1 {
        let b0 = bytes[0] as int;
        seq![base64_char(b0 / 4), base64_char((b0 % 4) * 16), '=', '=']
    } else if bytes.len() == 2 {
        let (b0, b1) = (bytes[0] as int, bytes[1] as int);
        seq![base64_char(b0 / 4), base64_char((b0 % 4) * 16 + b1 / 16), base64_char((b1 % 16) * 4), '=']
    } else {
        let (b0, b1, b2) = (bytes[0] as int, bytes[1] as int, bytes[2] as int);
        seq![
            base64_char(b0 / 4),
            base64_char((b0 % 4) * 16 + b1 / 16),
            base64_char((b1 % 16) * 4 + b2 / 64),
            base64_char(b2 % 64),
        ] + base64_standard(bytes.skip(3))
    }
}

/// `base64::Engine::encode` with the `STANDARD` engine: the result is the
/// standard padded base64 encoding of the bytes, `base64_standard`.
#[verifier::external_body]
fn encode_base64(bytes: &[u8]) -> (r: String)
    ensures
        r@ == base64_standard(bytes@),
{
    base64::Engine::encode(&base64::engine::general_purpose::STANDARD, bytes)
}

/// A generation request to Ollama for a vision model
#[derive(Debug)]
pub struct OllamaRequest {
    /// The model asked
    pub model: String,
    /// The prompt
    pub prompt: String,
    /// The images, base64-encoded
    pub images: Vec<String>,
    /// Whether the answer is streamed
    pub stream: bool,
}

impl OllamaRequest {
    /// A request asking Moondream `prompt` about one image, answered in one
    /// piece.
    pub fn new(prompt: &str, image: &[u8]) -> (r: Self)
        ensures
            r.model@ == "moondream"@,
            r.prompt@ == prompt@,
            r.images@.len() == 1,
            r.images@[0]@ == base64_standard(image@),
            !r.stream,
    {
        let mut images: Vec<String> = Vec::new();
        images.push(encode_base64(image));
        OllamaRequest {
            model: String::from_str("moondream"),
            prompt: String::from_str(prompt),
            images,
            stream: false,
        }
    }
}

/// The guide to installing Ollama and Moondream.
pub open spec fn install_text() -> Seq<char> {
    "┌─────────────────────────────────────────────────────────────┐\n"@
        + "│  Moondream Installation Guide                               │\n"@
        + "└─────────────────────────────────────────────────────────────┘\n\n"@
        + "1. Install Ollama:\n\n"@
        + "   Linux:\n"@
        + "   curl -fsSL https://ollama.com/install.sh | sh\n\n"@
        + "   macOS:\n"@
        + "   brew install ollama\n"@
        + "   # Or download from: https://ollama.com/download\n\n"@
        + "2. Start Ollama server:\n"@
        + "   ollama serve\n\n"@
        + "3. Pull and run Moondream model:\n"@
        + "   ollama pull moondream\n"@
        + "   ollama run moondream\n\n"@
        + "4. Verify installation:\n"@
        + "   curl http://localhost:11434/api/tags\n\n"@
        + "Note: Moondream is a small (~1.9GB) vision-language model\n"@
        + "that runs efficiently on most modern hardware.\n"@
}

/// Get installation instructions for Ollama and Moondream
pub fn installation_instructions() -> (r: String)
    ensures
        r@ == install_text(),
{
    let mut r = String::from_str("┌─────────────────────────────────────────────────────────────┐\n");
    r.append("│  Moondream Installation Guide                               │\n");
    r.append("└─────────────────────────────────────────────────────────────┘\n\n");
    r.append("1. Install Ollama:\n\n");
    r.append("   Linux:\n");
    r.append("   curl -fsSL https://ollama.com/install.sh | sh\n\n");
    r.append("   macOS:\n");
    r.append("   brew install ollama\n");
    r.append("   # Or download from: https://ollama.com/download\n\n");
    r.append("2. Start Ollama server:\n");
    r.append("   ollama serve\n\n");
    r.append("3. Pull and run Moondream model:\n");
    r.append("   ollama pull moondream\n");
    r.append("   ollama run moondream\n\n");
    r.append("4. Verify installation:\n");
    r.append("   curl http://localhost:11434/api/tags\n\n");
    r.append("Note: Moondream is a small (~1.9GB) vision-language model\n");
    r.append("that runs efficiently on most modern hardware.\n");
    r
}

/// The banner opening the warning shown when vision is unavailable.
pub open spec fn warning_banner() -> Seq<char> {
    "╭────────────────────────────────────────────────────────────╮\n"@
        + "│  ⚠️  Vision AI Unavailable - Visual assertions skipped     │\n"@
        + "╰────────────────────────────────────────────────────────────╯\n\n"@
}

/// The advice given for each reason vision is unavailable.
pub open spec fn warning_advice(e: VisionError) -> Seq<char> {
    match e {
        VisionError::OllamaUnavailable(_) => "Ollama is not running. To enable AI-powered visual testing:\n\n"@
            + install_text(),
        VisionError::ModelNotInstalled => "Ollama is running but Moondream model is not installed.\n\n"@
            + "Install Moondream:\n"@ + "  ollama pull moondream\n\n"@ + "Then run it:\n"@
            + "  ollama run moondream\n"@,
        _ => "Error: "@ + vision_error_text(e) + "\n\n"@ + install_text(),
    }
}

/// The warning shown once when vision is unavailable.
pub open spec fn warning_text(e: VisionError) -> Seq<char> {
    warning_banner() + warning_advice(e) + "\nTests will continue without visual assertions.\n"@
}

/// Format a helpful warning message when vision AI is unavailable
pub fn format_unavailable_warning(error: &VisionError) -> (r: String)
    ensures
        r@ == warning_text(*error),
{
    let mut msg = String::from_str("╭────────────────────────────────────────────────────────────╮\n");
    msg.append("│  ⚠️  Vision AI Unavailable - Visual assertions skipped     │\n");
    msg.append("╰────────────────────────────────────────────────────────────╯\n\n");
    let ghost o = msg@;
    match error {
        VisionError::OllamaUnavailable(_) => {
            msg.append("Ollama is not running. To enable AI-powered visual testing:\n\n");
            let i = installation_instructions();
            msg.append(i.as_str());
        },
        VisionError::ModelNotInstalled => {
            msg.append("Ollama is running but Moondream model is not installed.\n\n");
            msg.append("Install Moondream:\n");
            msg.append("  ollama pull moondream\n\n");
            msg.append("Then run it:\n");
            msg.append("  ollama run moondream\n");
        },
        _ => {
            msg.append("Error: ");
            let m = error.message();
            msg.append(m.as_str());
            msg.append("\n\n");
            let i = installation_instructions();
            msg.append(i.as_str());
        },
    }
    assert(msg@ =~= warning_banner() + warning_advice(*error));
    msg.append("\nTests will continue without visual assertions.\n");
    assert(msg@ =~= warning_text(*error));
    msg
}

} // verus!
