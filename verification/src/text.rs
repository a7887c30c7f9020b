//! Character-level text utilities shared by the parser and the renderers.
//!
//! Text is modelled as `Seq<char>`, the view of `str` and `String`.

use vstd::prelude::*;

verus! {

broadcast use vstd::string::group_string_axioms;

/// Unicode `White_Space` characters, the set `char::is_whitespace` accepts.
pub open spec fn is_ws(c: char) -> bool {
    let u = c as u32;
    ||| 9 <= u <= 13
    ||| u == 32
    ||| u == 0x85
    ||| u == 0xA0
    ||| u == 0x1680
    ||| 0x2000 <= u <= 0x200A
    ||| u == 0x2028
    ||| u == 0x2029
    ||| u == 0x202F
    ||| u == 0x205F
    ||| u == 0x3000
}

/// Whitespace test on one character.
pub fn is_whitespace(c: char) -> (r: bool)
    ensures
        r == is_ws(c),
{
    let u = c as u32;
    (9 <= u && u <= 13) || u == 32 || u == 0x85 || u == 0xA0 || u == 0x1680 || (0x2000 <= u && u
        <= 0x200A) || u == 0x2028 || u == 0x2029 || u == 0x202F || u == 0x205F || u == 0x3000
}

/// The characters of a string slice, in order.
pub fn chars_of(s: &str) -> (v: Vec<char>)
    ensures
        v@ == s@,
{
    let n = s.unicode_len();
    let mut v: Vec<char> = Vec::new();
    let mut i: usize = 0;
    while i < n
        invariant
            n == s@.len(),
            i <= n,
            v@ == s@.subrange(0, i as int),
        decreases n - i,
    {
        let c = s.get_char(i);
        v.push(c);
        i = i + 1;
        assert(v@ =~= s@.subrange(0, i as int));
    }
    assert(v@ =~= s@);
    v
}

/// Builds a `String` from a slice of characters (`String: FromIterator<&char>`);
/// the string holds exactly these characters.
#[verifier::external_body]
pub(crate) fn string_from_chars(v: &[char]) -> (s: String)
    ensures
        s@ == v@,
{
    v.iter().collect()
}

/// Appends characters to a string.
pub fn append_chars(out: &mut String, v: &[char])
    ensures
        final(out)@ == old(out)@ + v@,
{
    let s = string_from_chars(v);
    out.append(s.as_str());
}

/// A copy of `v[from..to]`.
pub fn sub_chars(v: &[char], from: usize, to: usize) -> (r: Vec<char>)
    requires
        from <= to <= v@.len(),
    ensures
        r@ == v@.subrange(from as int, to as int),
{
    let mut r: Vec<char> = Vec::new();
    let mut i = from;
    while i < to
        invariant
            from <= i <= to <= v@.len(),
            r@ == v@.subrange(from as int, i as int),
        decreases to - i,
    {
        r.push(v[i]);
        i = i + 1;
        assert(r@ =~= v@.subrange(from as int, i as int));
    }
    r
}

/// `s` begins with `p`.
pub open spec fn has_prefix(s: Seq<char>, p: Seq<char>) -> bool {
    p.len() <= s.len() && s.subrange(0, p.len() as int) == p
}

/// `s` ends with `p`.
pub open spec fn has_suffix(s: Seq<char>, p: Seq<char>) -> bool {
    p.len() <= s.len() && s.subrange(s.len() - p.len(), s.len() as int) == p
}

/// Prefix test.
pub fn starts_with(v: &[char], p: &[char]) -> (r: bool)
    ensures
        r == has_prefix(v@, p@),
{
    if p.len() > v.len() {
        return false;
    }
    let mut i: usize = 0;
    while i < p.len()
        invariant
            p@.len() <= v@.len(),
            i <= p@.len(),
            forall|k: int| 0 <= k < i ==> v@[k] == p@[k],
        decreases p@.len() - i,
    {
        if v[i] != p[i] {
            assert(v@.subrange(0, p@.len() as int)[i as int] != p@[i as int]);
            return false;
        }
        i = i + 1;
    }
    assert(v@.subrange(0, p@.len() as int) =~= p@);
    true
}

/// Suffix test.
pub fn ends_with(v: &[char], p: &[char]) -> (r: bool)
    ensures
        r == has_suffix(v@, p@),
{
    if p.len() > v.len() {
        return false;
    }
    let n = v.len();
    let off = n - p.len();
    let mut i: usize = 0;
    while i < p.len()
        invariant
            n == v@.len(),
            p@.len() <= v@.len(),
            off == v@.len() - p@.len(),
            i <= p@.len(),
            forall|k: int| 0 <= k < i ==> v@[off + k] == p@[k],
        decreases p@.len() - i,
    {
        if v[off + i] != p[i] {
            assert(v@.subrange(off as int, v@.len() as int)[i as int] != p@[i as int]);
            return false;
        }
        i = i + 1;
    }
    assert(v@.subrange(off as int, v@.len() as int) =~= p@);
    true
}

/// Equality of character sequences.
pub fn chars_eq(a: &[char], b: &[char]) -> (r: bool)
    ensures
        r == (a@ == b@),
{
    if a.len() != b.len() {
        return false;
    }
    let r = starts_with(a, b);
    assert(a@ =~= a@.subrange(0, b@.len() as int));
    r
}

/// Equality of a character sequence with a string slice.
pub fn chars_eq_str(a: &[char], b: &str) -> (r: bool)
    ensures
        r == (a@ == b@),
{
    let bv = chars_of(b);
    chars_eq(a, bv.as_slice())
}

/// `s` holds `p` as a contiguous piece starting at `i`.
pub open spec fn occurs_at(s: Seq<char>, p: Seq<char>, i: int) -> bool {
    0 <= i && i + p.len() <= s.len() && s.subrange(i, i + p.len()) == p
}

/// `s` holds `p` as a contiguous piece (`str::contains`).
pub open spec fn contains_seq(s: Seq<char>, p: Seq<char>) -> bool {
    exists|i: int| occurs_at(s, p, i)
}

/// Substring test.
pub fn contains_chars(s: &[char], p: &[char]) -> (r: bool)
    ensures
        r == contains_seq(s@, p@),
{
    if p.len() > s.len() {
        return false;
    }
    if p.len() == 0 {
        assert(s@.subrange(0, 0) =~= p@);
        assert(occurs_at(s@, p@, 0));
        return true;
    }
    let n = s.len();
    let last = n - p.len();
    let mut i: usize = 0;
    while i <= last
        invariant
            n == s@.len(),
            0 < p@.len() <= s@.len(),
            last == s@.len() - p@.len(),
            i <= last + 1,
            forall|k: int| 0 <= k < i ==> !occurs_at(s@, p@, k),
        decreases last + 1 - i,
    {
        let mut j: usize = 0;
        let mut ok = true;
        while j < p.len()
            invariant
                n == s@.len(),
                p@.len() <= s@.len(),
                i <= last,
                last == s@.len() - p@.len(),
                j <= p@.len(),
                ok == (forall|k: int| 0 <= k < j ==> s@[i + k] == p@[k]),
            decreases p@.len() - j,
        {
            if s[i + j] != p[j] {
                ok = false;
            }
            j = j + 1;
        }
        if ok {
            assert(s@.subrange(i as int, i + p@.len()) =~= p@);
            assert(occurs_at(s@, p@, i as int));
            return true;
        }
        assert(!occurs_at(s@, p@, i as int)) by {
            if occurs_at(s@, p@, i as int) {
                assert forall|k: int| 0 <= k < p@.len() implies s@[i + k] == p@[k] by {
                    assert(s@.subrange(i as int, i + p@.len())[k] == s@[i + k]);
                }
            }
        }
        i = i + 1;
    }
    assert(!contains_seq(s@, p@)) by {
        if contains_seq(s@, p@) {
            let k = choose|k: int| occurs_at(s@, p@, k);
            assert(k <= last);
        }
    }
    false
}

/// The index of the first occurrence of `c` in `s`, if any.
#[verifier::opaque]
pub open spec fn first_index(s: Seq<char>, c: char) -> Option<int> {
    if exists|i: int| 0 <= i < s.len() && s[i] == c {
        Some(choose|i: int| 0 <= i < s.len() && s[i] == c && forall|k: int| 0 <= k < i ==> s[k] != c)
    } else {
        None
    }
}

proof fn lemma_min_witness(s: Seq<char>, c: char, j: int)
    requires
        0 <= j < s.len(),
        s[j] == c,
    ensures
        exists|m: int| 0 <= m < s.len() && s[m] == c && forall|k: int| 0 <= k < m ==> s[k] != c,
    decreases j,
{
    if exists|k: int| 0 <= k < j && s[k] == c {
        let k = choose|k: int| 0 <= k < j && s[k] == c;
        lemma_min_witness(s, c, k);
    } else {
        assert(forall|k: int| 0 <= k < j ==> s[k] != c);
    }
}

/// The first occurrence found is an occurrence with none before it.
pub proof fn lemma_first_index(s: Seq<char>, c: char)
    ensures
        first_index(s, c) matches Some(i) ==> 0 <= i < s.len() && s[i] == c && forall|k: int|
            0 <= k < i ==> s[k] != c,
        first_index(s, c) is None ==> forall|k: int| 0 <= k < s.len() ==> s[k] != c,
{
    reveal(first_index);
    if exists|i: int| 0 <= i < s.len() && s[i] == c {
        let j = choose|i: int| 0 <= i < s.len() && s[i] == c;
        lemma_min_witness(s, c, j);
    }
}

/// Finds the first occurrence of a character.
pub fn find_char(s: &[char], c: char) -> (r: Option<usize>)
    ensures
        match r {
            Some(i) => i < s@.len() && s@[i as int] == c && forall|k: int| 0 <= k < i ==> s@[k] != c,
            None => forall|k: int| 0 <= k < s@.len() ==> s@[k] != c,
        },
        r matches Some(i) ==> first_index(s@, c) == Some(i as int),
        r is None ==> first_index(s@, c) is None,
{
    reveal(first_index);
    let mut i: usize = 0;
    while i < s.len()
        invariant
            i <= s@.len(),
            forall|k: int| 0 <= k < i ==> s@[k] != c,
        decreases s@.len() - i,
    {
        if s[i] == c {
            proof {
                reveal(first_index);
                let ii = i as int;
                assert(0 <= ii < s@.len() && s@[ii] == c);
                assert(exists|j: int| 0 <= j < s@.len() && s@[j] == c);
                assert(exists|j: int|
                    0 <= j < s@.len() && s@[j] == c && forall|k: int| 0 <= k < j ==> s@[k] != c)
                    by {
                    assert(0 <= ii < s@.len() && s@[ii] == c && forall|k: int| 0 <= k < ii ==> s@[k] != c);
                }
                let w = choose|j: int|
                    0 <= j < s@.len() && s@[j] == c && forall|k: int| 0 <= k < j ==> s@[k] != c;
                if w < ii {
                    assert(s@[w] != c);
                } else if w > ii {
                    assert(s@[ii] != c);
                }
                assert(first_index(s@, c) == Some(ii));
            }
            return Some(i);
        }
        i = i + 1;
    }
    None
}

/// Leading whitespace removed.
pub open spec fn trim_start(s: Seq<char>) -> Seq<char>
    decreases s.len(),
{
    if s.len() > 0 && is_ws(s[0]) {
        trim_start(s.drop_first())
    } else {
        s
    }
}

/// Trailing whitespace removed.
pub open spec fn trim_end(s: Seq<char>) -> Seq<char>
    decreases s.len(),
{
    if s.len() > 0 && is_ws(s.last()) {
        trim_end(s.drop_last())
    } else {
        s
    }
}

/// Leading and trailing whitespace removed (`str::trim`).
pub open spec fn trim(s: Seq<char>) -> Seq<char> {
    trim_end(trim_start(s))
}

proof fn lemma_trim_start_skip(s: Seq<char>, i: int)
    requires
        0 <= i <= s.len(),
        forall|k: int| 0 <= k < i ==> is_ws(s[k]),
    ensures
        trim_start(s) == trim_start(s.subrange(i, s.len() as int)),
    decreases i,
{
    if i > 0 {
        assert(s.drop_first().subrange(i - 1, s.drop_first().len() as int) =~= s.subrange(
            i,
            s.len() as int,
        ));
        lemma_trim_start_skip(s.drop_first(), i - 1);
    } else {
        assert(s.subrange(0, s.len() as int) =~= s);
    }
}

proof fn lemma_trim_end_cut(s: Seq<char>, j: int)
    requires
        0 <= j <= s.len(),
        forall|k: int| j <= k < s.len() ==> is_ws(s[k]),
    ensures
        trim_end(s) == trim_end(s.subrange(0, j)),
    decreases s.len() - j,
{
    if j < s.len() {
        assert(s.drop_last().subrange(0, j) =~= s.subrange(0, j));
        lemma_trim_end_cut(s.drop_last(), j);
    } else {
        assert(s.subrange(0, j) =~= s);
    }
}

/// The bounds of the trimmed part of `v`.
pub fn trim_bounds(v: &[char]) -> (r: (usize, usize))
    ensures
        r.0 <= r.1 <= v@.len(),
        v@.subrange(r.0 as int, r.1 as int) == trim(v@),
{
    let mut i: usize = 0;
    while i < v.len() && is_whitespace(v[i])
        invariant
            i <= v@.len(),
            forall|k: int| 0 <= k < i ==> is_ws(v@[k]),
        decreases v@.len() - i,
    {
        i = i + 1;
    }
    let ghost rest = v@.subrange(i as int, v@.len() as int);
    proof {
        lemma_trim_start_skip(v@, i as int);
        if rest.len() > 0 {
            assert(rest[0] == v@[i as int]);
        }
    }
    let mut j: usize = v.len();
    while j > i && is_whitespace(v[j - 1])
        invariant
            i <= j <= v@.len(),
            forall|k: int| j <= k < v@.len() ==> is_ws(v@[k]),
        decreases j,
    {
        j = j - 1;
    }
    proof {
        assert(trim_start(v@) == rest);
        assert forall|k: int| j - i <= k < rest.len() implies is_ws(rest[k]) by {
            assert(rest[k] == v@[i + k]);
        }
        lemma_trim_end_cut(rest, j - i);
        let t = rest.subrange(0, j - i);
        assert(t =~= v@.subrange(i as int, j as int));
        if t.len() > 0 {
            assert(t.last() == v@[j - 1]);
        }
    }
    (i, j)
}

/// `str::trim` on characters.
pub fn trim_chars(v: &[char]) -> (r: Vec<char>)
    ensures
        r@ == trim(v@),
{
    let (a, b) = trim_bounds(v);
    sub_chars(v, a, b)
}

/// The pieces of `s` between occurrences of `sep` (`str::split` with a `char`).
pub open spec fn split(s: Seq<char>, sep: char) -> Seq<Seq<char>>
    decreases s.len(),
{
    if s.len() == 0 {
        seq![Seq::<char>::empty()]
    } else {
        let init = split(s.drop_last(), sep);
        if s.last() == sep {
            init.push(Seq::<char>::empty())
        } else {
            init.update(init.len() - 1, init.last().push(s.last()))
        }
    }
}

proof fn lemma_split_nonempty(s: Seq<char>, sep: char)
    ensures
        split(s, sep).len() >= 1,
    decreases s.len(),
{
    if s.len() > 0 {
        lemma_split_nonempty(s.drop_last(), sep);
    }
}

/// The views of a sequence of character vectors.
pub open spec fn views(r: Seq<Vec<char>>) -> Seq<Seq<char>> {
    r.map_values(|x: Vec<char>| x@)
}

/// Splits a character sequence at each occurrence of `sep`.
pub fn split_chars(v: &[char], sep: char) -> (r: Vec<Vec<char>>)
    ensures
        views(r@) == split(v@, sep),
{
    let mut r: Vec<Vec<char>> = Vec::new();
    let mut cur: Vec<char> = Vec::new();
    let mut i: usize = 0;
    assert(v@.subrange(0, 0) =~= Seq::<char>::empty());
    assert(views(r@).push(cur@) =~= seq![Seq::<char>::empty()]);
    while i < v.len()
        invariant
            i <= v@.len(),
            views(r@).push(cur@) == split(v@.subrange(0, i as int), sep),
        decreases v@.len() - i,
    {
        let ghost pre = v@.subrange(0, i as int);
        let ghost r0 = r@;
        let ghost c0 = cur@;
        let c = v[i];
        proof {
            let s = v@.subrange(0, i + 1);
            assert(s.drop_last() =~= pre);
            assert(s.last() == c);
        }
        if c == sep {
            r.push(cur);
            cur = Vec::new();
            assert(views(r@).push(cur@) =~= views(r0).push(c0).push(Seq::<char>::empty()));
        } else {
            cur.push(c);
            let ghost sp = split(pre, sep);
            assert(sp =~= views(r0).push(c0));
            assert(views(r@).push(cur@) =~= sp.update(sp.len() - 1, sp.last().push(c)));
        }
        i = i + 1;
    }
    r.push(cur);
    assert(v@.subrange(0, v@.len() as int) =~= v@);
    r
}

/// The decimal digit character for `d < 10`.
pub open spec fn digit_char(d: int) -> char {
    if d == 0 {
        '0'
    } else if d == 1 {
        '1'
    } else if d == 2 {
        '2'
    } else if d == 3 {
        '3'
    } else if d == 4 {
        '4'
    } else if d == 5 {
        '5'
    } else if d == 6 {
        '6'
    } else if d == 7 {
        '7'
    } else if d == 8 {
        '8'
    } else {
        '9'
    }
}

/// Decimal notation of a natural number, without leading zeros.
pub open spec fn dec(n: nat) -> Seq<char>
    decreases n,
{
    if n < 10 {
        seq![digit_char(n as int)]
    } else {
        dec(n / 10) + seq![digit_char((n % 10) as int)]
    }
}

/// `s` left-padded with `'0'` to at least `w` characters (`{:0w}`).
pub open spec fn pad_zeros(s: Seq<char>, w: nat) -> Seq<char> {
    if s.len() < w {
        Seq::new((w - s.len()) as nat, |i: int| '0') + s
    } else {
        s
    }
}

fn digit(d: u128) -> (c: char)
    requires
        d < 10,
    ensures
        c == digit_char(d as int),
{
    if d == 0 {
        '0'
    } else if d == 1 {
        '1'
    } else if d == 2 {
        '2'
    } else if d == 3 {
        '3'
    } else if d == 4 {
        '4'
    } else if d == 5 {
        '5'
    } else if d == 6 {
        '6'
    } else if d == 7 {
        '7'
    } else if d == 8 {
        '8'
    } else {
        '9'
    }
}

/// Decimal digits of `n`.
pub fn dec_chars(n: u128) -> (v: Vec<char>)
    ensures
        v@ == dec(n as nat),
    decreases n,
{
    if n < 10 {
        let mut v = Vec::new();
        v.push(digit(n));
        assert(v@ =~= seq![digit_char(n as int)]);
        v
    } else {
        let mut v = dec_chars(n / 10);
        v.push(digit(n % 10));
        v
    }
}

/// Appends `n` in decimal (`{}` on an unsigned integer).
pub fn push_dec(out: &mut String, n: u128)
    ensures
        final(out)@ == old(out)@ + dec(n as nat),
{
    let v = dec_chars(n);
    append_chars(out, v.as_slice());
}

/// Appends `n` in decimal, zero-padded to `w` characters (`{:0w}`).
pub fn push_dec_padded(out: &mut String, n: u128, w: usize)
    ensures
        final(out)@ == old(out)@ + pad_zeros(dec(n as nat), w as nat),
{
    let v = dec_chars(n);
    let ghost o = out@;
    if v.len() < w {
        let mut zeros: Vec<char> = Vec::new();
        let k = w - v.len();
        while zeros.len() < k
            invariant
                zeros@.len() <= k,
                forall|i: int| 0 <= i < zeros@.len() ==> zeros@[i] == '0',
            decreases k - zeros@.len(),
        {
            zeros.push('0');
        }
        append_chars(out, zeros.as_slice());
        append_chars(out, v.as_slice());
        assert(zeros@ =~= Seq::new((w - v@.len()) as nat, |i: int| '0'));
        assert(out@ =~= o + pad_zeros(dec(n as nat), w as nat));
    } else {
        append_chars(out, v.as_slice());
    }
}

/// The pieces joined with `sep` between consecutive pieces (`[T]::join`).
pub open spec fn join(parts: Seq<Seq<char>>, sep: Seq<char>) -> Seq<char>
    decreases parts.len(),
{
    if parts.len() == 0 {
        Seq::empty()
    } else if parts.len() == 1 {
        parts[0]
    } else {
        join(parts.drop_last(), sep) + sep + parts.last()
    }
}

/// The views of a sequence of strings.
pub open spec fn string_views(v: Seq<String>) -> Seq<Seq<char>> {
    v.map_values(|s: String| s@)
}

/// Appends the strings joined with `sep`.
pub fn push_joined(out: &mut String, parts: &Vec<String>, sep: &str)
    ensures
        final(out)@ == old(out)@ + join(string_views(parts@), sep@),
{
    let ghost o = out@;
    let ghost ps = string_views(parts@);
    let mut i: usize = 0;
    assert(ps.take(0) =~= Seq::<Seq<char>>::empty());
    assert(out@ =~= o + join(ps.take(0), sep@));
    while i < parts.len()
        invariant
            i <= parts@.len(),
            ps == string_views(parts@),
            out@ == o + join(ps.take(i as int), sep@),
        decreases parts@.len() - i,
    {
        if i > 0 {
            out.append(sep);
        }
        out.append(parts[i].as_str());
        proof {
            let t = ps.take(i + 1);
            assert(t.drop_last() =~= ps.take(i as int));
            assert(t.last() == parts@[i as int]@);
            if i == 0 {
                assert(t.len() == 1);
            }
        }
        i = i + 1;
        assert(out@ =~= o + join(ps.take(i as int), sep@));
    }
    assert(ps.take(parts@.len() as int) =~= ps);
}

/// Number of bytes in the UTF-8 encoding of `c`.
pub open spec fn utf8_width(c: char) -> nat {
    let u = c as u32;
    if u < 0x80 {
        1
    } else if u < 0x800 {
        2
    } else if u < 0x10000 {
        3
    } else {
        4
    }
}

/// Number of bytes in the UTF-8 encoding of `s` (`str::len`).
pub open spec fn utf8_len(s: Seq<char>) -> nat
    decreases s.len(),
{
    if s.len() == 0 {
        0
    } else {
        utf8_width(s[0]) + utf8_len(s.drop_first())
    }
}

/// The byte length of `str` is the sum of the UTF-8 widths of its characters.
pub proof fn lemma_utf8_len_encode(s: Seq<char>)
    ensures
        vstd::utf8::encode_utf8(s).len() == utf8_len(s),
    decreases s.len(),
{
    if s.len() > 0 {
        let c = s[0];
        vstd::utf8::char_is_scalar(c);
        lemma_utf8_len_encode(s.drop_first());
    }
}

/// Byte length adds up over concatenation.
pub proof fn lemma_utf8_len_concat(a: Seq<char>, b: Seq<char>)
    ensures
        utf8_len(a + b) == utf8_len(a) + utf8_len(b),
    decreases a.len(),
{
    if a.len() > 0 {
        assert((a + b).drop_first() =~= a.drop_first() + b);
        lemma_utf8_len_concat(a.drop_first(), b);
    } else {
        assert(a + b =~= b);
    }
}

proof fn lemma_utf8_len_take_step(s: Seq<char>, i: int)
    requires
        0 <= i < s.len(),
    ensures
        utf8_len(s.take(i + 1)) == utf8_len(s.take(i)) + utf8_width(s[i]),
{
    assert(s.take(i + 1) =~= s.take(i) + seq![s[i]]);
    lemma_utf8_len_concat(s.take(i), seq![s[i]]);
    assert(seq![s[i]].drop_first() =~= Seq::<char>::empty());
    reveal_with_fuel(utf8_len, 2);
}

fn width_of(c: char) -> (w: usize)
    ensures
        w == utf8_width(c),
{
    let u = c as u32;
    if u < 0x80 {
        1
    } else if u < 0x800 {
        2
    } else if u < 0x10000 {
        3
    } else {
        4
    }
}

/// Byte length of the UTF-8 encoding of `s`.
pub fn byte_len(s: &[char]) -> (n: u128)
    ensures
        n == utf8_len(s@),
{
    let mut i: usize = 0;
    let mut acc: u128 = 0;
    assert(s@.take(0) =~= Seq::<char>::empty());
    while i < s.len()
        invariant
            i <= s@.len(),
            acc == utf8_len(s@.take(i as int)),
            acc <= 4 * i,
        decreases s@.len() - i,
    {
        proof {
            lemma_utf8_len_take_step(s@, i as int);
        }
        acc = acc + width_of(s[i]) as u128;
        i = i + 1;
    }
    assert(s@.take(s@.len() as int) =~= s@);
    acc
}

/// Byte offset `k` falls between two characters of `s` (`str::is_char_boundary`).
pub open spec fn is_boundary(s: Seq<char>, k: int) -> bool {
    exists|i: int| 0 <= i <= s.len() && utf8_len(s.take(i)) == k
}

/// The characters of `s` that lie before byte offset `k` (`&s[..k]`).
pub open spec fn byte_prefix(s: Seq<char>, k: int) -> Seq<char> {
    s.take(choose|i: int| 0 <= i <= s.len() && utf8_len(s.take(i)) == k)
}

proof fn lemma_utf8_len_take_mono(s: Seq<char>, i: int, j: int)
    requires
        0 <= i < j <= s.len(),
    ensures
        utf8_len(s.take(i)) < utf8_len(s.take(j)),
    decreases j - i,
{
    lemma_utf8_len_take_step(s, j - 1);
    if i < j - 1 {
        lemma_utf8_len_take_mono(s, i, j - 1);
    }
}

/// Prefix of `s` ending at byte offset `k`, which must be a character boundary.
pub fn prefix_bytes(s: &[char], k: usize) -> (r: Vec<char>)
    requires
        is_boundary(s@, k as int),
    ensures
        r@ == byte_prefix(s@, k as int),
{
    let ghost w = choose|i: int| 0 <= i <= s@.len() && utf8_len(s@.take(i)) == k;
    let mut i: usize = 0;
    let mut acc: usize = 0;
    assert(s@.take(0) =~= Seq::<char>::empty());
    while acc < k
        invariant
            0 <= w <= s@.len(),
            utf8_len(s@.take(w)) == k,
            i <= w,
            acc == utf8_len(s@.take(i as int)),
        decreases w - i,
    {
        proof {
            if i == w {
                assert(acc == k);
            }
            lemma_utf8_len_take_step(s@, i as int);
        }
        let wd = width_of(s[i]);
        proof {
            if i + 1 < w {
                lemma_utf8_len_take_mono(s@, i + 1, w);
            }
        }
        acc = acc + wd;
        i = i + 1;
    }
    proof {
        if i < w {
            lemma_utf8_len_take_mono(s@, i as int, w);
        }
    }
    sub_chars(s, 0, i)
}

/// Lower-case mapping of Unicode text (`str::to_lowercase`); its full
/// definition is the Unicode case tables.
pub uninterp spec fn lowercase(s: Seq<char>) -> Seq<char>;

/// Text made only of ASCII characters.
pub open spec fn is_ascii_text(s: Seq<char>) -> bool {
    forall|i: int| 0 <= i < s.len() ==> (s[i] as u32) < 128
}

/// The ASCII lower case of each character: `A`-`Z` become `a`-`z`, every
/// other character stays.
pub open spec fn ascii_lower(s: Seq<char>) -> Seq<char> {
    s.map_values(|c: char| if 65 <= (c as u32) <= 90 { ((c as u32) + 32) as char } else { c })
}

/// Lower-case mapping as `str::to_lowercase` gives it: the ASCII lower case
/// of each character for ASCII text, the Unicode mapping otherwise.
pub open spec fn lower(s: Seq<char>) -> Seq<char> {
    if is_ascii_text(s) {
        ascii_lower(s)
    } else {
        lowercase(s)
    }
}

/// `str::to_lowercase`: the string equals `lowercase` applied to the input;
/// on ASCII text that is the ASCII lower case of each character (the
/// Unicode lowercase mapping of ASCII letters is their ASCII lowercase, and
/// other ASCII characters have none).
#[verifier::external_body]
pub(crate) fn to_lowercase(s: &str) -> (r: String)
    ensures
        r@ == lowercase(s@),
        is_ascii_text(s@) ==> r@ == ascii_lower(s@),
{
    s.to_lowercase()
}

/// The index of the first whitespace character of `s`, if any.
#[verifier::opaque]
pub open spec fn first_ws(s: Seq<char>) -> Option<int> {
    if exists|i: int| 0 <= i < s.len() && is_ws(s[i]) {
        Some(choose|i: int| 0 <= i < s.len() && is_ws(s[i]) && forall|k: int| 0 <= k < i ==> !is_ws(s[k]))
    } else {
        None
    }
}

/// Finds the first whitespace character (`str::find(char::is_whitespace)`).
pub fn find_ws(s: &[char]) -> (r: Option<usize>)
    ensures
        r matches Some(i) ==> i < s@.len() && first_ws(s@) == Some(i as int),
        r is None ==> first_ws(s@) is None,
{
    let mut i: usize = 0;
    while i < s.len()
        invariant
            i <= s@.len(),
            forall|k: int| 0 <= k < i ==> !is_ws(s@[k]),
        decreases s@.len() - i,
    {
        if is_whitespace(s[i]) {
            proof {
                reveal(first_ws);
                let ii = i as int;
                assert(exists|j: int|
                    0 <= j < s@.len() && is_ws(s@[j]) && forall|k: int| 0 <= k < j ==> !is_ws(s@[k]))
                    by {
                    assert(0 <= ii < s@.len() && is_ws(s@[ii]) && forall|k: int| 0 <= k < ii ==> !is_ws(s@[k]));
                }
                assert(exists|j: int| 0 <= j < s@.len() && is_ws(s@[j]));
                let w = choose|j: int|
                    0 <= j < s@.len() && is_ws(s@[j]) && forall|k: int| 0 <= k < j ==> !is_ws(s@[k]);
                if w < ii {
                    assert(!is_ws(s@[w]));
                } else if w > ii {
                    assert(!is_ws(s@[ii]));
                }
            }
            return Some(i);
        }
        i = i + 1;
    }
    proof {
        reveal(first_ws);
    }
    None
}

/// `c` is an ASCII decimal digit.
pub open spec fn is_digit(c: char) -> bool {
    48 <= (c as u32) <= 57
}

/// The number written by the decimal digits `s`.
pub open spec fn digits_value(s: Seq<char>) -> nat
    decreases s.len(),
{
    if s.len() == 0 {
        0
    } else {
        digits_value(s.drop_last()) * 10 + ((s.last() as u32) - 48) as nat
    }
}

/// `s` without a leading `+`.
pub open spec fn strip_plus(s: Seq<char>) -> Seq<char> {
    if s.len() > 0 && s[0] == '+' {
        s.drop_first()
    } else {
        s
    }
}

/// Every character of `d` is a decimal digit.
pub open spec fn all_digits(d: Seq<char>) -> bool {
    forall|i: int| 0 <= i < d.len() ==> is_digit(d[i])
}

/// What `str::parse::<u32>` accepts: an optional `+`, then one or more
/// decimal digits whose value fits in a `u32`.
pub open spec fn parse_u32_spec(s: Seq<char>) -> Option<u32> {
    let d = strip_plus(s);
    if d.len() > 0 && all_digits(d) && digits_value(d) <= u32::MAX {
        Some(digits_value(d) as u32)
    } else {
        None
    }
}

proof fn lemma_digits_value_step(s: Seq<char>, i: int)
    requires
        0 <= i < s.len(),
    ensures
        digits_value(s.take(i + 1)) == digits_value(s.take(i)) * 10 + ((s[i] as u32) - 48) as nat,
{
    assert(s.take(i + 1).drop_last() =~= s.take(i));
}

/// Parses an unsigned 32-bit decimal number (`str::parse::<u32>`).
pub fn parse_u32(s: &[char]) -> (r: Option<u32>)
    ensures
        r == parse_u32_spec(s@),
{
    let start: usize = if s.len() > 0 && s[0] == '+' {
        1
    } else {
        0
    };
    let ghost d = strip_plus(s@);
    assert(d =~= s@.skip(start as int));
    if start >= s.len() {
        return None;
    }
    let mut i: usize = start;
    let mut acc: u64 = 0;
    let mut over = false;
    assert(d.take(0) =~= Seq::<char>::empty());
    while i < s.len()
        invariant
            start <= i <= s@.len(),
            d =~= s@.skip(start as int),
            d == strip_plus(s@),
            forall|k: int| 0 <= k < i - start ==> is_digit(d[k]),
            over == (digits_value(d.take(i - start)) > u32::MAX),
            !over ==> acc == digits_value(d.take(i - start)),
        decreases s@.len() - i,
    {
        let c = s[i];
        let u = c as u32;
        assert(d[i - start] == s@[i as int]);
        assert(is_digit(d[i - start]) == (48 <= u && u <= 57));
        if u < 48 || u > 57 {
            assert(!is_digit(d[i - start]));
            return None;
        }
        proof {
            lemma_digits_value_step(d, i - start);
        }
        if !over {
            let next = acc * 10 + (u - 48) as u64;
            if next > 0xFFFF_FFFF {
                over = true;
            } else {
                acc = next;
            }
        }
        i = i + 1;
    }
    assert(d.take(d.len() as int) =~= d);
    if over {
        None
    } else {
        Some(acc as u32)
    }
}

/// The pieces written one after another.
pub open spec fn flatten(parts: Seq<Seq<char>>) -> Seq<char>
    decreases parts.len(),
{
    if parts.len() == 0 {
        Seq::empty()
    } else {
        flatten(parts.drop_last()) + parts.last()
    }
}

/// Writing one more piece extends the flattened text by that piece.
pub proof fn lemma_flatten_take(parts: Seq<Seq<char>>, i: int)
    requires
        0 <= i < parts.len(),
    ensures
        flatten(parts.take(i + 1)) == flatten(parts.take(i)) + parts[i],
{
    assert(parts.take(i + 1).drop_last() =~= parts.take(i));
}

/// Flattening the empty prefix gives nothing; the full prefix gives everything.
pub proof fn lemma_flatten_ends(parts: Seq<Seq<char>>)
    ensures
        flatten(parts.take(0)) == Seq::<char>::empty(),
        flatten(parts.take(parts.len() as int)) == flatten(parts),
{
    assert(parts.take(0) =~= Seq::<Seq<char>>::empty());
    assert(parts.take(parts.len() as int) =~= parts);
}

/// One line per item: `prefix`, the item, a newline.
pub open spec fn bullets(items: Seq<Seq<char>>, prefix: Seq<char>) -> Seq<char> {
    flatten(Seq::new(items.len(), |i: int| prefix + items[i] + "\n"@))
}

/// Appends one line per item: `prefix`, the item, a newline.
pub fn push_bullets(out: &mut String, items: &Vec<String>, prefix: &str)
    ensures
        final(out)@ == old(out)@ + bullets(string_views(items@), prefix@),
{
    let ghost o = out@;
    let ghost its = string_views(items@);
    let ghost parts = Seq::new(its.len(), |i: int| prefix@ + its[i] + "\n"@);
    proof {
        lemma_flatten_ends(parts);
    }
    let mut i: usize = 0;
    while i < items.len()
        invariant
            i <= items@.len(),
            its == string_views(items@),
            parts == Seq::new(its.len(), |i: int| prefix@ + its[i] + "\n"@),
            out@ == o + flatten(parts.take(i as int)),
        decreases items@.len() - i,
    {
        proof {
            lemma_flatten_take(parts, i as int);
        }
        out.append(prefix);
        out.append(items[i].as_str());
        out.append("\n");
        i = i + 1;
        assert(out@ =~= o + flatten(parts.take(i as int)));
    }
    proof {
        lemma_flatten_ends(parts);
    }
}

/// The `i`-th string, or `default` past the end (`get(i).unwrap_or(default)`).
pub open spec fn nth_or(v: Seq<Seq<char>>, i: int, default: Seq<char>) -> Seq<char> {
    if 0 <= i < v.len() {
        v[i]
    } else {
        default
    }
}

/// `v.get(i).unwrap_or(&"")` on a vector of strings.
pub fn get_or_empty(v: &Vec<String>, i: usize) -> (r: &str)
    ensures
        r@ == nth_or(string_views(v@), i as int, Seq::empty()),
{
    if i < v.len() {
        v[i].as_str()
    } else {
        proof {
            reveal_strlit("");
        }
        assert(""@ =~= Seq::<char>::empty());
        ""
    }
}

/// Lexicographic order on characters by code point (the order of `str`).
pub open spec fn lex_le(a: Seq<char>, b: Seq<char>) -> bool
    decreases a.len(),
{
    if a.len() == 0 {
        true
    } else if b.len() == 0 {
        false
    } else if a[0] != b[0] {
        (a[0] as u32) < (b[0] as u32)
    } else {
        lex_le(a.drop_first(), b.drop_first())
    }
}

proof fn lemma_lex_reflexive(a: Seq<char>)
    ensures
        lex_le(a, a),
    decreases a.len(),
{
    if a.len() > 0 {
        lemma_lex_reflexive(a.drop_first());
    }
}

proof fn lemma_lex_antisymmetric(a: Seq<char>, b: Seq<char>)
    requires
        lex_le(a, b),
        lex_le(b, a),
    ensures
        a == b,
    decreases a.len(),
{
    if a.len() == 0 || b.len() == 0 {
        assert(a =~= b);
    } else {
        vstd::utf8::char_u32_cast(a[0], a[0] as u32);
        vstd::utf8::char_u32_cast(b[0], b[0] as u32);
        lemma_lex_antisymmetric(a.drop_first(), b.drop_first());
        assert(a =~= seq![a[0]] + a.drop_first());
        assert(b =~= seq![b[0]] + b.drop_first());
    }
}

proof fn lemma_lex_transitive(a: Seq<char>, b: Seq<char>, c: Seq<char>)
    requires
        lex_le(a, b),
        lex_le(b, c),
    ensures
        lex_le(a, c),
    decreases a.len(),
{
    if a.len() > 0 && b.len() > 0 && c.len() > 0 {
        vstd::utf8::char_u32_cast(a[0], a[0] as u32);
        vstd::utf8::char_u32_cast(b[0], b[0] as u32);
        vstd::utf8::char_u32_cast(c[0], c[0] as u32);
        if a[0] == b[0] && b[0] == c[0] {
            lemma_lex_transitive(a.drop_first(), b.drop_first(), c.drop_first());
        }
    }
}

proof fn lemma_lex_total(a: Seq<char>, b: Seq<char>)
    ensures
        lex_le(a, b) || lex_le(b, a),
    decreases a.len(),
{
    if a.len() > 0 && b.len() > 0 {
        vstd::utf8::char_u32_cast(a[0], a[0] as u32);
        vstd::utf8::char_u32_cast(b[0], b[0] as u32);
        lemma_lex_total(a.drop_first(), b.drop_first());
    }
}

/// Order on (name, count) pairs: by name, then by count.
pub open spec fn pair_le() -> spec_fn((Seq<char>, nat), (Seq<char>, nat)) -> bool {
    |x: (Seq<char>, nat), y: (Seq<char>, nat)|
        if x.0 == y.0 {
            x.1 <= y.1
        } else {
            lex_le(x.0, y.0)
        }
}

/// The pair order is a total order.
pub proof fn lemma_pair_le_total_ordering()
    ensures
        vstd::relations::total_ordering(pair_le()),
{
    let r = pair_le();
    assert forall|x: (Seq<char>, nat)| #[trigger] r(x, x) by {
        lemma_lex_reflexive(x.0);
    }
    assert forall|x: (Seq<char>, nat), y: (Seq<char>, nat)| #[trigger] r(x, y) && #[trigger] r(y, x)
        implies x == y by {
        if x.0 != y.0 {
            lemma_lex_antisymmetric(x.0, y.0);
        }
    }
    assert forall|x: (Seq<char>, nat), y: (Seq<char>, nat), z: (Seq<char>, nat)|
        #[trigger] r(x, y) && #[trigger] r(y, z) implies r(x, z) by {
        if x.0 != y.0 && y.0 != z.0 {
            lemma_lex_transitive(x.0, y.0, z.0);
            if x.0 == z.0 {
                lemma_lex_antisymmetric(x.0, y.0);
            }
        } else if x.0 == y.0 && y.0 != z.0 {
        } else if x.0 != y.0 && y.0 == z.0 {
        }
    }
    assert forall|x: (Seq<char>, nat), y: (Seq<char>, nat)| #[trigger] r(x, y) || #[trigger] r(
        y,
        x,
    ) by {
        lemma_lex_total(x.0, y.0);
    }
}

/// Lexicographic comparison of character sequences.
pub fn lex_le_chars(a: &[char], b: &[char]) -> (r: bool)
    ensures
        r == lex_le(a@, b@),
{
    let mut i: usize = 0;
    assert(a@.skip(0) =~= a@);
    assert(b@.skip(0) =~= b@);
    while i < a.len() && i < b.len()
        invariant
            i <= a@.len(),
            i <= b@.len(),
            lex_le(a@, b@) == lex_le(a@.skip(i as int), b@.skip(i as int)),
        decreases a@.len() - i,
    {
        assert(a@.skip(i as int)[0] == a@[i as int]);
        assert(b@.skip(i as int)[0] == b@[i as int]);
        if a[i] != b[i] {
            return (a[i] as u32) < (b[i] as u32);
        }
        assert(a@.skip(i as int).drop_first() =~= a@.skip(i + 1));
        assert(b@.skip(i as int).drop_first() =~= b@.skip(i + 1));
        i = i + 1;
    }
    i == a.len()
}

/// Views of (string, count) pairs.
pub open spec fn pair_views(v: Seq<(String, usize)>) -> Seq<(Seq<char>, nat)> {
    v.map_values(|p: (String, usize)| (p.0@, p.1 as nat))
}

fn pair_le_exec(x: &(String, usize), y: &(String, usize)) -> (r: bool)
    ensures
        r == pair_le()((x.0@, x.1 as nat), (y.0@, y.1 as nat)),
{
    let a = chars_of(x.0.as_str());
    let b = chars_of(y.0.as_str());
    if chars_eq(a.as_slice(), b.as_slice()) {
        x.1 <= y.1
    } else {
        lex_le_chars(a.as_slice(), b.as_slice())
    }
}

/// Sorts (name, count) pairs by name, then count.
pub fn sort_pairs(input: Vec<(String, usize)>) -> (r: Vec<(String, usize)>)
    ensures
        pair_views(r@) == pair_views(input@).sort_by(pair_le()),
{
    broadcast use vstd::seq_lib::group_to_multiset_ensures;
    broadcast use vstd::multiset::group_multiset_axioms;

    let ghost all = pair_views(input@);
    let ghost le = pair_le();
    proof {
        lemma_pair_le_total_ordering();
    }
    let mut rest = input;
    let mut out: Vec<(String, usize)> = Vec::new();
    assert(pair_views(out@) =~= Seq::<(Seq<char>, nat)>::empty());
    while rest.len() > 0
        invariant
            le == pair_le(),
            vstd::relations::total_ordering(le),
            vstd::relations::sorted_by(pair_views(out@), le),
            pair_views(out@).to_multiset().add(pair_views(rest@).to_multiset()) == all.to_multiset(),
            forall|a: int, b: int|
                0 <= a < out@.len() && 0 <= b < rest@.len() ==> le(
                    #[trigger] pair_views(out@)[a],
                    #[trigger] pair_views(rest@)[b],
                ),
        decreases rest@.len(),
    {
        let ghost pr = pair_views(rest@);
        let ghost po = pair_views(out@);
        let mut m: usize = 0;
        let mut j: usize = 1;
        while j < rest.len()
            invariant
                le == pair_le(),
                vstd::relations::total_ordering(le),
                pr == pair_views(rest@),
                0 < rest@.len(),
                m < j <= rest@.len(),
                forall|k: int| 0 <= k < j ==> le(pr[m as int], #[trigger] pr[k]),
            decreases rest@.len() - j,
        {
            if !pair_le_exec(&rest[m], &rest[j]) {
                proof {
                    assert(le(pr[j as int], pr[m as int]));
                    assert forall|k: int| 0 <= k < j + 1 implies le(pr[j as int], #[trigger] pr[k]) by {
                        if k < j {
                            assert(le(pr[m as int], pr[k]));
                        }
                    }
                }
                m = j;
            }
            j = j + 1;
        }
        let x = rest.remove(m);
        proof {
            assert(pair_views(rest@) =~= pr.remove(m as int));
            vstd::seq_lib::to_multiset_remove(pr, m as int);
        }
        out.push(x);
        proof {
            assert(pair_views(out@) =~= po.push(pr[m as int]));
            vstd::seq_lib::to_multiset_build(po, pr[m as int]);
            assert forall|a: int, b: int|
                0 <= a < out@.len() && 0 <= b < rest@.len() implies le(
                #[trigger] pair_views(out@)[a],
                #[trigger] pair_views(rest@)[b],
            ) by {
                let bb = if b < m {
                    b
                } else {
                    b + 1
                };
                assert(pair_views(rest@)[b] == pr[bb]);
                if a < po.len() {
                    assert(le(po[a], pr[bb]));
                } else {
                    assert(le(pr[m as int], pr[bb]));
                }
            }
            assert forall|a: int, b: int|
                0 <= a < b < pair_views(out@).len() implies le(
                pair_views(out@)[a],
                pair_views(out@)[b],
            ) by {
                if b < po.len() {
                    assert(le(po[a], po[b]));
                } else {
                    assert(le(po[a], pr[m as int]));
                }
            }
            assert(pr.contains(pr[m as int]));
            vstd::seq_lib::to_multiset_contains(pr, pr[m as int]);
            assert(pair_views(out@).to_multiset().add(pair_views(rest@).to_multiset())
                =~= all.to_multiset());
        }
    }
    proof {
        assert(pair_views(rest@) =~= Seq::<(Seq<char>, nat)>::empty());
        assert(pair_views(rest@).to_multiset() =~= vstd::multiset::Multiset::empty());
        assert(pair_views(out@).to_multiset() =~= all.to_multiset());
        all.lemma_sort_by_ensures(le);
        assert(all.sort_by(le).to_multiset() == pair_views(out@).to_multiset());
        vstd::seq_lib::lemma_sorted_unique(pair_views(out@), all.sort_by(le), le);
    }
    out
}

/// Text that neither starts nor ends with whitespace is its own trim.
pub proof fn lemma_trim_plain(s: Seq<char>)
    requires
        s.len() > 0,
        !is_ws(s[0]),
        !is_ws(s.last()),
    ensures
        trim(s) == s,
{
}

proof fn lemma_digit_char(d: int)
    requires
        0 <= d < 10,
    ensures
        digit_char(d) as u32 == 48 + d,
{
}

/// Decimal notation is one or more digits whose value is the number.
pub proof fn lemma_dec_digits(n: nat)
    ensures
        dec(n).len() > 0,
        all_digits(dec(n)),
        digits_value(dec(n)) == n,
    decreases n,
{
    let d = dec(n);
    if n >= 10 {
        lemma_dec_digits(n / 10);
        lemma_digit_char((n % 10) as int);
        assert(d.drop_last() =~= dec(n / 10));
        assert(forall|i: int| 0 <= i < d.len() - 1 ==> d[i] == dec(n / 10)[i]);
        assert(digits_value(d) == digits_value(dec(n / 10)) * 10 + (n % 10));
    } else {
        lemma_digit_char(n as int);
        assert(d.drop_last() =~= Seq::<char>::empty());
        assert(digits_value(d) == digits_value(d.drop_last()) * 10 + n);
    }
}

/// Text without the separator is one piece.
pub proof fn lemma_split_single(s: Seq<char>, sep: char)
    requires
        forall|i: int| 0 <= i < s.len() ==> s[i] != sep,
    ensures
        split(s, sep) == seq![s],
    decreases s.len(),
{
    if s.len() > 0 {
        lemma_split_single(s.drop_last(), sep);
        assert(s[s.len() - 1] != sep);
        assert(s.drop_last().push(s.last()) =~= s);
        assert(seq![s.drop_last()].update(0, s.drop_last().push(s.last())) =~= seq![s]);
    } else {
        assert(s =~= Seq::<char>::empty());
    }
}

/// Two pieces without the separator, joined by it, split back into them.
pub proof fn lemma_split_pair(a: Seq<char>, b: Seq<char>, sep: char)
    requires
        forall|i: int| 0 <= i < a.len() ==> a[i] != sep,
        forall|i: int| 0 <= i < b.len() ==> b[i] != sep,
    ensures
        split(a + seq![sep] + b, sep) == seq![a, b],
    decreases b.len(),
{
    let s = a + seq![sep] + b;
    if b.len() == 0 {
        assert(s =~= a.push(sep));
        assert(s.drop_last() =~= a);
        lemma_split_single(a, sep);
        assert(b =~= Seq::<char>::empty());
        assert(seq![a].push(Seq::<char>::empty()) =~= seq![a, b]);
    } else {
        lemma_split_pair(a, b.drop_last(), sep);
        assert(s.drop_last() =~= a + seq![sep] + b.drop_last());
        assert(b.drop_last().push(b.last()) =~= b);
        assert(seq![a, b.drop_last()].update(1, b.drop_last().push(b.last())) =~= seq![a, b]);
    }
}

/// Flattening distributes over concatenation.
pub proof fn lemma_flatten_concat(x: Seq<Seq<char>>, y: Seq<Seq<char>>)
    ensures
        flatten(x + y) == flatten(x) + flatten(y),
    decreases y.len(),
{
    if y.len() == 0 {
        assert(x + y =~= x);
        assert(flatten(x) + flatten(y) =~= flatten(x));
    } else {
        assert((x + y).drop_last() =~= x + y.drop_last());
        assert((x + y).last() == y.last());
        lemma_flatten_concat(x, y.drop_last());
        assert(flatten(x) + flatten(y) =~= flatten(x) + flatten(y.drop_last()) + y.last());
    }
}

/// The first whitespace is found where it stands when none comes before.
pub proof fn lemma_first_ws_at(t: Seq<char>, i: int)
    requires
        0 <= i < t.len(),
        is_ws(t[i]),
        forall|k: int| 0 <= k < i ==> !is_ws(t[k]),
    ensures
        first_ws(t) == Some(i),
{
    reveal(first_ws);
    assert(exists|j: int| 0 <= j < t.len() && is_ws(t[j]));
    assert(exists|j: int| 0 <= j < t.len() && is_ws(t[j]) && forall|k: int| 0 <= k < j ==> !is_ws(t[k]));
    let w = choose|j: int| 0 <= j < t.len() && is_ws(t[j]) && forall|k: int| 0 <= k < j ==> !is_ws(t[k]);
    if w < i {
        assert(!is_ws(t[w]));
    } else if w > i {
        assert(!is_ws(t[i]));
    }
}

/// A piece occurs in any text that has it between two other pieces.
pub proof fn lemma_contains_middle(a: Seq<char>, x: Seq<char>, b: Seq<char>)
    ensures
        contains_seq(a + x + b, x),
{
    assert((a + x + b).subrange(a.len() as int, (a.len() + x.len()) as int) =~= x);
    assert(occurs_at(a + x + b, x, a.len() as int));
}

/// A piece occurs in any text that ends with it.
pub proof fn lemma_contains_end(a: Seq<char>, x: Seq<char>)
    ensures
        contains_seq(a + x, x),
{
    assert((a + x).subrange(a.len() as int, (a.len() + x.len()) as int) =~= x);
    assert(occurs_at(a + x, x, a.len() as int));
}

/// Occurrence carries over: a piece of a piece of a text is a piece of it.
pub proof fn lemma_contains_trans(t: Seq<char>, x: Seq<char>, y: Seq<char>)
    requires
        contains_seq(t, x),
        contains_seq(x, y),
    ensures
        contains_seq(t, y),
{
    let i = choose|i: int| occurs_at(t, x, i);
    let j = choose|j: int| occurs_at(x, y, j);
    assert(t.subrange(i + j, i + j + y.len()) =~= x.subrange(j, j + y.len()));
    assert(occurs_at(t, y, i + j));
}

/// Every part occurs in the parts flattened.
pub proof fn lemma_flatten_contains(parts: Seq<Seq<char>>, i: int)
    requires
        0 <= i < parts.len(),
    ensures
        contains_seq(flatten(parts), parts[i]),
{
    assert(parts =~= parts.take(i) + seq![parts[i]] + parts.skip(i + 1));
    lemma_flatten_concat(parts.take(i) + seq![parts[i]], parts.skip(i + 1));
    lemma_flatten_concat(parts.take(i), seq![parts[i]]);
    let one = seq![parts[i]];
    assert(one.drop_last() =~= Seq::<Seq<char>>::empty());
    assert(flatten(one.drop_last()) =~= Seq::<char>::empty());
    assert(flatten(one) == flatten(one.drop_last()) + one.last());
    assert(flatten(one) =~= parts[i]);
    lemma_contains_middle(flatten(parts.take(i)), parts[i], flatten(parts.skip(i + 1)));
}

/// ASCII lower-casing goes character by character, so it distributes over
/// concatenation, and ASCII text stays ASCII when joined.
pub proof fn lemma_ascii_lower_concat(a: Seq<char>, b: Seq<char>)
    ensures
        ascii_lower(a + b) == ascii_lower(a) + ascii_lower(b),
        is_ascii_text(a) && is_ascii_text(b) ==> is_ascii_text(a + b),
{
    assert(ascii_lower(a + b) =~= ascii_lower(a) + ascii_lower(b));
    if is_ascii_text(a) && is_ascii_text(b) {
        assert forall|i: int| 0 <= i < (a + b).len() implies ((a + b)[i] as u32) < 128 by {
            if i < a.len() {
                assert((a + b)[i] == a[i]);
            } else {
                assert((a + b)[i] == b[i - a.len()]);
            }
        }
    }
}

} // verus!
