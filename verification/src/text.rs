//! Character-level text primitives with exact specifications.
//!
//! Strings are handled as sequences of `char`; every operation below is
//! specified over `Seq<char>` so that callers can state their results exactly.
use vstd::prelude::*;

verus! {

// ───────────────────────────── specifications ─────────────────────────────

/// `p` occurs in `s` starting at char index `i`.
pub open spec fn occurs_at(s: Seq<char>, p: Seq<char>, i: int) -> bool {
    &&& 0 <= i
    &&& i + p.len() <= s.len()
    &&& s.subrange(i, i + p.len()) == p
}

/// `p` occurs somewhere in `s` (the empty pattern occurs everywhere).
pub open spec fn seq_contains(s: Seq<char>, p: Seq<char>) -> bool {
    exists|i: int| occurs_at(s, p, i)
}

/// `i` is the first position at or after `from` where `p` occurs in `s`.
pub open spec fn is_first_occurrence_from(s: Seq<char>, p: Seq<char>, from: int, i: int) -> bool {
    &&& from <= i
    &&& occurs_at(s, p, i)
    &&& forall|j: int| from <= j < i ==> !occurs_at(s, p, j)
}

/// `s` starts with `p`.
pub open spec fn has_prefix(s: Seq<char>, p: Seq<char>) -> bool {
    p.len() <= s.len() && s.subrange(0, p.len() as int) == p
}

/// `s` ends with `p`.
pub open spec fn has_suffix(s: Seq<char>, p: Seq<char>) -> bool {
    p.len() <= s.len() && s.subrange(s.len() - p.len(), s.len() as int) == p
}

/// Unicode `White_Space` property (the set `char::is_whitespace` tests).
pub open spec fn is_ws(c: char) -> bool {
    ||| ('\u{9}' <= c && c <= '\u{d}')
    ||| c == ' '
    ||| c == '\u{85}'
    ||| c == '\u{a0}'
    ||| c == '\u{1680}'
    ||| ('\u{2000}' <= c && c <= '\u{200a}')
    ||| c == '\u{2028}'
    ||| c == '\u{2029}'
    ||| c == '\u{202f}'
    ||| c == '\u{205f}'
    ||| c == '\u{3000}'
}

/// `s` without its leading whitespace.
pub open spec fn trim_start(s: Seq<char>) -> Seq<char>
    decreases s.len(),
{
    if s.len() > 0 && is_ws(s[0]) {
        trim_start(s.drop_first())
    } else {
        s
    }
}

/// `s` without its trailing whitespace.
pub open spec fn trim_end(s: Seq<char>) -> Seq<char>
    decreases s.len(),
{
    if s.len() > 0 && is_ws(s.last()) {
        trim_end(s.drop_last())
    } else {
        s
    }
}

/// `s` without leading and trailing whitespace.
pub open spec fn trim(s: Seq<char>) -> Seq<char> {
    trim_end(trim_start(s))
}

/// ASCII lower-casing of one char; every other char is kept.
pub open spec fn ascii_lower_char(c: char) -> char {
    if 'A' <= c && c <= 'Z' {
        ((c as u32) + 32) as char
    } else {
        c
    }
}

/// ASCII lower-casing of a whole sequence.
pub open spec fn ascii_lower(s: Seq<char>) -> Seq<char> {
    s.map_values(|c: char| ascii_lower_char(c))
}

/// Equality ignoring ASCII case.
pub open spec fn eq_ignore_ascii_case(a: Seq<char>, b: Seq<char>) -> bool {
    ascii_lower(a) == ascii_lower(b)
}

// ───────────────────────────── lemmas ─────────────────────────────

/// Trimming the start leaves a suffix whose first char (if any) is not whitespace.
pub proof fn lemma_trim_start_shape(s: Seq<char>)
    ensures
        trim_start(s).len() <= s.len(),
        trim_start(s) == s.subrange(s.len() - trim_start(s).len(), s.len() as int),
        trim_start(s).len() > 0 ==> !is_ws(trim_start(s)[0]),
        forall|k: int| 0 <= k < s.len() - trim_start(s).len() ==> is_ws(s[k]),
    decreases s.len(),
{
    if s.len() > 0 && is_ws(s[0]) {
        lemma_trim_start_shape(s.drop_first());
        assert(s.drop_first().subrange(
            s.drop_first().len() - trim_start(s.drop_first()).len(),
            s.drop_first().len() as int,
        ) =~= s.subrange(s.len() - trim_start(s).len(), s.len() as int));
        assert forall|k: int| 0 <= k < s.len() - trim_start(s).len() implies is_ws(s[k]) by {
            if k > 0 {
                assert(s[k] == s.drop_first()[k - 1]);
            }
        }
    } else {
        assert(s.subrange(0, s.len() as int) =~= s);
    }
}

/// Trimming the end leaves a prefix whose last char (if any) is not whitespace.
pub proof fn lemma_trim_end_shape(s: Seq<char>)
    ensures
        trim_end(s).len() <= s.len(),
        trim_end(s) == s.subrange(0, trim_end(s).len() as int),
        trim_end(s).len() > 0 ==> !is_ws(trim_end(s).last()),
        forall|k: int| trim_end(s).len() <= k < s.len() ==> is_ws(s[k]),
    decreases s.len(),
{
    if s.len() > 0 && is_ws(s.last()) {
        lemma_trim_end_shape(s.drop_last());
        assert(s.drop_last().subrange(0, trim_end(s.drop_last()).len() as int) =~= s.subrange(
            0,
            trim_end(s).len() as int,
        ));
        assert forall|k: int| trim_end(s).len() <= k < s.len() implies is_ws(s[k]) by {
            if k < s.len() - 1 {
                assert(s[k] == s.drop_last()[k]);
            }
        }
    } else {
        assert(s.subrange(0, s.len() as int) =~= s);
    }
}

/// A sequence is unchanged by `trim_start` exactly when it is empty or starts with non-whitespace.
pub proof fn lemma_trim_start_fixed(s: Seq<char>, k: int)
    requires
        0 <= k <= s.len(),
        forall|j: int| 0 <= j < k ==> is_ws(s[j]),
        k == s.len() || !is_ws(s[k]),
    ensures
        trim_start(s) == s.subrange(k, s.len() as int),
    decreases k,
{
    if k == 0 {
        assert(s.subrange(0, s.len() as int) =~= s);
    } else {
        lemma_trim_start_fixed(s.drop_first(), k - 1);
        assert(s.drop_first().subrange(k - 1, s.drop_first().len() as int) =~= s.subrange(
            k,
            s.len() as int,
        ));
    }
}

/// Characterises `trim_end` by the position of the last non-whitespace char.
pub proof fn lemma_trim_end_fixed(s: Seq<char>, k: int)
    requires
        0 <= k <= s.len(),
        forall|j: int| k <= j < s.len() ==> is_ws(s[j]),
        k == 0 || !is_ws(s[k - 1]),
    ensures
        trim_end(s) == s.subrange(0, k),
    decreases s.len() - k,
{
    if k == s.len() {
        assert(s.subrange(0, s.len() as int) =~= s);
    } else {
        lemma_trim_end_fixed(s.drop_last(), k);
        assert(s.drop_last().subrange(0, k) =~= s.subrange(0, k));
    }
}

// ───────────────────────────── std glue ─────────────────────────────

/// Appends one char to a `String` (`String::push`).
#[verifier::external_body]
pub(crate) fn push_char(s: &mut String, c: char)
    ensures
        final(s)@ == old(s)@.push(c),
{
    s.push(c);
}

// ───────────────────────────── executable operations ─────────────────────────────

/// The characters of a string slice, in order.
pub fn chars_of(s: &str) -> (v: Vec<char>)
    ensures
        v@ == s@,
{
    let mut v: Vec<char> = Vec::new();
    for c in it: s.chars()
        invariant
            v@ == it.seq().take(it.index() as int),
            it.seq() == s@,
    {
        v.push(c);
    }
    v
}

/// Appends every char of `v` to `out`.
pub fn push_chars(out: &mut String, v: &[char])
    ensures
        final(out)@ == old(out)@ + v@,
{
    let ghost start = out@;
    let mut i: usize = 0;
    while i < v.len()
        invariant
            i <= v.len(),
            out@ == start + v@.subrange(0, i as int),
        decreases v.len() - i,
    {
        push_char(out, v[i]);
        i = i + 1;
        assert(v@.subrange(0, i as int) =~= v@.subrange(0, i - 1).push(v@[i - 1]));
    }
    assert(v@.subrange(0, v.len() as int) =~= v@);
}

/// A `String` holding exactly the chars of `v`.
pub fn string_of(v: &[char]) -> (s: String)
    ensures
        s@ == v@,
{
    let mut s = String::new();
    push_chars(&mut s, v);
    assert(Seq::<char>::empty() + v@ =~= v@);
    s
}

/// A `String` equal to `s`.
pub fn owned(s: &str) -> (r: String)
    ensures
        r@ == s@,
{
    s.to_owned()
}

/// The chars `v[lo..hi]` as a new vector.
pub fn slice_chars(v: &[char], lo: usize, hi: usize) -> (r: Vec<char>)
    requires
        lo <= hi <= v.len(),
    ensures
        r@ == v@.subrange(lo as int, hi as int),
{
    let mut r: Vec<char> = Vec::new();
    let mut i = lo;
    while i < hi
        invariant
            lo <= i <= hi <= v.len(),
            r@ == v@.subrange(lo as int, i as int),
        decreases hi - i,
    {
        r.push(v[i]);
        i = i + 1;
        assert(v@.subrange(lo as int, i as int) =~= v@.subrange(lo as int, i - 1).push(
            v@[i - 1],
        ));
    }
    r
}

/// The bytes `v[lo..hi]` as a new vector.
pub fn slice_bytes(v: &[u8], lo: usize, hi: usize) -> (r: Vec<u8>)
    requires
        lo <= hi <= v.len(),
    ensures
        r@ == v@.subrange(lo as int, hi as int),
{
    let mut r: Vec<u8> = Vec::new();
    let mut i = lo;
    while i < hi
        invariant
            lo <= i <= hi <= v.len(),
            r@ == v@.subrange(lo as int, i as int),
        decreases hi - i,
    {
        r.push(v[i]);
        i = i + 1;
        assert(v@.subrange(lo as int, i as int) =~= v@.subrange(lo as int, i - 1).push(
            v@[i - 1],
        ));
    }
    r
}

/// Whether `p` occurs in `s` at char index `i`.
pub fn matches_at(s: &[char], p: &[char], i: usize) -> (b: bool)
    ensures
        b == occurs_at(s@, p@, i as int),
{
    if i > s.len() || p.len() > s.len() - i {
        return false;
    }
    let mut k: usize = 0;
    while k < p.len()
        invariant
            i + p.len() <= s.len(),
            k <= p.len(),
            forall|j: int| 0 <= j < k ==> s@[i + j] == p@[j],
        decreases p.len() - k,
    {
        if s[i + k] != p[k] {
            assert(s@.subrange(i as int, i + p.len())[k as int] != p@[k as int]);
            return false;
        }
        k = k + 1;
    }
    assert(s@.subrange(i as int, i + p.len()) =~= p@);
    true
}

/// First char index at or after `from` where `p` occurs in `s`.
pub fn find_from(s: &[char], p: &[char], from: usize) -> (r: Option<usize>)
    ensures
        r matches Some(i) ==> is_first_occurrence_from(s@, p@, from as int, i as int),
        r is None ==> forall|j: int| from <= j ==> !occurs_at(s@, p@, j),
{
    let mut i = from;
    while i < s.len()
        invariant
            from <= i,
            forall|j: int| from <= j < i ==> !occurs_at(s@, p@, j),
        decreases s.len() - i,
    {
        if matches_at(s, p, i) {
            return Some(i);
        }
        i = i + 1;
    }
    if matches_at(s, p, i) {
        return Some(i);
    }
    assert forall|j: int| from <= j implies !occurs_at(s@, p@, j) by {
        if j > i {
            assert(j + p@.len() > s@.len());
        }
    }
    None
}

/// Whether `p` occurs anywhere in `s`.
pub fn contains_chars(s: &[char], p: &[char]) -> (b: bool)
    ensures
        b == seq_contains(s@, p@),
{
    match find_from(s, p, 0) {
        Some(i) => true,
        None => {
            assert(forall|j: int| !occurs_at(s@, p@, j));
            false
        },
    }
}

/// Whether the string `s` contains the string `p`.
pub fn str_contains(s: &str, p: &str) -> (b: bool)
    ensures
        b == seq_contains(s@, p@),
{
    let sv = chars_of(s);
    let pv = chars_of(p);
    contains_chars(&sv, &pv)
}

/// Last char index at which `c` occurs in `s`.
pub fn rfind_char(s: &[char], c: char) -> (r: Option<usize>)
    ensures
        r matches Some(i) ==> i < s.len() && s@[i as int] == c && forall|j: int|
            i < j < s.len() ==> s@[j] != c,
        r is None ==> forall|j: int| 0 <= j < s.len() ==> s@[j] != c,
{
    let mut i = s.len();
    while i > 0
        invariant
            i <= s.len(),
            forall|j: int| i <= j < s.len() ==> s@[j] != c,
        decreases i,
    {
        i = i - 1;
        if s[i] == c {
            return Some(i);
        }
    }
    None
}

/// Whether `s` starts with `p`.
pub fn starts_with_chars(s: &[char], p: &[char]) -> (b: bool)
    ensures
        b == has_prefix(s@, p@),
{
    matches_at(s, p, 0)
}

/// Whether `s` ends with `p`.
pub fn ends_with_chars(s: &[char], p: &[char]) -> (b: bool)
    ensures
        b == has_suffix(s@, p@),
{
    if p.len() > s.len() {
        false
    } else {
        matches_at(s, p, s.len() - p.len())
    }
}

/// Whether `c` is Unicode whitespace (`char::is_whitespace`).
pub fn is_whitespace(c: char) -> (b: bool)
    ensures
        b == is_ws(c),
{
    ('\u{9}' <= c && c <= '\u{d}') || c == ' ' || c == '\u{85}' || c == '\u{a0}' || c
        == '\u{1680}' || ('\u{2000}' <= c && c <= '\u{200a}') || c == '\u{2028}' || c
        == '\u{2029}' || c == '\u{202f}' || c == '\u{205f}' || c == '\u{3000}'
}

/// Index of the first non-whitespace char (or `s.len()`).
pub fn trim_start_index(s: &[char]) -> (k: usize)
    ensures
        k <= s.len(),
        trim_start(s@) == s@.subrange(k as int, s.len() as int),
{
    let mut k: usize = 0;
    while k < s.len() && is_whitespace(s[k])
        invariant
            k <= s.len(),
            forall|j: int| 0 <= j < k ==> is_ws(s@[j]),
        decreases s.len() - k,
    {
        k = k + 1;
    }
    proof {
        lemma_trim_start_fixed(s@, k as int);
    }
    k
}

/// Index just after the last non-whitespace char (or 0).
pub fn trim_end_index(s: &[char]) -> (k: usize)
    ensures
        k <= s.len(),
        trim_end(s@) == s@.subrange(0, k as int),
{
    let mut k: usize = s.len();
    while k > 0 && is_whitespace(s[k - 1])
        invariant
            k <= s.len(),
            forall|j: int| k <= j < s.len() ==> is_ws(s@[j]),
        decreases k,
    {
        k = k - 1;
    }
    proof {
        lemma_trim_end_fixed(s@, k as int);
    }
    k
}

/// `s` without leading and trailing whitespace.
pub fn trim_chars(s: &[char]) -> (r: Vec<char>)
    ensures
        r@ == trim(s@),
{
    let lo = trim_start_index(s);
    let t = slice_chars(s, lo, s.len());
    let hi = trim_end_index(&t);
    slice_chars(&t, 0, hi)
}

/// Whether the trimmed `s` is empty (`s.trim().is_empty()`).
pub fn is_blank(s: &str) -> (b: bool)
    ensures
        b == (trim(s@).len() == 0),
{
    let v = chars_of(s);
    let lo = trim_start_index(&v);
    proof {
        lemma_trim_start_shape(s@);
        lemma_trim_end_shape(trim_start(s@));
    }
    lo == v.len()
}

/// `s.trim()` as a new `String`.
pub fn trim_str(s: &str) -> (r: String)
    ensures
        r@ == trim(s@),
{
    let v = chars_of(s);
    let t = trim_chars(&v);
    string_of(&t)
}

/// ASCII lower-case of one char.
pub fn to_ascii_lower_char(c: char) -> (r: char)
    ensures
        r == ascii_lower_char(c),
{
    if 'A' <= c && c <= 'Z' {
        let code: u32 = c as u32;
        proof {
            assert(65 <= code <= 90);
        }
        let lowered: u8 = (code + 32) as u8;
        lowered as char
    } else {
        c
    }
}

/// ASCII lower-case of a char sequence.
pub fn to_ascii_lower(s: &[char]) -> (r: Vec<char>)
    ensures
        r@ == ascii_lower(s@),
{
    let mut r: Vec<char> = Vec::new();
    let mut i: usize = 0;
    while i < s.len()
        invariant
            i <= s.len(),
            r@ == ascii_lower(s@.subrange(0, i as int)),
        decreases s.len() - i,
    {
        let c = to_ascii_lower_char(s[i]);
        r.push(c);
        i = i + 1;
        assert(ascii_lower(s@.subrange(0, i as int)) =~= ascii_lower(
            s@.subrange(0, i - 1),
        ).push(ascii_lower_char(s@[i - 1])));
    }
    assert(s@.subrange(0, s.len() as int) =~= s@);
    r
}

/// Equality of two char sequences.
pub fn chars_eq(a: &[char], b: &[char]) -> (r: bool)
    ensures
        r == (a@ == b@),
{
    if a.len() != b.len() {
        return false;
    }
    let mut i: usize = 0;
    while i < a.len()
        invariant
            a.len() == b.len(),
            i <= a.len(),
            forall|j: int| 0 <= j < i ==> a@[j] == b@[j],
        decreases a.len() - i,
    {
        if a[i] != b[i] {
            return false;
        }
        i = i + 1;
    }
    assert(a@ =~= b@);
    true
}

/// Equality of two strings.
pub fn str_eq(a: &str, b: &str) -> (r: bool)
    ensures
        r == (a@ == b@),
{
    let av = chars_of(a);
    let bv = chars_of(b);
    chars_eq(&av, &bv)
}

/// Equality ignoring ASCII case (`str::eq_ignore_ascii_case`).
pub fn str_eq_ignore_ascii_case(a: &str, b: &str) -> (r: bool)
    ensures
        r == eq_ignore_ascii_case(a@, b@),
{
    let av = chars_of(a);
    let bv = chars_of(b);
    let al = to_ascii_lower(&av);
    let bl = to_ascii_lower(&bv);
    chars_eq(&al, &bl)
}

/// The first position at or after `from` where `p` occurs in `s`, if any.
pub open spec fn first_from(s: Seq<char>, p: Seq<char>, from: int) -> Option<int> {
    if exists|i: int| is_first_occurrence_from(s, p, from, i) {
        Some(choose|i: int| is_first_occurrence_from(s, p, from, i))
    } else {
        None
    }
}

/// `first_from` is determined by the first occurrence.
pub proof fn lemma_first_from(s: Seq<char>, p: Seq<char>, from: int, i: int)
    requires
        is_first_occurrence_from(s, p, from, i),
    ensures
        first_from(s, p, from) == Some(i),
{
    let j = choose|j: int| is_first_occurrence_from(s, p, from, j);
    assert(is_first_occurrence_from(s, p, from, j));
    if j < i {
        assert(!occurs_at(s, p, j));
    } else if i < j {
        assert(!occurs_at(s, p, i));
    }
}

/// `first_from` is `None` when nothing occurs from `from` on.
pub proof fn lemma_first_from_none(s: Seq<char>, p: Seq<char>, from: int)
    requires
        forall|j: int| from <= j ==> !occurs_at(s, p, j),
    ensures
        first_from(s, p, from) is None,
{
}

/// The first position at or after `from` where `p` occurs in `s` (exact `first_from`).
pub fn find_first(s: &[char], p: &[char], from: usize) -> (r: Option<usize>)
    ensures
        match first_from(s@, p@, from as int) {
            Some(i) => r == Some(i as usize) && i <= s.len(),
            None => r is None,
        },
        r matches Some(i) ==> is_first_occurrence_from(s@, p@, from as int, i as int),
        r is None ==> forall|j: int| from <= j ==> !occurs_at(s@, p@, j),
{
    let r = find_from(s, p, from);
    proof {
        match r {
            Some(i) => {
                lemma_first_from(s@, p@, from as int, i as int);
            },
            None => {
                lemma_first_from_none(s@, p@, from as int);
            },
        }
    }
    r
}

/// `a + b` as a new `String`.
pub fn concat2(a: &str, b: &str) -> (r: String)
    ensures
        r@ == a@ + b@,
{
    let mut r = a.to_owned();
    let bv = chars_of(b);
    push_chars(&mut r, &bv);
    r
}

/// `a + b + c` as a new `String`.
pub fn concat3(a: &str, b: &str, c: &str) -> (r: String)
    ensures
        r@ == a@ + b@ + c@,
{
    let mut r = concat2(a, b);
    let cv = chars_of(c);
    push_chars(&mut r, &cv);
    r
}

/// Appends the text `t` to `out`.
pub fn push_str(out: &mut String, t: &str)
    ensures
        final(out)@ == old(out)@ + t@,
{
    let tv = chars_of(t);
    push_chars(out, &tv);
}

/// Views of a sequence of strings.
pub open spec fn views(v: Seq<String>) -> Seq<Seq<char>> {
    v.map_values(|s: String| s@)
}

/// `s` with every non-overlapping occurrence of `p` (found left to right) replaced by `r`
/// (`str::replace`); an empty pattern leaves `s` unchanged here.
pub open spec fn replace_all(s: Seq<char>, p: Seq<char>, r: Seq<char>) -> Seq<char>
    decreases s.len(),
{
    if p.len() == 0 {
        s
    } else {
        match first_from(s, p, 0) {
            None => s,
            Some(i) => if 0 <= i && i + p.len() <= s.len() {
                s.subrange(0, i) + r + replace_all(s.subrange(i + p.len(), s.len() as int), p, r)
            } else {
                s
            },
        }
    }
}

/// The occurrence test is unaffected by dropping a prefix that ends before it.
pub proof fn lemma_occurs_shift(s: Seq<char>, p: Seq<char>, k: int, j: int)
    requires
        0 <= k <= s.len(),
        0 <= j,
    ensures
        occurs_at(s.subrange(k, s.len() as int), p, j) == occurs_at(s, p, k + j),
{
    if occurs_at(s, p, k + j) {
        assert(s.subrange(k, s.len() as int).subrange(j, j + p.len()) =~= s.subrange(
            k + j,
            k + j + p.len(),
        ));
    }
    if occurs_at(s.subrange(k, s.len() as int), p, j) {
        assert(s.subrange(k, s.len() as int).subrange(j, j + p.len()) =~= s.subrange(
            k + j,
            k + j + p.len(),
        ));
    }
}

/// `replace_all` with the pattern as a literal: replaces every occurrence of `p` by `r`.
pub fn replace_chars(s: &[char], p: &[char], r: &[char]) -> (out: Vec<char>)
    ensures
        out@ == replace_all(s@, p@, r@),
{
    if p.len() == 0 {
        return slice_chars(s, 0, s.len());
    }
    let mut out: Vec<char> = Vec::new();
    let mut pos: usize = 0;
    assert(s@.subrange(0, s.len() as int) =~= s@);
    assert(out@ + s@ =~= s@);
    loop
        invariant
            p@.len() > 0,
            pos <= s.len(),
            out@ + replace_all(s@.subrange(pos as int, s.len() as int), p@, r@) == replace_all(
                s@,
                p@,
                r@,
            ),
        decreases s.len() - pos,
    {
        let ghost rest = s@.subrange(pos as int, s.len() as int);
        match find_first(s, p, pos) {
            None => {
                assert forall|j: int| 0 <= j implies !occurs_at(rest, p@, j) by {
                    lemma_occurs_shift(s@, p@, pos as int, j);
                }
                proof {
                    lemma_first_from_none(rest, p@, 0);
                }
                let tail = slice_chars(s, pos, s.len());
                let ghost before = out@;
                let mut i: usize = 0;
                while i < tail.len()
                    invariant
                        i <= tail.len(),
                        out@ == before + tail@.subrange(0, i as int),
                    decreases tail.len() - i,
                {
                    out.push(tail[i]);
                    i = i + 1;
                    assert(tail@.subrange(0, i as int) =~= tail@.subrange(0, i - 1).push(
                        tail@[i - 1],
                    ));
                }
                assert(tail@.subrange(0, tail.len() as int) =~= tail@);
                return out;
            },
            Some(i) => {
                let k = i - pos;
                assert(is_first_occurrence_from(rest, p@, 0, k as int)) by {
                    lemma_occurs_shift(s@, p@, pos as int, k as int);
                    assert forall|j: int| 0 <= j < k implies !occurs_at(rest, p@, j) by {
                        lemma_occurs_shift(s@, p@, pos as int, j);
                    }
                }
                proof {
                    lemma_first_from(rest, p@, 0, k as int);
                }
                let ghost before = out@;
                let head = slice_chars(s, pos, i);
                let mut t: usize = 0;
                while t < head.len()
                    invariant
                        t <= head.len(),
                        out@ == before + head@.subrange(0, t as int),
                    decreases head.len() - t,
                {
                    out.push(head[t]);
                    t = t + 1;
                    assert(head@.subrange(0, t as int) =~= head@.subrange(0, t - 1).push(
                        head@[t - 1],
                    ));
                }
                let ghost mid = out@;
                let mut u: usize = 0;
                while u < r.len()
                    invariant
                        u <= r.len(),
                        out@ == mid + r@.subrange(0, u as int),
                    decreases r.len() - u,
                {
                    out.push(r[u]);
                    u = u + 1;
                    assert(r@.subrange(0, u as int) =~= r@.subrange(0, u - 1).push(r@[u - 1]));
                }
                assert(head@.subrange(0, head.len() as int) =~= head@);
                assert(r@.subrange(0, r.len() as int) =~= r@);
                assert(rest.subrange(0, k as int) =~= head@);
                assert(rest.subrange(k + p@.len(), rest.len() as int) =~= s@.subrange(
                    i + p.len(),
                    s.len() as int,
                ));
                assert(out@ =~= before + rest.subrange(0, k as int) + r@);
                pos = i + p.len();
            },
        }
    }
}

/// `s.replace(p, r)` on strings.
pub fn replace_str(s: &str, p: &str, r: &str) -> (out: String)
    ensures
        out@ == replace_all(s@, p@, r@),
{
    let sv = chars_of(s);
    let pv = chars_of(p);
    let rv = chars_of(r);
    let o = replace_chars(&sv, &pv, &rv);
    string_of(&o)
}

/// Number of UTF-8 bytes that encode `c`.
pub open spec fn char_utf8_len(c: char) -> nat {
    if (c as u32) < 0x80 {
        1
    } else if (c as u32) < 0x800 {
        2
    } else if (c as u32) < 0x10000 {
        3
    } else {
        4
    }
}

/// Number of UTF-8 bytes that encode `s`.
pub open spec fn utf8_len(s: Seq<char>) -> nat
    decreases s.len(),
{
    if s.len() == 0 {
        0
    } else {
        utf8_len(s.drop_last()) + char_utf8_len(s.last())
    }
}

/// `char::len_utf8`.
pub fn char_len_utf8(c: char) -> (n: usize)
    ensures
        n == char_utf8_len(c),
{
    let code = c as u32;
    if code < 0x80 {
        1
    } else if code < 0x800 {
        2
    } else if code < 0x10000 {
        3
    } else {
        4
    }
}

/// Longest prefix of `s` whose UTF-8 encoding takes at most `limit` bytes, with its byte
/// length; that length equals `limit` exactly when cutting `s` at byte `limit` falls on a
/// char boundary.
pub fn utf8_prefix(s: &[char], limit: usize) -> (r: (usize, usize))
    ensures
        r.0 <= s.len(),
        r.1 == utf8_len(s@.subrange(0, r.0 as int)),
        r.1 <= limit,
        r.0 < s.len() ==> utf8_len(s@.subrange(0, r.0 as int + 1)) > limit,
{
    let mut k: usize = 0;
    let mut bytes: usize = 0;
    assert(s@.subrange(0, 0) =~= Seq::<char>::empty());
    while k < s.len()
        invariant
            k <= s.len(),
            bytes == utf8_len(s@.subrange(0, k as int)),
            bytes <= limit,
        decreases s.len() - k,
    {
        let w = char_len_utf8(s[k]);
        assert(s@.subrange(0, k + 1).drop_last() =~= s@.subrange(0, k as int));
        if w > limit - bytes {
            return (k, bytes);
        }
        bytes = bytes + w;
        k = k + 1;
    }
    (k, bytes)
}

/// Decimal digits of `n` (no sign, no leading zeros; `0` is "0").
pub open spec fn decimal(n: nat) -> Seq<char>
    decreases n,
{
    if n < 10 {
        seq![(('0' as u32) + n) as char]
    } else {
        decimal(n / 10) + seq![(('0' as u32) + (n % 10)) as char]
    }
}

/// The decimal text of `n` (`u64::to_string`).
pub fn u64_to_decimal(n: u64) -> (s: String)
    ensures
        s@ == decimal(n as nat),
    decreases n,
{
    if n < 10 {
        let c: char = ((n as u8) + 48u8) as char;
        let mut s = String::new();
        push_char(&mut s, c);
        assert(s@ =~= decimal(n as nat));
        s
    } else {
        let mut s = u64_to_decimal(n / 10);
        let c: char = (((n % 10) as u8) + 48u8) as char;
        push_char(&mut s, c);
        assert(s@ =~= decimal(n as nat));
        s
    }
}

/// `s` without one trailing carriage return.
pub open spec fn strip_cr(s: Seq<char>) -> Seq<char> {
    if s.len() > 0 && s.last() == '\r' {
        s.drop_last()
    } else {
        s
    }
}

/// The lines of `s` as `str::lines` yields them: split at `\n`, a `\r` right before a
/// `\n` dropped, no empty line after a final `\n`.
pub open spec fn split_lines(s: Seq<char>) -> Seq<Seq<char>>
    decreases s.len(),
{
    if s.len() == 0 {
        Seq::empty()
    } else {
        match first_from(s, seq!['\n'], 0) {
            None => seq![s],
            Some(i) => if 0 <= i < s.len() {
                seq![strip_cr(s.subrange(0, i))] + split_lines(s.subrange(i + 1, s.len() as int))
            } else {
                seq![s]
            },
        }
    }
}

/// The first line of `s`, or `s` itself when it has none (`s.lines().next().unwrap_or(s)`).
pub open spec fn first_line(s: Seq<char>) -> Seq<char> {
    if split_lines(s).len() > 0 {
        split_lines(s)[0]
    } else {
        s
    }
}

/// Removes one trailing `\r`.
pub fn strip_cr_chars(s: &[char]) -> (r: Vec<char>)
    ensures
        r@ == strip_cr(s@),
{
    if s.len() > 0 && s[s.len() - 1] == '\r' {
        slice_chars(s, 0, s.len() - 1)
    } else {
        slice_chars(s, 0, s.len())
    }
}

/// The lines of `s` (`str::lines`).
pub fn lines_of(s: &[char]) -> (r: Vec<Vec<char>>)
    ensures
        r@.map_values(|l: Vec<char>| l@) == split_lines(s@),
{
    let mut nl: Vec<char> = Vec::new();
    nl.push('\n');
    assert(nl@ =~= seq!['\n']);
    let mut r: Vec<Vec<char>> = Vec::new();
    let mut pos: usize = 0;
    assert(s@.subrange(0, s.len() as int) =~= s@);
    loop
        invariant
            nl@ == seq!['\n'],
            pos <= s.len(),
            r@.map_values(|l: Vec<char>| l@) + split_lines(s@.subrange(pos as int, s.len() as int))
                == split_lines(s@),
        decreases s.len() - pos,
    {
        let ghost rest = s@.subrange(pos as int, s.len() as int);
        let ghost before = r@.map_values(|l: Vec<char>| l@);
        if pos == s.len() {
            assert(rest.len() == 0);
            assert(before + Seq::<Seq<char>>::empty() =~= before);
            return r;
        }
        match find_first(s, &nl, pos) {
            None => {
                assert forall|j: int| 0 <= j implies !occurs_at(rest, seq!['\n'], j) by {
                    lemma_occurs_shift(s@, seq!['\n'], pos as int, j);
                }
                proof {
                    lemma_first_from_none(rest, seq!['\n'], 0);
                }
                r.push(slice_chars(s, pos, s.len()));
                assert(r@.map_values(|l: Vec<char>| l@) =~= before.push(rest));
                assert(before.push(rest) =~= before + seq![rest]);
                return r;
            },
            Some(i) => {
                let k = i - pos;
                assert(is_first_occurrence_from(rest, seq!['\n'], 0, k as int)) by {
                    lemma_occurs_shift(s@, seq!['\n'], pos as int, k as int);
                    assert forall|j: int| 0 <= j < k implies !occurs_at(rest, seq!['\n'], j) by {
                        lemma_occurs_shift(s@, seq!['\n'], pos as int, j);
                    }
                }
                proof {
                    lemma_first_from(rest, seq!['\n'], 0, k as int);
                }
                let line = slice_chars(s, pos, i);
                r.push(strip_cr_chars(&line));
                assert(rest.subrange(0, k as int) =~= line@);
                assert(rest.subrange(k + 1, rest.len() as int) =~= s@.subrange(i + 1, s.len() as int));
                assert(r@.map_values(|l: Vec<char>| l@) =~= before.push(strip_cr(line@)));
                assert(before.push(strip_cr(line@)) + split_lines(s@.subrange(i + 1, s.len() as int))
                    =~= before + (seq![strip_cr(line@)] + split_lines(s@.subrange(i + 1, s.len() as int))));
                pos = i + 1;
            },
        }
    }
}

/// The first line of `s` (or `s` when it has no line).
pub fn first_line_str(s: &str) -> (r: String)
    ensures
        r@ == first_line(s@),
{
    let v = chars_of(s);
    let ls = lines_of(&v);
    if ls.len() > 0 {
        assert(ls@.map_values(|l: Vec<char>| l@)[0] == ls@[0]@);
        string_of(&ls[0])
    } else {
        owned(s)
    }
}

// ───────────────────────────── separators and prefixes ─────────────────────────────

/// `s` with every `from` replaced by `to`.
pub open spec fn map_char(s: Seq<char>, from: char, to: char) -> Seq<char> {
    s.map_values(|c: char| if c == from { to } else { c })
}

/// `s.replace(from, to)` for two single chars.
pub fn replace_char(s: &str, from: char, to: char) -> (r: String)
    ensures
        r@ == map_char(s@, from, to),
{
    let v = chars_of(s);
    let mut out: Vec<char> = Vec::new();
    let mut i: usize = 0;
    while i < v.len()
        invariant
            i <= v@.len(),
            v@ == s@,
            out@ == map_char(v@.subrange(0, i as int), from, to),
        decreases v.len() - i,
    {
        out.push(if v[i] == from { to } else { v[i] });
        i = i + 1;
        assert(map_char(v@.subrange(0, i as int), from, to) =~= map_char(
            v@.subrange(0, i - 1),
            from,
            to,
        ).push(if v@[i - 1] == from { to } else { v@[i - 1] }));
    }
    assert(v@.subrange(0, v.len() as int) =~= v@);
    string_of(&out)
}

/// `s` without every leading repetition of `p` (`str::trim_start_matches`); an empty
/// pattern leaves `s` unchanged.
pub open spec fn strip_leading(s: Seq<char>, p: Seq<char>) -> Seq<char>
    decreases s.len(),
{
    if p.len() > 0 && has_prefix(s, p) {
        strip_leading(s.subrange(p.len() as int, s.len() as int), p)
    } else {
        s
    }
}

/// Index where `s.trim_start_matches(p)` begins.
pub fn strip_leading_index(s: &[char], p: &[char]) -> (k: usize)
    ensures
        k <= s.len(),
        s@.subrange(k as int, s.len() as int) == strip_leading(s@, p@),
{
    let mut k: usize = 0;
    assert(s@.subrange(0, s.len() as int) =~= s@);
    while p.len() > 0 && matches_at(s, p, k)
        invariant
            k <= s.len(),
            strip_leading(s@.subrange(k as int, s.len() as int), p@) == strip_leading(s@, p@),
        decreases s.len() - k,
    {
        let ghost rest = s@.subrange(k as int, s.len() as int);
        assert(rest.subrange(0, p@.len() as int) =~= s@.subrange(k as int, k + p.len()));
        assert(rest.subrange(p@.len() as int, rest.len() as int) =~= s@.subrange(
            k + p.len(),
            s.len() as int,
        ));
        k = k + p.len();
    }
    let ghost rest = s@.subrange(k as int, s.len() as int);
    if p.len() > 0 {
        assert(!has_prefix(rest, p@)) by {
            if has_prefix(rest, p@) {
                assert(s@.subrange(k as int, k + p.len()) =~= rest.subrange(0, p@.len() as int));
            }
        }
    }
    k
}

/// `s.trim_start_matches(p)` as a new string.
pub fn trim_start_matches_str(s: &str, p: &str) -> (r: String)
    ensures
        r@ == strip_leading(s@, p@),
{
    let sv = chars_of(s);
    let pv = chars_of(p);
    let k = strip_leading_index(&sv, &pv);
    string_of(&slice_chars(&sv, k, sv.len()))
}

/// The pieces of `s` between occurrences of `c` (`str::split` on a char): always at least
/// one piece, empty pieces kept.
pub open spec fn split_char(s: Seq<char>, c: char) -> Seq<Seq<char>>
    decreases s.len(),
{
    if s.len() == 0 {
        seq![Seq::empty()]
    } else {
        let r = split_char(s.drop_last(), c);
        if s.last() == c {
            r.push(Seq::empty())
        } else {
            r.update(r.len() - 1, r.last().push(s.last()))
        }
    }
}

/// `split_char` always yields at least one piece.
pub proof fn lemma_split_char_len(s: Seq<char>, c: char)
    ensures
        split_char(s, c).len() >= 1,
    decreases s.len(),
{
    if s.len() > 0 {
        lemma_split_char_len(s.drop_last(), c);
    }
}

/// Splits `s` at every `c`.
pub fn split_chars(s: &[char], c: char) -> (r: Vec<Vec<char>>)
    ensures
        r@.map_values(|v: Vec<char>| v@) == split_char(s@, c),
{
    let mut done: Vec<Vec<char>> = Vec::new();
    let mut cur: Vec<char> = Vec::new();
    let mut i: usize = 0;
    assert(s@.subrange(0, 0) =~= Seq::<char>::empty());
    assert(done@.map_values(|v: Vec<char>| v@).push(cur@) =~= seq![Seq::<char>::empty()]);
    while i < s.len()
        invariant
            i <= s@.len(),
            done@.map_values(|v: Vec<char>| v@).push(cur@) == split_char(
                s@.subrange(0, i as int),
                c,
            ),
        decreases s.len() - i,
    {
        let ghost pre = s@.subrange(0, i + 1);
        assert(pre.drop_last() =~= s@.subrange(0, i as int));
        assert(pre.last() == s@[i as int]);
        let ghost before = done@.map_values(|v: Vec<char>| v@);
        if s[i] == c {
            let finished = cur;
            done.push(finished);
            cur = Vec::new();
            assert(done@.map_values(|v: Vec<char>| v@) =~= before.push(finished@));
            assert(done@.map_values(|v: Vec<char>| v@).push(cur@) =~= before.push(finished@).push(
                Seq::<char>::empty(),
            ));
        } else {
            let ghost old_cur = cur@;
            cur.push(s[i]);
            assert(before.push(cur@) =~= before.push(old_cur).update(
                before.push(old_cur).len() - 1,
                before.push(old_cur).last().push(s@[i as int]),
            ));
        }
        i = i + 1;
    }
    assert(s@.subrange(0, s.len() as int) =~= s@);
    done.push(cur);
    done
}

/// The segments joined with `sep` between neighbours.
pub open spec fn join_with(parts: Seq<Seq<char>>, sep: Seq<char>) -> Seq<char>
    decreases parts.len(),
{
    if parts.len() == 0 {
        Seq::empty()
    } else if parts.len() == 1 {
        parts[0]
    } else {
        join_with(parts.drop_last(), sep) + sep + parts.last()
    }
}

// ───────────────────────────── numbers ─────────────────────────────

/// `c` is an ASCII decimal digit.
pub open spec fn is_digit(c: char) -> bool {
    '0' <= c && c <= '9'
}

/// Value of a sequence of decimal digits (most significant first).
pub open spec fn digits_value(d: Seq<char>) -> int
    decreases d.len(),
{
    if d.len() == 0 {
        0
    } else {
        digits_value(d.drop_last()) * 10 + (d.last() as int - '0' as int)
    }
}

/// The digit part of an unsigned number: `s` without one leading `+`.
pub open spec fn unsigned_digits(s: Seq<char>) -> Seq<char> {
    if s.len() > 0 && s[0] == '+' {
        s.drop_first()
    } else {
        s
    }
}

/// Result of `str::parse` for an unsigned integer type whose maximum is `max`:
/// an optional `+` followed by at least one ASCII digit, with a value that fits.
pub open spec fn parse_unsigned(s: Seq<char>, max: int) -> Option<int> {
    let d = unsigned_digits(s);
    if d.len() == 0 || exists|k: int| 0 <= k < d.len() && !is_digit(d[k]) {
        None
    } else if digits_value(d) > max {
        None
    } else {
        Some(digits_value(d))
    }
}

/// A longer digit sequence never has a smaller value.
pub proof fn lemma_digits_value_monotone(d: Seq<char>, k: int)
    requires
        0 <= k <= d.len(),
        forall|j: int| 0 <= j < d.len() ==> is_digit(d[j]),
    ensures
        digits_value(d.subrange(0, k)) <= digits_value(d),
        digits_value(d) >= 0,
    decreases d.len(),
{
    if d.len() == 0 {
        assert(d.subrange(0, k) =~= d);
    } else if k == d.len() {
        assert(d.subrange(0, k) =~= d);
        lemma_digits_value_monotone(d.drop_last(), k - 1);
    } else {
        lemma_digits_value_monotone(d.drop_last(), k);
        assert(d.drop_last().subrange(0, k) =~= d.subrange(0, k));
    }
}

/// Parses an unsigned decimal number no larger than `max` (`str::parse::<u64>` and kin).
pub fn parse_unsigned_chars(s: &[char], max: u64) -> (r: Option<u64>)
    ensures
        match r {
            Some(n) => parse_unsigned(s@, max as int) == Some(n as int),
            None => parse_unsigned(s@, max as int) is None,
        },
{
    let start: usize = if s.len() > 0 && s[0] == '+' { 1 } else { 0 };
    let ghost d = unsigned_digits(s@);
    assert(d =~= s@.subrange(start as int, s.len() as int));
    if start == s.len() {
        return None;
    }
    let mut k = start;
    while k < s.len()
        invariant
            start <= k <= s.len(),
            d =~= s@.subrange(start as int, s.len() as int),
            d == unsigned_digits(s@),
            forall|j: int| start <= j < k ==> is_digit(s@[j]),
        decreases s.len() - k,
    {
        if !('0' <= s[k] && s[k] <= '9') {
            assert(!is_digit(d[k - start]));
            assert(exists|j: int| 0 <= j < d.len() && !is_digit(d[j]));
            assert(parse_unsigned(s@, max as int) is None);
            return None;
        }
        k = k + 1;
    }
    assert(forall|j: int| 0 <= j < d.len() ==> is_digit(d[j]));
    let mut acc: u64 = 0;
    let mut i = start;
    while i < s.len()
        invariant
            start <= i <= s.len(),
            d =~= s@.subrange(start as int, s.len() as int),
            d == unsigned_digits(s@),
            forall|j: int| 0 <= j < d.len() ==> is_digit(d[j]),
            acc as int == digits_value(d.subrange(0, i - start)),
            acc <= max,
        decreases s.len() - i,
    {
        assert(s@[i as int] == d[i - start]);
        assert(is_digit(s@[i as int]));
        let digit: u64 = ((s[i] as u32) - ('0' as u32)) as u64;
        assert(d.subrange(0, i + 1 - start).drop_last() =~= d.subrange(0, i - start));
        assert(d.subrange(0, i + 1 - start).last() == s@[i as int]);
        assert(digits_value(d.subrange(0, i + 1 - start)) == acc * 10 + digit);
        if digit > max || acc > (max - digit) / 10 {
            proof {
                lemma_digits_value_monotone(d, i + 1 - start);
                if digit <= max {
                    assert(acc * 10 + digit > max) by (nonlinear_arith)
                        requires acc > (max - digit) / 10, digit <= max;
                }
                assert(digits_value(d) > max);
                assert(parse_unsigned(s@, max as int) is None);
            }
            return None;
        }
        proof {
            assert(acc * 10 + digit <= max) by (nonlinear_arith)
                requires acc <= (max - digit) / 10, digit <= max;
        }
        acc = acc * 10 + digit;
        i = i + 1;
    }
    assert(d.subrange(0, s.len() - start) =~= d);
    Some(acc)
}

} // verus!
