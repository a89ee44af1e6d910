//! Character-level text utilities shared by the whole library.
//!
//! Strings are modelled by their view, a `Seq<char>`.  Every helper here is
//! stated over that model: substring search, prefixes and suffixes, ASCII
//! case folding, line splitting, trimming, splitting on character classes and
//! decimal rendering of integers.
use vstd::prelude::*;

verus! {

// ---------------------------------------------------------------------------
// Conversions between `str`/`String` and character vectors
// ---------------------------------------------------------------------------

/// The characters of `s`, in order.
pub fn chars_of(s: &str) -> (out: Vec<char>)
    ensures
        out@ == s@,
{
    let mut out: Vec<char> = Vec::new();
    for c in it: s.chars()
        invariant
            out@ == it.seq().take(it.index() as int),
            it.seq() == s@,
    {
        out.push(c);
    }
    out
}

/// Appends one character to a string (std's `String::push`).
#[verifier::external_body]
pub(crate) fn push_char(s: &mut String, c: char)
    ensures
        final(s)@ == old(s)@.push(c),
{
    s.push(c);
}

/// std's `str::from_utf8`: it succeeds exactly on valid UTF-8, and then the
/// text it returns is the decoding of the bytes, whose encoding they are.
#[verifier::external_body]
pub(crate) fn decode_utf8(bytes: &[u8]) -> (r: Option<&str>)
    ensures
        r is Some <==> vstd::utf8::valid_utf8(bytes@),
        r matches Some(s) ==> s@ == vstd::utf8::decode_utf8(bytes@) && vstd::utf8::encode_utf8(s@)
            == bytes@,
{
    match std::str::from_utf8(bytes) {
        Ok(s) => Some(s),
        Err(_) => None,
    }
}

/// Builds a `String` holding exactly the given characters.
pub fn string_from(chars: &[char]) -> (out: String)
    ensures
        out@ == chars@,
{
    let mut out = String::new();
    let mut i: usize = 0;
    while i < chars.len()
        invariant
            i <= chars@.len(),
            out@ == chars@.take(i as int),
        decreases chars@.len() - i,
    {
        push_char(&mut out, chars[i]);
        i = i + 1;
        assert(out@ =~= chars@.take(i as int));
    }
    assert(chars@.take(chars@.len() as int) =~= chars@);
    out
}

/// Appends `t` to `s`.
pub fn push_str(s: &mut String, t: &str)
    ensures
        final(s)@ == old(s)@ + t@,
{
    s.append(t);
}

/// Appends the characters of `t` to `s`.
pub fn push_chars(s: &mut String, t: &[char])
    ensures
        final(s)@ == old(s)@ + t@,
{
    let ghost s0 = s@;
    let mut i: usize = 0;
    while i < t.len()
        invariant
            i <= t@.len(),
            s@ == s0 + t@.take(i as int),
        decreases t@.len() - i,
    {
        push_char(s, t[i]);
        i = i + 1;
        assert(s@ =~= s0 + t@.take(i as int));
    }
    assert(t@.take(t@.len() as int) =~= t@);
}

/// Appends the characters of `t` to the character vector `v`.
pub fn extend_chars(v: &mut Vec<char>, t: &[char])
    ensures
        final(v)@ == old(v)@ + t@,
{
    let ghost v0 = v@;
    let mut i: usize = 0;
    while i < t.len()
        invariant
            i <= t@.len(),
            v@ == v0 + t@.take(i as int),
        decreases t@.len() - i,
    {
        v.push(t[i]);
        i = i + 1;
        assert(v@ =~= v0 + t@.take(i as int));
    }
    assert(t@.take(t@.len() as int) =~= t@);
}

/// A copy of `s[from..to]`.
pub fn sub_chars(s: &[char], from: usize, to: usize) -> (out: Vec<char>)
    requires
        from <= to <= s@.len(),
    ensures
        out@ == s@.subrange(from as int, to as int),
{
    let mut out: Vec<char> = Vec::new();
    let mut i: usize = from;
    while i < to
        invariant
            from <= i <= to,
            to <= s@.len(),
            out@ == s@.subrange(from as int, i as int),
        decreases to - i,
    {
        out.push(s[i]);
        i = i + 1;
        assert(out@ =~= s@.subrange(from as int, i as int));
    }
    out
}

/// The views of a sequence of character vectors.
pub open spec fn views(v: Seq<Vec<char>>) -> Seq<Seq<char>> {
    v.map_values(|x: Vec<char>| x@)
}

/// The views of a sequence of strings.
pub open spec fn str_views(v: Seq<String>) -> Seq<Seq<char>> {
    v.map_values(|x: String| x@)
}

/// Converts character vectors into strings.
pub fn strings_from(v: &Vec<Vec<char>>) -> (out: Vec<String>)
    ensures
        str_views(out@) == views(v@),
{
    let mut out: Vec<String> = Vec::new();
    let mut i: usize = 0;
    while i < v.len()
        invariant
            i <= v@.len(),
            out@.len() == i,
            forall|j: int| 0 <= j < i ==> #[trigger] out@[j]@ == v@[j]@,
        decreases v@.len() - i,
    {
        out.push(string_from(v[i].as_slice()));
        i = i + 1;
    }
    assert(str_views(out@) =~= views(v@));
    out
}

/// Converts strings into character vectors.
pub fn chars_of_all(v: &Vec<String>) -> (out: Vec<Vec<char>>)
    ensures
        views(out@) == str_views(v@),
{
    let mut out: Vec<Vec<char>> = Vec::new();
    let mut i: usize = 0;
    while i < v.len()
        invariant
            i <= v@.len(),
            out@.len() == i,
            forall|j: int| 0 <= j < i ==> #[trigger] out@[j]@ == v@[j]@,
        decreases v@.len() - i,
    {
        out.push(chars_of(v[i].as_str()));
        i = i + 1;
    }
    assert(views(out@) =~= str_views(v@));
    out
}

// ---------------------------------------------------------------------------
// Equality, prefixes, suffixes and substring search
// ---------------------------------------------------------------------------

/// Whether `p` occurs in `s` starting at index `i`.
pub open spec fn matches_at(s: Seq<char>, p: Seq<char>, i: int) -> bool {
    0 <= i && i + p.len() <= s.len() && s.subrange(i, i + p.len()) == p
}

/// Index of the first occurrence of `p` in `s` at or after `i`, or -1.
pub open spec fn find_from(s: Seq<char>, p: Seq<char>, i: int) -> int
    decreases s.len() + 1 - i,
{
    if i < 0 || i + p.len() > s.len() {
        -1
    } else if matches_at(s, p, i) {
        i
    } else {
        find_from(s, p, i + 1)
    }
}

/// Index of the first occurrence of `p` in `s`, or -1 (`str::find`).
pub open spec fn find(s: Seq<char>, p: Seq<char>) -> int {
    find_from(s, p, 0)
}

/// Whether `p` occurs in `s` (`str::contains`).
pub open spec fn contains(s: Seq<char>, p: Seq<char>) -> bool {
    find(s, p) >= 0
}

/// Whether `s` starts with `p`.
pub open spec fn starts_with(s: Seq<char>, p: Seq<char>) -> bool {
    p.len() <= s.len() && s.take(p.len() as int) == p
}

/// Whether `s` ends with `p`.
pub open spec fn ends_with(s: Seq<char>, p: Seq<char>) -> bool {
    p.len() <= s.len() && s.skip(s.len() - p.len()) == p
}

/// A found index lies where the pattern fits, and nothing matches earlier.
pub proof fn lemma_find_from(s: Seq<char>, p: Seq<char>, i: int)
    requires
        0 <= i,
    ensures
        find_from(s, p, i) >= 0 ==> {
            &&& i <= find_from(s, p, i)
            &&& matches_at(s, p, find_from(s, p, i))
        },
        forall|j: int|
            i <= j && (find_from(s, p, i) < 0 || j < find_from(s, p, i)) ==> !matches_at(s, p, j),
    decreases s.len() + 1 - i,
{
    if i + p.len() > s.len() {
    } else if matches_at(s, p, i) {
    } else {
        lemma_find_from(s, p, i + 1);
    }
}

/// Character-wise equality of two slices.
pub fn eq_chars(a: &[char], b: &[char]) -> (r: bool)
    ensures
        r == (a@ == b@),
{
    if a.len() != b.len() {
        return false;
    }
    let mut i: usize = 0;
    while i < a.len()
        invariant
            a@.len() == b@.len(),
            i <= a@.len(),
            forall|j: int| 0 <= j < i ==> a@[j] == b@[j],
        decreases a@.len() - i,
    {
        if a[i] != b[i] {
            return false;
        }
        i = i + 1;
    }
    assert(a@ =~= b@);
    true
}

/// Equality of two strings.
pub fn str_eq(a: &str, b: &str) -> (r: bool)
    ensures
        r == (a@ == b@),
{
    let ac = chars_of(a);
    let bc = chars_of(b);
    eq_chars(ac.as_slice(), bc.as_slice())
}

/// Whether `p` occurs in `s` at index `i`.
pub fn matches_at_exec(s: &[char], p: &[char], i: usize) -> (r: bool)
    ensures
        r == matches_at(s@, p@, i as int),
{
    if i > s.len() || p.len() > s.len() - i {
        return false;
    }
    let n: usize = s.len();
    let mut k: usize = 0;
    while k < p.len()
        invariant
            n == s@.len(),
            i <= s@.len(),
            p@.len() <= s@.len() - i,
            k <= p@.len(),
            forall|j: int| 0 <= j < k ==> s@[i + j] == p@[j],
        decreases p@.len() - k,
    {
        if s[i + k] != p[k] {
            assert(s@.subrange(i as int, i + p@.len())[k as int] != p@[k as int]);
            return false;
        }
        k = k + 1;
    }
    assert(s@.subrange(i as int, i + p@.len()) =~= p@);
    true
}

/// First index at or after `from` where `p` occurs in `s` (`str::find`).
pub fn find_from_exec(s: &[char], p: &[char], from: usize) -> (r: Option<usize>)
    ensures
        match r {
            Some(k) => find_from(s@, p@, from as int) == k as int,
            None => find_from(s@, p@, from as int) == -1,
        },
{
    let mut i: usize = from;
    if i > s.len() || p.len() > s.len() - i {
        return None;
    }
    let n: usize = s.len();
    while i <= s.len() - p.len()
        invariant
            n == s@.len(),
            from <= i,
            p@.len() <= s@.len(),
            find_from(s@, p@, from as int) == find_from(s@, p@, i as int),
        decreases s@.len() + 1 - i,
    {
        if matches_at_exec(s, p, i) {
            return Some(i);
        }
        assert(p@.len() > 0) by {
            if p@.len() == 0 {
                assert(s@.subrange(i as int, i as int) =~= p@);
            }
        }
        i = i + 1;
    }
    None
}

/// First index where `p` occurs in `s`.
pub fn find_exec(s: &[char], p: &[char]) -> (r: Option<usize>)
    ensures
        match r {
            Some(k) => find(s@, p@) == k as int,
            None => find(s@, p@) == -1,
        },
{
    find_from_exec(s, p, 0)
}

/// Whether `p` occurs in `s`.
pub fn contains_exec(s: &[char], p: &[char]) -> (r: bool)
    ensures
        r == contains(s@, p@),
{
    find_exec(s, p).is_some()
}

/// Whether `p` occurs in `s` (both given as strings).
pub fn str_contains(s: &str, p: &str) -> (r: bool)
    ensures
        r == contains(s@, p@),
{
    let sc = chars_of(s);
    let pc = chars_of(p);
    contains_exec(sc.as_slice(), pc.as_slice())
}

/// Whether `s` starts with `p`.
pub fn starts_with_exec(s: &[char], p: &[char]) -> (r: bool)
    ensures
        r == starts_with(s@, p@),
{
    let r = matches_at_exec(s, p, 0);
    proof {
        if p@.len() <= s@.len() {
            assert(s@.take(p@.len() as int) =~= s@.subrange(0, p@.len() as int));
        }
    }
    r
}

/// Whether `s` ends with `p`.
pub fn ends_with_exec(s: &[char], p: &[char]) -> (r: bool)
    ensures
        r == ends_with(s@, p@),
{
    if p.len() > s.len() {
        return false;
    }
    let r = matches_at_exec(s, p, s.len() - p.len());
    proof {
        assert(s@.skip(s@.len() - p@.len()) =~= s@.subrange(
            s@.len() - p@.len(),
            s@.len() as int,
        ));
    }
    r
}

/// Whether the string `s` starts with `p`.
pub fn str_starts_with(s: &str, p: &str) -> (r: bool)
    ensures
        r == starts_with(s@, p@),
{
    let sc = chars_of(s);
    let pc = chars_of(p);
    starts_with_exec(sc.as_slice(), pc.as_slice())
}

/// Whether the string `s` ends with `p`.
pub fn str_ends_with(s: &str, p: &str) -> (r: bool)
    ensures
        r == ends_with(s@, p@),
{
    let sc = chars_of(s);
    let pc = chars_of(p);
    ends_with_exec(sc.as_slice(), pc.as_slice())
}

/// Whether `c` occurs in `s`.
pub fn has_char(s: &[char], c: char) -> (r: bool)
    ensures
        r == s@.contains(c),
{
    let mut i: usize = 0;
    while i < s.len()
        invariant
            i <= s@.len(),
            forall|j: int| 0 <= j < i ==> s@[j] != c,
        decreases s@.len() - i,
    {
        if s[i] == c {
            assert(s@[i as int] == c);
            return true;
        }
        i = i + 1;
    }
    false
}

/// Whether some string of `list` equals `s`.
pub fn any_eq(list: &Vec<String>, s: &str) -> (r: bool)
    ensures
        r == str_views(list@).contains(s@),
{
    let mut i: usize = 0;
    while i < list.len()
        invariant
            i <= list@.len(),
            forall|j: int| 0 <= j < i ==> list@[j]@ != s@,
        decreases list@.len() - i,
    {
        if str_eq(list[i].as_str(), s) {
            assert(str_views(list@)[i as int] == s@);
            return true;
        }
        i = i + 1;
    }
    proof {
        if str_views(list@).contains(s@) {
            let k = choose|k: int| 0 <= k < str_views(list@).len() && str_views(list@)[k] == s@;
            assert(list@[k]@ == s@);
        }
    }
    false
}

// ---------------------------------------------------------------------------
// ASCII case folding
// ---------------------------------------------------------------------------

/// ASCII lower-casing of one character (`char::to_ascii_lowercase`).
pub open spec fn lower_char(c: char) -> char {
    if 'A' <= c && c <= 'Z' {
        ((c as u32) + 32) as char
    } else {
        c
    }
}

/// ASCII lower-casing of a character sequence (`str::to_ascii_lowercase`).
pub open spec fn lower(s: Seq<char>) -> Seq<char> {
    s.map_values(|c: char| lower_char(c))
}

/// ASCII lower-casing of one character.
pub fn lower_char_exec(c: char) -> (r: char)
    ensures
        r == lower_char(c),
{
    if 'A' <= c && c <= 'Z' {
        let b: u8 = c as u8;
        assert(b as u32 == c as u32);
        let lowered: u8 = b + 32;
        lowered as char
    } else {
        c
    }
}

/// ASCII lower-casing of a character slice.
pub fn lower_chars(s: &[char]) -> (out: Vec<char>)
    ensures
        out@ == lower(s@),
{
    let mut out: Vec<char> = Vec::new();
    let mut i: usize = 0;
    while i < s.len()
        invariant
            i <= s@.len(),
            out@ == lower(s@.take(i as int)),
        decreases s@.len() - i,
    {
        let c = lower_char_exec(s[i]);
        out.push(c);
        i = i + 1;
        assert(out@ =~= lower(s@.take(i as int)));
    }
    assert(s@.take(s@.len() as int) =~= s@);
    out
}

/// ASCII lower-casing of a string.
pub fn to_ascii_lowercase(s: &str) -> (out: String)
    ensures
        out@ == lower(s@),
{
    let c = chars_of(s);
    let l = lower_chars(c.as_slice());
    string_from(l.as_slice())
}


// ---------------------------------------------------------------------------
// Character classes (Unicode predicates of std, named)
// ---------------------------------------------------------------------------

/// What std's `char::is_whitespace` answers for `c` (Unicode White_Space).
pub uninterp spec fn char_is_whitespace(c: char) -> bool;

/// `char::is_whitespace`: for ASCII exactly space and `\t`..`\r` (as std
/// documents), beyond ASCII what std answers.
pub open spec fn spec_is_whitespace(c: char) -> bool {
    if (c as u32) < 128 {
        c == ' ' || ('\t' <= c && c <= '\r')
    } else {
        char_is_whitespace(c)
    }
}

/// What std's `char::is_alphanumeric` answers for `c`.
pub uninterp spec fn char_is_alphanumeric(c: char) -> bool;

/// What std's `char::is_lowercase` answers for `c`.
pub uninterp spec fn char_is_lowercase(c: char) -> bool;

/// What std's `char::is_uppercase` answers for `c`.
pub uninterp spec fn char_is_uppercase(c: char) -> bool;

/// ASCII digit.
pub open spec fn is_ascii_digit(c: char) -> bool {
    '0' <= c && c <= '9'
}

/// ASCII letter or digit.
pub open spec fn is_ascii_alnum(c: char) -> bool {
    ('a' <= c && c <= 'z') || ('A' <= c && c <= 'Z') || is_ascii_digit(c)
}

/// `char::is_alphanumeric`: for ASCII exactly a letter or digit (as std
/// documents), beyond ASCII what std answers.
pub open spec fn spec_is_alphanumeric(c: char) -> bool {
    if (c as u32) < 128 {
        is_ascii_alnum(c)
    } else {
        char_is_alphanumeric(c)
    }
}

/// Calls std's `char::is_whitespace`. For ASCII input the documented
/// White_Space property is exactly space and `\t`..`\r`; beyond ASCII the
/// answer is only named.
#[verifier::external_body]
pub(crate) fn is_whitespace(c: char) -> (r: bool)
    ensures
        r == char_is_whitespace(c),
        (c as u32) < 128 ==> (r == (c == ' ' || ('\t' <= c && c <= '\r'))),
{
    c.is_whitespace()
}

/// Calls std's `char::is_alphanumeric`. For ASCII input it is exactly an
/// ASCII letter or digit; beyond ASCII the answer is only named.
#[verifier::external_body]
pub(crate) fn is_alphanumeric(c: char) -> (r: bool)
    ensures
        r == char_is_alphanumeric(c),
        (c as u32) < 128 ==> (r == is_ascii_alnum(c)),
{
    c.is_alphanumeric()
}

/// Calls std's `char::is_lowercase`. For ASCII input it is exactly `a`..`z`.
#[verifier::external_body]
pub(crate) fn is_lowercase(c: char) -> (r: bool)
    ensures
        r == char_is_lowercase(c),
        (c as u32) < 128 ==> (r == ('a' <= c && c <= 'z')),
{
    c.is_lowercase()
}

/// Calls std's `char::is_uppercase`. For ASCII input it is exactly `A`..`Z`.
#[verifier::external_body]
pub(crate) fn is_uppercase(c: char) -> (r: bool)
    ensures
        r == char_is_uppercase(c),
        (c as u32) < 128 ==> (r == ('A' <= c && c <= 'Z')),
{
    c.is_uppercase()
}

/// A set of characters used as separators or as trim targets.
#[derive(Clone, Copy, PartialEq, Eq, Debug)]
pub enum CharClass {
    /// `char::is_whitespace`.
    Whitespace,
    /// `char::is_ascii_whitespace`: space, `\t`, `\n`, form feed, `\r`.
    AsciiWhitespace,
    /// Not `char::is_alphanumeric`.
    NonAlphanumeric,
    /// One given character.
    Is(char),
    /// One of two given characters.
    Either(char, char),
    /// One of three given characters.
    OneOf3(char, char, char),
    /// An ASCII digit `0`..`9`.
    AsciiDigit,
    /// Anything but an ASCII letter or digit, `/`, `.`, `_` or `-` (the
    /// characters of a repository path).
    NotPathChar,
}

/// Membership of `c` in `cls`.
pub open spec fn in_class(cls: CharClass, c: char) -> bool {
    match cls {
        CharClass::Whitespace => spec_is_whitespace(c),
        CharClass::AsciiWhitespace => c == ' ' || c == '\t' || c == '\n' || c == '\x0C' || c == '\r',
        CharClass::NonAlphanumeric => !spec_is_alphanumeric(c),
        CharClass::Is(d) => c == d,
        CharClass::Either(d, e) => c == d || c == e,
        CharClass::OneOf3(d, e, f) => c == d || c == e || c == f,
        CharClass::AsciiDigit => is_ascii_digit(c),
        CharClass::NotPathChar => !(is_ascii_alnum(c) || c == '/' || c == '.' || c == '_' || c
            == '-'),
    }
}

/// Membership of `c` in `cls`.
pub fn in_class_exec(cls: CharClass, c: char) -> (r: bool)
    ensures
        r == in_class(cls, c),
{
    match cls {
        CharClass::Whitespace => is_whitespace(c),
        CharClass::AsciiWhitespace => c == ' ' || c == '\t' || c == '\n' || c == '\x0C' || c == '\r',
        CharClass::NonAlphanumeric => !is_alphanumeric(c),
        CharClass::Is(d) => c == d,
        CharClass::Either(d, e) => c == d || c == e,
        CharClass::OneOf3(d, e, f) => c == d || c == e || c == f,
        CharClass::AsciiDigit => '0' <= c && c <= '9',
        CharClass::NotPathChar => !(('a' <= c && c <= 'z') || ('A' <= c && c <= 'Z') || ('0' <= c
            && c <= '9') || c == '/' || c == '.' || c == '_' || c == '-'),
    }
}

// ---------------------------------------------------------------------------
// Trimming
// ---------------------------------------------------------------------------

/// Index of the first character at or after `i` that is not in `cls`.
pub open spec fn skip_class(s: Seq<char>, cls: CharClass, i: int) -> int
    decreases s.len() - i,
{
    if 0 <= i < s.len() && in_class(cls, s[i]) {
        skip_class(s, cls, i + 1)
    } else {
        i
    }
}

/// Length of `s.take(j)` once characters of `cls` are removed from its end.
pub open spec fn back_class(s: Seq<char>, cls: CharClass, j: int) -> int
    decreases j,
{
    if 0 < j <= s.len() && in_class(cls, s[j - 1]) {
        back_class(s, cls, j - 1)
    } else {
        j
    }
}

/// `s` without leading characters of `cls` (`trim_start_matches`).
pub open spec fn trim_start_class(s: Seq<char>, cls: CharClass) -> Seq<char> {
    s.skip(skip_class(s, cls, 0))
}

/// `s` without trailing characters of `cls` (`trim_end_matches`).
pub open spec fn trim_end_class(s: Seq<char>, cls: CharClass) -> Seq<char> {
    s.take(back_class(s, cls, s.len() as int))
}

/// `str::trim_start`.
pub open spec fn trim_start(s: Seq<char>) -> Seq<char> {
    trim_start_class(s, CharClass::Whitespace)
}

/// `str::trim_end`.
pub open spec fn trim_end(s: Seq<char>) -> Seq<char> {
    trim_end_class(s, CharClass::Whitespace)
}

/// `str::trim`.
pub open spec fn trim(s: Seq<char>) -> Seq<char> {
    trim_end(trim_start(s))
}

/// `skip_class` stays between its start and the end.
pub proof fn lemma_skip_class_bounds(s: Seq<char>, cls: CharClass, i: int)
    requires
        0 <= i <= s.len(),
    ensures
        i <= skip_class(s, cls, i) <= s.len(),
    decreases s.len() - i,
{
    if 0 <= i < s.len() && in_class(cls, s[i]) {
        lemma_skip_class_bounds(s, cls, i + 1);
    }
}

/// `back_class` stays between 0 and its start.
pub proof fn lemma_back_class_bounds(s: Seq<char>, cls: CharClass, j: int)
    requires
        0 <= j <= s.len(),
    ensures
        0 <= back_class(s, cls, j) <= j,
    decreases j,
{
    if 0 < j <= s.len() && in_class(cls, s[j - 1]) {
        lemma_back_class_bounds(s, cls, j - 1);
    }
}

/// Characters of `s` after dropping a leading run of `cls`.
pub fn trim_start_class_exec(s: &[char], cls: CharClass) -> (out: Vec<char>)
    ensures
        out@ == trim_start_class(s@, cls),
{
    let mut i: usize = 0;
    while i < s.len() && in_class_exec(cls, s[i])
        invariant
            i <= s@.len(),
            skip_class(s@, cls, 0) == skip_class(s@, cls, i as int),
        decreases s@.len() - i,
    {
        i = i + 1;
    }
    let out = sub_chars(s, i, s.len());
    assert(out@ =~= s@.skip(i as int));
    out
}

/// Characters of `s` after dropping a trailing run of `cls`.
pub fn trim_end_class_exec(s: &[char], cls: CharClass) -> (out: Vec<char>)
    ensures
        out@ == trim_end_class(s@, cls),
{
    let mut j: usize = s.len();
    while j > 0 && in_class_exec(cls, s[j - 1])
        invariant
            j <= s@.len(),
            back_class(s@, cls, s@.len() as int) == back_class(s@, cls, j as int),
        decreases j,
    {
        j = j - 1;
    }
    let out = sub_chars(s, 0, j);
    assert(out@ =~= s@.take(j as int));
    out
}

/// `str::trim` on characters.
pub fn trim_exec(s: &[char]) -> (out: Vec<char>)
    ensures
        out@ == trim(s@),
{
    let a = trim_start_class_exec(s, CharClass::Whitespace);
    trim_end_class_exec(a.as_slice(), CharClass::Whitespace)
}

/// `str::trim` on a string.
pub fn str_trim(s: &str) -> (out: Vec<char>)
    ensures
        out@ == trim(s@),
{
    let c = chars_of(s);
    trim_exec(c.as_slice())
}

// ---------------------------------------------------------------------------
// Splitting
// ---------------------------------------------------------------------------

/// Index of the first character of `cls` at or after `i`, or `s.len()`.
pub open spec fn next_in_class(s: Seq<char>, cls: CharClass, i: int) -> int
    decreases s.len() - i,
{
    if i < 0 || i >= s.len() {
        s.len() as int
    } else if in_class(cls, s[i]) {
        i
    } else {
        next_in_class(s, cls, i + 1)
    }
}

/// `next_in_class` finds the first member of the class.
pub proof fn lemma_next_in_class(s: Seq<char>, cls: CharClass, i: int)
    requires
        0 <= i <= s.len(),
    ensures
        i <= next_in_class(s, cls, i) <= s.len(),
        next_in_class(s, cls, i) < s.len() ==> in_class(cls, s[next_in_class(s, cls, i)]),
        forall|j: int| i <= j < next_in_class(s, cls, i) ==> !in_class(cls, #[trigger] s[j]),
    decreases s.len() - i,
{
    if i < s.len() && !in_class(cls, s[i]) {
        lemma_next_in_class(s, cls, i + 1);
    }
}

/// The pieces of `s` from index `start` on, separated by characters of
/// `cls` (`str::split` with a character predicate).
pub open spec fn split_from(s: Seq<char>, cls: CharClass, start: int) -> Seq<Seq<char>>
    decreases s.len() - start,
{
    if start < 0 || start > s.len() {
        Seq::empty()
    } else {
        let k = next_in_class(s, cls, start);
        if k >= s.len() || k < start {
            seq![s.subrange(start, s.len() as int)]
        } else {
            seq![s.subrange(start, k)] + split_from(s, cls, k + 1)
        }
    }
}

/// `str::split` on a class of separator characters.
pub open spec fn split(s: Seq<char>, cls: CharClass) -> Seq<Seq<char>> {
    split_from(s, cls, 0)
}

/// The non-empty pieces of `split` (`str::split_whitespace` and friends).
pub open spec fn split_nonempty(s: Seq<char>, cls: CharClass) -> Seq<Seq<char>> {
    split(s, cls).filter(nonempty())
}

/// The predicate "is not empty" on character sequences.
pub open spec fn nonempty() -> spec_fn(Seq<char>) -> bool {
    |p: Seq<char>| p.len() > 0
}

/// Index of the first character of `cls` at or after `i` (or `s.len()`).
pub fn next_in_class_exec(s: &[char], cls: CharClass, i: usize) -> (r: usize)
    requires
        i <= s@.len(),
    ensures
        r == next_in_class(s@, cls, i as int),
{
    let mut k: usize = i;
    while k < s.len() && !in_class_exec(cls, s[k])
        invariant
            i <= k <= s@.len(),
            next_in_class(s@, cls, i as int) == next_in_class(s@, cls, k as int),
        decreases s@.len() - k,
    {
        k = k + 1;
    }
    k
}

/// `str::split` on a class of separator characters.
pub fn split_exec(s: &[char], cls: CharClass) -> (out: Vec<Vec<char>>)
    ensures
        views(out@) == split(s@, cls),
{
    let mut out: Vec<Vec<char>> = Vec::new();
    let mut start: usize = 0;
    loop
        invariant
            start <= s@.len(),
            split(s@, cls) == views(out@) + split_from(s@, cls, start as int),
        decreases s@.len() - start,
    {
        let k = next_in_class_exec(s, cls, start);
        proof {
            lemma_next_in_class(s@, cls, start as int);
        }
        let piece = sub_chars(s, start, k);
        let ghost before = views(out@);
        out.push(piece);
        assert(views(out@) =~= before.push(piece@));
        if k >= s.len() {
            assert(split_from(s@, cls, start as int) =~= seq![s@.subrange(start as int, s@.len() as int)]);
            assert(views(out@) =~= before + split_from(s@, cls, start as int));
            return out;
        }
        assert(split_from(s@, cls, start as int) =~= seq![s@.subrange(start as int, k as int)]
            + split_from(s@, cls, k + 1));
        assert(before + split_from(s@, cls, start as int) =~= views(out@) + split_from(
            s@,
            cls,
            k + 1,
        ));
        start = k + 1;
    }
}

/// Non-empty pieces of `s` between separator characters of `cls`.
pub fn split_nonempty_exec(s: &[char], cls: CharClass) -> (out: Vec<Vec<char>>)
    ensures
        views(out@) == split_nonempty(s@, cls),
{
    let pieces = split_exec(s, cls);
    let mut out: Vec<Vec<char>> = Vec::new();
    let mut i: usize = 0;
    while i < pieces.len()
        invariant
            i <= pieces@.len(),
            views(pieces@) == split(s@, cls),
            views(out@) == views(pieces@).take(i as int).filter(nonempty()),
        decreases pieces@.len() - i,
    {
        let ghost before = views(out@);
        assert(views(pieces@).take(i + 1) =~= views(pieces@).take(i as int).push(pieces@[i as int]@));
        proof {
            views(pieces@).take(i as int).lemma_filter_push(pieces@[i as int]@, nonempty());
        }
        if pieces[i].len() > 0 {
            let piece = sub_chars(pieces[i].as_slice(), 0, pieces[i].len());
            assert(piece@ =~= pieces@[i as int]@);
            out.push(piece);
            assert(views(out@) =~= before.push(pieces@[i as int]@));
        }
        i = i + 1;
    }
    assert(views(pieces@).take(pieces@.len() as int) =~= views(pieces@));
    out
}

// ---------------------------------------------------------------------------
// Lines
// ---------------------------------------------------------------------------

/// A line without its `\r` (only when the line had a `\n` terminator).
pub open spec fn strip_cr(l: Seq<char>) -> Seq<char> {
    if l.len() > 0 && l.last() == '\r' {
        l.drop_last()
    } else {
        l
    }
}

/// The lines of `s` from index `start` on (`str::lines`): split at `\n`,
/// a `\r` before the `\n` is dropped, and a final empty line is not yielded.
pub open spec fn lines_from(s: Seq<char>, start: int) -> Seq<Seq<char>>
    decreases s.len() - start,
{
    if start < 0 || start >= s.len() {
        Seq::empty()
    } else {
        let k = next_in_class(s, CharClass::Is('\n'), start);
        if k >= s.len() || k < start {
            seq![s.subrange(start, s.len() as int)]
        } else {
            seq![strip_cr(s.subrange(start, k))] + lines_from(s, k + 1)
        }
    }
}

/// `str::lines`.
pub open spec fn lines(s: Seq<char>) -> Seq<Seq<char>> {
    lines_from(s, 0)
}

/// `str::lines` on characters.
pub fn lines_exec(s: &[char]) -> (out: Vec<Vec<char>>)
    ensures
        views(out@) == lines(s@),
{
    let mut out: Vec<Vec<char>> = Vec::new();
    let mut start: usize = 0;
    while start < s.len()
        invariant
            start <= s@.len(),
            lines(s@) == views(out@) + lines_from(s@, start as int),
        decreases s@.len() - start,
    {
        let k = next_in_class_exec(s, CharClass::Is('\n'), start);
        proof {
            lemma_next_in_class(s@, CharClass::Is('\n'), start as int);
        }
        let ghost before = views(out@);
        if k >= s.len() {
            let piece = sub_chars(s, start, s.len());
            out.push(piece);
            assert(views(out@) =~= before.push(piece@));
            assert(lines_from(s@, start as int) =~= seq![s@.subrange(start as int, s@.len() as int)]);
            assert(views(out@) =~= before + lines_from(s@, start as int));
            assert(lines_from(s@, s@.len() as int) =~= Seq::<Seq<char>>::empty());
            start = s.len();
            assert(views(out@) + lines_from(s@, start as int) =~= views(out@));
        } else {
            let mut end = k;
            if end > start && s[end - 1] == '\r' {
                end = end - 1;
            }
            let piece = sub_chars(s, start, end);
            assert(piece@ =~= strip_cr(s@.subrange(start as int, k as int)));
            out.push(piece);
            assert(views(out@) =~= before.push(piece@));
            assert(before + lines_from(s@, start as int) =~= views(out@) + lines_from(
                s@,
                k + 1,
            ));
            start = k + 1;
        }
    }
    assert(lines_from(s@, start as int) =~= Seq::<Seq<char>>::empty());
    assert(views(out@) + lines_from(s@, start as int) =~= views(out@));
    out
}

// ---------------------------------------------------------------------------
// Decimal rendering
// ---------------------------------------------------------------------------

/// The decimal digit character for `d < 10`.
pub open spec fn digit_char(d: nat) -> char {
    ((48 + d) as u32) as char
}

/// Decimal rendering of a natural number, no leading zeros.
pub open spec fn dec(n: nat) -> Seq<char>
    decreases n,
{
    if n < 10 {
        seq![digit_char(n)]
    } else {
        dec(n / 10).push(digit_char(n % 10))
    }
}

/// Decimal digit character.
pub fn digit_char_exec(d: u64) -> (c: char)
    requires
        d < 10,
    ensures
        c == digit_char(d as nat),
{
    let b: u8 = (48 + d) as u8;
    b as char
}

/// Decimal rendering of `n` as characters.
pub fn dec_chars(n: u64) -> (out: Vec<char>)
    ensures
        out@ == dec(n as nat),
    decreases n,
{
    if n < 10 {
        let mut v: Vec<char> = Vec::new();
        v.push(digit_char_exec(n));
        assert(v@ =~= seq![digit_char(n as nat)]);
        v
    } else {
        let mut v = dec_chars(n / 10);
        v.push(digit_char_exec(n % 10));
        v
    }
}

/// Decimal rendering of `n` (`u64::to_string`).
pub fn fmt_u64(n: u64) -> (out: String)
    ensures
        out@ == dec(n as nat),
{
    let v = dec_chars(n);
    string_from(v.as_slice())
}

/// Appends the decimal rendering of `n` to `s`.
pub fn push_dec(s: &mut String, n: u64)
    ensures
        final(s)@ == old(s)@ + dec(n as nat),
{
    let v = dec_chars(n);
    push_chars(s, v.as_slice());
}


// ---------------------------------------------------------------------------
// UTF-8 byte lengths
// ---------------------------------------------------------------------------

/// Number of bytes UTF-8 uses for `c`.
pub open spec fn utf8_width(c: char) -> nat {
    if (c as u32) < 0x80 {
        1
    } else if (c as u32) < 0x800 {
        2
    } else if (c as u32) < 0x10000 {
        3
    } else {
        4
    }
}

/// Number of bytes of the UTF-8 encoding of `s` (`str::len`).
pub open spec fn utf8_len(s: Seq<char>) -> nat
    decreases s.len(),
{
    if s.len() == 0 {
        0
    } else {
        utf8_len(s.drop_last()) + utf8_width(s.last())
    }
}

/// Number of bytes UTF-8 uses for `c`.
pub fn utf8_width_exec(c: char) -> (w: usize)
    ensures
        w == utf8_width(c),
{
    let v = c as u32;
    if v < 0x80 {
        1
    } else if v < 0x800 {
        2
    } else if v < 0x10000 {
        3
    } else {
        4
    }
}

/// UTF-8 byte length of `s`, or `None` when it does not fit in a `usize`.
pub fn utf8_len_checked(s: &[char]) -> (r: Option<usize>)
    ensures
        match r {
            Some(n) => n == utf8_len(s@),
            None => utf8_len(s@) > usize::MAX,
        },
{
    let mut total: usize = 0;
    let mut i: usize = 0;
    while i < s.len()
        invariant
            i <= s@.len(),
            total == utf8_len(s@.take(i as int)),
        decreases s@.len() - i,
    {
        let w = utf8_width_exec(s[i]);
        assert(s@.take(i + 1).drop_last() =~= s@.take(i as int));
        proof {
            lemma_utf8_len_prefix_mono(s@, i + 1);
        }
        if total > usize::MAX - w {
            return None;
        }
        total = total + w;
        i = i + 1;
    }
    assert(s@.take(s@.len() as int) =~= s@);
    Some(total)
}

/// UTF-8 length grows with the prefix.
pub proof fn lemma_utf8_len_prefix_mono(s: Seq<char>, k: int)
    requires
        0 <= k <= s.len(),
    ensures
        utf8_len(s.take(k)) <= utf8_len(s),
    decreases s.len() - k,
{
    if k < s.len() {
        lemma_utf8_len_prefix_mono(s, k + 1);
        assert(s.take(k + 1).drop_last() =~= s.take(k));
    } else {
        assert(s.take(k) =~= s);
    }
}

// ---------------------------------------------------------------------------
// Joining
// ---------------------------------------------------------------------------

/// The pieces of `v` joined by `sep` (`[String]::join`).
pub open spec fn join(v: Seq<Seq<char>>, sep: Seq<char>) -> Seq<char>
    decreases v.len(),
{
    if v.len() == 0 {
        Seq::empty()
    } else if v.len() == 1 {
        v[0]
    } else {
        join(v.drop_last(), sep) + sep + v.last()
    }
}

/// Joins `v[from..to]` with `sep`.
pub fn join_range(v: &Vec<Vec<char>>, from: usize, to: usize, sep: &[char]) -> (out: Vec<char>)
    requires
        from <= to <= v@.len(),
    ensures
        out@ == join(views(v@).subrange(from as int, to as int), sep@),
{
    let mut out: Vec<char> = Vec::new();
    let mut i: usize = from;
    while i < to
        invariant
            from <= i <= to,
            to <= v@.len(),
            out@ == join(views(v@).subrange(from as int, i as int), sep@),
        decreases to - i,
    {
        let ghost prev = views(v@).subrange(from as int, i as int);
        assert(views(v@).subrange(from as int, i + 1).drop_last() =~= prev);
        if i > from {
            extend_chars(&mut out, sep);
        }
        extend_chars(&mut out, v[i].as_slice());
        i = i + 1;
        proof {
            let cur = views(v@).subrange(from as int, i as int);
            if cur.len() == 1 {
                assert(out@ =~= cur[0]);
            } else {
                assert(out@ =~= join(prev, sep@) + sep@ + cur.last());
            }
        }
    }
    out
}

/// Joins all of `v` with `sep`.
pub fn join_all(v: &Vec<Vec<char>>, sep: &[char]) -> (out: Vec<char>)
    ensures
        out@ == join(views(v@), sep@),
{
    let out = join_range(v, 0, v.len(), sep);
    assert(views(v@).subrange(0, v@.len() as int) =~= views(v@));
    out
}

/// Joins all strings of `v` with `sep`.
pub fn join_strings(v: &Vec<String>, sep: &str) -> (out: String)
    ensures
        out@ == join(str_views(v@), sep@),
{
    let cv = chars_of_all(v);
    let sc = chars_of(sep);
    let j = join_all(&cv, sc.as_slice());
    string_from(j.as_slice())
}

// ---------------------------------------------------------------------------
// Parsing unsigned integers
// ---------------------------------------------------------------------------

/// Value of a sequence of decimal digits.
pub open spec fn digits_value(s: Seq<char>) -> nat
    decreases s.len(),
{
    if s.len() == 0 {
        0
    } else {
        digits_value(s.drop_last()) * 10 + ((s.last() as u32) - 48) as nat
    }
}

/// Every character is an ASCII digit.
pub open spec fn all_digits(s: Seq<char>) -> bool {
    forall|i: int| 0 <= i < s.len() ==> is_ascii_digit(#[trigger] s[i])
}

/// `u32::from_str`: an optional `+`, then at least one digit, value in range.
pub open spec fn parse_u32(s: Seq<char>) -> Option<u32> {
    let d = if s.len() > 0 && s[0] == '+' { s.skip(1) } else { s };
    if d.len() > 0 && all_digits(d) && digits_value(d) <= u32::MAX {
        Some(digits_value(d) as u32)
    } else {
        None
    }
}

proof fn lemma_digits_value_mono(s: Seq<char>, k: int)
    requires
        0 <= k <= s.len(),
        all_digits(s),
    ensures
        digits_value(s.take(k)) <= digits_value(s),
    decreases s.len() - k,
{
    if k < s.len() {
        lemma_digits_value_mono(s, k + 1);
        assert(s.take(k + 1).drop_last() =~= s.take(k));
        assert(is_ascii_digit(s[k]));
    } else {
        assert(s.take(k) =~= s);
    }
}

/// Parses `s` as a `u32` the way `str::parse::<u32>` does.
pub fn parse_u32_exec(s: &[char]) -> (r: Option<u32>)
    ensures
        r == parse_u32(s@),
{
    let mut i: usize = 0;
    if s.len() > 0 && s[0] == '+' {
        i = 1;
    }
    let ghost d = if s@.len() > 0 && s@[0] == '+' { s@.skip(1) } else { s@ };
    assert(d =~= s@.skip(i as int));
    if i >= s.len() {
        return None;
    }
    let mut value: u64 = 0;
    let mut k: usize = i;
    while k < s.len()
        invariant
            i <= k <= s@.len(),
            i < s@.len(),
            d =~= s@.skip(i as int),
            d == (if s@.len() > 0 && s@[0] == '+' { s@.skip(1) } else { s@ }),
            all_digits(s@.subrange(i as int, k as int)),
            value == digits_value(s@.subrange(i as int, k as int)),
            value <= u32::MAX,
        decreases s@.len() - k,
    {
        let c = s[k];
        if !('0' <= c && c <= '9') {
            proof {
                assert(d[k - i] == s@[k as int]);
                assert(!is_ascii_digit(d[k - i]));
                assert(!all_digits(d));
            }
            return None;
        }
        let digit: u64 = (c as u32 - 48) as u64;
        assert(s@.subrange(i as int, k + 1).drop_last() =~= s@.subrange(i as int, k as int));
        let next = value * 10 + digit;
        if next > 4294967295 {
            proof {
                let pre = s@.subrange(i as int, k + 1);
                assert(pre.last() == c);
                assert(pre.drop_last() =~= s@.subrange(i as int, k as int));
                assert(digits_value(pre) == value * 10 + digit);
                assert forall|j: int| 0 <= j < pre.len() implies is_ascii_digit(#[trigger] pre[j]) by {
                    if j < pre.len() - 1 {
                        assert(pre[j] == s@.subrange(i as int, k as int)[j]);
                    }
                }
                if all_digits(d) {
                    assert(pre =~= d.take(k + 1 - i));
                    lemma_digits_value_mono(d, k + 1 - i);
                }
            }
            return None;
        }
        value = next;
        k = k + 1;
    }
    assert(s@.subrange(i as int, s@.len() as int) =~= d);
    Some(value as u32)
}


// ---------------------------------------------------------------------------
// Counting separators
// ---------------------------------------------------------------------------

/// Number of characters of `s` in `cls`.
pub open spec fn count_class(s: Seq<char>, cls: CharClass) -> nat
    decreases s.len(),
{
    if s.len() == 0 {
        0
    } else {
        count_class(s.drop_last(), cls) + if in_class(cls, s.last()) {
            1nat
        } else {
            0nat
        }
    }
}

/// Counting is additive over concatenation.
pub proof fn lemma_count_concat(a: Seq<char>, b: Seq<char>, cls: CharClass)
    ensures
        count_class(a + b, cls) == count_class(a, cls) + count_class(b, cls),
    decreases b.len(),
{
    if b.len() == 0 {
        assert(a + b =~= a);
    } else {
        lemma_count_concat(a, b.drop_last(), cls);
        assert((a + b).drop_last() =~= a + b.drop_last());
    }
}

/// Count of a one-character sequence.
pub proof fn lemma_count_single(x: char, cls: CharClass)
    ensures
        count_class(seq![x], cls) == if in_class(cls, x) { 1nat } else { 0nat },
{
    assert(seq![x].drop_last() =~= Seq::<char>::empty());
    assert(count_class(Seq::<char>::empty(), cls) == 0);
}

/// A sequence without characters of `cls` counts zero.
pub proof fn lemma_count_none(s: Seq<char>, cls: CharClass)
    requires
        forall|i: int| 0 <= i < s.len() ==> !in_class(cls, #[trigger] s[i]),
    ensures
        count_class(s, cls) == 0,
    decreases s.len(),
{
    if s.len() > 0 {
        lemma_count_none(s.drop_last(), cls);
    }
}

/// `split` yields one more piece than there are separators.
pub proof fn lemma_split_from_len(s: Seq<char>, cls: CharClass, start: int)
    requires
        0 <= start <= s.len(),
    ensures
        split_from(s, cls, start).len() == count_class(s.subrange(start, s.len() as int), cls) + 1,
    decreases s.len() - start,
{
    let k = next_in_class(s, cls, start);
    lemma_next_in_class(s, cls, start);
    lemma_count_none(s.subrange(start, k), cls);
    if k >= s.len() {
        assert(s.subrange(start, k) =~= s.subrange(start, s.len() as int));
    } else {
        lemma_split_from_len(s, cls, k + 1);
        let a = s.subrange(start, k);
        let m = s.subrange(k, k + 1);
        let b = s.subrange(k + 1, s.len() as int);
        assert(s.subrange(start, s.len() as int) =~= a + (m + b));
        lemma_count_concat(a, m + b, cls);
        lemma_count_concat(m, b, cls);
        assert(m =~= seq![s[k]]);
        lemma_count_single(s[k], cls);
    }
}

/// Joining separator-free pieces with the separator character and
/// splitting again yields as many pieces.
pub proof fn lemma_split_join_len(v: Seq<Seq<char>>, c: char)
    requires
        v.len() > 0,
        forall|i: int, j: int| 0 <= i < v.len() && 0 <= j < v[i].len() ==> #[trigger] v[i][j] != c,
    ensures
        split(join(v, seq![c]), CharClass::Is(c)).len() == v.len(),
{
    lemma_join_count(v, c);
    lemma_split_from_len(join(v, seq![c]), CharClass::Is(c), 0);
    assert(join(v, seq![c]).subrange(0, join(v, seq![c]).len() as int) =~= join(v, seq![c]));
}

proof fn lemma_join_count(v: Seq<Seq<char>>, c: char)
    requires
        v.len() > 0,
        forall|i: int, j: int| 0 <= i < v.len() && 0 <= j < v[i].len() ==> #[trigger] v[i][j] != c,
    ensures
        count_class(join(v, seq![c]), CharClass::Is(c)) == v.len() - 1,
    decreases v.len(),
{
    let cls = CharClass::Is(c);
    if v.len() == 1 {
        assert forall|j: int| 0 <= j < v[0].len() implies !in_class(cls, #[trigger] v[0][j]) by {
            assert(v[0][j] != c);
        }
        lemma_count_none(v[0], cls);
    } else {
        let w = v.drop_last();
        assert forall|i: int, j: int| 0 <= i < w.len() && 0 <= j < w[i].len() implies #[trigger] w[i][j]
            != c by {
            assert(w[i] == v[i]);
        }
        lemma_join_count(w, c);
        let last = v.last();
        assert forall|j: int| 0 <= j < last.len() implies !in_class(cls, #[trigger] last[j]) by {
            assert(v[v.len() - 1][j] != c);
        }
        lemma_count_none(last, cls);
        lemma_count_concat(join(w, seq![c]) + seq![c], last, cls);
        lemma_count_concat(join(w, seq![c]), seq![c], cls);
        lemma_count_single(c, cls);
        assert(join(v, seq![c]) == join(w, seq![c]) + seq![c] + last);
    }
}

/// No line of `lines(s)` holds a `\n`.
pub proof fn lemma_lines_no_newline(s: Seq<char>, start: int)
    requires
        0 <= start,
    ensures
        forall|i: int, j: int|
            0 <= i < lines_from(s, start).len() && 0 <= j < lines_from(s, start)[i].len()
                ==> #[trigger] lines_from(s, start)[i][j] != '\n',
    decreases s.len() - start,
{
    if start < s.len() {
        let k = next_in_class(s, CharClass::Is('\n'), start);
        lemma_next_in_class(s, CharClass::Is('\n'), start);
        if k >= s.len() {
            let l = s.subrange(start, s.len() as int);
            assert forall|j: int| 0 <= j < l.len() implies l[j] != '\n' by {
                assert(l[j] == s[start + j]);
            }
        } else {
            lemma_lines_no_newline(s, k + 1);
            let l = strip_cr(s.subrange(start, k));
            assert forall|j: int| 0 <= j < l.len() implies l[j] != '\n' by {
                assert(l[j] == s[start + j]);
            }
            let rest = lines_from(s, k + 1);
            assert(lines_from(s, start) =~= seq![l] + rest);
            assert forall|i: int, j: int|
                0 <= i < lines_from(s, start).len() && 0 <= j < lines_from(s, start)[i].len()
                implies #[trigger] lines_from(s, start)[i][j] != '\n' by {
                if i > 0 {
                    assert(lines_from(s, start)[i] == rest[i - 1]);
                }
            }
        }
    }
}


// ---------------------------------------------------------------------------
// Prefix stripping, character replacement, piece search, copies
// ---------------------------------------------------------------------------

/// `s` with every leading repetition of the non-empty `p` removed
/// (`str::trim_start_matches` with a string pattern).
pub open spec fn strip_prefix_all(s: Seq<char>, p: Seq<char>) -> Seq<char>
    decreases s.len(),
{
    if p.len() > 0 && starts_with(s, p) {
        strip_prefix_all(s.skip(p.len() as int), p)
    } else {
        s
    }
}

/// Removes every leading repetition of `p` from `s`.
pub fn strip_prefix_all_exec(s: &[char], p: &[char]) -> (out: Vec<char>)
    ensures
        out@ == strip_prefix_all(s@, p@),
{
    if p.len() == 0 {
        return sub_chars(s, 0, s.len());
    }
    let n: usize = s.len();
    let mut i: usize = 0;
    assert(s@.skip(0) =~= s@);
    loop
        invariant
            n == s@.len(),
            i <= s@.len(),
            p@.len() > 0,
            strip_prefix_all(s@, p@) == strip_prefix_all(s@.skip(i as int), p@),
        ensures
            i <= s@.len(),
            !matches_at(s@, p@, i as int),
            strip_prefix_all(s@, p@) == strip_prefix_all(s@.skip(i as int), p@),
        decreases s@.len() - i,
    {
        let m = matches_at_exec(s, p, i);
        if !m {
            break;
        }
        let pl: usize = p.len();
        assert(i + pl <= s@.len());
        assert(s@.skip(i as int).take(p@.len() as int) =~= s@.subrange(i as int, i + p@.len()));
        assert(s@.skip(i as int).skip(p@.len() as int) =~= s@.skip(i + p@.len()));
        i = i + pl;
    }
    proof {
        if i + p@.len() <= s@.len() {
            assert(s@.skip(i as int).take(p@.len() as int) =~= s@.subrange(i as int, i + p@.len()));
        }
    }
    let out = sub_chars(s, i, s.len());
    assert(out@ =~= s@.skip(i as int));
    out
}

/// `s` with every `from` replaced by `to` (`str::replace` with characters).
pub open spec fn replace_char(s: Seq<char>, from: char, to: char) -> Seq<char> {
    s.map_values(|c: char| if c == from { to } else { c })
}

/// Replaces every `from` in `s` by `to`.
pub fn replace_char_exec(s: &[char], from: char, to: char) -> (out: Vec<char>)
    ensures
        out@ == replace_char(s@, from, to),
{
    let mut out: Vec<char> = Vec::new();
    let mut i: usize = 0;
    while i < s.len()
        invariant
            i <= s@.len(),
            out@ == replace_char(s@.take(i as int), from, to),
        decreases s@.len() - i,
    {
        if s[i] == from {
            out.push(to);
        } else {
            out.push(s[i]);
        }
        i = i + 1;
        assert(out@ =~= replace_char(s@.take(i as int), from, to));
    }
    assert(s@.take(s@.len() as int) =~= s@);
    out
}

/// Whether one of the character vectors of `v` equals `p`.
pub fn contains_piece(v: &Vec<Vec<char>>, p: &[char]) -> (r: bool)
    ensures
        r == views(v@).contains(p@),
{
    let mut i: usize = 0;
    while i < v.len()
        invariant
            i <= v@.len(),
            forall|j: int| 0 <= j < i ==> v@[j]@ != p@,
        decreases v@.len() - i,
    {
        if eq_chars(v[i].as_slice(), p) {
            assert(views(v@)[i as int] == p@);
            return true;
        }
        i = i + 1;
    }
    proof {
        if views(v@).contains(p@) {
            let k = choose|k: int| 0 <= k < views(v@).len() && views(v@)[k] == p@;
            assert(v@[k]@ == p@);
        }
    }
    false
}

/// A copy of a vector of strings.
pub fn clone_strings(v: &Vec<String>) -> (out: Vec<String>)
    ensures
        str_views(out@) == str_views(v@),
{
    let mut out: Vec<String> = Vec::new();
    let mut i: usize = 0;
    while i < v.len()
        invariant
            i <= v@.len(),
            out@.len() == i,
            forall|j: int| 0 <= j < i ==> #[trigger] out@[j]@ == v@[j]@,
        decreases v@.len() - i,
    {
        out.push(v[i].clone());
        i = i + 1;
    }
    assert(str_views(out@) =~= str_views(v@));
    out
}


/// UTF-8 uses at most four bytes per character.
pub proof fn lemma_utf8_len_bound(s: Seq<char>)
    ensures
        utf8_len(s) <= 4 * s.len(),
    decreases s.len(),
{
    if s.len() > 0 {
        lemma_utf8_len_bound(s.drop_last());
    }
}


/// Appends copies of `items` to `out`.
pub fn append_strings(out: &mut Vec<String>, items: &Vec<String>)
    ensures
        str_views(final(out)@) == str_views(old(out)@) + str_views(items@),
{
    let ghost start = str_views(out@);
    let mut j: usize = 0;
    while j < items.len()
        invariant
            j <= items@.len(),
            str_views(out@) == start + str_views(items@).take(j as int),
        decreases items@.len() - j,
    {
        let ghost b = str_views(out@);
        let c = items[j].clone();
        out.push(c);
        assert(str_views(out@) =~= b.push(c@));
        assert(str_views(items@).take(j + 1) =~= str_views(items@).take(j as int).push(c@));
        j = j + 1;
    }
    assert(str_views(items@).take(items@.len() as int) =~= str_views(items@));
}

// ---------------------------------------------------------------------------
// Lines of joined text
// ---------------------------------------------------------------------------

/// A text with no line feed.
pub open spec fn single_line(s: Seq<char>) -> bool {
    forall|i: int| 0 <= i < s.len() ==> s[i] != '\n'
}

/// What `str::lines` yields for pieces joined by line feeds: each piece but
/// the last loses a carriage return that ends it.
pub open spec fn line_pieces(ls: Seq<Seq<char>>) -> Seq<Seq<char>> {
    Seq::new(
        ls.len(),
        |i: int|
            if i < ls.len() - 1 {
                strip_cr(ls[i])
            } else {
                ls[i]
            },
    )
}

proof fn lemma_next_in_class_shift(pre: Seq<char>, s: Seq<char>, cls: CharClass, i: int)
    requires
        0 <= i <= s.len(),
    ensures
        next_in_class(pre + s, cls, pre.len() + i) == pre.len() + next_in_class(s, cls, i),
    decreases s.len() - i,
{
    if i < s.len() {
        assert((pre + s)[pre.len() + i] == s[i]);
        if !in_class(cls, s[i]) {
            lemma_next_in_class_shift(pre, s, cls, i + 1);
        }
    }
}

proof fn lemma_lines_from_shift(pre: Seq<char>, s: Seq<char>, i: int)
    requires
        0 <= i,
    ensures
        lines_from(pre + s, pre.len() + i) == lines_from(s, i),
    decreases s.len() - i,
{
    if i < s.len() {
        lemma_next_in_class_shift(pre, s, CharClass::Is('\n'), i);
        lemma_next_in_class(s, CharClass::Is('\n'), i);
        let k = next_in_class(s, CharClass::Is('\n'), i);
        assert((pre + s).subrange(pre.len() + i, (pre + s).len() as int) =~= s.subrange(
            i,
            s.len() as int,
        ));
        if k < s.len() {
            assert((pre + s).subrange(pre.len() + i, pre.len() + k) =~= s.subrange(i, k));
            lemma_lines_from_shift(pre, s, k + 1);
        }
    }
}

/// Joining splits off the first piece.
pub proof fn lemma_join_front(ls: Seq<Seq<char>>, sep: Seq<char>)
    requires
        ls.len() >= 2,
    ensures
        join(ls, sep) == ls[0] + sep + join(ls.skip(1), sep),
    decreases ls.len(),
{
    if ls.len() > 2 {
        lemma_join_front(ls.drop_last(), sep);
        assert(ls.drop_last().skip(1) =~= ls.skip(1).drop_last());
        assert(ls.skip(1).last() == ls.last());
        assert(ls.drop_last()[0] == ls[0]);
        assert(join(ls.skip(1), sep) == join(ls.skip(1).drop_last(), sep) + sep + ls.skip(1).last());
        assert(join(ls, sep) == join(ls.drop_last(), sep) + sep + ls.last());
        assert(join(ls, sep) =~= ls[0] + sep + join(ls.skip(1), sep));
    } else {
        assert(ls.skip(1) =~= seq![ls[1]]);
        assert(ls.drop_last() =~= seq![ls[0]]);
        assert(join(ls.skip(1), sep) == ls[1]);
        assert(join(ls.drop_last(), sep) == ls[0]);
        assert(join(ls, sep) == join(ls.drop_last(), sep) + sep + ls.last());
    }
}

/// The lines of single-line pieces joined by line feeds are the pieces,
/// less a carriage return ending one that is not last, provided the last
/// piece is not empty.
pub proof fn lemma_lines_of_join(ls: Seq<Seq<char>>)
    requires
        ls.len() > 0,
        ls.last().len() > 0,
        forall|i: int| 0 <= i < ls.len() ==> single_line(#[trigger] ls[i]),
    ensures
        lines(join(ls, "\n"@)) == line_pieces(ls),
    decreases ls.len(),
{
    reveal_strlit("\n");
    if ls.len() == 1 {
        let s = ls[0];
        assert(single_line(s));
        lemma_next_in_class(s, CharClass::Is('\n'), 0);
        if next_in_class(s, CharClass::Is('\n'), 0) < s.len() {
            assert(s[next_in_class(s, CharClass::Is('\n'), 0)] == '\n');
        }
        assert(s.subrange(0, s.len() as int) =~= s);
        assert(lines(s) =~= line_pieces(ls));
    } else {
        lemma_join_front(ls, "\n"@);
        let a = ls[0];
        assert(single_line(a));
        let rest = join(ls.skip(1), "\n"@);
        let s = a + "\n"@ + rest;
        assert(ls.skip(1).last() == ls.last());
        assert forall|i: int| 0 <= i < ls.skip(1).len() implies single_line(
            #[trigger] ls.skip(1)[i],
        ) by {
            assert(ls.skip(1)[i] == ls[i + 1]);
        }
        lemma_lines_of_join(ls.skip(1));
        assert(s[a.len() as int] == '\n');
        lemma_next_in_class(s, CharClass::Is('\n'), 0);
        let k = next_in_class(s, CharClass::Is('\n'), 0);
        if k < a.len() {
            assert(s[k] == a[k]);
        }
        if k > a.len() {
            assert(!in_class(CharClass::Is('\n'), s[a.len() as int]));
        }
        assert(k == a.len());
        assert(s.subrange(0, k) =~= a);
        lemma_lines_from_shift(a + "\n"@, rest, 0);
        assert(s =~= (a + "\n"@) + rest);
        assert(lines(s) =~= seq![strip_cr(a)] + line_pieces(ls.skip(1)));
        assert(seq![strip_cr(a)] + line_pieces(ls.skip(1)) =~= line_pieces(ls));
    }
}

} // verus!
