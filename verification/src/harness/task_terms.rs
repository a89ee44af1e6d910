//! Task terms: the words of a task description, split at identifier
//! boundaries, with synonyms, and the path tests that score repository
//! files against them.
use vstd::prelude::*;

use crate::sorted::{lemma_sorted_set_len, sorted_of, sorted_set_of};
use crate::text::{
    chars_of, char_is_lowercase, char_is_uppercase, contains, ends_with, eq_chars, is_ascii_digit,
    is_lowercase, is_uppercase, lower, lower_chars, split, split_exec, str_views, string_from,
    sub_chars, utf8_len, utf8_width, utf8_width_exec, views, CharClass,
};
use crate::text::{join, join_range, split_nonempty, split_nonempty_exec};
use crate::text::{in_class, lemma_next_in_class, next_in_class, split_from};

verus! {

// ---------------------------------------------------------------------------
// Words of identifiers and paths
// ---------------------------------------------------------------------------

/// A word long enough to count: at least three UTF-8 bytes.
pub open spec fn long_enough() -> spec_fn(Seq<char>) -> bool {
    |t: Seq<char>| utf8_len(t) >= 3
}

/// Whether `s` takes at least `n` UTF-8 bytes, for a small `n`.
fn utf8_len_at_least(s: &[char], n: usize) -> (r: bool)
    requires
        n <= 16,
    ensures
        r == (utf8_len(s@) >= n),
{
    let mut total: usize = 0;
    let mut i: usize = 0;
    while i < s.len() && total < n
        invariant
            n <= 16,
            i <= s@.len(),
            total == utf8_len(s@.take(i as int)),
            total < n + 4,
        decreases s@.len() - i,
    {
        let w = utf8_width_exec(s[i]);
        assert(s@.take(i + 1).drop_last() =~= s@.take(i as int));
        total = total + w;
        i = i + 1;
    }
    proof {
        crate::text::lemma_utf8_len_prefix_mono(s@, i as int);
        if i == s@.len() {
            assert(s@.take(i as int) =~= s@);
        }
    }
    total >= n
}

/// Whether `s` takes at least three UTF-8 bytes.
fn long_enough_exec(s: &[char]) -> (r: bool)
    ensures
        r == (utf8_len(s@) >= 3),
{
    utf8_len_at_least(s, 3)
}

/// A camel-case boundary before index `i`: lower or digit then upper, or
/// upper then upper followed by lower.
pub open spec fn camel_boundary(s: Seq<char>, i: int) -> bool {
    let prev = s[i - 1];
    let curr = s[i];
    ((char_is_lowercase(prev) || is_ascii_digit(prev)) && char_is_uppercase(curr)) || (
    char_is_uppercase(prev) && char_is_uppercase(curr) && i + 1 < s.len() && char_is_lowercase(
        s[i + 1],
    ))
}

/// The camel-case pieces of `s` from the piece starting at `start`, scanning
/// boundaries from `i`.
pub open spec fn camel_from(s: Seq<char>, start: int, i: int) -> Seq<Seq<char>>
    decreases s.len() - i,
{
    if i >= s.len() || i < 1 {
        seq![s.subrange(start, s.len() as int)]
    } else if camel_boundary(s, i) {
        seq![s.subrange(start, i)] + camel_from(s, i, i + 1)
    } else {
        camel_from(s, start, i + 1)
    }
}

/// The camel-case pieces of `s` (none for the empty string).
pub open spec fn camel_parts(s: Seq<char>) -> Seq<Seq<char>> {
    if s.len() == 0 {
        Seq::empty()
    } else {
        camel_from(s, 0, 1)
    }
}

/// The long-enough alphanumeric words of one lower-cased camel piece.
pub open spec fn identifier_words(part: Seq<char>) -> Seq<Seq<char>> {
    split(lower(part), CharClass::NonAlphanumeric).filter(long_enough())
}

/// The words of an identifier: camel pieces, lower-cased, split at
/// non-alphanumeric characters, at least three bytes each.
pub open spec fn spec_split_identifier(v: Seq<char>) -> Seq<Seq<char>> {
    camel_parts(v).map_values(|p: Seq<char>| identifier_words(p)).flatten()
}

fn words_of_part(part: &[char], out: &mut Vec<Vec<char>>)
    ensures
        views(final(out)@) == views(old(out)@) + identifier_words(part@),
{
    let l = lower_chars(part);
    let pieces = split_exec(l.as_slice(), CharClass::NonAlphanumeric);
    let ghost pv = views(pieces@);
    let ghost start = views(out@);
    let mut i: usize = 0;
    assert(pv.take(0).filter(long_enough()) =~= Seq::<Seq<char>>::empty()) by {
        reveal(Seq::filter);
    }
    assert(views(out@) =~= start + pv.take(0).filter(long_enough()));
    while i < pieces.len()
        invariant
            i <= pieces@.len(),
            pv == views(pieces@),
            pv == split(lower(part@), CharClass::NonAlphanumeric),
            views(out@) == start + pv.take(i as int).filter(long_enough()),
        decreases pieces@.len() - i,
    {
        assert(pv.take(i + 1) =~= pv.take(i as int).push(pv[i as int]));
        proof {
            pv.take(i as int).lemma_filter_push(pv[i as int], long_enough());
        }
        let ghost before = views(out@);
        if long_enough_exec(pieces[i].as_slice()) {
            let w = sub_chars(pieces[i].as_slice(), 0, pieces[i].len());
            assert(w@ =~= pv[i as int]);
            out.push(w);
            assert(views(out@) =~= before.push(pv[i as int]));
        }
        i = i + 1;
    }
    assert(pv.take(pieces@.len() as int) =~= pv);
}

fn camel_boundary_exec(s: &[char], i: usize) -> (r: bool)
    requires
        1 <= i < s@.len(),
    ensures
        r == camel_boundary(s@, i as int),
{
    let prev = s[i - 1];
    let curr = s[i];
    let first = (is_lowercase(prev) || ('0' <= prev && prev <= '9')) && is_uppercase(curr);
    if first {
        return true;
    }
    is_uppercase(prev) && is_uppercase(curr) && i + 1 < s.len() && is_lowercase(s[i + 1])
}

/// The words of an identifier (`split_identifier`).
pub fn split_identifier(value: &[char]) -> (out: Vec<Vec<char>>)
    ensures
        views(out@) == spec_split_identifier(value@),
{
    let mut out: Vec<Vec<char>> = Vec::new();
    let ghost f = |p: Seq<char>| identifier_words(p);
    if value.len() == 0 {
        assert(camel_parts(value@).map_values(f) =~= Seq::<Seq<Seq<char>>>::empty());
        assert(views(out@) =~= Seq::<Seq<char>>::empty());
        return out;
    }
    let n: usize = value.len();
    let mut start: usize = 0;
    let mut i: usize = 1;
    // Pieces already emitted, as sequences.
    let ghost mut done: Seq<Seq<char>> = Seq::empty();
    assert(views(out@) =~= done.map_values(f).flatten());
    while i < n
        invariant
            n == value@.len(),
            0 <= start < i <= n,
            f == (|p: Seq<char>| identifier_words(p)),
            camel_parts(value@) == done + camel_from(value@, start as int, i as int),
            views(out@) == done.map_values(f).flatten(),
        decreases n - i,
    {
        if camel_boundary_exec(value, i) {
            let piece = sub_chars(value, start, i);
            let ghost before = views(out@);
            words_of_part(piece.as_slice(), &mut out);
            proof {
                assert(done.push(piece@).map_values(f) =~= done.map_values(f).push(f(piece@)));
                done.map_values(f).lemma_flatten_push(f(piece@));
                assert(done + camel_from(value@, start as int, i as int) =~= done.push(piece@)
                    + camel_from(value@, i as int, i + 1));
                done = done.push(piece@);
            }
            start = i;
        }
        i = i + 1;
    }
    let piece = sub_chars(value, start, n);
    words_of_part(piece.as_slice(), &mut out);
    proof {
        assert(done.push(piece@).map_values(f) =~= done.map_values(f).push(f(piece@)));
        done.map_values(f).lemma_flatten_push(f(piece@));
        assert(camel_parts(value@) =~= done.push(piece@));
    }
    out
}


/// The words that `path` offers for matching: each non-alphanumeric-separated
/// segment lower-cased, followed by its identifier words, keeping those of
/// at least three bytes.
pub open spec fn spec_path_tokens(path: Seq<char>) -> Seq<Seq<char>> {
    split(path, CharClass::NonAlphanumeric).map_values(
        |seg: Seq<char>| seq![lower(seg)] + spec_split_identifier(lower(seg)),
    ).flatten().filter(long_enough())
}

fn filter_long(v: &Vec<Vec<char>>) -> (out: Vec<Vec<char>>)
    ensures
        views(out@) == views(v@).filter(long_enough()),
{
    let ghost pv = views(v@);
    let mut out: Vec<Vec<char>> = Vec::new();
    let mut i: usize = 0;
    assert(pv.take(0).filter(long_enough()) =~= Seq::<Seq<char>>::empty()) by {
        reveal(Seq::filter);
    }
    assert(views(out@) =~= Seq::<Seq<char>>::empty());
    while i < v.len()
        invariant
            i <= v@.len(),
            pv == views(v@),
            views(out@) == pv.take(i as int).filter(long_enough()),
        decreases v@.len() - i,
    {
        assert(pv.take(i + 1) =~= pv.take(i as int).push(pv[i as int]));
        proof {
            pv.take(i as int).lemma_filter_push(pv[i as int], long_enough());
        }
        let ghost before = views(out@);
        if long_enough_exec(v[i].as_slice()) {
            let w = sub_chars(v[i].as_slice(), 0, v[i].len());
            assert(w@ =~= pv[i as int]);
            out.push(w);
            assert(views(out@) =~= before.push(pv[i as int]));
        }
        i = i + 1;
    }
    assert(pv.take(v@.len() as int) =~= pv);
    out
}

fn path_tokens(path: &[char]) -> (out: Vec<Vec<char>>)
    ensures
        views(out@) == spec_path_tokens(path@),
{
    let segs = split_exec(path, CharClass::NonAlphanumeric);
    let ghost sv = views(segs@);
    let ghost g = |seg: Seq<char>| seq![lower(seg)] + spec_split_identifier(lower(seg));
    let mut raw: Vec<Vec<char>> = Vec::new();
    let mut i: usize = 0;
    assert(sv.take(0).map_values(g) =~= Seq::<Seq<Seq<char>>>::empty());
    assert(views(raw@) =~= sv.take(0).map_values(g).flatten());
    while i < segs.len()
        invariant
            i <= segs@.len(),
            sv == views(segs@),
            sv == split(path@, CharClass::NonAlphanumeric),
            g == (|seg: Seq<char>| seq![lower(seg)] + spec_split_identifier(lower(seg))),
            views(raw@) == sv.take(i as int).map_values(g).flatten(),
        decreases segs@.len() - i,
    {
        let ghost before = views(raw@);
        let l = lower_chars(segs[i].as_slice());
        let words = split_identifier(l.as_slice());
        raw.push(l);
        let mut k: usize = 0;
        while k < words.len()
            invariant
                k <= words@.len(),
                views(raw@) == before + seq![lower(sv[i as int])] + views(words@).take(k as int),
            decreases words@.len() - k,
        {
            let ghost b2 = views(raw@);
            let w = sub_chars(words[k].as_slice(), 0, words[k].len());
            assert(w@ =~= words@[k as int]@);
            raw.push(w);
            assert(views(raw@) =~= b2.push(w@));
            assert(views(words@).take(k + 1) =~= views(words@).take(k as int).push(w@));
            k = k + 1;
        }
        proof {
            assert(views(words@).take(words@.len() as int) =~= views(words@));
            assert(sv.take(i + 1).map_values(g) =~= sv.take(i as int).map_values(g).push(g(sv[i as int])));
            sv.take(i as int).map_values(g).lemma_flatten_push(g(sv[i as int]));
            assert(views(raw@) =~= before + g(sv[i as int]));
        }
        i = i + 1;
    }
    assert(sv.take(segs@.len() as int) =~= sv);
    filter_long(&raw)
}

/// Two words name the same thing: equal, or one is the other plus `s`.
pub open spec fn segments_equivalent(segment: Seq<char>, term: Seq<char>) -> bool {
    segment == term || term == segment.push('s') || segment == term.push('s')
}

fn plural_of(a: &[char], b: &[char]) -> (r: bool)
    ensures
        r == (a@ == b@.push('s')),
{
    if a.len() == 0 || a.len() - 1 != b.len() || a[a.len() - 1] != 's' {
        proof {
            if a@ == b@.push('s') {
                assert(a@.len() == b@.len() + 1);
                assert(a@[a@.len() - 1] == 's');
            }
        }
        return false;
    }
    let head = sub_chars(a, 0, a.len() - 1);
    let r = eq_chars(head.as_slice(), b);
    proof {
        if r {
            assert(a@ =~= b@.push('s'));
        }
        if a@ == b@.push('s') {
            assert(head@ =~= b@);
        }
    }
    r
}

fn segments_equivalent_exec(segment: &[char], term: &[char]) -> (r: bool)
    ensures
        r == segments_equivalent(segment@, term@),
{
    eq_chars(segment, term) || plural_of(term, segment) || plural_of(segment, term)
}

/// Repository-wide words that never select a file on their own.
pub open spec fn low_signal(t: Seq<char>) -> bool {
    t == "codex"@ || t == "openai"@ || t == "rs"@
}

/// Task verbs too common to justify inclusion on one match.
pub open spec fn weak_term(t: Seq<char>) -> bool {
    t == "add"@ || t == "fix"@ || t == "make"@ || t == "new"@ || t == "use"@ || t == "with"@
}

fn is_word(s: &[char], w: &str) -> (r: bool)
    ensures
        r == (s@ == w@),
{
    let wc = chars_of(w);
    eq_chars(s, wc.as_slice())
}

fn low_signal_exec(t: &[char]) -> (r: bool)
    ensures
        r == low_signal(t@),
{
    is_word(t, "codex") || is_word(t, "openai") || is_word(t, "rs")
}

fn weak_term_exec(t: &[char]) -> (r: bool)
    ensures
        r == weak_term(t@),
{
    is_word(t, "add") || is_word(t, "fix") || is_word(t, "make") || is_word(t, "new") || is_word(
        t,
        "use",
    ) || is_word(t, "with")
}

/// `term` (case-insensitively) names a word of `path`, unless it is a
/// repository-wide word.
pub open spec fn spec_path_matches_term(path: Seq<char>, term: Seq<char>) -> bool {
    let t = lower(term);
    !low_signal(t) && exists|i: int|
        0 <= i < spec_path_tokens(path).len() && segments_equivalent(
            #[trigger] spec_path_tokens(path)[i],
            t,
        )
}

/// Whether `term` names a word of `path` (segments, identifier words, and
/// singular/plural forms count; repository-wide words never match).
pub fn path_matches_term(path: &str, term: &str) -> (r: bool)
    ensures
        r == spec_path_matches_term(path@, term@),
{
    let tc = chars_of(term);
    let t = lower_chars(tc.as_slice());
    if low_signal_exec(t.as_slice()) {
        return false;
    }
    let pc = chars_of(path);
    let tokens = path_tokens(pc.as_slice());
    let mut i: usize = 0;
    while i < tokens.len()
        invariant
            i <= tokens@.len(),
            views(tokens@) == spec_path_tokens(path@),
            t@ == lower(term@),
            !low_signal(t@),
            forall|j: int| 0 <= j < i ==> !segments_equivalent(#[trigger] views(tokens@)[j], t@),
        decreases tokens@.len() - i,
    {
        if segments_equivalent_exec(tokens[i].as_slice(), t.as_slice()) {
            assert(segments_equivalent(views(tokens@)[i as int], t@));
            assert(segments_equivalent(spec_path_tokens(path@)[i as int], lower(term@)));
            assert(!low_signal(lower(term@)));
            return true;
        }
        i = i + 1;
    }
    false
}

/// A term that may drive scoring: neither repository-wide nor a weak verb.
pub open spec fn spec_is_scoring_term(term: Seq<char>) -> bool {
    !low_signal(lower(term)) && !weak_term(lower(term))
}

/// Whether a term may drive file scoring.
pub fn is_scoring_term(term: &str) -> (r: bool)
    ensures
        r == spec_is_scoring_term(term@),
{
    let tc = chars_of(term);
    let t = lower_chars(tc.as_slice());
    !low_signal_exec(t.as_slice()) && !weak_term_exec(t.as_slice())
}

/// The predicate "is a scoring term that matches `path`".
pub open spec fn matching_term(path: Seq<char>) -> spec_fn(Seq<char>) -> bool {
    |t: Seq<char>| spec_is_scoring_term(t) && spec_path_matches_term(path, t)
}

/// Number of distinct scoring terms that match `path`.
pub fn count_term_matches(path: &str, terms: &[String]) -> (n: usize)
    ensures
        n == str_views(terms@).filter(matching_term(path@)).to_set().len(),
{
    let ghost tv = str_views(terms@);
    let mut hits: Vec<String> = Vec::new();
    let mut i: usize = 0;
    assert(tv.take(0).filter(matching_term(path@)) =~= Seq::<Seq<char>>::empty()) by {
        reveal(Seq::filter);
    }
    assert(str_views(hits@) =~= Seq::<Seq<char>>::empty());
    while i < terms.len()
        invariant
            i <= terms@.len(),
            tv == str_views(terms@),
            str_views(hits@) == tv.take(i as int).filter(matching_term(path@)),
        decreases terms@.len() - i,
    {
        assert(tv.take(i + 1) =~= tv.take(i as int).push(tv[i as int]));
        proof {
            tv.take(i as int).lemma_filter_push(tv[i as int], matching_term(path@));
        }
        let ghost before = str_views(hits@);
        if is_scoring_term(terms[i].as_str()) && path_matches_term(path, terms[i].as_str()) {
            hits.push(terms[i].clone());
            assert(str_views(hits@) =~= before.push(tv[i as int]));
        }
        i = i + 1;
    }
    assert(tv.take(terms@.len() as int) =~= tv);
    let distinct = sorted_of(&hits);
    proof {
        lemma_sorted_set_len(str_views(distinct@), str_views(hits@).to_set());
    }
    distinct.len()
}


// ---------------------------------------------------------------------------
// Task terms and path tests that use them
// ---------------------------------------------------------------------------

/// Normalized task terms used for path relevance scoring.
#[derive(Debug, Clone, PartialEq)]
pub struct TaskTerms {
    /// Every term of the task text, quoted or not, sorted.
    pub phrases: Vec<String>,
    /// The terms that appear at least once outside backtick and
    /// double-quote spans, sorted.
    pub strong_phrases: Vec<String>,
    /// `phrases` with their synonyms, sorted.
    pub expanded: Vec<String>,
    /// At most three areas the task most likely concerns.
    pub likely_areas: Vec<String>,
    /// The task text without quoted spans, lower-cased.
    pub task_outside_quotes_lower: String,
}

/// Path parts that mark generated, vendored or example material.
pub open spec fn penalty_markers() -> Seq<Seq<char>> {
    seq![
        "__snapshots__"@,
        "examples"@,
        "fixtures"@,
        "generated"@,
        "legacy"@,
        "mock"@,
        "mocks"@,
        "node_modules"@,
        "snapshot"@,
        "snapshots"@,
        "testdata"@,
        "vendor"@,
    ]
}

/// A path to rank down: documentation (other than `agents.md`) when the
/// task does not ask for docs, or a path with a penalty marker.
pub open spec fn spec_is_penalty_path(path: Seq<char>, expanded: Seq<Seq<char>>) -> bool {
    let pl = lower(path);
    (ends_with(pl, ".md"@) && !(expanded.contains("doc"@) || expanded.contains("docs"@)) && !contains(
        pl,
        "agents.md"@,
    )) || exists|i: int| 0 <= i < penalty_markers().len() && contains(pl, #[trigger] penalty_markers()[i])
}

fn penalty_markers_exec() -> (out: Vec<Vec<char>>)
    ensures
        views(out@) == penalty_markers(),
{
    let out = vec![
        chars_of("__snapshots__"),
        chars_of("examples"),
        chars_of("fixtures"),
        chars_of("generated"),
        chars_of("legacy"),
        chars_of("mock"),
        chars_of("mocks"),
        chars_of("node_modules"),
        chars_of("snapshot"),
        chars_of("snapshots"),
        chars_of("testdata"),
        chars_of("vendor"),
    ];
    assert(views(out@) =~= penalty_markers());
    out
}

/// Whether a path should be ranked down given the task's expanded terms.
pub fn is_penalty_path(path: &str, terms: &TaskTerms) -> (r: bool)
    ensures
        r == spec_is_penalty_path(path@, str_views(terms.expanded@)),
{
    let pc = chars_of(path);
    let pl = lower_chars(pc.as_slice());
    let md = chars_of(".md");
    if crate::text::ends_with_exec(pl.as_slice(), md.as_slice()) && !(crate::text::any_eq(
        &terms.expanded,
        "doc",
    ) || crate::text::any_eq(&terms.expanded, "docs")) {
        let agents = chars_of("agents.md");
        if !crate::text::contains_exec(pl.as_slice(), agents.as_slice()) {
            return true;
        }
    }
    let markers = penalty_markers_exec();
    let mut i: usize = 0;
    while i < markers.len()
        invariant
            i <= markers@.len(),
            views(markers@) == penalty_markers(),
            pl@ == lower(path@),
            forall|j: int| 0 <= j < i ==> !contains(pl@, #[trigger] penalty_markers()[j]),
        decreases markers@.len() - i,
    {
        if crate::text::contains_exec(pl.as_slice(), markers[i].as_slice()) {
            assert(contains(pl@, penalty_markers()[i as int]));
            return true;
        }
        i = i + 1;
    }
    false
}

/// Some expanded term occurs in the lower-cased path, as written or with
/// `_` read as `-`.
pub open spec fn spec_task_mentions_path_marker(path: Seq<char>, expanded: Seq<Seq<char>>) -> bool {
    let pl = lower(path);
    exists|i: int|
        0 <= i < expanded.len() && (contains(pl, #[trigger] expanded[i]) || contains(
            pl,
            crate::text::replace_char(expanded[i], '_', '-'),
        ))
}

/// Whether the path contains one of the task's expanded terms.
pub fn task_mentions_path_marker(path: &str, terms: &TaskTerms) -> (r: bool)
    ensures
        r == spec_task_mentions_path_marker(path@, str_views(terms.expanded@)),
{
    let pc = chars_of(path);
    let pl = lower_chars(pc.as_slice());
    let ghost ev = str_views(terms.expanded@);
    let mut i: usize = 0;
    while i < terms.expanded.len()
        invariant
            i <= terms.expanded@.len(),
            ev == str_views(terms.expanded@),
            pl@ == lower(path@),
            forall|j: int|
                0 <= j < i ==> !(contains(pl@, #[trigger] ev[j]) || contains(
                    pl@,
                    crate::text::replace_char(ev[j], '_', '-'),
                )),
        decreases terms.expanded@.len() - i,
    {
        let t = chars_of(terms.expanded[i].as_str());
        let dashed = crate::text::replace_char_exec(t.as_slice(), '_', '-');
        if crate::text::contains_exec(pl.as_slice(), t.as_slice()) || crate::text::contains_exec(
            pl.as_slice(),
            dashed.as_slice(),
        ) {
            assert(ev[i as int] == t@);
            return true;
        }
        i = i + 1;
    }
    false
}

/// Every `-`-separated token of the crate name is one of the phrases.
pub open spec fn spec_task_targets_crate(phrases: Seq<Seq<char>>, crate_name: Seq<char>) -> bool {
    forall|i: int|
        0 <= i < split(crate_name, CharClass::Is('-')).len() ==> phrases.contains(
            #[trigger] split(crate_name, CharClass::Is('-'))[i],
        )
}

/// Whether the phrases name every `-`-separated token of the crate name.
pub fn task_targets_crate(phrases: &[String], crate_name: &str) -> (r: bool)
    ensures
        r == spec_task_targets_crate(str_views(phrases@), crate_name@),
{
    let nc = chars_of(crate_name);
    let tokens = split_exec(nc.as_slice(), CharClass::Is('-'));
    let ghost pv = str_views(phrases@);
    let mut i: usize = 0;
    while i < tokens.len()
        invariant
            i <= tokens@.len(),
            views(tokens@) == split(crate_name@, CharClass::Is('-')),
            pv == str_views(phrases@),
            forall|j: int| 0 <= j < i ==> pv.contains(#[trigger] views(tokens@)[j]),
        decreases tokens@.len() - i,
    {
        let s = string_from(tokens[i].as_slice());
        let found = phrase_member(phrases, s.as_str());
        if !found {
            assert(!pv.contains(views(tokens@)[i as int]));
            return false;
        }
        i = i + 1;
    }
    true
}

fn phrase_member(phrases: &[String], s: &str) -> (r: bool)
    ensures
        r == str_views(phrases@).contains(s@),
{
    let mut i: usize = 0;
    while i < phrases.len()
        invariant
            i <= phrases@.len(),
            forall|j: int| 0 <= j < i ==> phrases@[j]@ != s@,
        decreases phrases@.len() - i,
    {
        if crate::text::str_eq(phrases[i].as_str(), s) {
            assert(str_views(phrases@)[i as int] == s@);
            return true;
        }
        i = i + 1;
    }
    proof {
        if str_views(phrases@).contains(s@) {
            let k = choose|k: int| 0 <= k < str_views(phrases@).len() && str_views(phrases@)[k] == s@;
            assert(phrases@[k]@ == s@);
        }
    }
    false
}


// ---------------------------------------------------------------------------
// Building the terms of a task
// ---------------------------------------------------------------------------

/// Walks `s` keeping text outside and inside backtick and double-quote
/// spans apart: (outside, inside, in backticks, in double quotes). The
/// delimiters themselves belong to neither text.
pub open spec fn quote_walk(s: Seq<char>) -> (Seq<char>, Seq<char>, bool, bool)
    decreases s.len(),
{
    if s.len() == 0 {
        (Seq::empty(), Seq::empty(), false, false)
    } else {
        let st = quote_walk(s.drop_last());
        let c = s.last();
        if c == '`' {
            (st.0, st.1, !st.2, st.3)
        } else if c == '"' {
            (st.0, st.1, st.2, !st.3)
        } else if st.2 || st.3 {
            (st.0, st.1.push(c), st.2, st.3)
        } else {
            (st.0.push(c), st.1, st.2, st.3)
        }
    }
}

/// Splits a task into the text outside backtick / double-quote spans and
/// the text inside them; an unbalanced opener puts the rest inside.
pub fn split_inside_outside_quotes(task: &str) -> (r: (String, String))
    ensures
        r.0@ == quote_walk(task@).0,
        r.1@ == quote_walk(task@).1,
{
    let tc = chars_of(task);
    let mut outside: Vec<char> = Vec::new();
    let mut inside: Vec<char> = Vec::new();
    let mut in_backtick = false;
    let mut in_double = false;
    let mut i: usize = 0;
    assert(tc@.take(0) =~= Seq::<char>::empty());
    while i < tc.len()
        invariant
            i <= tc@.len(),
            tc@ == task@,
            quote_walk(tc@.take(i as int)) == (outside@, inside@, in_backtick, in_double),
        decreases tc@.len() - i,
    {
        assert(tc@.take(i + 1).drop_last() =~= tc@.take(i as int));
        let c = tc[i];
        if c == '`' {
            in_backtick = !in_backtick;
        } else if c == '"' {
            in_double = !in_double;
        } else if in_backtick || in_double {
            inside.push(c);
        } else {
            outside.push(c);
        }
        i = i + 1;
    }
    assert(tc@.take(tc@.len() as int) =~= tc@);
    (string_from(outside.as_slice()), string_from(inside.as_slice()))
}

/// The task with every quote delimiter and every quoted character blanked
/// to a space: the words left are those written outside quoted spans, and a
/// quoted span inside a word still separates its two sides.
pub open spec fn unquoted_text(s: Seq<char>) -> Seq<char>
    decreases s.len(),
{
    if s.len() == 0 {
        Seq::empty()
    } else {
        let st = quote_walk(s.drop_last());
        let c = s.last();
        unquoted_text(s.drop_last()).push(
            if c == '`' || c == '"' || st.2 || st.3 {
                ' '
            } else {
                c
            },
        )
    }
}

fn unquoted_text_exec(tc: &[char]) -> (out: Vec<char>)
    ensures
        out@ == unquoted_text(tc@),
{
    let mut out: Vec<char> = Vec::new();
    let mut in_backtick = false;
    let mut in_double = false;
    let mut i: usize = 0;
    assert(tc@.take(0) =~= Seq::<char>::empty());
    while i < tc.len()
        invariant
            i <= tc@.len(),
            out@ == unquoted_text(tc@.take(i as int)),
            quote_walk(tc@.take(i as int)).2 == in_backtick,
            quote_walk(tc@.take(i as int)).3 == in_double,
        decreases tc@.len() - i,
    {
        assert(tc@.take(i + 1).drop_last() =~= tc@.take(i as int));
        let c = tc[i];
        if c == '`' || c == '"' || in_backtick || in_double {
            out.push(' ');
        } else {
            out.push(c);
        }
        if c == '`' {
            in_backtick = !in_backtick;
        } else if c == '"' {
            in_double = !in_double;
        }
        i = i + 1;
    }
    assert(tc@.take(tc@.len() as int) =~= tc@);
    out
}

/// The lower-cased words of a text, at least three bytes each.
pub open spec fn spec_tokenize(text: Seq<char>) -> Seq<Seq<char>> {
    split(text, CharClass::NonAlphanumeric).filter(long_enough()).map_values(|t: Seq<char>| lower(t))
}

/// The terms one token contributes: its identifier words, its singular when
/// it ends in `s` and is longer than four bytes, and itself.
pub open spec fn token_terms(tok: Seq<char>) -> Seq<Seq<char>> {
    spec_split_identifier(tok).filter(long_enough()) + (if ends_with(tok, "s"@) && utf8_len(tok) > 4 {
        seq![tok.drop_last()]
    } else {
        Seq::empty()
    }) + seq![tok]
}

/// The set of terms of a text.
pub open spec fn text_terms(text: Seq<char>) -> Set<Seq<char>> {
    spec_tokenize(text).map_values(|t: Seq<char>| token_terms(t)).flatten().to_set()
}

fn tokenize_raw(text: &[char]) -> (out: Vec<Vec<char>>)
    ensures
        views(out@) == spec_tokenize(text@),
{
    let pieces = split_exec(text, CharClass::NonAlphanumeric);
    let kept = filter_long(&pieces);
    let ghost kv = views(kept@);
    let ghost f = |t: Seq<char>| lower(t);
    let mut out: Vec<Vec<char>> = Vec::new();
    let mut i: usize = 0;
    while i < kept.len()
        invariant
            i <= kept@.len(),
            kv == views(kept@),
            f == (|t: Seq<char>| lower(t)),
            views(out@) == kv.take(i as int).map_values(f),
        decreases kept@.len() - i,
    {
        let l = lower_chars(kept[i].as_slice());
        let ghost before = views(out@);
        assert(l@ == f(kv[i as int]));
        out.push(l);
        assert(views(out@) =~= before.push(l@));
        assert(kv.take(i + 1).map_values(f) =~= kv.take(i as int).map_values(f).push(f(kv[i as int])));
        i = i + 1;
    }
    assert(kv.take(kept@.len() as int) =~= kv);
    out
}

fn token_terms_exec(tok: &[char]) -> (out: Vec<String>)
    ensures
        str_views(out@) == token_terms(tok@),
{
    let words = split_identifier(tok);
    let kept = filter_long(&words);
    let mut out = crate::text::strings_from(&kept);
    let ghost a = str_views(out@);
    let s = chars_of("s");
    if crate::text::ends_with_exec(tok, s.as_slice()) && utf8_len_at_least(tok, 5) {
        let stem = sub_chars(tok, 0, tok.len() - 1);
        assert(stem@ =~= tok@.drop_last());
        out.push(string_from(stem.as_slice()));
    }
    let ghost b = str_views(out@);
    out.push(string_from(tok));
    assert(str_views(out@) =~= b.push(tok@));
    out
}


fn terms_of_text(text: &[char]) -> (out: Vec<String>)
    ensures
        sorted_set_of(str_views(out@), text_terms(text@)),
{
    let toks = tokenize_raw(text);
    let ghost tv = views(toks@);
    let ghost f = |t: Seq<char>| token_terms(t);
    let mut out: Vec<String> = Vec::new();
    let mut i: usize = 0;
    assert(tv.take(0).map_values(f) =~= Seq::<Seq<Seq<char>>>::empty());
    assert(str_views(out@) =~= Seq::<Seq<char>>::empty());
    assert(tv.take(0).map_values(f).flatten().to_set() =~= Set::<Seq<char>>::empty());
    while i < toks.len()
        invariant
            i <= toks@.len(),
            tv == views(toks@),
            tv == spec_tokenize(text@),
            f == (|t: Seq<char>| token_terms(t)),
            sorted_set_of(str_views(out@), tv.take(i as int).map_values(f).flatten().to_set()),
        decreases toks@.len() - i,
    {
        let items = token_terms_exec(toks[i].as_slice());
        let ghost prev = tv.take(i as int).map_values(f);
        crate::sorted::insert_all_sorted(&mut out, &items);
        proof {
            assert(tv.take(i + 1).map_values(f) =~= prev.push(f(tv[i as int])));
            prev.lemma_flatten_push(f(tv[i as int]));
            crate::sorted::lemma_concat_to_set(prev.flatten(), f(tv[i as int]));
        }
        i = i + 1;
    }
    assert(tv.take(toks@.len() as int) =~= tv);
    out
}

/// Each key with the words it is interchangeable with.
pub open spec fn synonym_table() -> Seq<(Seq<char>, Seq<Seq<char>>)> {
    seq![
        ("eval"@, seq!["evaluation"@, "metrics"@, "benchmark"@]),
        ("agent"@, seq!["assistant"@, "agent_eval"@]),
        ("fixture"@, seq!["fixtures"@]),
        ("harness"@, seq!["context"@, "packet"@, "assembler"@]),
        ("score"@, seq!["scoring"@, "metric"@, "metrics"@]),
        ("prompt"@, seq!["fragment"@, "contextual"@, "input"@]),
        ("post"@, seq!["failure"@, "repair"@, "report"@]),
        ("failure"@, seq!["post"@, "repair"@, "report"@]),
        ("test"@, seq!["spec"@, "fixture"@, "golden"@]),
        ("restaurant"@, seq!["restaurants"@]),
        ("pagination"@, seq!["page"@, "limit"@, "offset"@, "cursor"@, "paginate"@]),
        ("search"@, seq!["query"@, "filter"@, "lookup"@]),
        ("auth"@, seq!["authentication"@, "login"@, "middleware"@]),
        ("middleware"@, seq!["handler"@, "layer"@]),
        ("context"@, seq!["harness"@, "packet"@]),
    ]
}

/// The words a term expands to through `table`: a key yields its words; a
/// word yields its key and all words of its entry.
pub open spec fn synonyms_from(table: Seq<(Seq<char>, Seq<Seq<char>>)>, term: Seq<char>) -> Seq<Seq<char>>
    decreases table.len(),
{
    if table.len() == 0 {
        Seq::empty()
    } else {
        let e = table.last();
        synonyms_from(table.drop_last(), term) + (if term == e.0 {
            e.1
        } else {
            Seq::empty()
        }) + (if e.1.contains(term) {
            seq![e.0] + e.1
        } else {
            Seq::empty()
        })
    }
}

/// The view of an executable synonym table.
pub open spec fn table_view(v: Seq<(String, Vec<String>)>) -> Seq<(Seq<char>, Seq<Seq<char>>)> {
    v.map_values(|e: (String, Vec<String>)| (e.0@, str_views(e.1@)))
}

fn strs(v: Vec<&str>) -> (out: Vec<String>)
    ensures
        str_views(out@) == v@.map_values(|s: &str| s@),
{
    let mut out: Vec<String> = Vec::new();
    let mut i: usize = 0;
    while i < v.len()
        invariant
            i <= v@.len(),
            out@.len() == i,
            forall|j: int| 0 <= j < i ==> #[trigger] out@[j]@ == v@[j]@,
        decreases v@.len() - i,
    {
        out.push(v[i].to_owned());
        i = i + 1;
    }
    assert(str_views(out@) =~= v@.map_values(|s: &str| s@));
    out
}

fn synonym_table_exec() -> (out: Vec<(String, Vec<String>)>)
    ensures
        table_view(out@) == synonym_table(),
{
    let out = vec![
        ("eval".to_owned(), strs(vec!["evaluation", "metrics", "benchmark"])),
        ("agent".to_owned(), strs(vec!["assistant", "agent_eval"])),
        ("fixture".to_owned(), strs(vec!["fixtures"])),
        ("harness".to_owned(), strs(vec!["context", "packet", "assembler"])),
        ("score".to_owned(), strs(vec!["scoring", "metric", "metrics"])),
        ("prompt".to_owned(), strs(vec!["fragment", "contextual", "input"])),
        ("post".to_owned(), strs(vec!["failure", "repair", "report"])),
        ("failure".to_owned(), strs(vec!["post", "repair", "report"])),
        ("test".to_owned(), strs(vec!["spec", "fixture", "golden"])),
        ("restaurant".to_owned(), strs(vec!["restaurants"])),
        ("pagination".to_owned(), strs(vec!["page", "limit", "offset", "cursor", "paginate"])),
        ("search".to_owned(), strs(vec!["query", "filter", "lookup"])),
        ("auth".to_owned(), strs(vec!["authentication", "login", "middleware"])),
        ("middleware".to_owned(), strs(vec!["handler", "layer"])),
        ("context".to_owned(), strs(vec!["harness", "packet"])),
    ];
    assert(table_view(out@) =~~= synonym_table());
    out
}


fn synonyms_exec(table: &Vec<(String, Vec<String>)>, term: &str) -> (out: Vec<String>)
    ensures
        str_views(out@) == synonyms_from(table_view(table@), term@),
{
    let ghost tv = table_view(table@);
    let mut out: Vec<String> = Vec::new();
    let mut k: usize = 0;
    assert(tv.take(0) =~= Seq::<(Seq<char>, Seq<Seq<char>>)>::empty());
    assert(str_views(out@) =~= Seq::<Seq<char>>::empty());
    while k < table.len()
        invariant
            k <= table@.len(),
            tv == table_view(table@),
            str_views(out@) == synonyms_from(tv.take(k as int), term@),
        decreases table@.len() - k,
    {
        assert(tv.take(k + 1).drop_last() =~= tv.take(k as int));
        let ghost e = tv[k as int];
        assert(tv.take(k + 1).last() == e);
        let ghost start = str_views(out@);
        let values = &table[k].1;
        if crate::text::str_eq(table[k].0.as_str(), term) {
            crate::text::append_strings(&mut out, values);
        } else {
            assert(start + Seq::<Seq<char>>::empty() =~= start);
        }
        let ghost mid = str_views(out@);
        if crate::text::any_eq(values, term) {
            let key = table[k].0.clone();
            out.push(key);
            assert(str_views(out@) =~= mid.push(e.0));
            crate::text::append_strings(&mut out, values);
            assert(str_views(out@) =~= mid + (seq![e.0] + e.1));
        } else {
            assert(mid + Seq::<Seq<char>>::empty() =~= mid);
        }
        k = k + 1;
    }
    assert(tv.take(table@.len() as int) =~= tv);
    out
}

/// Something occurs in a flattened sequence exactly when it occurs in one
/// of the pieces.
pub proof fn lemma_flatten_contains(xs: Seq<Seq<Seq<char>>>, y: Seq<char>)
    ensures
        xs.flatten().contains(y) <==> exists|k: int| 0 <= k < xs.len() && (#[trigger] xs[k]).contains(y),
    decreases xs.len(),
{
    if xs.len() > 0 {
        let init = xs.drop_last();
        lemma_flatten_contains(init, y);
        assert(init.push(xs.last()) =~= xs);
        init.lemma_flatten_push(xs.last());
        crate::sorted::lemma_concat_to_set(init.flatten(), xs.last());
        assert(xs.flatten() == init.flatten() + xs.last());
        assert(xs.flatten().to_set().contains(y) == xs.flatten().contains(y));
        assert(init.flatten().to_set().contains(y) == init.flatten().contains(y));
        assert(xs.last().to_set().contains(y) == xs.last().contains(y));
        if exists|k: int| 0 <= k < xs.len() && (#[trigger] xs[k]).contains(y) {
            let k = choose|k: int| 0 <= k < xs.len() && (#[trigger] xs[k]).contains(y);
            if k < init.len() {
                assert(init[k] == xs[k]);
            }
        }
        if exists|k: int| 0 <= k < init.len() && (#[trigger] init[k]).contains(y) {
            let k = choose|k: int| 0 <= k < init.len() && (#[trigger] init[k]).contains(y);
            assert(xs[k] == init[k]);
        }
        if xs.last().contains(y) {
            assert(xs[xs.len() - 1].contains(y));
        }
    } else {
        assert(xs.flatten() =~= Seq::<Seq<char>>::empty());
    }
}

/// A set of terms together with every synonym of its members.
pub open spec fn expansion(s: Set<Seq<char>>) -> Set<Seq<char>> {
    s.union(
        Set::new(
            |y: Seq<char>|
                exists|t: Seq<char>| s.contains(t) && #[trigger] synonyms_from(synonym_table(), t).contains(y),
        ),
    )
}

fn expand_all(sorted: &Vec<String>, table: &Vec<(String, Vec<String>)>) -> (out: Vec<String>)
    requires
        crate::sorted::strictly_sorted(str_views(sorted@)),
        table_view(table@) == synonym_table(),
    ensures
        sorted_set_of(str_views(out@), expansion(str_views(sorted@).to_set())),
{
    let ghost sv = str_views(sorted@);
    let ghost f = |t: Seq<char>| synonyms_from(synonym_table(), t);
    let mut out = crate::text::clone_strings(sorted);
    let mut i: usize = 0;
    assert(sv.take(0).map_values(f).flatten() =~= Seq::<Seq<char>>::empty());
    assert(sv.to_set().union(sv.take(0).map_values(f).flatten().to_set()) =~= sv.to_set());
    while i < sorted.len()
        invariant
            i <= sorted@.len(),
            sv == str_views(sorted@),
            table_view(table@) == synonym_table(),
            f == (|t: Seq<char>| synonyms_from(synonym_table(), t)),
            sorted_set_of(str_views(out@), sv.to_set().union(sv.take(i as int).map_values(f).flatten().to_set())),
        decreases sorted@.len() - i,
    {
        let syn = synonyms_exec(table, sorted[i].as_str());
        let ghost prev = sv.take(i as int).map_values(f);
        crate::sorted::insert_all_sorted(&mut out, &syn);
        proof {
            assert(sv.take(i + 1).map_values(f) =~= prev.push(f(sv[i as int])));
            prev.lemma_flatten_push(f(sv[i as int]));
            crate::sorted::lemma_concat_to_set(prev.flatten(), f(sv[i as int]));
            assert(sv.to_set().union(prev.flatten().to_set()).union(str_views(syn@).to_set()) =~= sv.to_set().union(
                (prev.flatten() + f(sv[i as int])).to_set(),
            ));
        }
        i = i + 1;
    }
    proof {
        assert(sv.take(sorted@.len() as int) =~= sv);
        let xs = sv.map_values(f);
        assert forall|y: Seq<char>| xs.flatten().to_set().contains(y) <==> (exists|t: Seq<char>|
            sv.to_set().contains(t) && #[trigger] synonyms_from(synonym_table(), t).contains(y)) by {
            lemma_flatten_contains(xs, y);
            if xs.flatten().to_set().contains(y) {
                assert(xs.flatten().contains(y));
                let k = choose|k: int| 0 <= k < xs.len() && (#[trigger] xs[k]).contains(y);
                assert(sv.to_set().contains(sv[k]));
                assert(synonyms_from(synonym_table(), sv[k]).contains(y));
            }
            if exists|t: Seq<char>| sv.to_set().contains(t) && #[trigger] synonyms_from(synonym_table(), t).contains(y) {
                let t = choose|t: Seq<char>| sv.to_set().contains(t) && #[trigger] synonyms_from(synonym_table(), t).contains(y);
                let k = choose|k: int| 0 <= k < sv.len() && sv[k] == t;
                assert(xs[k].contains(y));
                assert(xs.flatten().contains(y));
            }
        }
        assert(sv.to_set().union(xs.flatten().to_set()) =~= expansion(sv.to_set()));
    }
    out
}


// ---------------------------------------------------------------------------
// Likely areas
// ---------------------------------------------------------------------------

/// The predicate "differs from `a`".
pub open spec fn differs_from(a: Seq<char>) -> spec_fn(Seq<char>) -> bool {
    |x: Seq<char>| x != a
}

/// The predicate "does not start with `apply-patch`".
pub open spec fn not_apply_patch() -> spec_fn(Seq<char>) -> bool {
    |x: Seq<char>| !crate::text::starts_with(x, "apply-patch"@)
}

/// `a` moved (or added) to the front of `v`.
pub open spec fn prefer_front(v: Seq<Seq<char>>, a: Seq<char>) -> Seq<Seq<char>> {
    seq![a] + v.filter(differs_from(a))
}

/// `a` appended to `v` unless already present.
pub open spec fn prefer(v: Seq<Seq<char>>, a: Seq<char>) -> Seq<Seq<char>> {
    if v.contains(a) {
        v
    } else {
        v.push(a)
    }
}

/// The inferred areas adjusted by the task's own words (the harness crate
/// for harness tasks, the extension and its wiring for extension tasks, the
/// harness and CLI for agent-eval scoring, the harness and verification for
/// post-failure reports), at most three.
pub open spec fn spec_finalize_areas(p: Seq<Seq<char>>, areas: Seq<Seq<char>>) -> Seq<Seq<char>> {
    let a1 = if spec_task_targets_crate(p, "context-harness"@) {
        prefer_front(areas.filter(not_apply_patch()), "context-harness"@)
    } else {
        areas
    };
    let a2 = if p.contains("extension"@) && (p.contains("repo"@) || p.contains("intelligence"@)) {
        prefer(prefer(prefer_front(a1, "ext/repo-intelligence"@), "app-server"@), "core"@)
    } else {
        a1
    };
    let a3 = if p.contains("agent"@) && p.contains("eval"@) && (p.contains("score"@) || p.contains(
        "scoring"@,
    ) || p.contains("metric"@)) {
        prefer(prefer_front(a2, "context-harness"@), "cli"@)
    } else {
        a2
    };
    let a4 = if p.contains("post"@) && p.contains("failure"@) {
        let b = prefer_front(a3, "context-harness"@);
        if p.contains("report"@) || p.contains("verification"@) {
            prefer(b, "verification"@)
        } else {
            b
        }
    } else {
        a3
    };
    if a4.len() > 3 {
        a4.take(3)
    } else {
        a4
    }
}

fn keep_where(v: &Vec<String>, a: &str, drop_prefixed: bool) -> (out: Vec<String>)
    ensures
        !drop_prefixed ==> str_views(out@) == str_views(v@).filter(differs_from(a@)),
        drop_prefixed ==> (a@ == "apply-patch"@ ==> str_views(out@) == str_views(v@).filter(
            not_apply_patch(),
        )),
{
    let ghost pv = str_views(v@);
    let ghost pred = if drop_prefixed {
        not_apply_patch()
    } else {
        differs_from(a@)
    };
    let ac = chars_of(a);
    let mut out: Vec<String> = Vec::new();
    let mut i: usize = 0;
    assert(pv.take(0).filter(pred) =~= Seq::<Seq<char>>::empty()) by {
        reveal(Seq::filter);
    }
    assert(str_views(out@) =~= Seq::<Seq<char>>::empty());
    while i < v.len()
        invariant
            i <= v@.len(),
            pv == str_views(v@),
            ac@ == a@,
            pred == (if drop_prefixed {
                not_apply_patch()
            } else {
                differs_from(a@)
            }),
            drop_prefixed ==> (a@ == "apply-patch"@ ==> str_views(out@) == pv.take(i as int).filter(pred)),
            !drop_prefixed ==> str_views(out@) == pv.take(i as int).filter(pred),
        decreases v@.len() - i,
    {
        assert(pv.take(i + 1) =~= pv.take(i as int).push(pv[i as int]));
        proof {
            pv.take(i as int).lemma_filter_push(pv[i as int], pred);
        }
        let ghost before = str_views(out@);
        let xc = chars_of(v[i].as_str());
        let keep = if drop_prefixed {
            !crate::text::starts_with_exec(xc.as_slice(), ac.as_slice())
        } else {
            !eq_chars(xc.as_slice(), ac.as_slice())
        };
        if keep {
            out.push(v[i].clone());
            assert(str_views(out@) =~= before.push(pv[i as int]));
        }
        i = i + 1;
    }
    assert(pv.take(v@.len() as int) =~= pv);
    out
}

fn prefer_front_exec(v: &Vec<String>, a: &str) -> (out: Vec<String>)
    ensures
        str_views(out@) == prefer_front(str_views(v@), a@),
{
    let mut out = keep_where(v, a, false);
    let ghost rest = str_views(out@);
    out.insert(0, a.to_owned());
    assert(str_views(out@) =~= seq![a@] + rest);
    out
}

fn prefer_exec(v: &mut Vec<String>, a: &str)
    ensures
        str_views(final(v)@) == prefer(str_views(old(v)@), a@),
{
    if !crate::sorted::member(v, a) {
        let ghost before = str_views(v@);
        v.push(a.to_owned());
        assert(str_views(v@) =~= before.push(a@));
    } else {
        proof {
            let k = choose|k: int| 0 <= k < str_views(v@).len() && str_views(v@)[k] == a@;
            assert(str_views(v@).contains(a@));
        }
    }
}

fn finalize_likely_areas(phrases: &Vec<String>, areas: Vec<String>) -> (out: Vec<String>)
    ensures
        str_views(out@) == spec_finalize_areas(str_views(phrases@), str_views(areas@)),
{
    let ghost p = str_views(phrases@);
    let mut areas = areas;
    if task_targets_crate(phrases.as_slice(), "context-harness") {
        let kept = keep_where(&areas, "apply-patch", true);
        areas = prefer_front_exec(&kept, "context-harness");
    }
    if phrase_member(phrases.as_slice(), "extension") && (phrase_member(phrases.as_slice(), "repo")
        || phrase_member(phrases.as_slice(), "intelligence")) {
        areas = prefer_front_exec(&areas, "ext/repo-intelligence");
        prefer_exec(&mut areas, "app-server");
        prefer_exec(&mut areas, "core");
    }
    if phrase_member(phrases.as_slice(), "agent") && phrase_member(phrases.as_slice(), "eval") && (
    phrase_member(phrases.as_slice(), "score") || phrase_member(phrases.as_slice(), "scoring")
        || phrase_member(phrases.as_slice(), "metric")) {
        areas = prefer_front_exec(&areas, "context-harness");
        prefer_exec(&mut areas, "cli");
    }
    if phrase_member(phrases.as_slice(), "post") && phrase_member(phrases.as_slice(), "failure") {
        areas = prefer_front_exec(&areas, "context-harness");
        if phrase_member(phrases.as_slice(), "report") || phrase_member(
            phrases.as_slice(),
            "verification",
        ) {
            prefer_exec(&mut areas, "verification");
        }
    }
    let ghost before = areas@;
    areas.truncate(3);
    proof {
        if before.len() > 3 {
            assert(str_views(areas@) =~= str_views(before).take(3));
        } else {
            assert(areas@ == before);
        }
    }
    areas
}


// ---------------------------------------------------------------------------
// Assembling the terms
// ---------------------------------------------------------------------------

/// What a task's text yields before its likely areas are inferred.
#[derive(Debug, Clone, PartialEq)]
pub struct TaskTermParts {
    /// Every term of the task, sorted.
    pub phrases: Vec<String>,
    /// The terms of the words written outside quoted spans, sorted.
    pub strong_phrases: Vec<String>,
    /// `phrases` with synonyms, sorted.
    pub expanded: Vec<String>,
    /// `strong_phrases` with synonyms, sorted; what area inference reads.
    pub strong_expanded: Vec<String>,
    /// The task without quoted spans, lower-cased.
    pub task_outside_quotes_lower: String,
}

/// Computes the terms of a task text: all terms, the terms outside quotes,
/// both with synonyms, and the lower-cased unquoted text.
pub fn task_term_parts(task: &str) -> (p: TaskTermParts)
    ensures
        sorted_set_of(str_views(p.phrases@), text_terms(task@)),
        sorted_set_of(str_views(p.strong_phrases@), text_terms(unquoted_text(task@))),
        sorted_set_of(str_views(p.expanded@), expansion(text_terms(task@))),
        sorted_set_of(str_views(p.strong_expanded@), expansion(text_terms(unquoted_text(task@)))),
        p.task_outside_quotes_lower@ == lower(quote_walk(task@).0),
{
    let (outside, _inside) = split_inside_outside_quotes(task);
    let tc = chars_of(task);
    let oc = chars_of(outside.as_str());
    let phrases = terms_of_text(tc.as_slice());
    let uc = unquoted_text_exec(tc.as_slice());
    let strong_phrases = terms_of_text(uc.as_slice());
    let table = synonym_table_exec();
    let expanded = expand_all(&phrases, &table);
    let strong_expanded = expand_all(&strong_phrases, &table);
    let lowered = lower_chars(oc.as_slice());
    TaskTermParts {
        phrases,
        strong_phrases,
        expanded,
        strong_expanded,
        task_outside_quotes_lower: string_from(lowered.as_slice()),
    }
}

/// Completes the task terms with the areas inferred from the strong
/// expanded terms, adjusted by the task's own words and capped at three.
pub fn assemble_task_terms(parts: TaskTermParts, inferred_areas: Vec<String>) -> (t: TaskTerms)
    ensures
        str_views(t.phrases@) == str_views(parts.phrases@),
        str_views(t.strong_phrases@) == str_views(parts.strong_phrases@),
        str_views(t.expanded@) == str_views(parts.expanded@),
        str_views(t.likely_areas@) == spec_finalize_areas(
            str_views(parts.strong_phrases@),
            str_views(inferred_areas@),
        ),
        t.task_outside_quotes_lower@ == parts.task_outside_quotes_lower@,
{
    let likely_areas = finalize_likely_areas(&parts.strong_phrases, inferred_areas);
    TaskTerms {
        phrases: parts.phrases,
        strong_phrases: parts.strong_phrases,
        expanded: parts.expanded,
        likely_areas,
        task_outside_quotes_lower: parts.task_outside_quotes_lower,
    }
}

/// The leading directory prefixes of a path, at most `max_depth` of them:
/// its first `n` non-empty `/`-separated parts joined by `/`, for `n` from
/// one up.
pub open spec fn spec_path_prefixes(path: Seq<char>, max_depth: nat) -> Seq<Seq<char>> {
    let parts = split_nonempty(path, CharClass::Is('/'));
    let depth = if parts.len() < max_depth {
        parts.len()
    } else {
        max_depth
    };
    Seq::new(depth, |n: int| join(parts.take(n + 1), "/"@))
}

/// The leading directory prefixes of a path (see [`spec_path_prefixes`]).
pub fn path_prefixes(path: &str, max_depth: usize) -> (out: Vec<String>)
    ensures
        str_views(out@) == spec_path_prefixes(path@, max_depth as nat),
{
    let pc = chars_of(path);
    let parts = split_nonempty_exec(pc.as_slice(), CharClass::Is('/'));
    let depth: usize = if parts.len() < max_depth {
        parts.len()
    } else {
        max_depth
    };
    let sep = chars_of("/");
    let mut out: Vec<String> = Vec::new();
    let mut n: usize = 0;
    while n < depth
        invariant
            n <= depth,
            depth <= parts@.len(),
            sep@ == "/"@,
            views(parts@) == split_nonempty(path@, CharClass::Is('/')),
            out@.len() == n,
            forall|k: int| 0 <= k < n ==> #[trigger] out@[k]@ == join(views(parts@).take(k + 1), "/"@),
        decreases depth - n,
    {
        let joined = join_range(&parts, 0, n + 1, sep.as_slice());
        assert(views(parts@).subrange(0, n + 1) =~= views(parts@).take(n + 1));
        out.push(string_from(joined.as_slice()));
        n = n + 1;
    }
    assert(str_views(out@) =~= spec_path_prefixes(path@, max_depth as nat));
    out
}

// ---------------------------------------------------------------------------
// Strong phrases are phrases
// ---------------------------------------------------------------------------

/// Whether `unquoted_text(t)` blanks position `i`: a quote delimiter, or a
/// character inside a quoted span.
pub open spec fn blanked_at(t: Seq<char>, i: int) -> bool {
    t[i] == '`' || t[i] == '"' || quote_walk(t.take(i)).2 || quote_walk(t.take(i)).3
}

proof fn lemma_unquoted_index(t: Seq<char>)
    ensures
        unquoted_text(t).len() == t.len(),
        forall|i: int|
            0 <= i < t.len() ==> #[trigger] unquoted_text(t)[i] == if blanked_at(t, i) {
                ' '
            } else {
                t[i]
            },
    decreases t.len(),
{
    if t.len() > 0 {
        let d = t.drop_last();
        lemma_unquoted_index(d);
        assert forall|i: int| 0 <= i < t.len() implies #[trigger] unquoted_text(t)[i] == if blanked_at(
            t,
            i,
        ) {
            ' '
        } else {
            t[i]
        } by {
            if i < t.len() - 1 {
                assert(d.take(i) =~= t.take(i));
                assert(unquoted_text(t)[i] == unquoted_text(d)[i]);
            } else {
                assert(t.take(i) =~= d);
            }
        }
    }
}

proof fn lemma_walk_step(t: Seq<char>, i: int)
    requires
        0 <= i < t.len(),
    ensures
        quote_walk(t.take(i + 1)).2 == if t[i] == '`' {
            !quote_walk(t.take(i)).2
        } else {
            quote_walk(t.take(i)).2
        },
        quote_walk(t.take(i + 1)).3 == if t[i] == '"' {
            !quote_walk(t.take(i)).3
        } else {
            quote_walk(t.take(i)).3
        },
{
    assert(t.take(i + 1).drop_last() =~= t.take(i));
    assert(t.take(i + 1).last() == t[i]);
}

/// Next to a kept character, only a quote delimiter is blanked.
proof fn lemma_kept_neighbors(t: Seq<char>, i: int)
    requires
        0 <= i < t.len(),
        !blanked_at(t, i),
    ensures
        i > 0 && blanked_at(t, i - 1) ==> (t[i - 1] == '`' || t[i - 1] == '"'),
        i + 1 < t.len() && blanked_at(t, i + 1) ==> (t[i + 1] == '`' || t[i + 1] == '"'),
{
    if i > 0 {
        lemma_walk_step(t, i - 1);
    }
    lemma_walk_step(t, i);
}

/// `s[i..j]` is a whole piece of `split(s, cls)`: bounded by separators or
/// the ends, with no separator inside.
pub open spec fn piece_at(s: Seq<char>, cls: CharClass, i: int, j: int) -> bool {
    &&& 0 <= i <= j <= s.len()
    &&& (i == 0 || in_class(cls, s[i - 1]))
    &&& (j == s.len() || in_class(cls, s[j]))
    &&& forall|m: int| i <= m < j ==> !in_class(cls, #[trigger] s[m])
}

proof fn lemma_split_piece_bounds(s: Seq<char>, cls: CharClass, start: int, p: Seq<char>)
    requires
        0 <= start <= s.len(),
        start == 0 || in_class(cls, s[start - 1]),
        split_from(s, cls, start).contains(p),
    ensures
        exists|i: int, j: int| piece_at(s, cls, i, j) && p == s.subrange(i, j),
    decreases s.len() - start,
{
    let k = next_in_class(s, cls, start);
    lemma_next_in_class(s, cls, start);
    if k >= s.len() {
        assert(p == s.subrange(start, s.len() as int));
        assert(piece_at(s, cls, start, s.len() as int));
    } else {
        let head = seq![s.subrange(start, k)];
        let rest = split_from(s, cls, k + 1);
        assert(split_from(s, cls, start) == head + rest);
        let n = choose|n: int| 0 <= n < (head + rest).len() && (head + rest)[n] == p;
        if n == 0 {
            assert(piece_at(s, cls, start, k));
        } else {
            assert(rest[n - 1] == p);
            assert(rest.contains(p));
            lemma_split_piece_bounds(s, cls, k + 1, p);
        }
    }
}

proof fn lemma_split_has_piece(s: Seq<char>, cls: CharClass, start: int, i: int, j: int)
    requires
        piece_at(s, cls, i, j),
        0 <= start <= i,
        start == 0 || in_class(cls, s[start - 1]),
    ensures
        split_from(s, cls, start).contains(s.subrange(i, j)),
    decreases i - start,
{
    let k = next_in_class(s, cls, start);
    lemma_next_in_class(s, cls, start);
    if start == i {
        if k > j && j < s.len() {
            assert(!in_class(cls, s[j]));
        }
        if k < j {
            assert(!in_class(cls, s[k]));
        }
        if k >= s.len() {
            assert(split_from(s, cls, start)[0] == s.subrange(i, j));
        } else {
            assert(k == j);
            assert(split_from(s, cls, start)[0] == s.subrange(i, j));
        }
    } else {
        if k > i - 1 {
            assert(!in_class(cls, s[i - 1]));
        }
        let head = seq![s.subrange(start, k)];
        let rest = split_from(s, cls, k + 1);
        assert(split_from(s, cls, start) == head + rest);
        lemma_split_has_piece(s, cls, k + 1, i, j);
        let n = choose|n: int| 0 <= n < rest.len() && rest[n] == s.subrange(i, j);
        assert((head + rest)[n + 1] == s.subrange(i, j));
    }
}

proof fn lemma_utf8_len_empty_only(p: Seq<char>)
    requires
        utf8_len(p) >= 3,
    ensures
        p.len() > 0,
{
    if p.len() == 0 {
        assert(utf8_len(p) == 0);
    }
}

/// A word of a text comes from a long enough piece of it.
proof fn lemma_token_source(s: Seq<char>, x: Seq<char>) -> (p: Seq<char>)
    requires
        spec_tokenize(s).contains(x),
    ensures
        split(s, CharClass::NonAlphanumeric).contains(p),
        utf8_len(p) >= 3,
        x == lower(p),
{
    let sp = split(s, CharClass::NonAlphanumeric);
    let f = sp.filter(long_enough());
    sp.filter_lemma(long_enough());
    let k = choose|k: int| 0 <= k < spec_tokenize(s).len() && spec_tokenize(s)[k] == x;
    assert(spec_tokenize(s).len() == f.len());
    assert(spec_tokenize(s)[k] == lower(f[k]));
    assert(f.contains(f[k]));
    sp.lemma_filter_contains_rev(long_enough(), f[k]);
    assert(long_enough()(f[k]));
    f[k]
}

/// A long enough piece of a text gives one of its words.
proof fn lemma_token_from_piece(s: Seq<char>, p: Seq<char>)
    requires
        split(s, CharClass::NonAlphanumeric).contains(p),
        utf8_len(p) >= 3,
    ensures
        spec_tokenize(s).contains(lower(p)),
{
    let sp = split(s, CharClass::NonAlphanumeric);
    assert(long_enough()(p));
    let i = choose|i: int| 0 <= i < sp.len() && sp[i] == p;
    sp.lemma_filter_contains(long_enough(), i);
    let f = sp.filter(long_enough());
    let k = choose|k: int| 0 <= k < f.len() && f[k] == p;
    assert(spec_tokenize(s)[k] == lower(p));
}

/// A non-empty piece of the unquoted text is a piece of the task, with the
/// same characters.
proof fn lemma_piece_transfer(t: Seq<char>, i: int, j: int)
    requires
        piece_at(unquoted_text(t), CharClass::NonAlphanumeric, i, j),
        i < j,
    ensures
        piece_at(t, CharClass::NonAlphanumeric, i, j),
        t.subrange(i, j) == unquoted_text(t).subrange(i, j),
{
    let u = unquoted_text(t);
    let cls = CharClass::NonAlphanumeric;
    lemma_unquoted_index(t);
    assert(in_class(cls, ' ')) by {
        assert((' ' as u32) < 128);
    }
    assert(in_class(cls, '`')) by {
        assert(('`' as u32) < 128);
    }
    assert(in_class(cls, '"')) by {
        assert(('"' as u32) < 128);
    }
    assert forall|m: int| i <= m < j implies !blanked_at(t, m) && u[m] == t[m] by {
        assert(!in_class(cls, u[m]));
    }
    lemma_kept_neighbors(t, i);
    lemma_kept_neighbors(t, j - 1);
    if i > 0 {
        assert(in_class(cls, u[i - 1]));
    }
    if j < t.len() {
        assert(in_class(cls, u[j]));
    }
    assert forall|m: int| i <= m < j implies !in_class(cls, #[trigger] t[m]) by {
        assert(!in_class(cls, u[m]));
    }
    assert(t.subrange(i, j) =~= u.subrange(i, j));
}

/// Every word written outside quoted spans is a word of the task.
proof fn lemma_unquoted_tokens(t: Seq<char>, x: Seq<char>)
    requires
        spec_tokenize(unquoted_text(t)).contains(x),
    ensures
        spec_tokenize(t).contains(x),
{
    let u = unquoted_text(t);
    let cls = CharClass::NonAlphanumeric;
    let p = lemma_token_source(u, x);
    lemma_utf8_len_empty_only(p);
    lemma_unquoted_index(t);
    lemma_split_piece_bounds(u, cls, 0, p);
    let (i, j) = choose|i: int, j: int| piece_at(u, cls, i, j) && p == u.subrange(i, j);
    lemma_piece_transfer(t, i, j);
    lemma_split_has_piece(t, cls, 0, i, j);
    lemma_token_from_piece(t, p);
}

/// The strong phrases of a task are among its phrases: every term of the
/// words written outside quoted spans is a term of the task.
pub proof fn lemma_strong_terms_subset(task: Seq<char>)
    ensures
        text_terms(unquoted_text(task)).subset_of(text_terms(task)),
{
    let f = |t: Seq<char>| token_terms(t);
    let mu = spec_tokenize(unquoted_text(task)).map_values(f);
    let mt = spec_tokenize(task).map_values(f);
    assert forall|y: Seq<char>| text_terms(unquoted_text(task)).contains(y) implies text_terms(
        task,
    ).contains(y) by {
        lemma_flatten_contains(mu, y);
        let k = choose|k: int| 0 <= k < mu.len() && (#[trigger] mu[k]).contains(y);
        let x = spec_tokenize(unquoted_text(task))[k];
        assert(spec_tokenize(unquoted_text(task)).contains(x));
        lemma_unquoted_tokens(task, x);
        let k2 = choose|k2: int| 0 <= k2 < spec_tokenize(task).len() && spec_tokenize(task)[k2] == x;
        assert(mt[k2] == token_terms(x));
        lemma_flatten_contains(mt, y);
    }
}

} // verus!
