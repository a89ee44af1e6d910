//! Repository paths and token estimates of a serialized prompt input.
use vstd::prelude::*;

use crate::json::{parse_json, parsed_json, JsonModel, JsonValue};
use crate::sorted::{filter_by_membership, sorted_of, sorted_set_of, strictly_sorted};
use crate::text::{
    char_is_whitespace, chars_of, is_ascii_alnum, is_whitespace, lemma_next_in_class, lines, lines_exec,
    next_in_class, next_in_class_exec, split_nonempty, split_nonempty_exec,
    starts_with, str_views, string_from, trim, trim_end_class, trim_end_class_exec, trim_exec,
    trim_start_class, trim_start_class_exec, views, CharClass,
};

verus! {

/// A rough token estimate of serialized prompt input: a quarter of its
/// byte length (taken as a `u32`, as a cast keeps its low 32 bits).
pub fn estimate_tokens_from_prompt_json(json: &str) -> (r: u32)
    ensures
        r == (json.len() as u32) / 4,
{
    (json.len() as u32) / 4
}

/// A repository-like path: has a `/`, does not start with `http`, is
/// shorter than 256 characters and uses only ASCII letters, digits and
/// `/`, `.`, `_`, `-`.
pub open spec fn spec_looks_like_repo_path(token: Seq<char>) -> bool {
    token.contains('/') && !starts_with(token, "http"@) && token.len() < 256 && forall|i: int|
        0 <= i < token.len() ==> (is_ascii_alnum(#[trigger] token[i]) || token[i] == '/' || token[i]
            == '.' || token[i] == '_' || token[i] == '-')
}

/// Whether a token looks like a repository path.
pub fn looks_like_repo_path(token: &str) -> (r: bool)
    ensures
        r == spec_looks_like_repo_path(token@),
{
    let tc = chars_of(token);
    if !crate::text::has_char(tc.as_slice(), '/') {
        return false;
    }
    let http = chars_of("http");
    if crate::text::starts_with_exec(tc.as_slice(), http.as_slice()) {
        return false;
    }
    if tc.len() >= 256 {
        return false;
    }
    let mut i: usize = 0;
    while i < tc.len()
        invariant
            i <= tc@.len(),
            tc@ == token@,
            forall|j: int|
                0 <= j < i ==> (is_ascii_alnum(#[trigger] tc@[j]) || tc@[j] == '/' || tc@[j] == '.'
                    || tc@[j] == '_' || tc@[j] == '-'),
        decreases tc@.len() - i,
    {
        let c = tc[i];
        let ok = ('a' <= c && c <= 'z') || ('A' <= c && c <= 'Z') || ('0' <= c && c <= '9') || c
            == '/' || c == '.' || c == '_' || c == '-';
        if !ok {
            assert(!(is_ascii_alnum(tc@[i as int]) || tc@[i as int] == '/' || tc@[i as int] == '.'
                || tc@[i as int] == '_' || tc@[i as int] == '-'));
            return false;
        }
        i = i + 1;
    }
    true
}

/// `s` without leading and trailing backticks (`trim_matches('`')`).
pub open spec fn trim_backticks(s: Seq<char>) -> Seq<char> {
    trim_end_class(trim_start_class(s, CharClass::Is('`')), CharClass::Is('`'))
}

/// The repository-like pieces among `ts`, backticks trimmed, in order.
pub open spec fn repo_like(ts: Seq<Seq<char>>) -> Seq<Seq<char>>
    decreases ts.len(),
{
    if ts.len() == 0 {
        Seq::empty()
    } else {
        let rest = repo_like(ts.drop_last());
        if spec_looks_like_repo_path(ts.last()) {
            rest.push(trim_backticks(ts.last()))
        } else {
            rest
        }
    }
}

/// Whether a markup tag such as `<cwd>` or `</cwd>` opens at `i`: a `<`,
/// then at least one character that is neither whitespace nor `>`, then `>`.
pub open spec fn tag_at(s: Seq<char>, i: int) -> bool {
    let k = next_in_class(s, CharClass::Is('>'), i + 1);
    0 <= i < s.len() && s[i] == '<' && i + 1 < k < s.len() && forall|m: int|
        i < m < k ==> !char_is_whitespace(#[trigger] s[m])
}

/// `s` from index `i` on, with every markup tag replaced by a space.
pub open spec fn strip_tags_from(s: Seq<char>, i: int) -> Seq<char>
    decreases s.len() - i,
{
    if i < 0 || i >= s.len() {
        Seq::empty()
    } else if tag_at(s, i) {
        seq![' '] + strip_tags_from(s, next_in_class(s, CharClass::Is('>'), i + 1) + 1)
    } else {
        seq![s[i]] + strip_tags_from(s, i + 1)
    }
}

/// A token without the punctuation around it: characters that cannot be
/// part of a path are trimmed from both ends, then a sentence-final period.
pub open spec fn clean_token(t: Seq<char>) -> Seq<char> {
    trim_end_class(
        trim_end_class(trim_start_class(t, CharClass::NotPathChar), CharClass::NotPathChar),
        CharClass::Is('.'),
    )
}

/// The paths found in one string: its whitespace-separated tokens once
/// markup tags are dropped, each cleaned of surrounding punctuation, then
/// its trimmed lines, that look like repository paths.
pub open spec fn string_paths(s: Seq<char>) -> Seq<Seq<char>> {
    repo_like(
        split_nonempty(strip_tags_from(s, 0), CharClass::Whitespace).map_values(
            |t: Seq<char>| clean_token(t),
        ),
    ) + repo_like(lines(s).map_values(|l: Seq<char>| trim(l)))
}

/// The paths found in the strings of a JSON value, depth first.
pub open spec fn json_paths(v: JsonModel) -> Seq<Seq<char>>
    decreases v,
{
    match v {
        JsonModel::Str(s) => string_paths(s),
        JsonModel::Array(items) => items_paths(items),
        JsonModel::Object(entries) => entries_paths(entries),
        _ => Seq::empty(),
    }
}

/// The paths found in a sequence of values, in order.
pub open spec fn items_paths(items: Seq<JsonModel>) -> Seq<Seq<char>>
    decreases items,
{
    if items.len() == 0 {
        Seq::empty()
    } else {
        items_paths(items.drop_last()) + json_paths(items.last())
    }
}

/// The paths found in the member values of an object, in order.
pub open spec fn entries_paths(entries: Seq<(Seq<char>, JsonModel)>) -> Seq<Seq<char>>
    decreases entries,
{
    if entries.len() == 0 {
        Seq::empty()
    } else {
        entries_paths(entries.drop_last()) + json_paths(entries.last().1)
    }
}

/// Appends the repository-like pieces among `ts`, backticks trimmed.
fn push_repo_like(ts: &Vec<Vec<char>>, acc: &mut Vec<String>)
    ensures
        str_views(final(acc)@) == str_views(old(acc)@) + repo_like(views(ts@)),
{
    let ghost start = str_views(acc@);
    let mut i: usize = 0;
    assert(views(ts@).take(0) =~= Seq::<Seq<char>>::empty());
    assert(start + repo_like(views(ts@).take(0)) =~= start);
    while i < ts.len()
        invariant
            i <= ts@.len(),
            str_views(acc@) == start + repo_like(views(ts@).take(i as int)),
        decreases ts@.len() - i,
    {
        let ghost prefix = views(ts@).take(i + 1);
        assert(prefix.drop_last() =~= views(ts@).take(i as int));
        assert(prefix.last() == ts@[i as int]@);
        let token = string_from(ts[i].as_slice());
        if looks_like_repo_path(token.as_str()) {
            let a = trim_start_class_exec(ts[i].as_slice(), CharClass::Is('`'));
            let b = trim_end_class_exec(a.as_slice(), CharClass::Is('`'));
            let ghost before = str_views(acc@);
            acc.push(string_from(b.as_slice()));
            assert(str_views(acc@) =~= before.push(b@));
        }
        i = i + 1;
    }
    assert(views(ts@).take(ts@.len() as int) =~= views(ts@));
}

/// Whether no character of `s[from..to]` is whitespace.
fn none_blank(s: &[char], from: usize, to: usize) -> (r: bool)
    requires
        from <= to <= s@.len(),
    ensures
        r == forall|m: int| from <= m < to ==> !char_is_whitespace(#[trigger] s@[m]),
{
    let mut m: usize = from;
    while m < to
        invariant
            from <= m <= to,
            to <= s@.len(),
            forall|j: int| from <= j < m ==> !char_is_whitespace(#[trigger] s@[j]),
        decreases to - m,
    {
        if is_whitespace(s[m]) {
            return false;
        }
        m = m + 1;
    }
    true
}

/// `s` with every markup tag replaced by a space.
fn strip_tags(s: &[char]) -> (out: Vec<char>)
    ensures
        out@ == strip_tags_from(s@, 0),
{
    let mut out: Vec<char> = Vec::new();
    let mut i: usize = 0;
    while i < s.len()
        invariant
            i <= s@.len(),
            out@ + strip_tags_from(s@, i as int) == strip_tags_from(s@, 0),
        decreases s@.len() - i,
    {
        let mut tag_end: usize = 0;
        if s[i] == '<' {
            let k = next_in_class_exec(s, CharClass::Is('>'), i + 1);
            proof {
                lemma_next_in_class(s@, CharClass::Is('>'), i + 1);
            }
            if k > i + 1 && k < s.len() && none_blank(s, i + 1, k) {
                tag_end = k + 1;
            }
        }
        let ghost before = out@;
        if tag_end > 0 {
            assert(tag_at(s@, i as int));
            out.push(' ');
            assert(out@ =~= before + seq![' ']);
            assert(before + strip_tags_from(s@, i as int) =~= out@ + strip_tags_from(
                s@,
                tag_end as int,
            ));
            i = tag_end;
        } else {
            assert(!tag_at(s@, i as int));
            out.push(s[i]);
            assert(out@ =~= before + seq![s@[i as int]]);
            assert(before + strip_tags_from(s@, i as int) =~= out@ + strip_tags_from(
                s@,
                i + 1,
            ));
            i = i + 1;
        }
    }
    assert(strip_tags_from(s@, i as int) =~= Seq::<char>::empty());
    assert(out@ + Seq::<char>::empty() =~= out@);
    out
}

/// A token without the punctuation around it (see [`clean_token`]).
fn clean_token_exec(t: &[char]) -> (out: Vec<char>)
    ensures
        out@ == clean_token(t@),
{
    let a = trim_start_class_exec(t, CharClass::NotPathChar);
    let b = trim_end_class_exec(a.as_slice(), CharClass::NotPathChar);
    trim_end_class_exec(b.as_slice(), CharClass::Is('.'))
}

/// Appends the paths found in one string.
fn push_string_paths(s: &str, acc: &mut Vec<String>)
    ensures
        str_views(final(acc)@) == str_views(old(acc)@) + string_paths(s@),
{
    let cs = chars_of(s);
    let stripped = strip_tags(cs.as_slice());
    let tokens = split_nonempty_exec(stripped.as_slice(), CharClass::Whitespace);
    let mut cleaned: Vec<Vec<char>> = Vec::new();
    let mut t: usize = 0;
    while t < tokens.len()
        invariant
            t <= tokens@.len(),
            cleaned@.len() == t,
            forall|j: int| 0 <= j < t ==> #[trigger] cleaned@[j]@ == clean_token(tokens@[j]@),
        decreases tokens@.len() - t,
    {
        cleaned.push(clean_token_exec(tokens[t].as_slice()));
        t = t + 1;
    }
    assert(views(cleaned@) =~= split_nonempty(strip_tags_from(s@, 0), CharClass::Whitespace).map_values(
        |x: Seq<char>| clean_token(x),
    )) by {
        assert forall|j: int| 0 <= j < cleaned@.len() implies views(cleaned@)[j]
            == split_nonempty(strip_tags_from(s@, 0), CharClass::Whitespace).map_values(
            |x: Seq<char>| clean_token(x),
        )[j] by {
            assert(views(tokens@)[j] == tokens@[j]@);
        }
    }
    push_repo_like(&cleaned, acc);
    let ls = lines_exec(cs.as_slice());
    let mut trimmed: Vec<Vec<char>> = Vec::new();
    let mut i: usize = 0;
    while i < ls.len()
        invariant
            i <= ls@.len(),
            views(ls@) == lines(s@),
            trimmed@.len() == i,
            forall|j: int| 0 <= j < i ==> #[trigger] trimmed@[j]@ == trim(ls@[j]@),
        decreases ls@.len() - i,
    {
        let t = trim_exec(ls[i].as_slice());
        trimmed.push(t);
        i = i + 1;
    }
    assert(views(trimmed@) =~= lines(s@).map_values(|l: Seq<char>| trim(l))) by {
        assert forall|j: int| 0 <= j < trimmed@.len() implies views(trimmed@)[j] == lines(
            s@,
        ).map_values(|l: Seq<char>| trim(l))[j] by {
            assert(views(ls@)[j] == ls@[j]@);
        }
    }
    let ghost mid = str_views(acc@);
    push_repo_like(&trimmed, acc);
    assert(str_views(acc@) =~= mid + repo_like(lines(s@).map_values(|l: Seq<char>| trim(l))));
}

/// Appends the paths found in the strings of a JSON value, depth first.
fn push_json_paths(v: &JsonValue, acc: &mut Vec<String>)
    ensures
        str_views(final(acc)@) == str_views(old(acc)@) + json_paths(v@),
    decreases v,
{
    match v {
        JsonValue::Str(s) => push_string_paths(s.as_str(), acc),
        JsonValue::Array(items) => {
            let ghost ms = v@->Array_0;
            let ghost start = str_views(acc@);
            assert(ms.take(0) =~= Seq::<JsonModel>::empty());
            assert(start + items_paths(ms.take(0)) =~= start);
            let mut i: usize = 0;
            while i < items.len()
                invariant
                    i <= items@.len(),
                    v@ == JsonModel::Array(ms),
                    *v == JsonValue::Array(*items),
                    ms.len() == items@.len(),
                    forall|j: int| 0 <= j < ms.len() ==> #[trigger] ms[j] == items@[j]@,
                    str_views(acc@) == start + items_paths(ms.take(i as int)),
                decreases items@.len() - i,
            {
                let ghost prefix = ms.take(i + 1);
                assert(prefix.drop_last() =~= ms.take(i as int));
                assert(prefix.last() == items@[i as int]@);
                proof {
                    vstd::std_specs::vec::axiom_vec_index_decreases(*items, i as int);
                }
                push_json_paths(&items[i], acc);
                i = i + 1;
            }
            assert(ms.take(ms.len() as int) =~= ms);
        },
        JsonValue::Object(entries) => {
            let ghost ms = v@->Object_0;
            let ghost start = str_views(acc@);
            assert(ms.take(0) =~= Seq::<(Seq<char>, JsonModel)>::empty());
            assert(start + entries_paths(ms.take(0)) =~= start);
            let mut i: usize = 0;
            while i < entries.len()
                invariant
                    i <= entries@.len(),
                    v@ == JsonModel::Object(ms),
                    *v == JsonValue::Object(*entries),
                    ms.len() == entries@.len(),
                    forall|j: int|
                        0 <= j < ms.len() ==> #[trigger] ms[j] == (
                            entries@[j].0@,
                            entries@[j].1@,
                        ),
                    str_views(acc@) == start + entries_paths(ms.take(i as int)),
                decreases entries@.len() - i,
            {
                let ghost prefix = ms.take(i + 1);
                assert(prefix.drop_last() =~= ms.take(i as int));
                assert(prefix.last() == ms[i as int]);
                proof {
                    vstd::std_specs::vec::axiom_vec_index_decreases(*entries, i as int);
                    assert(decreases_to!(entries[i as int] => entries[i as int].1));
                }
                push_json_paths(&entries[i].1, acc);
                i = i + 1;
            }
            assert(ms.take(ms.len() as int) =~= ms);
        },
        _ => {
            assert(str_views(acc@) + Seq::<Seq<char>>::empty() =~= str_views(acc@));
        },
    }
}

/// The repository-like paths in the strings of a parsed prompt input, each
/// once, sorted.
pub fn prompt_value_paths(value: &JsonValue) -> (r: Vec<String>)
    ensures
        sorted_set_of(str_views(r@), json_paths(value@).to_set()),
{
    let mut acc: Vec<String> = Vec::new();
    push_json_paths(value, &mut acc);
    assert(str_views(acc@) =~= Seq::<Seq<char>>::empty() + json_paths(value@));
    sorted_of(&acc)
}

/// The repository-like paths embedded anywhere in a serialized prompt
/// input, each once, sorted; none when the text is not JSON.
pub fn extract_paths_from_prompt_json(json: &str) -> (r: Vec<String>)
    ensures
        match parsed_json(json@) {
            Some(v) => sorted_set_of(str_views(r@), json_paths(v).to_set()),
            None => r@.len() == 0,
        },
{
    match parse_json(json) {
        Some(value) => prompt_value_paths(&value),
        None => Vec::new(),
    }
}

/// How the harness packet's paths compare with the paths of the plain
/// prompt input.
#[derive(Debug, Clone, PartialEq)]
pub struct PathComparison {
    /// In both, sorted.
    pub overlap: Vec<String>,
    /// Only in the harness packet, sorted.
    pub harness_only: Vec<String>,
    /// Only in the plain prompt, sorted.
    pub vanilla_only: Vec<String>,
}

/// Compares two sorted path sets.
pub fn compare_prompt_paths(harness: &Vec<String>, vanilla: &Vec<String>) -> (r: PathComparison)
    requires
        strictly_sorted(str_views(harness@)),
        strictly_sorted(str_views(vanilla@)),
    ensures
        sorted_set_of(
            str_views(r.overlap@),
            str_views(harness@).to_set().intersect(str_views(vanilla@).to_set()),
        ),
        sorted_set_of(
            str_views(r.harness_only@),
            str_views(harness@).to_set().difference(str_views(vanilla@).to_set()),
        ),
        sorted_set_of(
            str_views(r.vanilla_only@),
            str_views(vanilla@).to_set().difference(str_views(harness@).to_set()),
        ),
{
    PathComparison {
        overlap: filter_by_membership(harness, vanilla, true),
        harness_only: filter_by_membership(harness, vanilla, false),
        vanilla_only: filter_by_membership(vanilla, harness, false),
    }
}

} // verus!
