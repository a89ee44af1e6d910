//! Reading a rendered fragment back: the file lists that
//! `parse_directive_file_lists` recovers from `render_prompt_fragment_with_caps`
//! are the files it listed.
use vstd::prelude::*;

use crate::harness::renderer::{
    entry_line, first_segment, is_best_area, numbered, parse_lines, parse_step, prefix_count,
    fragment_lines, spec_directive_file_lists, spec_infer_area, spec_parse_numbered_entry,
    spec_shorten, warned_area, ParseState, PromptFile, PromptPacket, SCOPE_CONSTRAINT,
};
use crate::text::{
    back_class, contains, dec, digit_char, ends_with, find, find_from, join, lemma_join_front,
    lemma_lines_of_join, line_pieces, lines, str_views, strip_cr, in_class, is_ascii_digit, lemma_back_class_bounds,
    lemma_find_from, matches_at, single_line, skip_class, spec_is_whitespace, trim, trim_end,
    trim_start, CharClass,
};

verus! {

/// A decimal rendering is a non-empty run of ASCII digits.
pub proof fn lemma_dec_digits(n: nat)
    ensures
        dec(n).len() > 0,
        forall|i: int| 0 <= i < dec(n).len() ==> is_ascii_digit(#[trigger] dec(n)[i]),
    decreases n,
{
    if n >= 10 {
        lemma_dec_digits(n / 10);
        assert(is_ascii_digit(digit_char(n % 10)));
    } else {
        assert(is_ascii_digit(digit_char(n)));
    }
}

/// The parser state after more lines, from a given state.
pub open spec fn parse_from(st: ParseState, ls: Seq<Seq<char>>) -> ParseState
    decreases ls.len(),
{
    if ls.len() == 0 {
        st
    } else {
        parse_step(parse_from(st, ls.drop_last()), ls.last())
    }
}

/// Parsing from the start is parsing from the empty state.
proof fn lemma_parse_lines_from(ls: Seq<Seq<char>>)
    ensures
        parse_lines(ls) == parse_from((0, Seq::empty(), Seq::empty()), ls),
    decreases ls.len(),
{
    if ls.len() > 0 {
        lemma_parse_lines_from(ls.drop_last());
    }
}

/// One more line is one more step.
proof fn lemma_parse_from_push(st: ParseState, ls: Seq<Seq<char>>, l: Seq<char>)
    ensures
        parse_from(st, ls.push(l)) == parse_step(parse_from(st, ls), l),
{
    assert(ls.push(l).drop_last() =~= ls);
}

/// Parsing two runs of lines is parsing the second from where the first
/// left off.
proof fn lemma_parse_from_concat(st: ParseState, a: Seq<Seq<char>>, b: Seq<Seq<char>>)
    ensures
        parse_from(st, a + b) == parse_from(parse_from(st, a), b),
    decreases b.len(),
{
    if b.len() == 0 {
        assert(a + b =~= a);
    } else {
        assert((a + b).drop_last() =~= a + b.drop_last());
        assert((a + b).last() == b.last());
        lemma_parse_from_concat(st, a, b.drop_last());
    }
}

/// `back_class` never cuts below a character outside the class.
proof fn lemma_back_class_keeps(s: Seq<char>, cls: CharClass, j: int, t: int)
    requires
        0 <= t < j <= s.len(),
        !in_class(cls, s[t]),
    ensures
        t < back_class(s, cls, j) <= j,
    decreases j,
{
    if in_class(cls, s[j - 1]) {
        lemma_back_class_keeps(s, cls, j - 1, t);
    }
}

/// Trimming the end keeps everything up to a non-blank character.
proof fn lemma_trim_end_keeps(s: Seq<char>, t: int)
    requires
        0 <= t < s.len(),
        !spec_is_whitespace(s[t]),
    ensures
        trim_end(s).len() > t,
        forall|i: int| 0 <= i <= t ==> trim_end(s)[i] == s[i],
        trim_end(s) == s.take(trim_end(s).len() as int),
{
    lemma_back_class_keeps(s, CharClass::Whitespace, s.len() as int, t);
}

/// A line whose first character is neither blank nor a digit, and whose
/// end-trimmed form is neither header, closes the open section.
proof fn lemma_plain_line(st: ParseState, l: Seq<char>)
    requires
        l.len() > 0,
        !spec_is_whitespace(l[0]),
        !is_ascii_digit(l[0]),
        trim_end(l) != "Likely edit targets:"@,
        trim_end(l) != "Orientation only:"@,
    ensures
        parse_step(st, l) == (0int, st.1, st.2),
{
    lemma_trim_end_keeps(l, 0);
    let x = trim_end(l);
    assert(skip_class(x, CharClass::Whitespace, 0) == 0);
    assert(trim_start(x) =~= x);
    assert(skip_class(x, CharClass::AsciiDigit, 0) == 0);
}

/// A blank line leaves the state alone.
proof fn lemma_blank_line(st: ParseState)
    ensures
        parse_step(st, Seq::empty()) == st,
{
    reveal_strlit("Likely edit targets:");
    reveal_strlit("Orientation only:");
    assert(trim_end(Seq::<char>::empty()) =~= Seq::<char>::empty());
    assert(trim_start(Seq::<char>::empty()) =~= Seq::<char>::empty());
}

/// The headers open their sections.
proof fn lemma_header_lines(st: ParseState)
    ensures
        parse_step(st, "Likely edit targets:"@) == (1int, st.1, st.2),
        parse_step(st, "Orientation only:"@) == (2int, st.1, st.2),
{
    reveal_strlit("Likely edit targets:");
    reveal_strlit("Orientation only:");
    let h1 = "Likely edit targets:"@;
    let h2 = "Orientation only:"@;
    assert(!spec_is_whitespace(h1[h1.len() - 1]));
    assert(!spec_is_whitespace(h2[h2.len() - 1]));
    assert(trim_end(h1) =~= h1);
    assert(trim_end(h2) =~= h2);
    assert(h1[0] != h2[0]);
}

/// A file that the fragment lists in a form that reads back: a non-empty,
/// trimmed path without a line feed, without ` — ` and not ending in ` —`,
/// and a reason without a line feed that is not blank.
pub open spec fn listable_file(f: PromptFile) -> bool {
    &&& f.path@.len() > 0
    &&& trim(f.path@) == f.path@
    &&& single_line(f.path@)
    &&& !contains(f.path@, " \u{2014} "@)
    &&& !ends_with(f.path@, " \u{2014}"@)
    &&& single_line(f.reason@)
    &&& exists|i: int| 0 <= i < f.reason@.len() && !spec_is_whitespace(#[trigger] f.reason@[i])
}

/// A trimmed non-empty text ends in a non-blank character.
proof fn lemma_trimmed_last(p: Seq<char>)
    requires
        p.len() > 0,
        trim(p) == p,
    ensures
        !spec_is_whitespace(p[p.len() - 1]),
{
    let x = trim_start(p);
    crate::text::lemma_skip_class_bounds(p, CharClass::Whitespace, 0);
    lemma_back_class_bounds(x, CharClass::Whitespace, x.len() as int);
    assert(x.len() == p.len());
    assert(x =~= p);
    let n = p.len() as int;
    assert(back_class(p, CharClass::Whitespace, n) == n);
    if in_class(CharClass::Whitespace, p[n - 1]) {
        lemma_back_class_bounds(p, CharClass::Whitespace, n - 1);
        assert(back_class(p, CharClass::Whitespace, n) == back_class(p, CharClass::Whitespace, n - 1));
    }
    assert(!in_class(CharClass::Whitespace, p[n - 1]));
}

/// Shortening to more than three characters keeps a non-blank character.
proof fn lemma_shorten_nonblank(t: Seq<char>, m: nat) -> (i: int)
    requires
        m > 3,
        exists|j: int| 0 <= j < t.len() && !spec_is_whitespace(#[trigger] t[j]),
    ensures
        0 <= i < spec_shorten(t, m).len(),
        !spec_is_whitespace(spec_shorten(t, m)[i]),
{
    reveal_strlit("...");
    let j = choose|j: int| 0 <= j < t.len() && !spec_is_whitespace(#[trigger] t[j]);
    if t.len() <= m {
        j
    } else {
        let r = spec_shorten(t, m);
        assert(r == t.take(m - 3) + "..."@);
        assert(r[m - 3] == '.');
        m - 3
    }
}

/// A run of digits from `i` up to a non-digit at `d` is skipped whole.
proof fn lemma_skip_digits(x: Seq<char>, d: int, i: int)
    requires
        0 <= i <= d < x.len(),
        forall|j: int| i <= j < d ==> is_ascii_digit(#[trigger] x[j]),
        !is_ascii_digit(x[d]),
    ensures
        skip_class(x, CharClass::AsciiDigit, i) == d,
    decreases d - i,
{
    if i < d {
        lemma_skip_digits(x, d, i + 1);
    }
}

/// A numbered entry line adds its path to the open section.
#[verifier::spinoff_prover]
proof fn lemma_entry_line(st: ParseState, n: nat, f: PromptFile)
    requires
        st.0 == 1 || st.0 == 2,
        listable_file(f),
    ensures
        parse_step(st, entry_line(n, f)) == if st.0 == 1 {
            (1int, st.1.push(f.path@), st.2)
        } else {
            (2int, st.1, st.2.push(f.path@))
        },
{
    reveal_strlit(". ");
    reveal_strlit(" \u{2014} ");
    reveal_strlit(" \u{2014}");
    reveal_strlit("...");
    reveal_strlit("Likely edit targets:");
    reveal_strlit("Orientation only:");
    lemma_dec_digits(n);
    let dg = dec(n);
    let d = dg.len() as int;
    let path = f.path@;
    let sep = " \u{2014} "@;
    let r = spec_shorten(f.reason@, 96);
    let line = entry_line(n, f);
    assert(line =~= dg + ". "@ + path + sep + r);
    let ri = lemma_shorten_nonblank(f.reason@, 96);
    let t = d + 2 + path.len() + 3 + ri;
    assert(line[t] == r[ri]);
    lemma_trim_end_keeps(line, t);
    let x = trim_end(line);
    assert(trim_end(line)[0] == line[0]);
    assert(line[0] == dg[0]);
    assert(x[0] == dg[0]);
    assert(is_ascii_digit(x[0]));
    assert(x != "Likely edit targets:"@) by {
        assert("Likely edit targets:"@[0] == 'L');
    }
    assert(x != "Orientation only:"@) by {
        assert("Orientation only:"@[0] == 'O');
    }
    assert(skip_class(x, CharClass::Whitespace, 0) == 0);
    assert(trim_start(x) =~= x);
    assert forall|j: int| 0 <= j < d implies is_ascii_digit(#[trigger] x[j]) by {
        assert(trim_end(line)[j] == line[j]);
        assert(line[j] == dg[j]);
    }
    assert(trim_end(line)[d] == line[d]);
    assert(line[d] == '.');
    assert(x[d] == '.');
    lemma_skip_digits(x, d, 0);
    assert(trim_end(line)[d + 1] == line[d + 1]);
    assert(x[d + 1] == ' ');
    let rest = x.skip(d + 2);
    assert(rest.len() >= path.len() + 4);
    assert forall|j: int| 0 <= j < path.len() + 4 implies #[trigger] rest[j] == (path + sep + r)[j] by {
        assert(rest[j] == x[d + 2 + j]);
        assert(trim_end(line)[d + 2 + j] == line[d + 2 + j]);
    }
    assert(rest.subrange(path.len() as int, (path.len() + 3) as int) =~= sep) by {
        assert forall|j: int| 0 <= j < 3 implies rest.subrange(path.len() as int, (path.len() + 3) as int)[j]
            == sep[j] by {
            assert(rest[path.len() + j] == (path + sep + r)[path.len() + j]);
        }
    }
    assert(matches_at(rest, sep, path.len() as int));
    lemma_find_from(rest, sep, 0);
    lemma_find_from(path, sep, 0);
    lemma_trimmed_last(path);
    assert forall|j: int| 0 <= j < path.len() implies !matches_at(rest, sep, j) by {
        if matches_at(rest, sep, j) {
            assert(rest.subrange(j, j + 3)[0] == sep[0]);
            assert(rest.subrange(j, j + 3)[1] == sep[1]);
            assert(rest.subrange(j, j + 3)[2] == sep[2]);
            assert(rest[j + 1] == '\u{2014}');
            if j + 3 <= path.len() {
                assert(path.subrange(j, j + 3) =~= sep) by {
                    assert forall|q: int| 0 <= q < 3 implies path.subrange(j, j + 3)[q] == sep[q] by {
                        assert(rest[j + q] == path[j + q]);
                        assert(rest.subrange(j, j + 3)[q] == rest[j + q]);
                    }
                }
                assert(matches_at(path, sep, j));
            } else if j + 2 == path.len() {
                assert(rest[j] == path[j]);
                assert(rest[j + 1] == path[j + 1]);
                assert(path.skip(path.len() - 2) =~= " \u{2014}"@);
                assert(ends_with(path, " \u{2014}"@));
            } else {
                assert(j + 1 == path.len());
                assert(rest[j + 1] == (path + sep + r)[path.len() as int]);
            }
        }
    }
    assert(find(rest, sep) == path.len());
    assert(rest.take(path.len() as int) =~= path);
    assert(spec_parse_numbered_entry(trim_start(x)) == Some(path));
}

/// The paths of listed files.
pub open spec fn file_paths(fs: Seq<PromptFile>) -> Seq<Seq<char>> {
    fs.map_values(|f: PromptFile| f.path@)
}

/// A numbered list read in an open section adds its paths to it.
proof fn lemma_numbered_lines(st: ParseState, fs: Seq<PromptFile>)
    requires
        st.0 == 1 || st.0 == 2,
        forall|i: int| 0 <= i < fs.len() ==> listable_file(#[trigger] fs[i]),
    ensures
        parse_from(st, numbered(fs)) == if st.0 == 1 {
            (1int, st.1 + file_paths(fs), st.2)
        } else {
            (2int, st.1, st.2 + file_paths(fs))
        },
    decreases fs.len(),
{
    if fs.len() == 0 {
        assert(numbered(fs) =~= Seq::<Seq<char>>::empty());
        assert(file_paths(fs) =~= Seq::<Seq<char>>::empty());
        assert(st.1 + file_paths(fs) =~= st.1);
        assert(st.2 + file_paths(fs) =~= st.2);
    } else {
        lemma_numbered_lines(st, fs.drop_last());
        assert(numbered(fs).drop_last() =~= numbered(fs.drop_last()));
        assert(numbered(fs).last() == entry_line(fs.len() as nat, fs.last()));
        let mid = parse_from(st, numbered(fs.drop_last()));
        assert(listable_file(fs.last()));
        lemma_entry_line(mid, fs.len() as nat, fs.last());
        assert(file_paths(fs) =~= file_paths(fs.drop_last()).push(fs.last().path@));
        assert(st.1 + file_paths(fs) =~= (st.1 + file_paths(fs.drop_last())).push(fs.last().path@));
        assert(st.2 + file_paths(fs) =~= (st.2 + file_paths(fs.drop_last())).push(fs.last().path@));
    }
}

// ---------------------------------------------------------------------------
// The likely area is a single line
// ---------------------------------------------------------------------------

/// `y` beats `b` as an area: more included files, or as many and a greater
/// name.
pub open spec fn beats_area(prefixes: Seq<Seq<char>>, y: Seq<char>, b: Seq<char>) -> bool {
    prefix_count(prefixes, y) > prefix_count(prefixes, b) || (prefix_count(prefixes, y)
        == prefix_count(prefixes, b) && crate::sorted::lex_lt(b, y))
}

/// The best area among the first `k` prefixes.
pub open spec fn best_area_upto(prefixes: Seq<Seq<char>>, k: int) -> Seq<char>
    decreases k,
{
    if k <= 1 {
        prefixes[0]
    } else {
        let b = best_area_upto(prefixes, k - 1);
        if beats_area(prefixes, prefixes[k - 1], b) {
            prefixes[k - 1]
        } else {
            b
        }
    }
}

proof fn lemma_best_area_upto(prefixes: Seq<Seq<char>>, k: int)
    requires
        1 <= k <= prefixes.len(),
    ensures
        exists|i: int| 0 <= i < k && prefixes[i] == best_area_upto(prefixes, k),
        forall|i: int|
            0 <= i < k ==> !beats_area(prefixes, #[trigger] prefixes[i], best_area_upto(prefixes, k)),
    decreases k,
{
    let b = best_area_upto(prefixes, k);
    if k == 1 {
        crate::sorted::lemma_lex_irreflexive(prefixes[0]);
        assert(prefixes[0] == b);
    } else {
        lemma_best_area_upto(prefixes, k - 1);
        let prev = best_area_upto(prefixes, k - 1);
        let y = prefixes[k - 1];
        crate::sorted::lemma_lex_irreflexive(y);
        if beats_area(prefixes, y, prev) {
            assert forall|i: int| 0 <= i < k implies !beats_area(prefixes, #[trigger] prefixes[i], y) by {
                if i < k - 1 {
                    let z = prefixes[i];
                    assert(!beats_area(prefixes, z, prev));
                    if beats_area(prefixes, z, y) && crate::sorted::lex_lt(y, z) {
                        crate::sorted::lemma_lex_trans(prev, y, z);
                    }
                }
            }
            assert(prefixes[k - 1] == b);
        } else {
            let i0 = choose|i: int| 0 <= i < k - 1 && prefixes[i] == prev;
            assert(prefixes[i0] == b);
        }
    }
}

/// Some included prefix is the best area.
proof fn lemma_best_area_exists(prefixes: Seq<Seq<char>>)
    requires
        prefixes.len() > 0,
    ensures
        is_best_area(prefixes, best_area_upto(prefixes, prefixes.len() as int)),
{
    let b = best_area_upto(prefixes, prefixes.len() as int);
    lemma_best_area_upto(prefixes, prefixes.len() as int);
    assert forall|y: Seq<char>| #[trigger] prefixes.contains(y) implies prefix_count(prefixes, y)
        <= prefix_count(prefixes, b) && (crate::sorted::lex_lt(b, y) ==> prefix_count(prefixes, y)
        < prefix_count(prefixes, b)) by {
        let i = choose|i: int| 0 <= i < prefixes.len() && prefixes[i] == y;
        assert(!beats_area(prefixes, prefixes[i], b));
    }
    let i0 = choose|i: int| 0 <= i < prefixes.len() && prefixes[i] == b;
    assert(prefixes.contains(b));
}

/// The first `/`-separated segment of a single-line path is a single line.
proof fn lemma_first_segment_single_line(p: Seq<char>)
    requires
        single_line(p),
    ensures
        single_line(first_segment(p)),
{
    let k = crate::text::next_in_class(p, CharClass::Is('/'), 0);
    crate::text::lemma_next_in_class(p, CharClass::Is('/'), 0);
    assert(first_segment(p) == crate::text::split_from(p, CharClass::Is('/'), 0)[0]);
    if k >= p.len() {
        assert(first_segment(p) == p.subrange(0, p.len() as int));
    } else {
        assert(first_segment(p) == p.subrange(0, k));
    }
}

/// The area named by a warning is a single line when the warnings are.
proof fn lemma_warned_area_single_line(ws: Seq<Seq<char>>)
    requires
        forall|i: int| 0 <= i < ws.len() ==> single_line(#[trigger] ws[i]),
    ensures
        warned_area(ws) matches Some(a) ==> single_line(a),
    decreases ws.len(),
{
    if ws.len() > 0 {
        assert(single_line(ws[0]));
        if !crate::text::starts_with(ws[0], "Likely area: "@) {
            assert forall|i: int| 0 <= i < ws.skip(1).len() implies single_line(
                #[trigger] ws.skip(1)[i],
            ) by {
                assert(ws.skip(1)[i] == ws[i + 1]);
            }
            lemma_warned_area_single_line(ws.skip(1));
        }
    }
}

/// The inferred area is a single line when the included paths are.
proof fn lemma_inferred_area_single_line(included: Seq<Seq<char>>)
    requires
        forall|i: int| 0 <= i < included.len() ==> single_line(#[trigger] included[i]),
    ensures
        spec_infer_area(included) matches Some(a) ==> single_line(a),
{
    if included.len() > 0 {
        let prefixes = included.map_values(|p: Seq<char>| first_segment(p));
        lemma_best_area_exists(prefixes);
        let a = choose|x: Seq<char>| is_best_area(prefixes, x);
        assert(is_best_area(prefixes, a));
        let i = choose|i: int| 0 <= i < prefixes.len() && prefixes[i] == a;
        assert(single_line(included[i]));
        lemma_first_segment_single_line(included[i]);
    }
}

// ---------------------------------------------------------------------------
// The round trip
// ---------------------------------------------------------------------------

/// The files a fragment lists: at most `min(max_files, 5)` of the packet's.
pub open spec fn listed_files(p: PromptPacket, max_files: nat) -> Seq<PromptFile> {
    let cap = if max_files < 5 {
        max_files
    } else {
        5
    };
    if p.files@.len() <= cap {
        p.files@
    } else {
        p.files@.take(cap as int)
    }
}

/// How many of the listed files are edit targets.
pub open spec fn edit_count(p: PromptPacket, max_files: nat, max_edit_targets: nat) -> nat {
    let n = listed_files(p, max_files).len();
    if max_edit_targets < n {
        max_edit_targets
    } else {
        n
    }
}

/// The likely area a fragment names.
pub open spec fn fragment_area(p: PromptPacket) -> Option<Seq<char>> {
    match warned_area(str_views(p.warnings@)) {
        Some(a) => Some(a),
        None => spec_infer_area(str_views(p.included_paths@)),
    }
}

/// A single line that starts with a letter other than `L`/`O` or is the
/// likely-area line closes the open section.
proof fn lemma_closing_line(st: ParseState, l: Seq<char>, t: int)
    requires
        0 <= t < l.len(),
        !spec_is_whitespace(l[0]),
        !spec_is_whitespace(l[t]),
        !is_ascii_digit(l[0]),
        t < "Likely edit targets:"@.len() && l[t] != "Likely edit targets:"@[t],
        t < "Orientation only:"@.len() && l[t] != "Orientation only:"@[t],
    ensures
        parse_step(st, l) == (0int, st.1, st.2),
{
    lemma_trim_end_keeps(l, t);
    assert(trim_end(l)[t] == l[t]);
    lemma_plain_line(st, l);
}

/// Concatenations of single lines are single lines.
proof fn lemma_single_line_concat(a: Seq<char>, b: Seq<char>)
    requires
        single_line(a),
        single_line(b),
    ensures
        single_line(a + b),
{
    assert forall|i: int| 0 <= i < (a + b).len() implies (a + b)[i] != '\n' by {
        if i < a.len() {
            assert((a + b)[i] == a[i]);
        } else {
            assert((a + b)[i] == b[i - a.len()]);
        }
    }
}

/// Shortening keeps a single line single.
proof fn lemma_shorten_single_line(t: Seq<char>, m: nat)
    requires
        single_line(t),
    ensures
        single_line(spec_shorten(t, m)),
{
    reveal_strlit("...");
    if t.len() > m {
        if m <= 3 {
            assert(single_line(t.take(m as int)));
        } else {
            assert(single_line(t.take(m - 3)));
            assert(single_line("..."@));
            lemma_single_line_concat(t.take(m - 3), "..."@);
        }
    }
}

/// Numbered lines of listable files are single lines.
proof fn lemma_numbered_single_lines(fs: Seq<PromptFile>)
    requires
        forall|i: int| 0 <= i < fs.len() ==> listable_file(#[trigger] fs[i]),
    ensures
        forall|i: int| 0 <= i < numbered(fs).len() ==> single_line(#[trigger] numbered(fs)[i]),
{
    reveal_strlit(". ");
    reveal_strlit(" \u{2014} ");
    assert forall|i: int| 0 <= i < numbered(fs).len() implies single_line(#[trigger] numbered(fs)[i]) by {
        let f = fs[i];
        assert(listable_file(f));
        let n = (i + 1) as nat;
        lemma_dec_digits(n);
        assert(single_line(dec(n))) by {
            assert forall|j: int| 0 <= j < dec(n).len() implies dec(n)[j] != '\n' by {
                assert(is_ascii_digit(dec(n)[j]));
            }
        }
        assert(single_line(". "@));
        assert(single_line(" \u{2014} "@));
        lemma_shorten_single_line(f.reason@, 96);
        lemma_single_line_concat(dec(n), ". "@);
        lemma_single_line_concat(dec(n) + ". "@, f.path@);
        lemma_single_line_concat(dec(n) + ". "@ + f.path@, " \u{2014} "@);
        lemma_single_line_concat(dec(n) + ". "@ + f.path@ + " \u{2014} "@, spec_shorten(f.reason@, 96));
        assert(numbered(fs)[i] == entry_line(n, f));
    }
}

/// The first lines of a fragment: the marker, the guidance and the task.
pub open spec fn head_lines(p: PromptPacket) -> Seq<Seq<char>> {
    seq![
        "Harness repo intelligence:"@,
        "Use this as task-routing guidance before editing."@,
        Seq::<char>::empty(),
        "Task: "@ + spec_shorten(p.task@, 240),
    ]
}

/// The orientation part of a fragment's body.
pub open spec fn orientation_lines(files: Seq<PromptFile>, k: nat) -> Seq<Seq<char>> {
    if k < files.len() {
        seq![Seq::<char>::empty(), "Orientation only:"@] + numbered(files.skip(k as int))
    } else {
        Seq::empty()
    }
}

/// The body of a fragment: the two file lists and the scope constraint.
pub open spec fn body_lines(files: Seq<PromptFile>, k: nat) -> Seq<Seq<char>> {
    if files.len() == 0 {
        Seq::empty()
    } else {
        seq![Seq::<char>::empty(), "Likely edit targets:"@] + numbered(files.take(k as int))
            + orientation_lines(files, k) + seq![Seq::<char>::empty(), SCOPE_CONSTRAINT@]
    }
}

/// The last lines of a fragment: the likely area, if any.
pub open spec fn tail_lines(p: PromptPacket) -> Seq<Seq<char>> {
    match fragment_area(p) {
        Some(a) => seq![Seq::<char>::empty(), "Likely area: "@ + a],
        None => Seq::empty(),
    }
}

/// A fragment's lines are its head, body and tail.
proof fn lemma_fragment_parts(p: PromptPacket, max_files: nat, max_edit_targets: nat)
    ensures
        fragment_lines(p, max_files, max_edit_targets) == head_lines(p) + body_lines(
            listed_files(p, max_files),
            edit_count(p, max_files, max_edit_targets),
        ) + tail_lines(p),
{
}

/// What the law asks of a packet.
pub open spec fn readable_packet(p: PromptPacket) -> bool {
    &&& single_line(p.task@)
    &&& forall|i: int| 0 <= i < p.files@.len() ==> listable_file(#[trigger] p.files@[i])
    &&& forall|i: int| 0 <= i < p.warnings@.len() ==> single_line(#[trigger] p.warnings@[i]@)
    &&& forall|i: int|
        0 <= i < p.included_paths@.len() ==> single_line(#[trigger] p.included_paths@[i]@)
}

/// The listed files, and both lists, are listable.
proof fn lemma_listed_listable(p: PromptPacket, max_files: nat, max_edit_targets: nat)
    requires
        readable_packet(p),
    ensures
        forall|i: int|
            0 <= i < listed_files(p, max_files).len() ==> listable_file(
                #[trigger] listed_files(p, max_files)[i],
            ),
        forall|i: int|
            0 <= i < listed_files(p, max_files).take(
                edit_count(p, max_files, max_edit_targets) as int,
            ).len() ==> listable_file(
                #[trigger] listed_files(p, max_files).take(
                    edit_count(p, max_files, max_edit_targets) as int,
                )[i],
            ),
        forall|i: int|
            0 <= i < listed_files(p, max_files).skip(
                edit_count(p, max_files, max_edit_targets) as int,
            ).len() ==> listable_file(
                #[trigger] listed_files(p, max_files).skip(
                    edit_count(p, max_files, max_edit_targets) as int,
                )[i],
            ),
{
    let files = listed_files(p, max_files);
    let k = edit_count(p, max_files, max_edit_targets);
    assert forall|i: int| 0 <= i < files.len() implies listable_file(#[trigger] files[i]) by {
        assert(files[i] == p.files@[i]);
    }
    assert forall|i: int| 0 <= i < files.take(k as int).len() implies listable_file(
        #[trigger] files.take(k as int)[i],
    ) by {
        assert(files.take(k as int)[i] == files[i]);
    }
    assert forall|i: int| 0 <= i < files.skip(k as int).len() implies listable_file(
        #[trigger] files.skip(k as int)[i],
    ) by {
        assert(files.skip(k as int)[i] == files[i + k]);
    }
}

/// Every line of a readable fragment is a single line, and the last one is
/// not empty.
#[verifier::spinoff_prover]
#[verifier::rlimit(40)]
proof fn lemma_fragment_single_lines(p: PromptPacket, max_files: nat, max_edit_targets: nat)
    requires
        readable_packet(p),
    ensures
        forall|i: int|
            0 <= i < fragment_lines(p, max_files, max_edit_targets).len() ==> single_line(
                #[trigger] fragment_lines(p, max_files, max_edit_targets)[i],
            ),
        fragment_lines(p, max_files, max_edit_targets).last().len() > 0,
{
    reveal_strlit("Harness repo intelligence:");
    reveal_strlit("Use this as task-routing guidance before editing.");
    reveal_strlit("Task: ");
    reveal_strlit("Likely edit targets:");
    reveal_strlit("Orientation only:");
    reveal_strlit("Likely area: ");
    reveal_strlit(
        "Do not broaden the edit scope just because a file appears in orientation context. Prefer the smallest patch that satisfies the task.",
    );
    let files = listed_files(p, max_files);
    let k = edit_count(p, max_files, max_edit_targets);
    let head = head_lines(p);
    let body = body_lines(files, k);
    let tail = tail_lines(p);
    let ls = fragment_lines(p, max_files, max_edit_targets);
    lemma_fragment_parts(p, max_files, max_edit_targets);
    lemma_listed_listable(p, max_files, max_edit_targets);
    lemma_numbered_single_lines(files.take(k as int));
    lemma_numbered_single_lines(files.skip(k as int));
    lemma_shorten_single_line(p.task@, 240);
    lemma_single_line_concat("Task: "@, spec_shorten(p.task@, 240));
    assert(single_line("Harness repo intelligence:"@));
    assert(single_line("Use this as task-routing guidance before editing."@));
    assert(single_line(SCOPE_CONSTRAINT@));
    assert(single_line("Likely edit targets:"@));
    assert(single_line("Orientation only:"@));
    assert(single_line(Seq::<char>::empty()));
    lemma_warned_area_single_line(str_views(p.warnings@));
    lemma_inferred_area_single_line(str_views(p.included_paths@));
    if let Some(a) = fragment_area(p) {
        assert(single_line(a));
        lemma_single_line_concat("Likely area: "@, a);
    }
    assert forall|j: int| 0 <= j < head.len() implies single_line(#[trigger] head[j]) by {}
    assert forall|j: int| 0 <= j < tail.len() implies single_line(#[trigger] tail[j]) by {}
    assert forall|j: int| 0 <= j < body.len() implies single_line(#[trigger] body[j]) by {
        let edit_part = seq![Seq::<char>::empty(), "Likely edit targets:"@] + numbered(
            files.take(k as int),
        );
        let orient = orientation_lines(files, k);
        if j < edit_part.len() {
            assert(body[j] == edit_part[j]);
            if j >= 2 {
                assert(edit_part[j] == numbered(files.take(k as int))[j - 2]);
            }
        } else if j < edit_part.len() + orient.len() {
            assert(body[j] == orient[j - edit_part.len()]);
            if j - edit_part.len() >= 2 {
                assert(orient[j - edit_part.len()] == numbered(files.skip(k as int))[j
                    - edit_part.len() - 2]);
            }
        } else {
            assert(body[j] == seq![Seq::<char>::empty(), SCOPE_CONSTRAINT@][j - edit_part.len()
                - orient.len()]);
        }
    }
    assert forall|i: int| 0 <= i < ls.len() implies single_line(#[trigger] ls[i]) by {
        if i < head.len() {
            assert(ls[i] == head[i]);
        } else if i < head.len() + body.len() {
            assert(ls[i] == body[i - head.len()]);
        } else {
            assert(ls[i] == tail[i - head.len() - body.len()]);
        }
    }
    if tail.len() > 0 {
        assert(ls.last() == tail.last());
    } else if body.len() > 0 {
        assert(ls.last() == body.last());
    } else {
        assert(ls.last() == head.last());
    }
}

/// Parsing the lines of a readable fragment ends with both lists filled
/// and no section open.
#[verifier::spinoff_prover]
#[verifier::rlimit(40)]
proof fn lemma_fragment_parse(p: PromptPacket, max_files: nat, max_edit_targets: nat)
    requires
        readable_packet(p),
    ensures
        parse_lines(fragment_lines(p, max_files, max_edit_targets)) == (
            0int,
            file_paths(
                listed_files(p, max_files).take(edit_count(p, max_files, max_edit_targets) as int),
            ),
            file_paths(
                listed_files(p, max_files).skip(edit_count(p, max_files, max_edit_targets) as int),
            ),
        ),
{
    reveal_strlit("Harness repo intelligence:");
    reveal_strlit("Use this as task-routing guidance before editing.");
    reveal_strlit("Task: ");
    reveal_strlit("Likely edit targets:");
    reveal_strlit("Orientation only:");
    reveal_strlit("Likely area: ");
    reveal_strlit(
        "Do not broaden the edit scope just because a file appears in orientation context. Prefer the smallest patch that satisfies the task.",
    );
    let files = listed_files(p, max_files);
    let k = edit_count(p, max_files, max_edit_targets);
    let edit = files.take(k as int);
    let orient = files.skip(k as int);
    let head = head_lines(p);
    let body = body_lines(files, k);
    let tail = tail_lines(p);
    let ls = fragment_lines(p, max_files, max_edit_targets);
    lemma_fragment_parts(p, max_files, max_edit_targets);
    lemma_listed_listable(p, max_files, max_edit_targets);
    let empty = Seq::<char>::empty();
    let no_lines = Seq::<Seq<char>>::empty();
    let init: ParseState = (0, Seq::empty(), Seq::empty());
    lemma_parse_lines_from(ls);
    lemma_parse_from_concat(init, head + body, tail);
    lemma_parse_from_concat(init, head, body);
    // Head.
    let marker = "Harness repo intelligence:"@;
    let guidance = "Use this as task-routing guidance before editing."@;
    let task_line = "Task: "@ + spec_shorten(p.task@, 240);
    assert(head =~= no_lines.push(marker).push(guidance).push(empty).push(task_line));
    lemma_closing_line(init, marker, 0);
    lemma_closing_line(init, guidance, 0);
    lemma_blank_line(init);
    lemma_closing_line(init, task_line, 0);
    lemma_parse_from_push(init, no_lines, marker);
    lemma_parse_from_push(init, no_lines.push(marker), guidance);
    lemma_parse_from_push(init, no_lines.push(marker).push(guidance), empty);
    lemma_parse_from_push(init, no_lines.push(marker).push(guidance).push(empty), task_line);
    assert(parse_from(init, head) == init);
    // Body.
    let after_body = (0int, file_paths(edit), file_paths(orient));
    if files.len() == 0 {
        assert(body =~= no_lines);
        assert(edit =~= Seq::<PromptFile>::empty());
        assert(orient =~= Seq::<PromptFile>::empty());
        assert(file_paths(edit) =~= no_lines);
        assert(file_paths(orient) =~= no_lines);
    } else {
        let opened = seq![empty, "Likely edit targets:"@];
        assert(opened =~= no_lines.push(empty).push("Likely edit targets:"@));
        lemma_blank_line(init);
        lemma_header_lines(init);
        lemma_parse_from_push(init, no_lines, empty);
        lemma_parse_from_push(init, no_lines.push(empty), "Likely edit targets:"@);
        let s1: ParseState = (1, Seq::empty(), Seq::empty());
        assert(parse_from(init, opened) == s1);
        lemma_numbered_lines(s1, edit);
        assert(no_lines + file_paths(edit) =~= file_paths(edit));
        lemma_parse_from_concat(init, opened, numbered(edit));
        let s2: ParseState = (1, file_paths(edit), Seq::empty());
        let orient_part = orientation_lines(files, k);
        let s3: ParseState = (if k < files.len() {
            2int
        } else {
            1int
        }, file_paths(edit), file_paths(orient));
        if k < files.len() {
            let oh = seq![empty, "Orientation only:"@];
            assert(oh =~= no_lines.push(empty).push("Orientation only:"@));
            lemma_blank_line(s2);
            lemma_header_lines(s2);
            lemma_parse_from_push(s2, no_lines, empty);
            lemma_parse_from_push(s2, no_lines.push(empty), "Orientation only:"@);
            let s2o: ParseState = (2, file_paths(edit), Seq::empty());
            assert(parse_from(s2, oh) == s2o);
            lemma_numbered_lines(s2o, orient);
            assert(no_lines + file_paths(orient) =~= file_paths(orient));
            lemma_parse_from_concat(s2, oh, numbered(orient));
            assert(parse_from(s2, orient_part) == s3);
        } else {
            assert(orient =~= Seq::<PromptFile>::empty());
            assert(file_paths(orient) =~= no_lines);
            assert(orient_part =~= no_lines);
            assert(parse_from(s2, orient_part) == s3);
        }
        lemma_parse_from_concat(init, opened + numbered(edit), orient_part);
        let closing = seq![empty, SCOPE_CONSTRAINT@];
        assert(closing =~= no_lines.push(empty).push(SCOPE_CONSTRAINT@));
        lemma_blank_line(s3);
        lemma_closing_line(s3, SCOPE_CONSTRAINT@, 0);
        lemma_parse_from_push(s3, no_lines, empty);
        lemma_parse_from_push(s3, no_lines.push(empty), SCOPE_CONSTRAINT@);
        assert(parse_from(s3, closing) == after_body);
        lemma_parse_from_concat(init, opened + numbered(edit) + orient_part, closing);
        assert(body =~= opened + numbered(edit) + orient_part + closing);
    }
    assert(parse_from(init, body) == after_body);
    // Tail.
    if let Some(a) = fragment_area(p) {
        let area_line = "Likely area: "@ + a;
        assert(tail =~= no_lines.push(empty).push(area_line));
        lemma_blank_line(after_body);
        lemma_closing_line(after_body, area_line, 7);
        lemma_parse_from_push(after_body, no_lines, empty);
        lemma_parse_from_push(after_body, no_lines.push(empty), area_line);
    } else {
        assert(tail =~= no_lines);
    }
    assert(parse_from(after_body, tail) == after_body);
}

/// `back_class` only looks below its start.
proof fn lemma_back_class_prefix(s: Seq<char>, t: Seq<char>, cls: CharClass, j: int)
    requires
        t.len() <= s.len(),
        forall|i: int| 0 <= i < t.len() ==> t[i] == s[i],
        j <= t.len(),
    ensures
        back_class(t, cls, j) == back_class(s, cls, j),
    decreases j,
{
    if 0 < j {
        lemma_back_class_prefix(s, t, cls, j - 1);
    }
}

/// A carriage return that ends a line is trimmed away anyway.
proof fn lemma_trim_end_strip_cr(l: Seq<char>)
    ensures
        trim_end(strip_cr(l)) == trim_end(l),
{
    if l.len() > 0 && l.last() == '\r' {
        let t = l.drop_last();
        assert(spec_is_whitespace('\r'));
        assert(back_class(l, CharClass::Whitespace, l.len() as int) == back_class(
            l,
            CharClass::Whitespace,
            t.len() as int,
        ));
        lemma_back_class_prefix(l, t, CharClass::Whitespace, t.len() as int);
        lemma_back_class_bounds(t, CharClass::Whitespace, t.len() as int);
        assert(trim_end(t) =~= trim_end(l));
    }
}

/// Lines that trim to the same text parse alike.
proof fn lemma_parse_lines_trim_congruent(a: Seq<Seq<char>>, b: Seq<Seq<char>>)
    requires
        a.len() == b.len(),
        forall|i: int| 0 <= i < a.len() ==> trim_end(#[trigger] a[i]) == trim_end(b[i]),
    ensures
        parse_lines(a) == parse_lines(b),
    decreases a.len(),
{
    if a.len() > 0 {
        assert forall|i: int| 0 <= i < a.drop_last().len() implies trim_end(
            #[trigger] a.drop_last()[i],
        ) == trim_end(b.drop_last()[i]) by {
            assert(a.drop_last()[i] == a[i]);
            assert(b.drop_last()[i] == b[i]);
        }
        lemma_parse_lines_trim_congruent(a.drop_last(), b.drop_last());
        assert(trim_end(a.last()) == trim_end(b.last()));
    }
}

/// The pieces `str::lines` gives back parse as the pieces themselves.
proof fn lemma_parse_line_pieces(ls: Seq<Seq<char>>)
    ensures
        parse_lines(line_pieces(ls)) == parse_lines(ls),
{
    assert forall|i: int| 0 <= i < line_pieces(ls).len() implies trim_end(
        #[trigger] line_pieces(ls)[i],
    ) == trim_end(ls[i]) by {
        lemma_trim_end_strip_cr(ls[i]);
    }
    lemma_parse_lines_trim_congruent(line_pieces(ls), ls);
}

/// Reading the file lists back out of a rendered fragment gives the files
/// it lists: the edit targets, then the orientation files.  This holds when
/// no text the fragment shows holds a line feed, the listed paths are
/// non-empty, trimmed, free of ` — ` and do not end in ` —`, and no reason
/// is blank.
pub proof fn lemma_file_lists_round_trip(p: PromptPacket, max_files: nat, max_edit_targets: nat)
    requires
        readable_packet(p),
    ensures
        spec_directive_file_lists(join(fragment_lines(p, max_files, max_edit_targets), "\n"@)) == (
            file_paths(
                listed_files(p, max_files).take(edit_count(p, max_files, max_edit_targets) as int),
            ),
            file_paths(
                listed_files(p, max_files).skip(edit_count(p, max_files, max_edit_targets) as int),
            ),
        ),
{
    reveal_strlit("Harness repo intelligence:");
    let ls = fragment_lines(p, max_files, max_edit_targets);
    lemma_fragment_parts(p, max_files, max_edit_targets);
    lemma_fragment_single_lines(p, max_files, max_edit_targets);
    lemma_lines_of_join(ls);
    lemma_parse_line_pieces(ls);
    lemma_fragment_parse(p, max_files, max_edit_targets);
    let marker = "Harness repo intelligence:"@;
    assert(ls[0] == marker);
    lemma_join_front(ls, "\n"@);
    let text = join(ls, "\n"@);
    assert(text.subrange(0, marker.len() as int) =~= marker);
    lemma_find_from(text, marker, 0);
    assert(contains(text, marker));
}

/// The fragment lists at most five files, and never more than the caller's
/// cap: reading its lists back gives `min(files, max_files, 5)` paths in
/// all, of which at most `max_edit_targets` are edit targets.
pub proof fn lemma_inspect_list_capped(p: PromptPacket, max_files: nat, max_edit_targets: nat)
    requires
        readable_packet(p),
    ensures
        ({
            let (edit, orient) = spec_directive_file_lists(
                join(fragment_lines(p, max_files, max_edit_targets), "\n"@),
            );
            &&& edit.len() + orient.len() <= 5
            &&& edit.len() + orient.len() <= max_files
            &&& edit.len() <= max_edit_targets
            &&& edit.len() + orient.len() == if p.files@.len() < max_files && p.files@.len() < 5 {
                p.files@.len()
            } else if max_files < 5 {
                max_files
            } else {
                5
            }
        }),
{
    lemma_file_lists_round_trip(p, max_files, max_edit_targets);
    let l = listed_files(p, max_files);
    let k = edit_count(p, max_files, max_edit_targets);
    assert(file_paths(l.take(k as int)).len() + file_paths(l.skip(k as int)).len() == l.len());
}

} // verus!
