//! Render the compact-slice payload the proxy returns in place of a large
//! raw file dump: a header, the actual slice content line-numbered, an
//! omitted-lines note and a conditional re-run line.
use vstd::prelude::*;

use super::classifier::ClassifiedRead;
use super::slice::{model_line_count, sat_add_u32, sat_sub, slice_models, Slice, SliceModel};
use crate::text::{
    chars_of, dec, push_chars, push_dec, push_str, split, split_exec, views, CharClass,
};

verus! {

/// Sum of the line counts of the slices.
pub open spec fn shown_lines(s: Seq<SliceModel>) -> int
    decreases s.len(),
{
    if s.len() == 0 {
        0
    } else {
        shown_lines(s.drop_last()) + model_line_count(s.last())
    }
}

/// Lines `pieces`, numbered from `first`, each as `N: line\n`.
pub open spec fn numbered(pieces: Seq<Seq<char>>, first: int) -> Seq<char>
    decreases pieces.len(),
{
    if pieces.len() == 0 {
        Seq::empty()
    } else {
        numbered(pieces.drop_last(), first) + dec((first + pieces.len() - 1) as nat) + ": "@
            + pieces.last() + "\n"@
    }
}

/// The block of one slice: its heading and its numbered content.
pub open spec fn slice_block(s: SliceModel) -> Seq<char> {
    "# lines "@ + dec(s.start as nat) + "-"@ + dec(s.end as nat) + " — "@ + s.reason + "\n"@
        + numbered(split(s.text, CharClass::Is('\n')), s.start as int)
}

/// The blocks of all slices, in order.
pub open spec fn blocks(s: Seq<SliceModel>) -> Seq<char>
    decreases s.len(),
{
    if s.len() == 0 {
        Seq::empty()
    } else {
        blocks(s.drop_last()) + slice_block(s.last())
    }
}

/// The number of lines the shown count is measured against.
pub open spec fn denominator(range: Option<(u32, u32)>, total: u32) -> int {
    match range {
        Some((start, end)) => {
            let span_start = if start < 1 {
                1
            } else {
                start as int
            };
            let span_end = if end < total {
                end as int
            } else {
                total as int
            };
            sat_add_u32(sat_sub(span_end, span_start), 1)
        },
        None => total as int,
    }
}

/// The note about omitted lines.
pub open spec fn omission_note(range: Option<(u32, u32)>) -> Seq<char> {
    match range {
        Some(_) => "more lines in the requested range not shown"@,
        None => "lines not shown (gaps between the slices above)"@,
    }
}

/// The rendered compact view.
pub open spec fn spec_render(
    path: Seq<char>,
    range: Option<(u32, u32)>,
    slices: Seq<SliceModel>,
    total: u32,
) -> Seq<char> {
    let shown = shown_lines(slices);
    let den = denominator(range, total);
    let omitted = sat_sub(den, shown);
    "[large-read proxy] compact view of "@ + path + " ("@ + dec(shown as nat) + " of "@ + dec(
        den as nat,
    ) + " lines shown)\n"@ + blocks(slices) + (if omitted > 0 {
        "# "@ + dec(omitted as nat) + " "@ + omission_note(range) + ".\n"@
    } else {
        Seq::empty()
    }) + "# Re-run the identical command only if you need a region not shown above.\n"@
}

/// Line numbers fit: every slice's numbering stays within `u32`.
pub open spec fn numbering_fits(s: Seq<SliceModel>) -> bool {
    forall|i: int|
        0 <= i < s.len() ==> #[trigger] s[i].start + split(s[i].text, CharClass::Is('\n')).len()
            <= u32::MAX
}

/// Renders the compact view of `slices` for the classified read.
#[verifier::spinoff_prover]
#[verifier::rlimit(30)]
pub fn render_large_read_response(
    classified: &ClassifiedRead,
    slices: &[Slice],
    total_lines: u32,
) -> (out: String)
    requires
        shown_lines(slice_models(slices@)) <= u32::MAX,
        numbering_fits(slice_models(slices@)),
    ensures
        out@ == spec_render(
            classified.path@,
            classified.requested_range,
            slice_models(slices@),
            total_lines,
        ),
{
    let ghost sm = slice_models(slices@);
    let mut shown: u32 = 0;
    let mut i: usize = 0;
    while i < slices.len()
        invariant
            i <= slices@.len(),
            sm == slice_models(slices@),
            shown_lines(sm) <= u32::MAX,
            shown == shown_lines(sm.take(i as int)),
        decreases slices@.len() - i,
    {
        proof {
            lemma_shown_prefix(sm, i + 1);
            assert(sm.take(i + 1).drop_last() =~= sm.take(i as int));
        }
        shown = shown + slices[i].line_count();
        i = i + 1;
    }
    assert(sm.take(slices@.len() as int) =~= sm);
    let (denominator, note): (u32, &str) = match classified.requested_range {
        Some((start, end)) => {
            let span_start = if start < 1 {
                1
            } else {
                start
            };
            let span_end = if end < total_lines {
                end
            } else {
                total_lines
            };
            let span = span_end.saturating_sub(span_start).saturating_add(1);
            (span, "more lines in the requested range not shown")
        },
        None => (total_lines, "lines not shown (gaps between the slices above)"),
    };
    assert(note@ == omission_note(classified.requested_range));
    let omitted = denominator.saturating_sub(shown);
    let mut out = String::new();
    push_str(&mut out, "[large-read proxy] compact view of ");
    push_str(&mut out, classified.path.as_str());
    push_str(&mut out, " (");
    push_dec(&mut out, shown as u64);
    push_str(&mut out, " of ");
    push_dec(&mut out, denominator as u64);
    push_str(&mut out, " lines shown)\n");
    let ghost head = out@;
    let mut k: usize = 0;
    while k < slices.len()
        invariant
            k <= slices@.len(),
            sm == slice_models(slices@),
            numbering_fits(sm),
            out@ == head + blocks(sm.take(k as int)),
        decreases slices@.len() - k,
    {
        let ghost before = out@;
        assert(sm[k as int] == slices@[k as int].model());
        assert(sm[k as int].start + split(sm[k as int].text, CharClass::Is('\n')).len() <= u32::MAX);
        push_slice_block(&mut out, &slices[k]);
        assert(sm.take(k + 1).drop_last() =~= sm.take(k as int));
        assert(sm[k as int] == slices@[k as int].model());
        k = k + 1;
        assert(out@ =~= head + blocks(sm.take(k as int)));
    }
    assert(sm.take(slices@.len() as int) =~= sm);
    if omitted > 0 {
        push_str(&mut out, "# ");
        push_dec(&mut out, omitted as u64);
        push_str(&mut out, " ");
        push_str(&mut out, note);
        push_str(&mut out, ".\n");
    }
    push_str(&mut out, "# Re-run the identical command only if you need a region not shown above.\n");
    assert(out@ =~= spec_render(
        classified.path@,
        classified.requested_range,
        sm,
        total_lines,
    ));
    out
}

proof fn lemma_shown_prefix(s: Seq<SliceModel>, k: int)
    requires
        0 <= k <= s.len(),
    ensures
        shown_lines(s.take(k)) <= shown_lines(s),
        shown_lines(s.take(k)) >= 0,
    decreases s.len() - k,
{
    if k < s.len() {
        lemma_shown_prefix(s, k + 1);
        assert(s.take(k + 1).drop_last() =~= s.take(k));
        lemma_shown_nonneg(s.take(k));
    } else {
        assert(s.take(k) =~= s);
        lemma_shown_nonneg(s);
    }
}

proof fn lemma_shown_nonneg(s: Seq<SliceModel>)
    ensures
        shown_lines(s) >= 0,
    decreases s.len(),
{
    if s.len() > 0 {
        lemma_shown_nonneg(s.drop_last());
    }
}

fn push_slice_block(out: &mut String, s: &Slice)
    requires
        s.start + split(s.text@, CharClass::Is('\n')).len() <= u32::MAX,
    ensures
        final(out)@ == old(out)@ + slice_block(s.model()),
{
    let ghost o0 = out@;
    push_str(out, "# lines ");
    push_dec(out, s.start as u64);
    push_str(out, "-");
    push_dec(out, s.end as u64);
    push_str(out, " — ");
    push_str(out, s.reason.as_str());
    push_str(out, "\n");
    let ghost o1 = out@;
    let text = chars_of(s.text.as_str());
    let pieces = split_exec(text.as_slice(), CharClass::Is('\n'));
    let ghost pv = views(pieces@);
    let mut j: usize = 0;
    while j < pieces.len()
        invariant
            j <= pieces@.len(),
            pv == views(pieces@),
            pv == split(s.text@, CharClass::Is('\n')),
            s.start + pv.len() <= u32::MAX,
            out@ == o1 + numbered(pv.take(j as int), s.start as int),
        decreases pieces@.len() - j,
    {
        let lineno: u64 = s.start as u64 + j as u64;
        push_dec(out, lineno);
        push_str(out, ": ");
        push_chars(out, pieces[j].as_slice());
        push_str(out, "\n");
        proof {
            let t = pv.take(j + 1);
            assert(t.drop_last() =~= pv.take(j as int));
            assert(t.last() == pieces@[j as int]@);
        }
        j = j + 1;
        assert(out@ =~= o1 + numbered(pv.take(j as int), s.start as int));
    }
    assert(pv.take(pieces@.len() as int) =~= pv);
    assert(out@ =~= o0 + slice_block(s.model()));
}

} // verus!
