//! Session telemetry of the search proxy and the large-read proxy, and the
//! human-readable end-of-session summary built from it.
use vstd::prelude::*;

use crate::text::{dec, digit_char, digit_char_exec, join, push_chars, push_dec, push_str};

verus! {

/// Telemetry accumulator for the search proxy and the large-read proxy.
/// Counters are `u32`, byte sums are `u64`; everything defaults to zero.
#[derive(Debug, Clone, PartialEq, Eq)]
pub struct ProxyTelemetry {
    pub search_proxy_enabled: bool,
    pub search_proxy_substitutions: u32,
    pub search_proxy_escape_hatch_repeats: u32,
    pub search_proxy_build_pass_throughs: u32,
    pub search_proxy_compact_bytes: u64,
    pub search_proxy_raw_bytes: u64,
    pub large_read_proxy_enabled: bool,
    pub large_read_proxy_substitutions: u32,
    pub large_read_proxy_escape_hatch_repeats: u32,
    pub large_read_proxy_build_pass_throughs: u32,
    pub large_read_proxy_compact_bytes: u64,
    pub large_read_proxy_raw_bytes: u64,
}

impl Default for ProxyTelemetry {
    fn default() -> (t: Self)
        ensures
            !t.search_proxy_enabled && !t.large_read_proxy_enabled,
            t.search_proxy_substitutions == 0 && t.search_proxy_escape_hatch_repeats == 0
                && t.search_proxy_build_pass_throughs == 0,
            t.search_proxy_compact_bytes == 0 && t.search_proxy_raw_bytes == 0,
            t.large_read_proxy_substitutions == 0 && t.large_read_proxy_escape_hatch_repeats == 0
                && t.large_read_proxy_build_pass_throughs == 0,
            t.large_read_proxy_compact_bytes == 0 && t.large_read_proxy_raw_bytes == 0,
    {
        ProxyTelemetry {
            search_proxy_enabled: false,
            search_proxy_substitutions: 0,
            search_proxy_escape_hatch_repeats: 0,
            search_proxy_build_pass_throughs: 0,
            search_proxy_compact_bytes: 0,
            search_proxy_raw_bytes: 0,
            large_read_proxy_enabled: false,
            large_read_proxy_substitutions: 0,
            large_read_proxy_escape_hatch_repeats: 0,
            large_read_proxy_build_pass_throughs: 0,
            large_read_proxy_compact_bytes: 0,
            large_read_proxy_raw_bytes: 0,
        }
    }
}

/// `value / unit` rounded to tenths, ties to even (how `{:.1}` prints it).
pub open spec fn tenths(value: nat, unit: nat) -> nat
    recommends
        unit > 0,
{
    let q = value * 10 / unit;
    let r = value * 10 % unit;
    if 2 * r > unit || (2 * r == unit && q % 2 == 1) {
        q + 1
    } else {
        q
    }
}

/// `t / 10` and one decimal digit.
pub open spec fn one_decimal(t: nat) -> Seq<char> {
    dec(t / 10) + "."@ + seq![digit_char(t % 10)]
}

/// Short human-readable rendering of a byte count.
pub open spec fn spec_format_bytes(b: nat) -> Seq<char> {
    if b >= 1024 * 1024 {
        one_decimal(tenths(b, 1024 * 1024)) + " MB"@
    } else if b >= 1024 {
        one_decimal(tenths(b, 1024)) + " KB"@
    } else {
        dec(b) + " B"@
    }
}

/// The line describing one proxy in the summary.
pub open spec fn proxy_line(
    name: Seq<char>,
    inert_note: Seq<char>,
    substitutions: u32,
    repeats: u32,
    pass_throughs: u32,
    compact: u64,
    raw: u64,
) -> Seq<char> {
    if substitutions + repeats + pass_throughs == 0 {
        "  "@ + name + ": inert ("@ + inert_note + ")"@
    } else {
        "  "@ + name + ": "@ + dec(substitutions as nat) + " substituted, "@ + dec(repeats as nat)
            + " bypassed (model re-ran), "@ + dec(pass_throughs as nat) + " pass-through; saved ~"@
            + spec_format_bytes(if raw >= compact { (raw - compact) as nat } else { 0 })
            + " (compact "@ + spec_format_bytes(compact as nat) + " vs raw "@ + spec_format_bytes(
            raw as nat,
        ) + ")"@
    }
}

impl ProxyTelemetry {
    /// The event counters of each enabled proxy add up within `u32`.
    pub open spec fn counts_fit(&self) -> bool {
        &&& self.search_proxy_enabled ==> self.search_proxy_substitutions
            + self.search_proxy_escape_hatch_repeats + self.search_proxy_build_pass_throughs
            <= u32::MAX
        &&& self.large_read_proxy_enabled ==> self.large_read_proxy_substitutions
            + self.large_read_proxy_escape_hatch_repeats
            + self.large_read_proxy_build_pass_throughs <= u32::MAX
    }

    /// Whether some proxy event (substitution, bypass, pass-through) fired:
    /// some counter is positive.
    pub open spec fn spec_any_event(&self) -> bool {
        ||| self.search_proxy_substitutions > 0
        ||| self.search_proxy_escape_hatch_repeats > 0
        ||| self.search_proxy_build_pass_throughs > 0
        ||| self.large_read_proxy_substitutions > 0
        ||| self.large_read_proxy_escape_hatch_repeats > 0
        ||| self.large_read_proxy_build_pass_throughs > 0
    }

    /// The summary lines.
    pub open spec fn summary_lines(&self) -> Seq<Seq<char>> {
        let head = seq!["[reactive mediation] session summary:"@];
        let with_search = if self.search_proxy_enabled {
            head.push(
                proxy_line(
                    "search-proxy"@,
                    "no eligible rg occurred"@,
                    self.search_proxy_substitutions,
                    self.search_proxy_escape_hatch_repeats,
                    self.search_proxy_build_pass_throughs,
                    self.search_proxy_compact_bytes,
                    self.search_proxy_raw_bytes,
                ),
            )
        } else {
            head
        };
        if self.large_read_proxy_enabled {
            with_search.push(
                proxy_line(
                    "large-read-proxy"@,
                    "no eligible cat/sed occurred"@,
                    self.large_read_proxy_substitutions,
                    self.large_read_proxy_escape_hatch_repeats,
                    self.large_read_proxy_build_pass_throughs,
                    self.large_read_proxy_compact_bytes,
                    self.large_read_proxy_raw_bytes,
                ),
            )
        } else {
            with_search
        }
    }

    /// True if either proxy fired (substituted, passed through or bypassed).
    pub fn any_event(&self) -> (r: bool)
        ensures
            r == self.spec_any_event(),
    {
        self.search_proxy_substitutions > 0 || self.search_proxy_escape_hatch_repeats > 0
            || self.search_proxy_build_pass_throughs > 0 || self.large_read_proxy_substitutions > 0
            || self.large_read_proxy_escape_hatch_repeats > 0
            || self.large_read_proxy_build_pass_throughs > 0
    }

    /// End-of-session summary: `None` when no proxy was enabled; an "inert"
    /// line for an enabled proxy that never fired; otherwise counts and the
    /// bytes saved.
    pub fn summary(&self) -> (r: Option<String>)
        requires
            self.counts_fit(),
        ensures
            !self.search_proxy_enabled && !self.large_read_proxy_enabled ==> r is None,
            self.search_proxy_enabled || self.large_read_proxy_enabled ==> r is Some && r->0@
                == join(self.summary_lines(), "\n"@),
    {
        if !self.search_proxy_enabled && !self.large_read_proxy_enabled {
            return None;
        }
        let mut lines: Vec<String> = Vec::new();
        lines.push("[reactive mediation] session summary:".to_owned());
        if self.search_proxy_enabled {
            lines.push(
                proxy_summary_line(
                    "search-proxy",
                    "no eligible rg occurred",
                    self.search_proxy_substitutions,
                    self.search_proxy_escape_hatch_repeats,
                    self.search_proxy_build_pass_throughs,
                    self.search_proxy_compact_bytes,
                    self.search_proxy_raw_bytes,
                ),
            );
        }
        if self.large_read_proxy_enabled {
            lines.push(
                proxy_summary_line(
                    "large-read-proxy",
                    "no eligible cat/sed occurred",
                    self.large_read_proxy_substitutions,
                    self.large_read_proxy_escape_hatch_repeats,
                    self.large_read_proxy_build_pass_throughs,
                    self.large_read_proxy_compact_bytes,
                    self.large_read_proxy_raw_bytes,
                ),
            );
        }
        assert(crate::text::str_views(lines@) =~= self.summary_lines());
        Some(crate::text::join_strings(&lines, "\n"))
    }
}

fn proxy_summary_line(
    name: &str,
    inert_note: &str,
    substitutions: u32,
    repeats: u32,
    pass_throughs: u32,
    compact: u64,
    raw: u64,
) -> (out: String)
    requires
        substitutions + repeats + pass_throughs <= u32::MAX,
    ensures
        out@ == proxy_line(name@, inert_note@, substitutions, repeats, pass_throughs, compact, raw),
{
    let mut out = String::new();
    push_str(&mut out, "  ");
    push_str(&mut out, name);
    if substitutions + repeats + pass_throughs == 0 {
        push_str(&mut out, ": inert (");
        push_str(&mut out, inert_note);
        push_str(&mut out, ")");
        return out;
    }
    let saved = raw.saturating_sub(compact);
    push_str(&mut out, ": ");
    push_dec(&mut out, substitutions as u64);
    push_str(&mut out, " substituted, ");
    push_dec(&mut out, repeats as u64);
    push_str(&mut out, " bypassed (model re-ran), ");
    push_dec(&mut out, pass_throughs as u64);
    push_str(&mut out, " pass-through; saved ~");
    let s = format_bytes(saved);
    push_str(&mut out, s.as_str());
    push_str(&mut out, " (compact ");
    let c = format_bytes(compact);
    push_str(&mut out, c.as_str());
    push_str(&mut out, " vs raw ");
    let r = format_bytes(raw);
    push_str(&mut out, r.as_str());
    push_str(&mut out, ")");
    out
}

/// `value / unit` rounded to tenths, ties to even.
fn tenths_exec(value: u64, unit: u64) -> (t: u64)
    requires
        unit == 1024 || unit == 1024 * 1024,
    ensures
        t == tenths(value as nat, unit as nat),
{
    let q: u128 = (value as u128) * 10 / (unit as u128);
    let r: u128 = (value as u128) * 10 % (unit as u128);
    assert(q as int <= (value as int) * 10 / 1024) by (nonlinear_arith)
        requires
            q as int == ((value as int) * 10) / (unit as int),
            unit >= 1024,
    ;
    assert((value as int) * 10 / 1024 < 0x1_0000_0000_0000_0000) by (nonlinear_arith)
        requires
            value <= u64::MAX,
    ;
    let out: u128 = if 2 * r > unit as u128 || (2 * r == unit as u128 && q % 2 == 1) {
        q + 1
    } else {
        q
    };
    out as u64
}

/// Short human-readable byte count: `N B`, `N.N KB` or `N.N MB`.
fn format_bytes(b: u64) -> (out: String)
    ensures
        out@ == spec_format_bytes(b as nat),
{
    let mut out = String::new();
    if b >= 1024 * 1024 {
        let t = tenths_exec(b, 1024 * 1024);
        push_one_decimal(&mut out, t);
        push_str(&mut out, " MB");
    } else if b >= 1024 {
        let t = tenths_exec(b, 1024);
        push_one_decimal(&mut out, t);
        push_str(&mut out, " KB");
    } else {
        push_dec(&mut out, b);
        push_str(&mut out, " B");
    }
    out
}

fn push_one_decimal(out: &mut String, t: u64)
    ensures
        final(out)@ == old(out)@ + one_decimal(t as nat),
{
    push_dec(out, t / 10);
    push_str(out, ".");
    let d = vec![digit_char_exec(t % 10)];
    push_chars(out, d.as_slice());
}

} // verus!
