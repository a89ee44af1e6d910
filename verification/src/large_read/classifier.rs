//! Classify whether a shell command is a *large file read* the proxy should
//! intercept: `cat <file>` or `sed -n '<start>,<end>p' <file>` with a large
//! requested range.
//!
//! Conservative by design: anything that cannot be reasoned about cleanly —
//! flags, multiple files, chained commands, small ranges — passes through.
use vstd::prelude::*;

use crate::text::{
    chars_of, eq_chars, find, find_exec, lemma_find_from, parse_u32, parse_u32_exec, push_str,
    starts_with, str_eq, str_starts_with, str_trim, str_views, string_from, sub_chars, trim,
};

verus! {

/// `sed -n '1,Np'` is only intercepted when the requested span is at least
/// this many lines.
pub const MIN_SED_RANGE_LINES: u32 = 200;

/// Why a command is not intercepted.
#[derive(Debug, Clone, Copy, PartialEq, Eq)]
pub enum PassThroughReason {
    /// Not a recognized read command (`cat` / `sed -n <range>p`).
    NotReadCommand,
    /// A shell metacharacter (`;`, `&&`, `|`, `>`, `$(`, …) — chained.
    ShellMetacharacter,
    /// `sed` range is below the large-read threshold.
    SmallRange,
    /// `cat`/`sed` with flags or multiple files.
    UnsupportedArgs,
    /// Empty / unparsable.
    UnsupportedShape,
}

impl PassThroughReason {
    /// The snake-case label of the reason.
    pub open spec fn label(self) -> Seq<char> {
        match self {
            PassThroughReason::NotReadCommand => "not_read_command"@,
            PassThroughReason::ShellMetacharacter => "shell_metacharacter"@,
            PassThroughReason::SmallRange => "small_range"@,
            PassThroughReason::UnsupportedArgs => "unsupported_args"@,
            PassThroughReason::UnsupportedShape => "unsupported_shape"@,
        }
    }

    /// The snake-case label of the reason (what `Display` printed).
    pub fn to_string(&self) -> (s: String)
        ensures
            s@ == self.label(),
    {
        let t = match self {
            PassThroughReason::NotReadCommand => "not_read_command",
            PassThroughReason::ShellMetacharacter => "shell_metacharacter",
            PassThroughReason::SmallRange => "small_range",
            PassThroughReason::UnsupportedArgs => "unsupported_args",
            PassThroughReason::UnsupportedShape => "unsupported_shape",
        };
        t.to_owned()
    }
}

/// The read tool of an eligible command.
#[derive(Debug, Clone, Copy, PartialEq, Eq)]
pub enum ReadTool {
    Cat,
    Sed,
}

/// An eligible large read.
#[derive(Debug, Clone, PartialEq, Eq)]
pub struct ClassifiedRead {
    pub tool: ReadTool,
    pub path: String,
    /// `(start, end)` requested line range for `sed` (1-based inclusive;
    /// `end` is `u32::MAX` for `1,$p`). `None` for `cat` (whole file).
    pub requested_range: Option<(u32, u32)>,
    /// Canonical text used as the escape-hatch registry key.
    pub normalized: String,
}

/// Result of classifying one command.
#[derive(Debug, Clone, PartialEq, Eq)]
pub enum ClassifyOutcome {
    PassThrough(PassThroughReason),
    Eligible(ClassifiedRead),
}

/// Mathematical model of a classification result.
pub enum OutcomeModel {
    PassThrough(PassThroughReason),
    Eligible {
        tool: ReadTool,
        path: Seq<char>,
        range: Option<(u32, u32)>,
        normalized: Seq<char>,
    },
}

impl ClassifiedRead {
    /// The model of an eligible read.
    pub open spec fn model(&self) -> OutcomeModel {
        OutcomeModel::Eligible {
            tool: self.tool,
            path: self.path@,
            range: self.requested_range,
            normalized: self.normalized@,
        }
    }
}

impl ClassifyOutcome {
    /// The model of a classification result.
    pub open spec fn model(&self) -> OutcomeModel {
        match self {
            ClassifyOutcome::PassThrough(r) => OutcomeModel::PassThrough(*r),
            ClassifyOutcome::Eligible(read) => read.model(),
        }
    }
}

// ---------------------------------------------------------------------------
// Specification
// ---------------------------------------------------------------------------

/// What `shlex::split` returns for `s`: the shell words, or `None` when the
/// input has unbalanced quoting or a trailing escape.
pub uninterp spec fn shlex_split_result(s: Seq<char>) -> Option<Seq<Seq<char>>>;

/// Views of an optional list of strings.
pub open spec fn opt_str_views(r: Option<Vec<String>>) -> Option<Seq<Seq<char>>> {
    match r {
        Some(v) => Some(str_views(v@)),
        None => None,
    }
}

/// Calls `shlex::split`. What it returns is only named.
#[verifier::external_body]
fn shlex_split(s: &str) -> (r: Option<Vec<String>>)
    ensures
        opt_str_views(r) == shlex_split_result(s@),
{
    shlex::split(s)
}

/// `sed` print range `<start>,<end>p` (`end` may be `$`), with `end >= start`.
pub open spec fn spec_parse_sed_range(tok: Seq<char>) -> Option<(u32, u32)> {
    if tok.len() == 0 || tok.last() != 'p' {
        None
    } else {
        let body = tok.drop_last();
        let k = find(body, ","@);
        if k < 0 {
            None
        } else {
            let a = body.take(k);
            let b = body.skip(k + 1);
            match parse_u32(a) {
                None => None,
                Some(start) => {
                    let end_opt = if b == "$"@ {
                        Some(u32::MAX)
                    } else {
                        parse_u32(b)
                    };
                    match end_opt {
                        None => None,
                        Some(end) => if end < start {
                            None
                        } else {
                            Some((start, end))
                        },
                    }
                },
            }
        }
    }
}

/// Classification of `cat` arguments: exactly one positional file, no flags.
pub open spec fn spec_classify_cat(args: Seq<Seq<char>>) -> OutcomeModel {
    if args.len() != 1 || starts_with(args[0], "-"@) {
        OutcomeModel::PassThrough(PassThroughReason::UnsupportedArgs)
    } else {
        OutcomeModel::Eligible {
            tool: ReadTool::Cat,
            path: args[0],
            range: None,
            normalized: "cat "@ + args[0],
        }
    }
}

/// `end - start + 1`, saturating at `u32::MAX`.
pub open spec fn sed_span(start: u32, end: u32) -> int {
    if end - start + 1 > u32::MAX {
        u32::MAX as int
    } else {
        end - start + 1
    }
}

/// Classification of `sed` arguments: exactly `-n <range>p <file>`.
pub open spec fn spec_classify_sed(args: Seq<Seq<char>>) -> OutcomeModel {
    if args.len() != 3 || args[0] != "-n"@ || starts_with(args[2], "-"@) {
        OutcomeModel::PassThrough(PassThroughReason::UnsupportedArgs)
    } else {
        match spec_parse_sed_range(args[1]) {
            None => OutcomeModel::PassThrough(PassThroughReason::UnsupportedArgs),
            Some((start, end)) => if sed_span(start, end) < MIN_SED_RANGE_LINES {
                OutcomeModel::PassThrough(PassThroughReason::SmallRange)
            } else {
                OutcomeModel::Eligible {
                    tool: ReadTool::Sed,
                    path: args[2],
                    range: Some((start, end)),
                    normalized: "sed -n "@ + args[1] + " "@ + args[2],
                }
            },
        }
    }
}

/// The shell executables whose `-c`/`-lc` script is unwrapped.
pub open spec fn spec_is_shell_executable(t: Seq<char>) -> bool {
    t == "/bin/zsh"@ || t == "/bin/bash"@ || t == "/bin/sh"@ || t == "zsh"@ || t == "bash"@
        || t == "sh"@
}

/// Scan of shell-wrapper flags from index `i`: `-l`/`-i` are skipped, and
/// `-c`/`-lc` must be followed by exactly one final script word.
pub open spec fn spec_unwrap_from(outer: Seq<Seq<char>>, i: int) -> Option<Seq<char>>
    decreases outer.len() - i,
{
    if i < 1 || i >= outer.len() {
        None
    } else if outer[i] == "-c"@ || outer[i] == "-lc"@ {
        if i + 1 == outer.len() - 1 {
            Some(outer[i + 1])
        } else {
            None
        }
    } else if outer[i] == "-l"@ || outer[i] == "-i"@ {
        spec_unwrap_from(outer, i + 1)
    } else {
        None
    }
}

/// The script of `sh -c '<script>'`-style wrappers, if `outer` is one.
pub open spec fn spec_unwrap_shell_script(outer: Seq<Seq<char>>) -> Option<Seq<char>> {
    if outer.len() < 3 || !spec_is_shell_executable(outer[0]) {
        None
    } else {
        spec_unwrap_from(outer, 1)
    }
}

/// Whether an unquoted shell metacharacter occurs in `s` from index `i`, given
/// the quoting state at `i`. A backslash outside single quotes escapes the
/// next character.
pub open spec fn spec_meta_from(s: Seq<char>, i: int, in_single: bool, in_double: bool) -> bool
    decreases s.len() + 2 - i,
{
    if i < 0 || i >= s.len() {
        false
    } else {
        let c = s[i];
        if c == '\\' && !in_single {
            spec_meta_from(s, i + 2, in_single, in_double)
        } else if c == '\'' && !in_double {
            spec_meta_from(s, i + 1, !in_single, in_double)
        } else if c == '"' && !in_single {
            spec_meta_from(s, i + 1, in_single, !in_double)
        } else if in_single || in_double {
            spec_meta_from(s, i + 1, in_single, in_double)
        } else if c == ';' || c == '|' || c == '>' || c == '<' || c == '&' || c == '`' {
            true
        } else if c == '$' && i + 1 < s.len() && s[i + 1] == '(' {
            true
        } else {
            spec_meta_from(s, i + 1, in_single, in_double)
        }
    }
}

/// Whether `s` holds an unquoted shell metacharacter.
pub open spec fn spec_has_unquoted_shell_metacharacter(s: Seq<char>) -> bool {
    spec_meta_from(s, 0, false, false)
}

/// The script to classify after the first shell split: the wrapped script
/// of a shell wrapper, else the trimmed command itself; or the reason to
/// pass through.
pub open spec fn spec_script_after_outer(
    trimmed: Seq<char>,
    outer: Option<Seq<Seq<char>>>,
) -> Result<Seq<char>, PassThroughReason> {
    match outer {
        None => Err(PassThroughReason::UnsupportedShape),
        Some(words) => if words.len() == 0 {
            Err(PassThroughReason::UnsupportedShape)
        } else {
            let script = match spec_unwrap_shell_script(words) {
                Some(x) => x,
                None => trimmed,
            };
            if spec_has_unquoted_shell_metacharacter(script) {
                Err(PassThroughReason::ShellMetacharacter)
            } else {
                Ok(script)
            }
        },
    }
}

/// Classification of the words of the (unwrapped) script.
pub open spec fn spec_classify_tokens(tokens: Option<Seq<Seq<char>>>) -> OutcomeModel {
    match tokens {
        None => OutcomeModel::PassThrough(PassThroughReason::UnsupportedShape),
        Some(t) => if t.len() == 0 {
            OutcomeModel::PassThrough(PassThroughReason::UnsupportedShape)
        } else if t[0] == "cat"@ {
            spec_classify_cat(t.skip(1))
        } else if t[0] == "sed"@ {
            spec_classify_sed(t.skip(1))
        } else {
            OutcomeModel::PassThrough(PassThroughReason::NotReadCommand)
        },
    }
}

/// Classification of a raw command line.
pub open spec fn spec_classify_command(raw: Seq<char>) -> OutcomeModel {
    let trimmed = trim(raw);
    if trimmed.len() == 0 {
        OutcomeModel::PassThrough(PassThroughReason::UnsupportedShape)
    } else {
        match spec_script_after_outer(trimmed, shlex_split_result(trimmed)) {
            Err(reason) => OutcomeModel::PassThrough(reason),
            Ok(script) => spec_classify_tokens(shlex_split_result(script)),
        }
    }
}

/// An eligible outcome for `sed` words has their shape: `sed -n <range>
/// <file>`, a range `start <= end` spanning at least two hundred lines, and
/// the key `sed -n <range> <file>`.
pub open spec fn eligible_sed_shape(words: Seq<Seq<char>>, o: OutcomeModel) -> bool {
    match o {
        OutcomeModel::Eligible { tool, path, range, normalized } => {
            &&& tool == ReadTool::Sed
            &&& words.len() == 4
            &&& words[1] == "-n"@
            &&& path == words[3]
            &&& range matches Some((start, end)) && start <= end && end - start + 1 >= 200
            &&& normalized == "sed -n "@ + words[2] + " "@ + words[3]
        },
        OutcomeModel::PassThrough(_) => true,
    }
}

/// Which words are a large read: `cat <file>` with a file that is not a
/// flag is one, keyed `cat <file>`; other `cat` shapes are unsupported
/// arguments; an eligible `sed` has exactly the words `sed -n <range> <file>`,
/// a range `start <= end` spanning at least two hundred lines, and is keyed
/// `sed -n <range> <file>`; words that start neither with `cat` nor with
/// `sed` are not a read command.
pub proof fn lemma_read_command_shapes(words: Seq<Seq<char>>)
    requires
        words.len() > 0,
    ensures
        words[0] == "cat"@ && words.len() == 2 && !(words[1].len() > 0 && words[1][0] == '-')
            ==> (spec_classify_tokens(Some(words)) == (OutcomeModel::Eligible {
            tool: ReadTool::Cat,
            path: words[1],
            range: None,
            normalized: "cat "@ + words[1],
        })),
        words[0] == "cat"@ && (words.len() != 2 || (words[1].len() > 0 && words[1][0] == '-'))
            ==> spec_classify_tokens(Some(words)) == OutcomeModel::PassThrough(
            PassThroughReason::UnsupportedArgs,
        ),
        words[0] == "sed"@ ==> eligible_sed_shape(words, spec_classify_tokens(Some(words))),
        words[0] != "cat"@ && words[0] != "sed"@ ==> spec_classify_tokens(Some(words))
            == OutcomeModel::PassThrough(PassThroughReason::NotReadCommand),
{
    reveal_strlit("-");
    reveal_strlit("cat");
    reveal_strlit("sed");
    assert("cat"@[0] != "sed"@[0]);
    if words.len() > 1 {
        let w = words[1];
        if w.len() > 0 {
            assert("-"@.len() == 1 && "-"@[0] == '-');
            if w[0] == '-' {
                assert(w.take(1) =~= "-"@);
            } else {
                assert(w.take(1)[0] != "-"@[0]);
            }
            assert(starts_with(w, "-"@) == (w[0] == '-'));
        } else {
            assert(!starts_with(w, "-"@));
        }
    }
    if words[0] == "sed"@ && words.len() == 4 {
        let args = words.skip(1);
        assert(args[0] == words[1] && args[1] == words[2] && args[2] == words[3]);
        match spec_parse_sed_range(args[1]) {
            Some((start, end)) => {
                if end >= start {
                    if end - start + 1 > u32::MAX {
                    }
                }
            },
            None => {},
        }
    }
}

/// Whether `t` names one of the shells whose script is unwrapped: `sh`,
/// `bash` or `zsh`, bare or under `/bin/`.
pub open spec fn names_shell(t: Seq<char>) -> bool {
    ||| t == "sh"@
    ||| t == "bash"@
    ||| t == "zsh"@
    ||| t == "/bin/sh"@
    ||| t == "/bin/bash"@
    ||| t == "/bin/zsh"@
}

/// Words that are there, not empty, and not another shell wrapper.
pub open spec fn plain_words(w: Option<Seq<Seq<char>>>) -> bool {
    match w {
        Some(words) => words.len() > 0 && !(words.len() >= 3 && names_shell(words[0])),
        None => false,
    }
}

proof fn lemma_unwrap_after_flags(outer: Seq<Seq<char>>, i: int, script: Seq<char>)
    requires
        1 <= i,
        outer.len() >= 3,
        i <= outer.len() - 2,
        forall|m: int| i <= m < outer.len() - 2 ==> (#[trigger] outer[m] == "-l"@ || outer[m] == "-i"@),
        outer[outer.len() - 2] == "-c"@ || outer[outer.len() - 2] == "-lc"@,
        outer[outer.len() - 1] == script,
    ensures
        spec_unwrap_from(outer, i) == Some(script),
    decreases outer.len() - i,
{
    reveal_strlit("-l");
    reveal_strlit("-i");
    reveal_strlit("-c");
    reveal_strlit("-lc");
    if i < outer.len() - 2 {
        assert(outer[i] == "-l"@ || outer[i] == "-i"@);
        assert(outer[i] != "-c"@ && outer[i] != "-lc"@) by {
            if outer[i] == "-l"@ {
                assert("-l"@.len() != "-lc"@.len());
                assert("-l"@[1] != "-c"@[1]);
            } else {
                assert("-i"@.len() != "-lc"@.len());
                assert("-i"@[1] != "-c"@[1]);
            }
        }
        lemma_unwrap_after_flags(outer, i + 1, script);
    }
}

/// A shell wrapper is transparent: `<shell> [-l|-i]... -c|-lc <script>`,
/// for a shell named by [`names_shell`], classifies exactly as `<script>`
/// does on its own, when the script is a plain command (its words do not
/// form another wrapper) that reads back as the same text.
pub proof fn lemma_shell_wrapper_transparent(
    raw: Seq<char>,
    shell: Seq<char>,
    flags: Seq<Seq<char>>,
    run_flag: Seq<char>,
    script: Seq<char>,
)
    requires
        names_shell(shell),
        forall|m: int| 0 <= m < flags.len() ==> (#[trigger] flags[m] == "-l"@ || flags[m] == "-i"@),
        run_flag == "-c"@ || run_flag == "-lc"@,
        trim(raw).len() > 0,
        shlex_split_result(trim(raw)) == Some(seq![shell] + flags + seq![run_flag, script]),
        script.len() > 0,
        trim(script) == script,
        plain_words(shlex_split_result(script)),
    ensures
        spec_classify_command(raw) == spec_classify_command(script),
{
    let outer = seq![shell] + flags + seq![run_flag, script];
    assert(outer.len() == flags.len() + 3);
    assert(outer[0] == shell);
    assert(outer[outer.len() - 2] == run_flag);
    assert(outer[outer.len() - 1] == script);
    assert forall|m: int| 1 <= m < outer.len() - 2 implies (#[trigger] outer[m] == "-l"@
        || outer[m] == "-i"@) by {
        assert(outer[m] == flags[m - 1]);
    }
    lemma_unwrap_after_flags(outer, 1, script);
    assert(spec_unwrap_shell_script(outer) == Some(script));
}

// ---------------------------------------------------------------------------
// Implementation
// ---------------------------------------------------------------------------

/// Classifies a raw shell command line as an eligible large read or a
/// pass-through, splitting it into shell words with `shlex`.
pub fn classify_command(raw: &str) -> (out: ClassifyOutcome)
    ensures
        out.model() == spec_classify_command(raw@),
{
    let trimmed_chars = str_trim(raw);
    if trimmed_chars.len() == 0 {
        return ClassifyOutcome::PassThrough(PassThroughReason::UnsupportedShape);
    }
    let trimmed = string_from(trimmed_chars.as_slice());
    let outer = shlex_split(trimmed.as_str());
    match script_after_outer_split(trimmed.as_str(), outer) {
        Err(reason) => ClassifyOutcome::PassThrough(reason),
        Ok(script) => {
            let tokens = shlex_split(script.as_str());
            classify_tokens(tokens)
        },
    }
}

/// Given the trimmed command and its first shell split, returns the script
/// to split again (unwrapping `bash -lc '<script>'`) or the pass-through
/// reason (unparsable, or an unquoted shell metacharacter).
pub fn script_after_outer_split(trimmed: &str, outer: Option<Vec<String>>) -> (r: Result<
    String,
    PassThroughReason,
>)
    ensures
        match r {
            Ok(s) => spec_script_after_outer(trimmed@, opt_str_views(outer)) == Ok::<
                Seq<char>,
                PassThroughReason,
            >(s@),
            Err(e) => spec_script_after_outer(trimmed@, opt_str_views(outer)) == Err::<
                Seq<char>,
                PassThroughReason,
            >(e),
        },
{
    let words = match outer {
        None => return Err(PassThroughReason::UnsupportedShape),
        Some(w) => w,
    };
    if words.len() == 0 {
        return Err(PassThroughReason::UnsupportedShape);
    }
    let script = match unwrap_shell_script(&words) {
        Some(x) => x,
        None => trimmed.to_owned(),
    };
    let sc = chars_of(script.as_str());
    if has_unquoted_shell_metacharacter(sc.as_slice()) {
        return Err(PassThroughReason::ShellMetacharacter);
    }
    Ok(script)
}

/// Classifies the words of the script: `cat` and `sed` are examined, every
/// other command passes through.
pub fn classify_tokens(tokens: Option<Vec<String>>) -> (out: ClassifyOutcome)
    ensures
        out.model() == spec_classify_tokens(opt_str_views(tokens)),
{
    let t = match tokens {
        None => return ClassifyOutcome::PassThrough(PassThroughReason::UnsupportedShape),
        Some(t) => t,
    };
    if t.len() == 0 {
        return ClassifyOutcome::PassThrough(PassThroughReason::UnsupportedShape);
    }
    let ghost tv = str_views(t@);
    let rest = tail_strings(&t);
    assert(str_views(rest@) =~= tv.skip(1));
    if str_eq(t[0].as_str(), "cat") {
        classify_cat(&rest)
    } else if str_eq(t[0].as_str(), "sed") {
        classify_sed(&rest)
    } else {
        ClassifyOutcome::PassThrough(PassThroughReason::NotReadCommand)
    }
}

/// All strings of `v` but the first.
fn tail_strings(v: &Vec<String>) -> (out: Vec<String>)
    requires
        v@.len() > 0,
    ensures
        str_views(out@) == str_views(v@).skip(1),
{
    let mut out: Vec<String> = Vec::new();
    let mut i: usize = 1;
    while i < v.len()
        invariant
            1 <= i <= v@.len(),
            out@.len() == i - 1,
            forall|j: int| 0 <= j < i - 1 ==> #[trigger] out@[j]@ == v@[j + 1]@,
        decreases v@.len() - i,
    {
        out.push(v[i].clone());
        i = i + 1;
    }
    assert(str_views(out@) =~= str_views(v@).skip(1));
    out
}

fn classify_cat(args: &Vec<String>) -> (out: ClassifyOutcome)
    ensures
        out.model() == spec_classify_cat(str_views(args@)),
{
    if args.len() != 1 || str_starts_with(args[0].as_str(), "-") {
        return ClassifyOutcome::PassThrough(PassThroughReason::UnsupportedArgs);
    }
    let path = args[0].clone();
    let mut normalized = String::new();
    push_str(&mut normalized, "cat ");
    push_str(&mut normalized, path.as_str());
    ClassifyOutcome::Eligible(
        ClassifiedRead { tool: ReadTool::Cat, normalized, path, requested_range: None },
    )
}

fn classify_sed(args: &Vec<String>) -> (out: ClassifyOutcome)
    ensures
        out.model() == spec_classify_sed(str_views(args@)),
{
    if args.len() != 3 || !str_eq(args[0].as_str(), "-n") || str_starts_with(
        args[2].as_str(),
        "-",
    ) {
        return ClassifyOutcome::PassThrough(PassThroughReason::UnsupportedArgs);
    }
    let range_chars = chars_of(args[1].as_str());
    let (start, end) = match parse_sed_range(range_chars.as_slice()) {
        None => return ClassifyOutcome::PassThrough(PassThroughReason::UnsupportedArgs),
        Some(r) => r,
    };
    let span = end.saturating_sub(start).saturating_add(1);
    if span < MIN_SED_RANGE_LINES {
        return ClassifyOutcome::PassThrough(PassThroughReason::SmallRange);
    }
    let path = args[2].clone();
    let mut normalized = String::new();
    push_str(&mut normalized, "sed -n ");
    push_str(&mut normalized, args[1].as_str());
    push_str(&mut normalized, " ");
    push_str(&mut normalized, path.as_str());
    ClassifyOutcome::Eligible(
        ClassifiedRead {
            tool: ReadTool::Sed,
            normalized,
            path,
            requested_range: Some((start, end)),
        },
    )
}

/// Parses a `sed` print range like `1,400p` or `10,$p`.
fn parse_sed_range(tok: &[char]) -> (r: Option<(u32, u32)>)
    ensures
        r == spec_parse_sed_range(tok@),
{
    if tok.len() == 0 || tok[tok.len() - 1] != 'p' {
        return None;
    }
    let body = sub_chars(tok, 0, tok.len() - 1);
    assert(body@ =~= tok@.drop_last());
    let comma = vec![','];
    assert(comma@ =~= ","@) by {
        reveal_strlit(",");
    }
    let k = match find_exec(body.as_slice(), comma.as_slice()) {
        None => return None,
        Some(k) => k,
    };
    proof {
        lemma_find_from(body@, comma@, 0);
    }
    let a = sub_chars(body.as_slice(), 0, k);
    let b = sub_chars(body.as_slice(), k + 1, body.len());
    assert(a@ =~= body@.take(k as int));
    assert(b@ =~= body@.skip(k + 1));
    let start = match parse_u32_exec(a.as_slice()) {
        None => return None,
        Some(s) => s,
    };
    let dollar = vec!['$'];
    assert(dollar@ =~= "$"@) by {
        reveal_strlit("$");
    }
    let end = if eq_chars(b.as_slice(), dollar.as_slice()) {
        u32::MAX
    } else {
        match parse_u32_exec(b.as_slice()) {
            None => return None,
            Some(e) => e,
        }
    };
    if end < start {
        return None;
    }
    Some((start, end))
}

fn unwrap_shell_script(outer: &Vec<String>) -> (r: Option<String>)
    ensures
        match r {
            Some(s) => spec_unwrap_shell_script(str_views(outer@)) == Some(s@),
            None => spec_unwrap_shell_script(str_views(outer@)) == None::<Seq<char>>,
        },
{
    if outer.len() < 3 || !is_shell_executable(outer[0].as_str()) {
        return None;
    }
    let ghost ov = str_views(outer@);
    let mut i: usize = 1;
    while i < outer.len()
        invariant
            1 <= i <= outer@.len(),
            outer@.len() >= 3,
            ov == str_views(outer@),
            spec_unwrap_shell_script(ov) == spec_unwrap_from(ov, i as int),
        decreases outer@.len() - i,
    {
        let w = outer[i].as_str();
        assert(ov[i as int] == w@);
        if str_eq(w, "-c") || str_eq(w, "-lc") {
            if i + 1 == outer.len() - 1 {
                return Some(outer[i + 1].clone());
            }
            return None;
        } else if str_eq(w, "-l") || str_eq(w, "-i") {
            i = i + 1;
        } else {
            return None;
        }
    }
    None
}

fn is_shell_executable(token: &str) -> (r: bool)
    ensures
        r == spec_is_shell_executable(token@),
{
    str_eq(token, "/bin/zsh") || str_eq(token, "/bin/bash") || str_eq(token, "/bin/sh")
        || str_eq(token, "zsh") || str_eq(token, "bash") || str_eq(token, "sh")
}

fn has_unquoted_shell_metacharacter(s: &[char]) -> (r: bool)
    ensures
        r == spec_has_unquoted_shell_metacharacter(s@),
{
    let mut i: usize = 0;
    let mut in_single = false;
    let mut in_double = false;
    let n = s.len();
    while i < s.len()
        invariant
            n == s@.len(),
            i <= s@.len(),
            spec_has_unquoted_shell_metacharacter(s@) == spec_meta_from(
                s@,
                i as int,
                in_single,
                in_double,
            ),
        decreases s@.len() + 2 - i,
    {
        let c = s[i];
        if c == '\\' && !in_single {
            if i >= n - 1 {
                assert(spec_meta_from(s@, i + 2, in_single, in_double) == false);
                assert(spec_meta_from(s@, n as int, in_single, in_double) == false);
                i = n;
            } else {
                i = i + 2;
            }
            continue;
        }
        if c == '\'' && !in_double {
            in_single = !in_single;
            i = i + 1;
            continue;
        }
        if c == '"' && !in_single {
            in_double = !in_double;
            i = i + 1;
            continue;
        }
        if in_single || in_double {
            i = i + 1;
            continue;
        }
        if c == ';' || c == '|' || c == '>' || c == '<' || c == '&' || c == '`' {
            return true;
        }
        if c == '$' && i + 1 < s.len() && s[i + 1] == '(' {
            return true;
        }
        i = i + 1;
    }
    false
}

} // verus!
