//! The rules of test selection that do not weigh scores: which tasks want
//! fixture tests, which tests are snapshots, which align with an eval
//! fixture task, which reference a source file, and how a test is run.
use vstd::prelude::*;

use crate::harness::agent_eval::opt_view;
use crate::harness::task_terms::TaskTerms;
use crate::text::{
    chars_of, contains, ends_with, lower, push_str, str_contains, str_ends_with, str_eq,
    str_views, to_ascii_lowercase,
};

verus! {

/// The words that make a task about fixture tests.
pub open spec fn fixture_task_terms() -> Seq<Seq<char>> {
    seq!["fixture"@, "fixtures"@, "eval"@, "golden"@, "metrics"@]
}

/// Whether the task's terms ask for fixture tests.
pub open spec fn spec_task_wants_fixture_tests(phrases: Seq<Seq<char>>) -> bool {
    exists|i: int|
        0 <= i < fixture_task_terms().len() && phrases.contains(#[trigger] fixture_task_terms()[i])
}

/// Whether the task's terms ask for fixture tests.
pub fn task_wants_fixture_tests(terms: &TaskTerms) -> (r: bool)
    ensures
        r == spec_task_wants_fixture_tests(str_views(terms.phrases@)),
{
    let words = vec!["fixture", "fixtures", "eval", "golden", "metrics"];
    assert(words@.map_values(|s: &str| s@) =~= fixture_task_terms());
    let mut i: usize = 0;
    while i < words.len()
        invariant
            i <= words@.len(),
            words@.map_values(|s: &str| s@) == fixture_task_terms(),
            forall|j: int|
                0 <= j < i ==> !str_views(terms.phrases@).contains(
                    #[trigger] fixture_task_terms()[j],
                ),
        decreases words@.len() - i,
    {
        assert(fixture_task_terms()[i as int] == words@[i as int]@);
        if crate::text::any_eq(&terms.phrases, words[i]) {
            return true;
        }
        i = i + 1;
    }
    false
}

/// A snapshot-only test (given its lower-cased path).
pub open spec fn spec_is_snapshot_only_test(path_lower: Seq<char>) -> bool {
    contains(path_lower, "__snapshots__"@) || ends_with(path_lower, ".snap"@)
}

/// Whether a (lower-cased) test path is a snapshot.
pub fn is_snapshot_only_test(path_lower: &str) -> (r: bool)
    ensures
        r == spec_is_snapshot_only_test(path_lower@),
{
    str_contains(path_lower, "__snapshots__") || str_ends_with(path_lower, ".snap")
}

/// A test that fits an eval fixture task: the task asks for an eval and for
/// fixtures, and the lower-cased path mentions both.
pub open spec fn spec_test_path_aligns_eval_fixture(path: Seq<char>, phrases: Seq<Seq<char>>) -> bool {
    phrases.contains("eval"@) && (phrases.contains("fixture"@) || phrases.contains("fixtures"@))
        && contains(lower(path), "eval"@) && contains(lower(path), "fixture"@)
}

/// Whether the test path fits an eval fixture task.
pub fn test_path_aligns_eval_fixture(path: &str, terms: &TaskTerms) -> (r: bool)
    ensures
        r == spec_test_path_aligns_eval_fixture(path@, str_views(terms.phrases@)),
{
    let wants_eval = crate::text::any_eq(&terms.phrases, "eval");
    let wants_fixture = crate::text::any_eq(&terms.phrases, "fixture") || crate::text::any_eq(&terms.phrases, "fixtures");
    if !(wants_eval && wants_fixture) {
        return false;
    }
    let lowered = to_ascii_lowercase(path);
    str_contains(lowered.as_str(), "eval") && str_contains(lowered.as_str(), "fixture")
}

/// The repository map's record that a source file is covered by tests.
#[derive(Debug, Clone)]
pub struct TestLink {
    pub source_path: String,
    pub test_paths: Vec<String>,
}

/// What `std::path::Path::file_stem` gives for a path (as text): the final
/// component's name without its extension, `None` when there is no final
/// file name.
pub uninterp spec fn path_file_stem(path: Seq<char>) -> Option<Seq<char>>;

/// Calls `std::path::Path::file_stem` on the path.  The contract only names
/// the result; the path grammar it follows is std's.
#[verifier::external_body]
fn file_stem(path: &str) -> (r: Option<String>)
    ensures
        opt_view(r) == path_file_stem(path@),
{
    std::path::Path::new(path).file_stem().and_then(|s| s.to_str()).map(|s| s.to_string())
}

/// Whether the test exercises the source file: the test path contains the
/// source's non-empty file stem, or the map links the two.
pub open spec fn spec_test_references_source(
    test_path: Seq<char>,
    source_path: Seq<char>,
    links: Seq<TestLink>,
) -> bool {
    match path_file_stem(source_path) {
        Some(stem) => stem.len() > 0 && (contains(test_path, stem) || exists|i: int|
            0 <= i < links.len() && (#[trigger] links[i]).source_path@ == source_path && str_views(
                links[i].test_paths@,
            ).contains(test_path)),
        None => false,
    }
}

/// Whether the test exercises the source file.
pub fn test_references_source(test_path: &str, source_path: &str, links: &Vec<TestLink>) -> (r:
    bool)
    ensures
        r == spec_test_references_source(test_path@, source_path@, links@),
{
    let stem = match file_stem(source_path) {
        Some(s) => s,
        None => return false,
    };
    if stem.as_str().is_empty() {
        return false;
    }
    if str_contains(test_path, stem.as_str()) {
        return true;
    }
    let mut i: usize = 0;
    while i < links.len()
        invariant
            i <= links@.len(),
            path_file_stem(source_path@) == Some(stem@),
            stem@.len() > 0,
            !contains(test_path@, stem@),
            forall|j: int|
                0 <= j < i ==> !((#[trigger] links@[j]).source_path@ == source_path@ && str_views(
                    links@[j].test_paths@,
                ).contains(test_path@)),
        decreases links@.len() - i,
    {
        if str_eq(links[i].source_path.as_str(), source_path) && crate::text::any_eq(
            &links[i].test_paths,
            test_path,
        ) {
            return true;
        }
        i = i + 1;
    }
    false
}

/// The command that runs a test file, chosen by its extension.
pub open spec fn spec_default_test_command(path: Seq<char>) -> Seq<char> {
    if ends_with(path, ".py"@) {
        "pytest "@ + path
    } else if ends_with(path, ".rs"@) {
        "cargo test --test "@ + path
    } else if ends_with(path, ".ts"@) || ends_with(path, ".tsx"@) || ends_with(path, ".js"@) {
        "npm test -- "@ + path
    } else {
        "# run tests for "@ + path
    }
}

/// The command that runs a test file.
pub fn default_test_command(path: &str) -> (r: String)
    ensures
        r@ == spec_default_test_command(path@),
{
    let mut out = if str_ends_with(path, ".py") {
        "pytest ".to_owned()
    } else if str_ends_with(path, ".rs") {
        "cargo test --test ".to_owned()
    } else if str_ends_with(path, ".ts") || str_ends_with(path, ".tsx") || str_ends_with(
        path,
        ".js",
    ) {
        "npm test -- ".to_owned()
    } else {
        "# run tests for ".to_owned()
    };
    push_str(&mut out, path);
    out
}

/// The run command follows the test file's extension: Python files run
/// under `pytest`, Rust files under `cargo test --test`, TypeScript and
/// JavaScript files under `npm test --`, and anything else gets a comment
/// naming the file.  The command always ends with the path.
pub proof fn lemma_test_command_by_extension(path: Seq<char>)
    ensures
        ends_with(path, ".py"@) ==> spec_default_test_command(path) == "pytest "@ + path,
        ends_with(path, ".rs"@) ==> spec_default_test_command(path) == "cargo test --test "@ + path,
        ends_with(path, ".ts"@) || ends_with(path, ".tsx"@) || ends_with(path, ".js"@)
            ==> spec_default_test_command(path) == "npm test -- "@ + path,
        !(ends_with(path, ".py"@) || ends_with(path, ".rs"@) || ends_with(path, ".ts"@)
            || ends_with(path, ".tsx"@) || ends_with(path, ".js"@))
            ==> spec_default_test_command(path) == "# run tests for "@ + path,
{
    reveal_strlit(".py");
    reveal_strlit(".rs");
    reveal_strlit(".ts");
    reveal_strlit(".tsx");
    reveal_strlit(".js");
    let n = path.len() as int;
    if ends_with(path, ".py"@) {
        assert(path[n - 1] == ".py"@[2]);
    }
    if ends_with(path, ".rs"@) {
        assert(path[n - 1] == ".rs"@[2]);
        assert(path[n - 2] == ".rs"@[1]);
    }
    if ends_with(path, ".ts"@) {
        assert(path[n - 1] == ".ts"@[2]);
        assert(path[n - 2] == ".ts"@[1]);
    }
    if ends_with(path, ".tsx"@) {
        assert(path[n - 1] == ".tsx"@[3]);
    }
    if ends_with(path, ".js"@) {
        assert(path[n - 1] == ".js"@[2]);
        assert(path[n - 2] == ".js"@[1]);
    }
}

} // verus!
