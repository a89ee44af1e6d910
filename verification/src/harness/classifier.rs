//! Task type classification by keywords.
use vstd::prelude::*;

use crate::text::{chars_of, contains, lower, lower_chars, split, split_exec, views, CharClass};

verus! {

/// The broad type of a task.
#[derive(Debug, Clone, Copy, PartialEq, Eq)]
pub enum TaskType {
    BugFix,
    Feature,
    Refactor,
    Review,
    Unknown,
}

impl TaskType {
    /// The snake-case name of the type.
    pub open spec fn label(self) -> Seq<char> {
        match self {
            TaskType::BugFix => "bug_fix"@,
            TaskType::Feature => "feature"@,
            TaskType::Refactor => "refactor"@,
            TaskType::Review => "review"@,
            TaskType::Unknown => "unknown"@,
        }
    }

    /// The snake-case name of the type.
    pub fn as_str(self) -> (s: &'static str)
        ensures
            s@ == self.label(),
    {
        match self {
            TaskType::BugFix => "bug_fix",
            TaskType::Feature => "feature",
            TaskType::Refactor => "refactor",
            TaskType::Review => "review",
            TaskType::Unknown => "unknown",
        }
    }
}

/// Classifies tasks by keywords.
pub struct TaskClassifier;

/// `keyword` is one of the alphanumeric words of `text`.
pub open spec fn spec_contains_keyword(text: Seq<char>, keyword: Seq<char>) -> bool {
    split(text, CharClass::NonAlphanumeric).contains(keyword)
}

fn contains_keyword(words: &Vec<Vec<char>>, keyword: &str) -> (r: bool)
    ensures
        r == views(words@).contains(keyword@),
{
    let k = chars_of(keyword);
    crate::text::contains_piece(words, k.as_slice())
}

/// The type of a task and the keyword evidence for it: review or audit
/// first, then refactor, then bug-fix words, then feature words.
pub open spec fn spec_classify(task: Seq<char>) -> (TaskType, Seq<char>) {
    let l = lower(task);
    let kw = |k: Seq<char>| spec_contains_keyword(l, k);
    if kw("review"@) || kw("audit"@) {
        (TaskType::Review, "keyword:review"@)
    } else if kw("refactor"@) {
        (TaskType::Refactor, "keyword:refactor"@)
    } else if kw("fix"@) || kw("bug"@) || kw("broken"@) || kw("failing"@) || kw("regression"@) {
        (TaskType::BugFix, "keyword:bug_fix"@)
    } else if kw("add"@) || kw("implement"@) || kw("create"@) || contains(l, "new feature"@) {
        (TaskType::Feature, "keyword:feature"@)
    } else {
        (TaskType::Unknown, "keyword:none"@)
    }
}

impl TaskClassifier {
    /// The type of a task with its one piece of keyword evidence.
    pub fn classify_type(task: &str) -> (r: (TaskType, String))
        ensures
            r.0 == spec_classify(task@).0,
            r.1@ == spec_classify(task@).1,
    {
        let tc = chars_of(task);
        let l = lower_chars(tc.as_slice());
        let w = split_exec(l.as_slice(), CharClass::NonAlphanumeric);
        if contains_keyword(&w, "review") || contains_keyword(&w, "audit") {
            (TaskType::Review, "keyword:review".to_owned())
        } else if contains_keyword(&w, "refactor") {
            (TaskType::Refactor, "keyword:refactor".to_owned())
        } else if contains_keyword(&w, "fix") || contains_keyword(&w, "bug") || contains_keyword(
            &w,
            "broken",
        ) || contains_keyword(&w, "failing") || contains_keyword(&w, "regression") {
            (TaskType::BugFix, "keyword:bug_fix".to_owned())
        } else if contains_keyword(&w, "add") || contains_keyword(&w, "implement")
            || contains_keyword(&w, "create") || crate::text::contains_exec(
            l.as_slice(),
            chars_of("new feature").as_slice(),
        ) {
            (TaskType::Feature, "keyword:feature".to_owned())
        } else {
            (TaskType::Unknown, "keyword:none".to_owned())
        }
    }
}

/// How a task's words decide its type.  The words are the maximal
/// alphanumeric runs of the lower-cased task.  `review` or `audit` makes a
/// review; otherwise `refactor` a refactor; otherwise `fix`, `bug`,
/// `broken`, `failing` or `regression` a bug fix; otherwise `add`,
/// `implement`, `create` or the phrase `new feature` a feature; else the
/// type is unknown.  The evidence is `keyword:` and the type's name, or
/// `keyword:none` for an unknown task.
pub proof fn lemma_task_type_by_words(task: Seq<char>)
    ensures
        ({
            let words = split(lower(task), CharClass::NonAlphanumeric);
            let review = words.contains("review"@) || words.contains("audit"@);
            let refactor = words.contains("refactor"@);
            let bug = words.contains("fix"@) || words.contains("bug"@) || words.contains("broken"@)
                || words.contains("failing"@) || words.contains("regression"@);
            let feature = words.contains("add"@) || words.contains("implement"@) || words.contains(
                "create"@,
            ) || contains(lower(task), "new feature"@);
            let r = spec_classify(task);
            &&& review ==> r.0 == TaskType::Review
            &&& !review && refactor ==> r.0 == TaskType::Refactor
            &&& !review && !refactor && bug ==> r.0 == TaskType::BugFix
            &&& !review && !refactor && !bug && feature ==> r.0 == TaskType::Feature
            &&& !review && !refactor && !bug && !feature ==> r.0 == TaskType::Unknown
            &&& r.0 != TaskType::Unknown ==> r.1 == "keyword:"@ + r.0.label()
            &&& r.0 == TaskType::Unknown ==> r.1 == "keyword:none"@
        }),
{
    reveal_strlit("keyword:");
    reveal_strlit("keyword:review");
    reveal_strlit("keyword:refactor");
    reveal_strlit("keyword:bug_fix");
    reveal_strlit("keyword:feature");
    reveal_strlit("review");
    reveal_strlit("refactor");
    reveal_strlit("bug_fix");
    reveal_strlit("feature");
    assert("keyword:review"@ =~= "keyword:"@ + "review"@);
    assert("keyword:refactor"@ =~= "keyword:"@ + "refactor"@);
    assert("keyword:bug_fix"@ =~= "keyword:"@ + "bug_fix"@);
    assert("keyword:feature"@ =~= "keyword:"@ + "feature"@);
}

} // verus!
