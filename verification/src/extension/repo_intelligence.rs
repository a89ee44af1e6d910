//! The repo-intelligence extension's own decisions: which task text a turn
//! carries, which task the contribution is built for, and how the narrow
//! verification hint is appended.
use vstd::prelude::*;

use crate::text::{join, str_trim, str_views, string_from, trim};

verus! {

/// Harness-native repo intelligence contributed to the prompt.
#[derive(Clone, Copy, Debug)]
pub struct RepoIntelligenceExtension;

impl Default for RepoIntelligenceExtension {
    fn default() -> (e: Self)
        ensures
            e == RepoIntelligenceExtension,
    {
        RepoIntelligenceExtension
    }
}

/// One item of a turn's user input, as the extension reads it.
#[derive(Clone, Debug, PartialEq)]
pub enum UserInputItem {
    /// Text typed by the user.
    Text(String),
    /// Anything else (images, skills, mentions).
    Other,
}

/// The trimmed, non-empty texts of the input, in order.
pub open spec fn input_texts(input: Seq<UserInputItem>) -> Seq<Seq<char>>
    decreases input.len(),
{
    if input.len() == 0 {
        Seq::empty()
    } else {
        input_texts(input.drop_last()) + match input.last() {
            UserInputItem::Text(t) => if trim(t@).len() > 0 {
                seq![trim(t@)]
            } else {
                Seq::empty()
            },
            UserInputItem::Other => Seq::empty(),
        }
    }
}

/// The task text of a turn: its trimmed non-empty texts joined by newlines,
/// or none.
pub fn task_text_from_user_input(input: &[UserInputItem]) -> (r: Option<String>)
    ensures
        input_texts(input@).len() == 0 ==> r is None,
        input_texts(input@).len() > 0 ==> (r matches Some(t) && t@ == join(input_texts(input@), "\n"@)),
{
    let mut parts: Vec<String> = Vec::new();
    let mut i: usize = 0;
    assert(input@.take(0) =~= Seq::<UserInputItem>::empty());
    assert(str_views(parts@) =~= Seq::<Seq<char>>::empty());
    while i < input.len()
        invariant
            i <= input@.len(),
            str_views(parts@) == input_texts(input@.take(i as int)),
        decreases input@.len() - i,
    {
        assert(input@.take(i + 1).drop_last() =~= input@.take(i as int));
        let ghost before = str_views(parts@);
        match &input[i] {
            UserInputItem::Text(t) => {
                let trimmed = str_trim(t.as_str());
                if trimmed.len() > 0 {
                    parts.push(string_from(trimmed.as_slice()));
                    assert(str_views(parts@) =~= before + seq![trimmed@]);
                } else {
                    assert(str_views(parts@) =~= before + Seq::<Seq<char>>::empty());
                }
            },
            UserInputItem::Other => {
                assert(str_views(parts@) =~= before + Seq::<Seq<char>>::empty());
            },
        }
        i = i + 1;
    }
    assert(input@.take(input@.len() as int) =~= input@);
    if parts.len() == 0 {
        None
    } else {
        Some(crate::text::join_strings(&parts, "\n"))
    }
}

/// The task a contribution is built for: the turn's task text when there
/// is a non-empty one, else `continue current task`.
pub open spec fn spec_contribution_task(task_override: Option<Seq<char>>) -> Seq<char> {
    match task_override {
        Some(t) => if t.len() > 0 {
            t
        } else {
            "continue current task"@
        },
        None => "continue current task"@,
    }
}

/// The task a contribution is built for.
pub fn contribution_task(task_override: Option<&str>) -> (t: &str)
    ensures
        t@ == spec_contribution_task(
            match task_override {
                Some(s) => Some(s@),
                None => None,
            },
        ),
{
    match task_override {
        Some(t) => {
            if t.is_empty() {
                "continue current task"
            } else {
                t
            }
        },
        None => "continue current task",
    }
}

/// The fragment text with the narrow verification command, if any,
/// appended as an after-editing hint.
pub open spec fn spec_with_verification_hint(text: Seq<char>, command: Option<Seq<char>>) -> Seq<char> {
    match command {
        Some(c) => text + "\n\n"@ + "After editing, likely narrow verification:\n- "@ + c,
        None => text,
    }
}

/// Appends the narrow verification hint for `command` to the fragment.
pub fn with_verification_hint(text: String, command: Option<&str>) -> (out: String)
    ensures
        out@ == spec_with_verification_hint(
            text@,
            match command {
                Some(c) => Some(c@),
                None => None,
            },
        ),
{
    let mut out = text;
    match command {
        Some(c) => {
            crate::text::push_str(&mut out, "\n\n");
            crate::text::push_str(&mut out, "After editing, likely narrow verification:\n- ");
            crate::text::push_str(&mut out, c);
        },
        None => {},
    }
    out
}

} // verus!
