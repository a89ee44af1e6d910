//! What the model's formatted prompt input shows: whether it carries the
//! harness fragment, and the text of the user's messages.
use vstd::prelude::*;

use crate::harness::renderer::HARNESS_MARKER;
use crate::text::{contains, join, join_strings, str_contains, str_eq, str_views};

verus! {

/// A part of a message's content: input text, or anything else.
#[derive(Debug, Clone)]
pub enum ContentPart {
    InputText(String),
    Other,
}

/// An item of formatted prompt input: a message with its role and content
/// parts, or anything else.
#[derive(Debug, Clone)]
pub enum PromptItem {
    Message { role: String, content: Vec<ContentPart> },
    Other,
}

/// The input texts among content parts, in order.
pub open spec fn input_texts(parts: Seq<ContentPart>) -> Seq<Seq<char>>
    decreases parts.len(),
{
    if parts.len() == 0 {
        Seq::empty()
    } else {
        let rest = input_texts(parts.drop_last());
        match parts.last() {
            ContentPart::InputText(t) => rest.push(t@),
            ContentPart::Other => rest,
        }
    }
}

/// A part that is input text containing the harness marker.
pub open spec fn part_carries_marker(part: ContentPart) -> bool {
    part matches ContentPart::InputText(t) && contains(t@, HARNESS_MARKER@)
}

/// A message with a part that carries the harness marker.
pub open spec fn item_carries_marker(item: PromptItem) -> bool {
    match item {
        PromptItem::Message { content, .. } => exists|j: int|
            0 <= j < content@.len() && part_carries_marker(#[trigger] content@[j]),
        PromptItem::Other => false,
    }
}

/// Whether some message of the prompt input carries the harness fragment
/// (its marker in an input-text part).
pub fn model_prompt_contains_harness_context(items: &Vec<PromptItem>) -> (r: bool)
    ensures
        r == exists|i: int| 0 <= i < items@.len() && item_carries_marker(#[trigger] items@[i]),
{
    let mut i: usize = 0;
    while i < items.len()
        invariant
            i <= items@.len(),
            forall|k: int| 0 <= k < i ==> !item_carries_marker(#[trigger] items@[k]),
        decreases items@.len() - i,
    {
        match &items[i] {
            PromptItem::Message { role, content } => {
                let mut j: usize = 0;
                while j < content.len()
                    invariant
                        j <= content@.len(),
                        i < items@.len(),
                        items@[i as int] == (PromptItem::Message { role: *role, content: *content }),
                        forall|k: int| 0 <= k < j ==> !part_carries_marker(#[trigger] content@[k]),
                    decreases content@.len() - j,
                {
                    let hit = match &content[j] {
                        ContentPart::InputText(t) => str_contains(t.as_str(), HARNESS_MARKER),
                        ContentPart::Other => false,
                    };
                    if hit {
                        assert(part_carries_marker(content@[j as int]));
                        assert(items@[i as int]->Message_content@[j as int] == content@[j as int]);
                        assert(item_carries_marker(items@[i as int]));
                        return true;
                    }
                    j = j + 1;
                }
            },
            PromptItem::Other => {},
        }
        i = i + 1;
    }
    false
}

/// The text of each user message that has input text: its input-text parts
/// joined by newlines.
pub open spec fn user_texts(items: Seq<PromptItem>) -> Seq<Seq<char>>
    decreases items.len(),
{
    if items.len() == 0 {
        Seq::empty()
    } else {
        let rest = user_texts(items.drop_last());
        match items.last() {
            PromptItem::Message { role, content } => if role@ == "user"@ && input_texts(
                content@,
            ).len() > 0 {
                rest.push(join(input_texts(content@), "\n"@))
            } else {
                rest
            },
            PromptItem::Other => rest,
        }
    }
}

/// The input texts of a message's content.
fn input_texts_exec(content: &Vec<ContentPart>) -> (out: Vec<String>)
    ensures
        str_views(out@) == input_texts(content@),
{
    let mut out: Vec<String> = Vec::new();
    let mut j: usize = 0;
    while j < content.len()
        invariant
            j <= content@.len(),
            str_views(out@) == input_texts(content@.take(j as int)),
        decreases content@.len() - j,
    {
        let ghost prefix = content@.take(j + 1);
        assert(prefix.drop_last() =~= content@.take(j as int));
        assert(prefix.last() == content@[j as int]);
        match &content[j] {
            ContentPart::InputText(t) => {
                let ghost before = str_views(out@);
                out.push(t.clone());
                assert(str_views(out@) =~= before.push(t@));
            },
            ContentPart::Other => {},
        }
        j = j + 1;
    }
    assert(content@.take(content@.len() as int) =~= content@);
    out
}

/// The texts of the user messages of the prompt input, in order.
pub fn user_message_texts(items: &Vec<PromptItem>) -> (out: Vec<String>)
    ensures
        str_views(out@) == user_texts(items@),
{
    let mut out: Vec<String> = Vec::new();
    let mut i: usize = 0;
    while i < items.len()
        invariant
            i <= items@.len(),
            str_views(out@) == user_texts(items@.take(i as int)),
        decreases items@.len() - i,
    {
        let ghost prefix = items@.take(i + 1);
        assert(prefix.drop_last() =~= items@.take(i as int));
        assert(prefix.last() == items@[i as int]);
        match &items[i] {
            PromptItem::Message { role, content } => {
                if str_eq(role.as_str(), "user") {
                    let texts = input_texts_exec(content);
                    if texts.len() > 0 {
                        let ghost before = str_views(out@);
                        let joined = join_strings(&texts, "\n");
                        out.push(joined);
                        assert(str_views(out@) =~= before.push(joined@));
                    }
                }
            },
            PromptItem::Other => {},
        }
        i = i + 1;
    }
    assert(items@.take(items@.len() as int) =~= items@);
    out
}

} // verus!
