//! Histories of an agent loop, and what makes one valid.
use crate::api::InvalidMessageHistoryError;
use crate::deep::DeepEq;
use crate::journal::{calls, pending_before, tail_calls};
use crate::message::{
    answered_ids, call_ids, calls_of, results, results_in, results_of, Message, MessageView,
    ToolCall, UserContent,
};
use crate::text::{decimal, has_text, join_texts, joined, render_number, separated};
use vstd::prelude::*;

verus! {

/// The first id, from the `k`th on, that occurred before.
pub open spec fn first_repeat(ids: Seq<Seq<char>>, k: int) -> Option<Seq<char>>
    decreases ids.len() - k,
{
    if k >= ids.len() {
        None
    } else if ids.take(k).contains(ids[k]) {
        Some(ids[k])
    } else {
        first_repeat(ids, k + 1)
    }
}

/// The first id, from the `k`th on, that is not among some others.
pub open spec fn first_absent(ids: Seq<Seq<char>>, others: Seq<Seq<char>>, k: int) -> Option<Seq<char>>
    decreases ids.len() - k,
{
    if k >= ids.len() {
        None
    } else if !others.contains(ids[k]) {
        Some(ids[k])
    } else {
        first_absent(ids, others, k + 1)
    }
}

/// An id occurs twice in a message.
pub open spec fn repeat_text(kind: Seq<char>, id: Seq<char>, index: int) -> Seq<char> {
    "duplicate "@ + kind + " id `"@ + id + "` at message "@ + decimal(index as nat)
}

/// Calls are followed by a message that is not from the user.
pub open spec fn not_user_text(index: int) -> Seq<char> {
    "assistant message "@ + decimal((index - 1) as nat) + " contains tool calls, but message "@
        + decimal(index as nat) + " is not the required user tool-result message"@
}

/// Calls are followed by a message without results.
pub open spec fn no_results_text(index: int) -> Seq<char> {
    "assistant message "@ + decimal((index - 1) as nat) + " contains tool calls, but user message "@
        + decimal(index as nat) + " contains no tool results"@
}

/// A call has no result.
pub open spec fn missing_text(id: Seq<char>, index: int) -> Seq<char> {
    "assistant tool call `"@ + id + "` at message "@ + decimal((index - 1) as nat)
        + " is missing a matching tool result in message "@ + decimal(index as nat)
}

/// A result has no call among those that it could answer.
pub open spec fn unmatched_text(id: Seq<char>, index: int) -> Seq<char> {
    "tool result `"@ + id + "` at message "@ + decimal(index as nat)
        + " does not match any tool call from message "@ + decimal((index - 1) as nat)
}

/// A result has no call at all.
pub open spec fn orphan_text(id: Seq<char>, index: int) -> Seq<char> {
    "tool result `"@ + id + "` at message "@ + decimal(index as nat)
        + " has no immediately preceding assistant tool call"@
}

/// A history ends with calls without results.
pub open spec fn unanswered_text(history: Seq<MessageView>) -> Seq<char> {
    "assistant message "@ + decimal((history.len() - 1) as nat) + " contains unanswered tool calls: "@
        + separated(call_ids(tail_calls(history)), ", "@)
}

/// What is wrong with a batch of results for some calls, if anything is.
pub open spec fn batch_fault(
    expected: Seq<Seq<char>>,
    found: Seq<Seq<char>>,
    index: int,
) -> Option<Seq<char>> {
    if found.len() == 0 {
        Some(no_results_text(index))
    } else if first_repeat(found, 0) is Some {
        Some(repeat_text("tool result"@, first_repeat(found, 0)->0, index))
    } else if first_absent(expected, found, 0) is Some {
        Some(missing_text(first_absent(expected, found, 0)->0, index))
    } else if first_absent(found, expected, 0) is Some {
        Some(unmatched_text(first_absent(found, expected, 0)->0, index))
    } else {
        None
    }
}

/// What is wrong with the message at `index`, given the one before it.
pub open spec fn order_fault(history: Seq<MessageView>, index: int) -> Option<Seq<char>> {
    let expected = call_ids(pending_before(history, index));
    let found = answered_ids(results_of(history[index]));
    let calls = call_ids(calls_of(history[index]));
    if expected.len() > 0 {
        if history[index] !is User {
            Some(not_user_text(index))
        } else {
            batch_fault(expected, found, index)
        }
    } else if first_repeat(calls, 0) is Some {
        Some(repeat_text("tool call"@, first_repeat(calls, 0)->0, index))
    } else if found.len() > 0 {
        Some(orphan_text(found[0], index))
    } else {
        None
    }
}

/// The first fault among the messages from `index` on, or calls without results at the end.
pub open spec fn first_order_fault(history: Seq<MessageView>, index: int) -> Option<Seq<char>>
    decreases history.len() - index,
{
    if index >= history.len() {
        if tail_calls(history).len() > 0 {
            Some(unanswered_text(history))
        } else {
            None
        }
    } else if order_fault(history, index) is Some {
        order_fault(history, index)
    } else {
        first_order_fault(history, index + 1)
    }
}

/// A history in which every call has its result in the next message, and every result its call.
pub open spec fn is_ordered(history: Seq<MessageView>) -> bool {
    &&& forall|i: int| 0 <= i < history.len() ==> (#[trigger] order_fault(history, i)) is None
    &&& tail_calls(history).len() == 0
}

/// The first fault among the messages from `index` on.
pub open spec fn first_message_fault(history: Seq<MessageView>, index: int) -> Option<Seq<char>>
    decreases history.len() - index,
{
    if index >= history.len() {
        None
    } else if order_fault(history, index) is Some {
        order_fault(history, index)
    } else {
        first_message_fault(history, index + 1)
    }
}

/// A history without a fault, whose last message may hold calls without results.
pub open spec fn is_open_ordered(history: Seq<MessageView>) -> bool {
    forall|i: int| 0 <= i < history.len() ==> (#[trigger] order_fault(history, i)) is None
}

/// Why a turn cannot be resumed on a history, if it cannot.
pub open spec fn resume_fault(history: Seq<MessageView>) -> Option<Seq<char>> {
    if first_order_fault(history, 0) is Some {
        first_order_fault(history, 0)
    } else if history.len() == 0 {
        Some("resume requires at least one committed message"@)
    } else if history.last() is System {
        Some("resume requires the last committed message to be user or assistant content"@)
    } else {
        None
    }
}

/// Whether a verdict on a history is the one that was specified.
pub open spec fn tells(verdict: Result<(), InvalidMessageHistoryError>, fault: Option<Seq<char>>) -> bool {
    match fault {
        None => verdict is Ok,
        Some(text) => verdict matches Err(e) && e.message@ == text,
    }
}

pub(crate) proof fn lemma_first_repeat(ids: Seq<Seq<char>>, k: int)
    requires
        0 <= k <= ids.len(),
        forall|i: int, j: int| 0 <= i < j < k ==> ids[i] != ids[j],
    ensures
        first_repeat(ids, k) is None <==> ids.no_duplicates(),
    decreases ids.len() - k,
{
    if k < ids.len() {
        if ids.take(k).contains(ids[k]) {
            let i = choose|i: int| 0 <= i < k && ids.take(k)[i] == ids[k];
            assert(ids[i] == ids[k]);
        } else {
            assert forall|i: int, j: int| 0 <= i < j < k + 1 implies ids[i] != ids[j] by {
                if j == k {
                    assert(ids.take(k)[i] == ids[i]);
                }
            }
            lemma_first_repeat(ids, k + 1);
        }
    }
}

proof fn lemma_first_absent(ids: Seq<Seq<char>>, others: Seq<Seq<char>>, k: int)
    requires
        0 <= k <= ids.len(),
    ensures
        first_absent(ids, others, k) is None <==> (forall|i: int|
            k <= i < ids.len() ==> others.contains(#[trigger] ids[i])),
    decreases ids.len() - k,
{
    if k < ids.len() {
        lemma_first_absent(ids, others, k + 1);
        if first_absent(ids, others, k) is None {
            assert forall|i: int| k <= i < ids.len() implies others.contains(#[trigger] ids[i]) by {
                if i > k {
                    assert(first_absent(ids, others, k + 1) is None);
                }
            }
        } else if others.contains(ids[k]) {
            let i = choose|i: int| k + 1 <= i < ids.len() && !others.contains(#[trigger] ids[i]);
            assert(!others.contains(ids[i]));
        }
    }
}

/// A batch without a fault: no result twice, one for each call and none for anything else.
pub open spec fn is_complete(expected: Seq<Seq<char>>, found: Seq<Seq<char>>) -> bool {
    &&& found.len() > 0
    &&& found.no_duplicates()
    &&& forall|i: int| 0 <= i < expected.len() ==> found.contains(#[trigger] expected[i])
    &&& forall|i: int| 0 <= i < found.len() ==> expected.contains(#[trigger] found[i])
}

pub(crate) proof fn lemma_batch_fault(expected: Seq<Seq<char>>, found: Seq<Seq<char>>, index: int)
    ensures
        batch_fault(expected, found, index) is None <==> is_complete(expected, found),
{
    lemma_first_repeat(found, 0);
    lemma_first_absent(expected, found, 0);
    lemma_first_absent(found, expected, 0);
}

proof fn lemma_first_order_fault(history: Seq<MessageView>, from: int)
    requires
        0 <= from <= history.len(),
    ensures
        first_order_fault(history, from) is None <==> (forall|i: int|
            from <= i < history.len() ==> (#[trigger] order_fault(history, i)) is None) && tail_calls(
            history,
        ).len() == 0,
    decreases history.len() - from,
{
    if from < history.len() {
        lemma_first_order_fault(history, from + 1);
        if first_order_fault(history, from) is None {
            assert forall|i: int| from <= i < history.len() implies (#[trigger] order_fault(history, i)) is None by {
                if i > from {
                    assert(first_order_fault(history, from + 1) is None);
                }
            }
        }
    }
}

proof fn lemma_message_fault(history: Seq<MessageView>, from: int)
    requires
        0 <= from <= history.len(),
    ensures
        first_message_fault(history, from) is None <==> (forall|i: int|
            from <= i < history.len() ==> (#[trigger] order_fault(history, i)) is None),
        first_order_fault(history, from) == (if first_message_fault(history, from) is Some {
            first_message_fault(history, from)
        } else if tail_calls(history).len() > 0 {
            Some(unanswered_text(history))
        } else {
            None
        }),
    decreases history.len() - from,
{
    if from < history.len() {
        lemma_message_fault(history, from + 1);
        if first_message_fault(history, from) is None {
            assert forall|i: int| from <= i < history.len() implies (#[trigger] order_fault(history, i)) is None by {
                if i > from {
                    assert(first_message_fault(history, from + 1) is None);
                }
            }
        }
    }
}

/// A history is valid exactly when no fault is found in it.
pub proof fn law_ordered_histories_have_no_fault(history: Seq<MessageView>)
    ensures
        is_ordered(history) <==> first_order_fault(history, 0) is None,
{
    lemma_first_order_fault(history, 0);
}

pub(crate) fn ids_of_calls(found: &Vec<&ToolCall>) -> (r: Vec<String>)
    ensures
        r.deep_view() == call_ids(found.deep_view()),
{
    let ghost all = call_ids(found.deep_view());
    let mut ids: Vec<String> = Vec::new();
    let mut i: usize = 0;
    while i < found.len()
        invariant
            i <= found.len(),
            all == call_ids(found.deep_view()),
            ids.deep_view() =~= all.take(i as int),
        decreases found.len() - i,
    {
        let ghost before = ids.deep_view();
        ids.push(found[i].id.clone());
        assert(ids.deep_view() =~= before.push(all[i as int]));
        i += 1;
    }
    assert(ids.deep_view() =~= all);
    ids
}

/// The ids of the calls that a message makes.
pub fn assistant_tool_call_ids(message: &Message) -> (r: Vec<String>)
    ensures
        r.deep_view() == call_ids(calls_of(message.deep_view())),
{
    ids_of_calls(&calls(message))
}

/// The ids of the calls that user content answers.
pub fn tool_result_ids(content: &Vec<UserContent>) -> (r: Vec<String>)
    ensures
        r.deep_view() == answered_ids(results_in(content.deep_view())),
{
    let found = results(content);
    let ghost all = answered_ids(found.deep_view());
    let mut ids: Vec<String> = Vec::new();
    let mut i: usize = 0;
    while i < found.len()
        invariant
            i <= found.len(),
            all == answered_ids(found.deep_view()),
            ids.deep_view() =~= all.take(i as int),
        decreases found.len() - i,
    {
        let ghost before = ids.deep_view();
        ids.push(found[i].call.clone());
        assert(ids.deep_view() =~= before.push(all[i as int]));
        i += 1;
    }
    assert(ids.deep_view() =~= all);
    ids
}

/// Hold some ids of a message against the rule that none occurs twice.
pub fn ensure_unique_ids(ids: &Vec<String>, message_index: usize, kind: &str) -> (r: Result<
    (),
    InvalidMessageHistoryError,
>)
    ensures
        tells(
            r,
            match first_repeat(ids.deep_view(), 0) {
                Some(id) => Some(repeat_text(kind@, id, message_index as int)),
                None => None,
            },
        ),
{
    let ghost all = ids.deep_view();
    let mut k: usize = 0;
    while k < ids.len()
        invariant
            k <= ids.len(),
            all == ids.deep_view(),
            first_repeat(all, 0) == first_repeat(all, k as int),
        decreases ids.len() - k,
    {
        let id = &ids[k];
        assert(all[k as int] == id@);
        let mut j: usize = 0;
        while j < k
            invariant
                j <= k < ids.len(),
                all == ids.deep_view(),
                id == ids[k as int],
                first_repeat(all, 0) == first_repeat(all, k as int),
                forall|i: int| 0 <= i < j ==> all[i] != id@,
            decreases k - j,
        {
            if ids[j].deep_eq(id) {
                assert(all.take(k as int)[j as int] == id@);
                let start = joined(
                    joined(joined(joined("duplicate ", kind).as_str(), " id `").as_str(), id.as_str()).as_str(),
                    "` at message ",
                );
                return Err(
                    InvalidMessageHistoryError::new(
                        joined(start.as_str(), render_number(message_index).as_str()),
                    ),
                );
            }
            j += 1;
        }
        assert(!all.take(k as int).contains(id@));
        k += 1;
    }
    Ok(())
}

fn absent(ids: &Vec<String>, others: &Vec<String>) -> (r: Option<String>)
    ensures
        r.deep_view() == first_absent(ids.deep_view(), others.deep_view(), 0),
{
    let ghost all = ids.deep_view();
    let mut k: usize = 0;
    while k < ids.len()
        invariant
            k <= ids.len(),
            all == ids.deep_view(),
            first_absent(all, others.deep_view(), 0) == first_absent(all, others.deep_view(), k as int),
        decreases ids.len() - k,
    {
        assert(all[k as int] == ids[k as int]@);
        if !has_text(others, &ids[k]) {
            return Some(ids[k].clone());
        }
        k += 1;
    }
    None
}

fn check_batch(expected: &Vec<String>, content: &Vec<UserContent>, index: usize) -> (r: Result<
    (),
    InvalidMessageHistoryError,
>)
    requires
        index > 0,
    ensures
        tells(
            r,
            batch_fault(
                expected.deep_view(),
                answered_ids(results_in(content.deep_view())),
                index as int,
            ),
        ),
{
    let before = render_number(index - 1);
    let here = render_number(index);
    let found = tool_result_ids(content);
    assert(found.deep_view().len() == found.len());
    if found.is_empty() {
        let start = joined(
            joined("assistant message ", before.as_str()).as_str(),
            " contains tool calls, but user message ",
        );
        return Err(
            InvalidMessageHistoryError::new(
                joined(joined(start.as_str(), here.as_str()).as_str(), " contains no tool results"),
            ),
        );
    }
    ensure_unique_ids(&found, index, "tool result")?;
    if let Some(id) = absent(expected, &found) {
        let start = joined(
            joined(joined("assistant tool call `", id.as_str()).as_str(), "` at message ").as_str(),
            before.as_str(),
        );
        return Err(
            InvalidMessageHistoryError::new(
                joined(
                    joined(start.as_str(), " is missing a matching tool result in message ").as_str(),
                    here.as_str(),
                ),
            ),
        );
    }
    if let Some(id) = absent(&found, expected) {
        let start = joined(
            joined(joined("tool result `", id.as_str()).as_str(), "` at message ").as_str(),
            here.as_str(),
        );
        return Err(
            InvalidMessageHistoryError::new(
                joined(
                    joined(start.as_str(), " does not match any tool call from message ").as_str(),
                    before.as_str(),
                ),
            ),
        );
    }
    Ok(())
}

/// Hold the messages of a history against the ones before them: the ids of the calls at the end.
fn check_messages(messages: &Vec<Message>) -> (r: Result<Vec<String>, InvalidMessageHistoryError>)
    ensures
        match first_message_fault(messages.deep_view(), 0) {
            None => r matches Ok(open) && open.deep_view() == call_ids(tail_calls(messages.deep_view())),
            Some(text) => r matches Err(e) && e.message@ == text,
        },
{
    let ghost all = messages.deep_view();
    let mut expected: Vec<String> = Vec::new();
    assert(expected.deep_view() =~= call_ids(pending_before(all, 0)));
    let mut index: usize = 0;
    while index < messages.len()
        invariant
            index <= messages.len(),
            all == messages.deep_view(),
            expected.deep_view() == call_ids(pending_before(all, index as int)),
            first_message_fault(all, 0) == first_message_fault(all, index as int),
        decreases messages.len() - index,
    {
        let message = &messages[index];
        assert(all[index as int] == message.deep_view());
        assert(expected.deep_view().len() == expected.len());
        if !expected.is_empty() {
            let Message::User { content } = message else {
                let start = joined(
                    joined("assistant message ", render_number(index - 1).as_str()).as_str(),
                    " contains tool calls, but message ",
                );
                return Err(
                    InvalidMessageHistoryError::new(
                        joined(
                            joined(start.as_str(), render_number(index).as_str()).as_str(),
                            " is not the required user tool-result message",
                        ),
                    ),
                );
            };
            check_batch(&expected, content, index)?;
            expected = Vec::new();
            assert(expected.deep_view() =~= call_ids(pending_before(all, index + 1)));
        } else {
            let found = assistant_tool_call_ids(message);
            ensure_unique_ids(&found, index, "tool call")?;
            if let Message::User { content } = message {
                let answered = tool_result_ids(content);
                assert(answered.deep_view().len() == answered.len());
                if answered.len() > 0 {
                    assert(answered.deep_view()[0] == answered[0]@);
                    let start = joined(
                        joined(
                            joined("tool result `", answered[0].as_str()).as_str(),
                            "` at message ",
                        ).as_str(),
                        render_number(index).as_str(),
                    );
                    return Err(
                        InvalidMessageHistoryError::new(
                            joined(
                                start.as_str(),
                                " has no immediately preceding assistant tool call",
                            ),
                        ),
                    );
                }
            }
            expected = found;
        }
        index += 1;
    }
    Ok(expected)
}

/// Hold a history against the order that providers ask for: the calls of a message are answered
/// in the next one, all of them and nothing else.
pub fn validate_message_history(messages: &Vec<Message>) -> (r: Result<(), InvalidMessageHistoryError>)
    ensures
        r is Ok <==> is_ordered(messages.deep_view()),
        tells(r, first_order_fault(messages.deep_view(), 0)),
{
    let ghost all = messages.deep_view();
    proof {
        law_ordered_histories_have_no_fault(all);
        lemma_message_fault(all, 0);
    }
    let expected = check_messages(messages)?;
    assert(all.len() == messages.len());
    assert(expected.deep_view().len() == expected.len());
    assert(call_ids(tail_calls(all)).len() == tail_calls(all).len());
    if !expected.is_empty() {
        let start = joined(
            joined("assistant message ", render_number(messages.len() - 1).as_str()).as_str(),
            " contains unanswered tool calls: ",
        );
        return Err(
            InvalidMessageHistoryError::new(
                joined(start.as_str(), join_texts(&expected, ", ").as_str()),
            ),
        );
    }
    Ok(())
}

/// Hold a history against the same order, where its last message may hold calls without results.
pub fn validate_open_history(messages: &Vec<Message>) -> (r: Result<(), InvalidMessageHistoryError>)
    ensures
        r is Ok <==> is_open_ordered(messages.deep_view()),
        tells(r, first_message_fault(messages.deep_view(), 0)),
{
    proof {
        lemma_message_fault(messages.deep_view(), 0);
    }
    match check_messages(messages) {
        Ok(_) => Ok(()),
        Err(error) => Err(error),
    }
}

/// Hold a history against what a resumed turn needs.
pub fn validate_resume_history(messages: &Vec<Message>) -> (r: Result<(), InvalidMessageHistoryError>)
    ensures
        tells(r, resume_fault(messages.deep_view())),
{
    validate_message_history(messages)?;
    proof {
        law_ordered_histories_have_no_fault(messages.deep_view());
        assert(messages.deep_view().len() == messages.len());
    }
    if messages.len() == 0 {
        return Err(
            InvalidMessageHistoryError::new(
                "resume requires at least one committed message".to_owned(),
            ),
        );
    }
    let last = &messages[messages.len() - 1];
    assert(messages.deep_view().last() == last.deep_view());
    match last {
        Message::System { .. } => Err(
            InvalidMessageHistoryError::new(
                "resume requires the last committed message to be user or assistant content".to_owned(),
            ),
        ),
        _ => Ok(()),
    }
}

} // verus!
