//! The rules that a conversation's journal keeps: every batch of tool calls is answered at once,
//! completely and under the identities that the calls were made with.
use crate::deep::DeepEq;
use crate::message::{
    answered_ids, call_ids, calls_in, calls_of, lemma_results_in_concat, lemma_results_of_blocks,
    result_blocks, results, results_in, results_of, AssistantContent, Message, MessageView,
    ToolCall, ToolCallView, ToolResult, ToolResultView, UserContentView,
};
use crate::session::{Error, ErrorView};
use vstd::prelude::*;

verus! {

/// Whether a result answers a call: under the same id and the same provider identity, with
/// something in it.
pub open spec fn answers(call: ToolCallView, result: ToolResultView) -> bool {
    &&& call.id == result.call
    &&& call.provider == result.provider
    &&& result.content.len() > 0
}

/// Whether a user or assistant message holds nothing.
pub open spec fn is_empty_message(message: MessageView) -> bool {
    match message {
        MessageView::System { .. } => false,
        MessageView::User { content } => content.len() == 0,
        MessageView::Assistant { content, .. } => content.len() == 0,
    }
}

/// What is wrong with the `k`th result of a batch that answers `pending`, if anything is.
pub open spec fn result_fault(
    pending: Seq<ToolCallView>,
    results: Seq<ToolResultView>,
    k: int,
) -> Option<Seq<char>> {
    if exists|j: int| 0 <= j < k && (#[trigger] results[j]).call == results[k].call {
        Some("duplicate tool result"@)
    } else if !call_ids(pending).contains(results[k].call) {
        Some("orphan tool result"@)
    } else if !(exists|j: int| 0 <= j < pending.len() && answers(#[trigger] pending[j], results[k])) {
        Some("tool result identity/content does not match its call"@)
    } else {
        None
    }
}

/// The first fault among the results from the `k`th on.
pub open spec fn results_fault(
    pending: Seq<ToolCallView>,
    results: Seq<ToolResultView>,
    k: int,
) -> Option<Seq<char>>
    decreases results.len() - k,
{
    if k >= results.len() {
        None
    } else if result_fault(pending, results, k) is Some {
        result_fault(pending, results, k)
    } else {
        results_fault(pending, results, k + 1)
    }
}

/// What is wrong with a message that follows the calls `pending`, if anything is.
pub open spec fn message_fault(pending: Seq<ToolCallView>, message: MessageView) -> Option<Seq<char>> {
    if is_empty_message(message) {
        Some("empty message content"@)
    } else if pending.len() > 0 {
        if message !is User {
            Some("tool calls require an immediately following user result batch"@)
        } else if results_of(message).len() != pending.len() {
            Some("incomplete or extra tool results; normalize stored history before starting"@)
        } else {
            results_fault(pending, results_of(message), 0)
        }
    } else if results_of(message).len() > 0 {
        Some("orphan tool result"@)
    } else if !call_ids(calls_of(message)).no_duplicates() {
        Some("duplicate tool call"@)
    } else {
        None
    }
}

/// The calls that the message at `i` has to answer: those of the message before it.
pub open spec fn pending_before(history: Seq<MessageView>, i: int) -> Seq<ToolCallView> {
    if 0 < i <= history.len() {
        calls_of(history[i - 1])
    } else {
        Seq::empty()
    }
}

/// What is wrong with the message at `i`, given the one before it.
pub open spec fn fault_at(history: Seq<MessageView>, i: int) -> Option<Seq<char>> {
    message_fault(pending_before(history, i), history[i])
}

/// A journal: no message has a fault. The last message may hold calls without an answer.
pub open spec fn is_journal(history: Seq<MessageView>) -> bool {
    forall|i: int| 0 <= i < history.len() ==> (#[trigger] fault_at(history, i)) is None
}

/// The calls at the end of a history that have no answer yet.
pub open spec fn tail_calls(history: Seq<MessageView>) -> Seq<ToolCallView> {
    pending_before(history, history.len() as int)
}

/// A history that a provider accepts: a journal whose calls are all answered.
pub open spec fn is_history(history: Seq<MessageView>) -> bool {
    is_journal(history) && tail_calls(history).len() == 0
}

/// The first fault among the messages from `i` on.
pub open spec fn first_fault(history: Seq<MessageView>, i: int) -> Option<Seq<char>>
    decreases history.len() - i,
{
    if i >= history.len() {
        None
    } else if fault_at(history, i) is Some {
        fault_at(history, i)
    } else {
        first_fault(history, i + 1)
    }
}

/// Why a history is refused: its first fault, or calls left without an answer where none may be.
pub open spec fn refusal(history: Seq<MessageView>, allow_tail: bool) -> Option<Seq<char>> {
    if first_fault(history, 0) is Some {
        first_fault(history, 0)
    } else if !allow_tail && tail_calls(history).len() > 0 {
        Some("unanswered tool calls"@)
    } else {
        None
    }
}

/// Whether a verdict reports the fault `text`, or success where there is none.
pub open spec fn reports(verdict: Result<(), Error>, fault: Option<Seq<char>>) -> bool {
    match fault {
        None => verdict is Ok,
        Some(text) => verdict matches Err(e) && e.deep_view() == ErrorView::InvalidHistory(text),
    }
}

/// The end of a journal that an append has to agree with.
pub open spec fn seam(history: Seq<MessageView>) -> Seq<MessageView> {
    if tail_calls(history).len() > 0 {
        seq![history.last()]
    } else {
        Seq::empty()
    }
}

/// Whether a signal may be queued: a user message with content and without tool results.
pub open spec fn is_signal(message: MessageView) -> bool {
    message is User && !is_empty_message(message) && results_of(message).len() == 0
}

fn invalid(text: &str) -> (r: Error)
    ensures
        r.deep_view() == ErrorView::InvalidHistory(text@),
{
    Error::InvalidHistory(text.to_owned())
}

/// The tool calls of a message, in order.
pub fn calls(message: &Message) -> (r: Vec<&ToolCall>)
    ensures
        r.deep_view() == calls_of(message.deep_view()),
{
    let mut found: Vec<&ToolCall> = Vec::new();
    match message {
        Message::Assistant { content, .. } => {
            let ghost all = content.deep_view();
            assert(found.deep_view() =~= calls_in(all.take(0)));
            let mut i: usize = 0;
            while i < content.len()
                invariant
                    i <= content.len(),
                    all == content.deep_view(),
                    found.deep_view() == calls_in(all.take(i as int)),
                decreases content.len() - i,
            {
                let ghost before = found.deep_view();
                assert(all.take(i + 1).drop_last() =~= all.take(i as int));
                assert(all.take(i + 1).last() == content[i as int].deep_view());
                if let AssistantContent::ToolCall(call) = &content[i] {
                    found.push(call);
                    assert(found.deep_view() =~= before.push(call.deep_view()));
                }
                i += 1;
            }
            assert(all.take(all.len() as int) =~= all);
        },
        _ => {
            assert(found.deep_view() =~= Seq::empty());
        },
    }
    found
}

/// Hold a result against the call it is meant to answer.
pub fn check_result(call: &ToolCall, result: &ToolResult) -> (r: Result<(), Error>)
    ensures
        r is Ok <==> answers(call.deep_view(), result.deep_view()),
        r matches Err(e) ==> e.deep_view() == ErrorView::InvalidHistory(
            "tool result identity/content does not match its call"@,
        ),
{
    if !call.id.deep_eq(&result.call) || !call.provider.deep_eq(&result.provider)
        || result.content.is_empty() {
        assert(result.content.deep_view().len() == result.content.len());
        return Err(invalid("tool result identity/content does not match its call"));
    }
    assert(result.content.deep_view().len() == result.content.len());
    Ok(())
}

/// Whether some ids occur twice among the calls.
fn repeats_an_id(calls: &Vec<&ToolCall>) -> (r: bool)
    ensures
        r == !call_ids(calls.deep_view()).no_duplicates(),
{
    let ghost ids = call_ids(calls.deep_view());
    let mut i: usize = 0;
    while i < calls.len()
        invariant
            i <= calls.len(),
            ids == call_ids(calls.deep_view()),
            forall|a: int, b: int| 0 <= a < b < i ==> ids[a] != ids[b],
        decreases calls.len() - i,
    {
        let mut j: usize = 0;
        while j < i
            invariant
                j <= i < calls.len(),
                ids == call_ids(calls.deep_view()),
                forall|a: int| 0 <= a < j ==> ids[a] != ids[i as int],
            decreases i - j,
        {
            if calls[j].id.deep_eq(&calls[i].id) {
                assert(ids[j as int] == ids[i as int]);
                return true;
            }
            j += 1;
        }
        i += 1;
    }
    false
}

/// The first fault of a batch of results.
fn check_batch(pending: &Vec<&ToolCall>, results: &Vec<&ToolResult>) -> (r: Result<(), Error>)
    requires
        call_ids(pending.deep_view()).no_duplicates(),
    ensures
        reports(r, results_fault(pending.deep_view(), results.deep_view(), 0)),
{
    let ghost p = pending.deep_view();
    let ghost rs = results.deep_view();
    let mut k: usize = 0;
    while k < results.len()
        invariant
            k <= results.len(),
            p == pending.deep_view(),
            rs == results.deep_view(),
            call_ids(p).no_duplicates(),
            results_fault(p, rs, 0) == results_fault(p, rs, k as int),
        decreases results.len() - k,
    {
        let result = results[k];
        assert(rs[k as int] == result.deep_view());
        let mut j: usize = 0;
        while j < k
            invariant
                j <= k < results.len(),
                p == pending.deep_view(),
                rs == results.deep_view(),
                result == results[k as int],
                results_fault(p, rs, 0) == results_fault(p, rs, k as int),
                forall|a: int| 0 <= a < j ==> (#[trigger] rs[a]).call != rs[k as int].call,
            decreases k - j,
        {
            if results[j].call.deep_eq(&result.call) {
                assert(rs[j as int].call == rs[k as int].call);
                return Err(invalid("duplicate tool result"));
            }
            j += 1;
        }
        let mut j: usize = 0;
        while j < pending.len() && !pending[j].id.deep_eq(&result.call)
            invariant
                j <= pending.len(),
                p == pending.deep_view(),
                forall|a: int| 0 <= a < j ==> call_ids(p)[a] != result.deep_view().call,
            decreases pending.len() - j,
        {
            j += 1;
        }
        if j == pending.len() {
            assert(!call_ids(p).contains(rs[k as int].call));
            return Err(invalid("orphan tool result"));
        }
        assert(call_ids(p)[j as int] == rs[k as int].call);
        match check_result(pending[j], result) {
            Err(e) => {
                assert forall|a: int| 0 <= a < p.len() implies !answers(#[trigger] p[a], rs[k as int]) by {
                    if a != j {
                        assert(call_ids(p)[a] != call_ids(p)[j as int]);
                    }
                }
                return Err(e);
            },
            Ok(()) => {
                assert(answers(p[j as int], rs[k as int]));
            },
        }
        k += 1;
    }
    Ok(())
}

/// The fault of one message after the calls `pending`.
fn check_message(pending: &Vec<&ToolCall>, message: &Message) -> (r: Result<(), Error>)
    requires
        call_ids(pending.deep_view()).no_duplicates(),
    ensures
        reports(r, message_fault(pending.deep_view(), message.deep_view())),
{
    assert(pending.deep_view().len() == pending.len());
    match message {
        Message::System { .. } => {},
        Message::User { content } => {
            assert(content.deep_view().len() == content.len());
            if content.is_empty() {
                return Err(invalid("empty message content"));
            }
        },
        Message::Assistant { content, .. } => {
            assert(content.deep_view().len() == content.len());
            if content.is_empty() {
                return Err(invalid("empty message content"));
            }
        },
    }
    if !pending.is_empty() {
        let Message::User { content } = message else {
            return Err(invalid("tool calls require an immediately following user result batch"));
        };
        let found = results(content);
        assert(found.deep_view().len() == found.len());
        if found.len() != pending.len() {
            return Err(
                invalid(
                    "incomplete or extra tool results; normalize stored history before starting",
                ),
            );
        }
        return check_batch(pending, &found);
    }
    if let Message::User { content } = message {
        let found = results(content);
        assert(found.deep_view().len() == found.len());
        if !found.is_empty() {
            return Err(invalid("orphan tool result"));
        }
    }
    if repeats_an_id(&calls(message)) {
        return Err(invalid("duplicate tool call"));
    }
    Ok(())
}

/// An optional message in front of others.
pub open spec fn behind(previous: Option<MessageView>, messages: Seq<MessageView>) -> Seq<MessageView> {
    match previous {
        Some(message) => seq![message] + messages,
        None => messages,
    }
}

/// Hold messages, behind an optional earlier one, against the rules; where it is allowed, the last
/// message may hold calls without an answer.
pub fn validate(previous: Option<&Message>, messages: &[Message], allow_tail: bool) -> (r: Result<
    (),
    Error,
>)
    ensures
        reports(r, refusal(behind(previous.deep_view(), messages.deep_view()), allow_tail)),
{
    let ghost all = behind(previous.deep_view(), messages.deep_view());
    let mut pending: Vec<&ToolCall> = Vec::new();
    assert(pending.deep_view() =~= pending_before(all, 0));
    if let Some(message) = previous {
        assert(all[0] == message.deep_view());
        check_message(&pending, message)?;
        pending = calls(message);
    }
    let ghost offset: int = if previous is Some { 1 } else { 0 };
    let mut i: usize = 0;
    while i < messages.len()
        invariant
            i <= messages.len(),
            offset == 0 || offset == 1,
            all == behind(previous.deep_view(), messages.deep_view()),
            all.len() == offset + messages.len(),
            forall|k: int| 0 <= k < messages.len() ==> all[offset + k] == #[trigger] messages[k].deep_view(),
            pending.deep_view() == pending_before(all, offset + i),
            call_ids(pending.deep_view()).no_duplicates(),
            first_fault(all, 0) == first_fault(all, offset + i),
        decreases messages.len() - i,
    {
        let message = &messages[i];
        assert(all[offset + i] == message.deep_view());
        check_message(&pending, message)?;
        pending = calls(message);
        i += 1;
    }
    assert(pending.deep_view().len() == pending.len());
    if !allow_tail && !pending.is_empty() {
        return Err(invalid("unanswered tool calls"));
    }
    Ok(())
}

/// A journal is a sequence of messages that is not refused, and nothing else.
pub proof fn law_journals_are_not_refused(history: Seq<MessageView>)
    ensures
        is_journal(history) <==> refusal(history, true) is None,
        is_history(history) <==> refusal(history, false) is None,
{
    lemma_first_fault(history, 0);
}

proof fn lemma_first_fault(history: Seq<MessageView>, from: int)
    requires
        0 <= from <= history.len(),
    ensures
        first_fault(history, from) is None <==> (forall|i: int|
            from <= i < history.len() ==> (#[trigger] fault_at(history, i)) is None),
    decreases history.len() - from,
{
    if from < history.len() {
        lemma_first_fault(history, from + 1);
        if first_fault(history, from) is None {
            assert forall|i: int| from <= i < history.len() implies (#[trigger] fault_at(history, i)) is None by {
                if i > from {
                    assert(first_fault(history, from + 1) is None);
                }
            }
        }
    }
}

/// Hold a history against the order and the identities that providers ask for. Partial batches
/// of results and results without a call are refused; nothing is discarded or rewritten.
pub fn validate_history(history: &[Message]) -> (r: Result<(), Error>)
    ensures
        r is Ok <==> is_history(history.deep_view()),
        reports(r, refusal(history.deep_view(), false)),
{
    proof {
        law_journals_are_not_refused(history.deep_view());
    }
    validate(None, history, false)
}

/// Hold a journal against the rules; its last message may hold calls without an answer.
pub fn validate_journal(history: &[Message]) -> (r: Result<(), Error>)
    ensures
        r is Ok <==> is_journal(history.deep_view()),
        reports(r, refusal(history.deep_view(), true)),
{
    proof {
        law_journals_are_not_refused(history.deep_view());
    }
    validate(None, history, true)
}

/// Hold messages that are to follow a journal against the rules. The journal keeps them already,
/// so that only its end can matter.
pub fn validate_append(history: &[Message], delta: &[Message]) -> (r: Result<(), Error>)
    ensures
        r is Ok <==> is_journal(seam(history.deep_view()) + delta.deep_view()),
        reports(r, refusal(seam(history.deep_view()) + delta.deep_view(), true)),
{
    let ghost h = history.deep_view();
    let mut previous: Option<&Message> = None;
    if history.len() > 0 {
        let last = &history[history.len() - 1];
        assert(h.last() == last.deep_view());
        let open = calls(last);
        assert(open.deep_view().len() == open.len());
        if !open.is_empty() {
            previous = Some(last);
        }
    }
    proof {
        law_journals_are_not_refused(seam(h) + delta.deep_view());
        assert(behind(previous.deep_view(), delta.deep_view()) =~= seam(h) + delta.deep_view());
    }
    validate(previous, delta, true)
}

/// Hold a signal against what may be queued.
pub fn validate_signal(message: &Message) -> (r: Result<(), Error>)
    ensures
        r is Ok <==> is_signal(message.deep_view()),
        r matches Err(e) ==> e.deep_view() == ErrorView::InvalidHistory(
            "signals must be nonempty user messages without tool results"@,
        ),
{
    if let Message::User { content } = message {
        assert(content.deep_view().len() == content.len());
        let found = results(content);
        assert(found.deep_view().len() == found.len());
        if !content.is_empty() && found.is_empty() {
            return Ok(());
        }
    }
    Err(invalid("signals must be nonempty user messages without tool results"))
}

/// A batch without a fault holds no result twice, and each result answers one of the calls.
proof fn lemma_sound_batch(pending: Seq<ToolCallView>, results: Seq<ToolResultView>, from: int, k: int)
    requires
        0 <= from <= k < results.len(),
        results_fault(pending, results, from) is None,
    ensures
        result_fault(pending, results, k) is None,
    decreases k - from,
{
    if from < k {
        lemma_sound_batch(pending, results, from + 1, k);
    }
}

/// A batch without a fault answers no call twice, and nothing but the calls.
pub(crate) proof fn lemma_sound_results(pending: Seq<ToolCallView>, results: Seq<ToolResultView>)
    requires
        results_fault(pending, results, 0) is None,
    ensures
        answered_ids(results).no_duplicates(),
        forall|k: int|
            0 <= k < results.len() ==> call_ids(pending).contains(#[trigger] answered_ids(results)[k]),
{
    let answered = answered_ids(results);
    assert forall|k: int, l: int| 0 <= k < l < results.len() implies answered[k] != answered[l] by {
        lemma_sound_batch(pending, results, 0, l);
        assert(results[k].call != results[l].call);
    }
    assert forall|k: int| 0 <= k < results.len() implies call_ids(pending).contains(
        #[trigger] answered[k],
    ) by {
        lemma_sound_batch(pending, results, 0, k);
    }
}

/// Results that answer distinct calls one by one have no fault.
proof fn lemma_in_order_batch(pending: Seq<ToolCallView>, results: Seq<ToolResultView>, from: int)
    requires
        0 <= from <= results.len(),
        results.len() == pending.len(),
        call_ids(pending).no_duplicates(),
        forall|k: int| 0 <= k < results.len() ==> answers(#[trigger] pending[k], results[k]),
    ensures
        results_fault(pending, results, from) is None,
    decreases results.len() - from,
{
    if from < results.len() {
        lemma_in_order_batch(pending, results, from + 1);
        let ids = call_ids(pending);
        assert(answers(pending[from], results[from]));
        assert(ids[from] == results[from].call);
        assert forall|j: int| 0 <= j < from implies (#[trigger] results[j]).call != results[from].call by {
            assert(answers(pending[j], results[j]));
            assert(ids[j] != ids[from]);
        }
        assert(result_fault(pending, results, from) is None);
    }
}

/// A batch has no fault exactly when it answers no call twice and each result answers a call.
pub(crate) proof fn lemma_faultless_batch(pending: Seq<ToolCallView>, results: Seq<ToolResultView>, from: int)
    requires
        0 <= from <= results.len(),
    ensures
        results_fault(pending, results, from) is None <==> (forall|k: int|
            from <= k < results.len() ==> #[trigger] result_fault(pending, results, k) is None),
    decreases results.len() - from,
{
    if from < results.len() {
        lemma_faultless_batch(pending, results, from + 1);
        if results_fault(pending, results, from) is None {
            assert forall|k: int| from <= k < results.len() implies #[trigger] result_fault(
                pending,
                results,
                k,
            ) is None by {
                if k > from {
                    assert(results_fault(pending, results, from + 1) is None);
                }
            }
        }
    }
}

/// A result occurs among the results of some content as often as its block does in the content.
proof fn lemma_results_count(content: Seq<UserContentView>, result: ToolResultView)
    ensures
        results_in(content).to_multiset().count(result) == content.to_multiset().count(
            UserContentView::ToolResult(result),
        ),
    decreases content.len(),
{
    results_in(content).to_multiset_ensures();
    content.to_multiset_ensures();
    if content.len() > 0 {
        let rest = content.drop_last();
        lemma_results_count(rest, result);
        rest.to_multiset_ensures();
        results_in(rest).to_multiset_ensures();
        assert(rest.push(content.last()) =~= content);
        assert(content.to_multiset() =~= rest.to_multiset().insert(content.last()));
        if let UserContentView::ToolResult(last) = content.last() {
            assert(results_in(content) == results_in(rest).push(last));
            assert(results_in(content).to_multiset() =~= results_in(rest).to_multiset().insert(last));
        }
    }
}

/// A batch keeps having no fault when its results are put in another order.
proof fn lemma_reordered_batch(pending: Seq<ToolCallView>, results: Seq<ToolResultView>, other: Seq<ToolResultView>)
    requires
        results_fault(pending, results, 0) is None,
        results.to_multiset() == other.to_multiset(),
    ensures
        results_fault(pending, other, 0) is None,
        results.len() == other.len(),
{
    results.to_multiset_ensures();
    other.to_multiset_ensures();
    lemma_faultless_batch(pending, results, 0);
    lemma_faultless_batch(pending, other, 0);
    lemma_sound_results(pending, results);
    let ids = answered_ids(results);
    assert(results.no_duplicates()) by {
        assert forall|i: int, j: int| 0 <= i < results.len() && 0 <= j < results.len() && i != j implies results[i]
            != results[j] by {
            assert(ids[i] != ids[j]);
        }
    }
    results.lemma_multiset_has_no_duplicates();
    other.lemma_multiset_has_no_duplicates_conv();
    assert forall|k: int| 0 <= k < other.len() implies #[trigger] result_fault(pending, other, k) is None by {
        assert(other.contains(other[k]));
        assert(other.to_multiset().count(other[k]) > 0);
        assert(results.contains(other[k]));
        let a = choose|a: int| 0 <= a < results.len() && results[a] == other[k];
        assert(result_fault(pending, results, a) is None);
        assert forall|j: int| 0 <= j < k implies (#[trigger] other[j]).call != other[k].call by {
            assert(other.contains(other[j]));
            assert(other.to_multiset().count(other[j]) > 0);
            assert(results.contains(other[j]));
            let b = choose|b: int| 0 <= b < results.len() && results[b] == other[j];
            assert(other[j] != other[k]);
            assert(ids[a] != ids[b]);
        }
    }
}

/// What is wrong with a history does not depend on how a user message holds its results, if it
/// holds anything.
proof fn lemma_same_results(history: Seq<MessageView>, i: int, content: Seq<UserContentView>)
    requires
        0 <= i < history.len(),
        history[i] is User,
        history[i]->User_content.len() == 0 <==> content.len() == 0,
        results_in(history[i]->User_content).to_multiset() == results_in(content).to_multiset(),
    ensures
        is_journal(history) ==> is_journal(history.update(i, MessageView::User { content })),
        tail_calls(history.update(i, MessageView::User { content })) == tail_calls(history),
{
    let next = history.update(i, MessageView::User { content });
    let (before, after) = (results_of(history[i]), results_of(next[i]));
    before.to_multiset_ensures();
    after.to_multiset_ensures();
    assert(before.len() == after.len());
    assert forall|j: int| 0 <= j <= history.len() implies #[trigger] pending_before(next, j)
        == pending_before(history, j) by {
        if j > 0 && j - 1 == i {
            assert(calls_of(next[i]) =~= calls_of(history[i]));
        }
    }
    if is_journal(history) {
        assert forall|j: int| 0 <= j < next.len() implies (#[trigger] fault_at(next, j)) is None by {
            assert(fault_at(history, j) is None);
            assert(pending_before(next, j) == pending_before(history, j));
            if j == i && pending_before(history, i).len() > 0 {
                lemma_reordered_batch(pending_before(history, i), before, after);
            }
        }
    }
}

/// Whether a history is refused does not depend on the order of the content in a user message.
pub proof fn law_order_within_a_message_does_not_matter(
    history: Seq<MessageView>,
    i: int,
    content: Seq<UserContentView>,
    allow_tail: bool,
)
    requires
        0 <= i < history.len(),
        history[i] is User,
        content.to_multiset() == history[i]->User_content.to_multiset(),
    ensures
        refusal(history.update(i, MessageView::User { content }), allow_tail) is None <==> refusal(
            history,
            allow_tail,
        ) is None,
{
    let old_content = history[i]->User_content;
    let next = history.update(i, MessageView::User { content });
    old_content.to_multiset_ensures();
    content.to_multiset_ensures();
    assert(results_in(old_content).to_multiset() =~= results_in(content).to_multiset()) by {
        assert forall|r: ToolResultView| #[trigger]
            results_in(old_content).to_multiset().count(r) == results_in(content).to_multiset().count(r) by {
            lemma_results_count(old_content, r);
            lemma_results_count(content, r);
        }
    }
    lemma_same_verdict(history, i, content, allow_tail);
}

/// Whether a history is refused does not depend on content beside the results in a user message
/// that holds something.
pub proof fn law_content_beside_results_does_not_matter(
    history: Seq<MessageView>,
    i: int,
    at: int,
    block: UserContentView,
    allow_tail: bool,
)
    requires
        0 <= i < history.len(),
        history[i] is User,
        history[i]->User_content.len() > 0,
        0 <= at <= history[i]->User_content.len(),
        block !is ToolResult,
    ensures
        refusal(
            history.update(
                i,
                MessageView::User { content: history[i]->User_content.insert(at, block) },
            ),
            allow_tail,
        ) is None <==> refusal(history, allow_tail) is None,
{
    let old_content = history[i]->User_content;
    let content = old_content.insert(at, block);
    let (head, tail) = (old_content.take(at), old_content.skip(at));
    assert(old_content =~= head + tail);
    assert(content =~= head.push(block) + tail);
    lemma_results_in_concat(head, tail);
    lemma_results_in_concat(head.push(block), tail);
    assert(head.push(block).drop_last() =~= head);
    lemma_same_verdict(history, i, content, allow_tail);
}

proof fn lemma_same_verdict(
    history: Seq<MessageView>,
    i: int,
    content: Seq<UserContentView>,
    allow_tail: bool,
)
    requires
        0 <= i < history.len(),
        history[i] is User,
        history[i]->User_content.len() == 0 <==> content.len() == 0,
        results_in(history[i]->User_content).to_multiset() == results_in(content).to_multiset(),
    ensures
        refusal(history.update(i, MessageView::User { content }), allow_tail) is None <==> refusal(
            history,
            allow_tail,
        ) is None,
{
    let next = history.update(i, MessageView::User { content });
    let back = history[i]->User_content;
    lemma_same_results(history, i, content);
    lemma_same_results(next, i, back);
    assert(history[i] == (MessageView::User { content: back }));
    assert(next.update(i, MessageView::User { content: back }) =~= history);
    law_journals_are_not_refused(history);
    law_journals_are_not_refused(next);
}

/// Every journal begins with journals.
pub proof fn law_prefix_of_journal(history: Seq<MessageView>, n: int)
    requires
        is_journal(history),
        0 <= n <= history.len(),
    ensures
        is_journal(history.take(n)),
{
    assert forall|i: int| 0 <= i < n implies (#[trigger] fault_at(history.take(n), i)) is None by {
        assert(fault_at(history, i) is None);
        assert(pending_before(history.take(n), i) == pending_before(history, i));
    }
}

/// Messages may follow a journal exactly when they agree with its end: checking the seam alone
/// decides whether the whole stays a journal.
pub proof fn law_only_the_seam_matters(history: Seq<MessageView>, delta: Seq<MessageView>)
    requires
        is_journal(history),
    ensures
        is_journal(seam(history) + delta) <==> is_journal(history + delta),
{
    let s = seam(history);
    let part = s + delta;
    let whole = history + delta;
    let shift = history.len() - s.len();
    assert forall|i: int| s.len() <= i < part.len() implies fault_at(part, i) == #[trigger] fault_at(
        whole,
        i + shift,
    ) by {
        assert(part[i] == whole[i + shift]);
        if i > 0 {
            if i - 1 < s.len() {
                assert(part[i - 1] == history.last());
                assert(whole[i + shift - 1] == history.last());
            } else {
                assert(part[i - 1] == whole[i + shift - 1]);
            }
        } else if history.len() > 0 {
            assert(s.len() == 0);
            assert(whole[shift - 1] == history.last());
            assert(tail_calls(history).len() == 0);
            assert(pending_before(part, i) =~= pending_before(whole, i + shift));
        }
        assert(pending_before(part, i) =~= pending_before(whole, i + shift));
    }
    if s.len() > 0 {
        let n = history.len() - 1;
        assert(fault_at(history, n) is None);
        assert(pending_before(history, n).len() == 0);
        assert(pending_before(history, n) =~= Seq::empty());
        assert(part[0] == history.last());
        assert(fault_at(part, 0) is None);
    }
    if is_journal(part) {
        assert forall|i: int| 0 <= i < whole.len() implies (#[trigger] fault_at(whole, i)) is None by {
            if i < history.len() {
                assert(fault_at(history, i) is None);
                assert(whole[i] == history[i]);
                assert(pending_before(whole, i) == pending_before(history, i));
            } else {
                assert(fault_at(part, i - shift) is None);
                assert(fault_at(whole, (i - shift) + shift) is None);
            }
        }
    }
    if is_journal(whole) {
        assert forall|i: int| 0 <= i < part.len() implies (#[trigger] fault_at(part, i)) is None by {
            if i >= s.len() {
                assert(fault_at(whole, i + shift) is None);
            }
        }
    }
}

/// In a journal every call but those at the end has exactly one answer, in the very next message.
pub proof fn law_each_call_answered_once(history: Seq<MessageView>, i: int, c: int)
    requires
        is_journal(history),
        0 <= i < history.len() - 1,
        0 <= c < calls_of(history[i]).len(),
    ensures
        exists|k: int|
            0 <= k < results_of(history[i + 1]).len() && answers(
                calls_of(history[i])[c],
                #[trigger] results_of(history[i + 1])[k],
            ),
        forall|k: int, l: int|
            0 <= k < results_of(history[i + 1]).len() && 0 <= l < results_of(history[i + 1]).len()
                && answers(calls_of(history[i])[c], #[trigger] results_of(history[i + 1])[k])
                && answers(calls_of(history[i])[c], #[trigger] results_of(history[i + 1])[l]) ==> k
                == l,
{
    let pending = calls_of(history[i]);
    let results = results_of(history[i + 1]);
    assert(fault_at(history, i) is None);
    assert(fault_at(history, i + 1) is None);
    assert(pending_before(history, i + 1) == pending);
    let ids = call_ids(pending);
    let answered = answered_ids(results);
    assert(ids.no_duplicates());
    assert forall|k: int, l: int| 0 <= k < l < results.len() implies answered[k] != answered[l] by {
        lemma_sound_batch(pending, results, 0, l);
        assert(results[k].call != results[l].call);
    }
    assert forall|id: Seq<char>| answered.to_set().contains(id) implies ids.to_set().contains(id) by {
        let k = choose|k: int| 0 <= k < answered.len() && answered[k] == id;
        lemma_sound_batch(pending, results, 0, k);
        assert(ids.contains(results[k].call));
    }
    ids.unique_seq_to_set();
    answered.unique_seq_to_set();
    vstd::seq_lib::seq_to_set_is_finite(ids);
    vstd::seq_lib::seq_to_set_is_finite(answered);
    vstd::set_lib::lemma_subset_equality(answered.to_set(), ids.to_set());
    assert(ids.contains(ids[c]));
    assert(answered.to_set().contains(ids[c]));
    let k = choose|k: int| 0 <= k < answered.len() && answered[k] == ids[c];
    lemma_sound_batch(pending, results, 0, k);
    let j = choose|j: int| 0 <= j < pending.len() && answers(#[trigger] pending[j], results[k]);
    assert(ids[j] == ids[c]);
    assert(j == c);
    assert(answers(pending[c], results[k]));
    assert forall|k: int, l: int|
        0 <= k < results.len() && 0 <= l < results.len() && answers(pending[c], #[trigger] results[k])
            && answers(pending[c], #[trigger] results[l]) implies k == l by {
        assert(answered[k] == answered[l]);
    }
}

/// One answer per open call, in the order of the calls, turns a journal into a history that a
/// provider accepts.
pub proof fn law_batch_closes_the_tail(history: Seq<MessageView>, results: Seq<ToolResultView>)
    requires
        is_journal(history),
        tail_calls(history).len() > 0,
        results.len() == tail_calls(history).len(),
        forall|k: int|
            0 <= k < results.len() ==> answers(#[trigger] tail_calls(history)[k], results[k]),
    ensures
        is_history(history.push(MessageView::User { content: result_blocks(results) })),
{
    let batch = MessageView::User { content: result_blocks(results) };
    let next = history.push(batch);
    let n = history.len() as int;
    lemma_results_of_blocks(results);
    assert(pending_before(next, n) == tail_calls(history));
    assert(fault_at(history, n - 1) is None);
    lemma_in_order_batch(tail_calls(history), results, 0);
    assert forall|i: int| 0 <= i < next.len() implies (#[trigger] fault_at(next, i)) is None by {
        if i < n {
            assert(fault_at(history, i) is None);
            assert(pending_before(next, i) == pending_before(history, i));
        }
    }
}

/// Signals may follow any history, and leave a history behind.
pub proof fn law_signals_extend_a_history(history: Seq<MessageView>, signals: Seq<MessageView>)
    requires
        is_history(history),
        forall|i: int| 0 <= i < signals.len() ==> is_signal(#[trigger] signals[i]),
    ensures
        is_history(history + signals),
{
    let next = history + signals;
    assert forall|i: int| 0 <= i < next.len() implies (#[trigger] fault_at(next, i)) is None by {
        if i < history.len() {
            assert(fault_at(history, i) is None);
            assert(pending_before(next, i) == pending_before(history, i));
        } else {
            assert(is_signal(signals[i - history.len()]));
            if i > history.len() {
                assert(is_signal(signals[i - 1 - history.len()]));
            } else if i > 0 {
                assert(next[i - 1] == history.last());
            }
            assert(pending_before(next, i).len() == 0);
            assert(call_ids(calls_of(next[i])).no_duplicates());
        }
    }
    if signals.len() > 0 {
        assert(is_signal(signals.last()));
        assert(next.last() == signals.last());
    } else {
        assert(next =~= history);
    }
}

/// What a provider accepts is a journal; a journal is accepted once its calls are answered.
pub proof fn law_histories_are_closed_journals(history: Seq<MessageView>)
    ensures
        is_history(history) ==> is_journal(history),
        is_journal(history) && seam(history).len() == 0 ==> is_history(history),
{
}

} // verus!
