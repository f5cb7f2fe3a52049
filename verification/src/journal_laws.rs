//! Which histories are accepted, message by message and block by block.
use crate::history::{
    first_order_fault, is_complete, is_open_ordered, is_ordered,
    law_ordered_histories_have_no_fault, lemma_batch_fault, lemma_first_repeat, order_fault,
    resume_fault,
};
use crate::journal::{
    answers, fault_at, first_fault, is_history, is_journal, is_signal, law_journals_are_not_refused,
    lemma_faultless_batch, message_fault, pending_before, refusal, result_fault, tail_calls,
};
use crate::message::{
    answered_ids, call_ids, calls_in, calls_of, results_in, results_of, AssistantContentView,
    MessageView, ToolCallView, ToolResultView, UserContentView,
};
use crate::text::decimal;
use vstd::prelude::*;

verus! {

/// The calls among some content are its blocks that are calls, each once and in order; the results
/// likewise.
pub proof fn law_calls_and_results_are_blocks(
    content: Seq<AssistantContentView>,
    answer: Seq<UserContentView>,
)
    ensures
        calls_in(content).map_values(|c: ToolCallView| AssistantContentView::ToolCall(c))
            == content.filter(|b: AssistantContentView| b is ToolCall),
        results_in(answer).map_values(|r: ToolResultView| UserContentView::ToolResult(r))
            == answer.filter(|b: UserContentView| b is ToolResult),
    decreases content.len() + answer.len(),
{
    reveal(Seq::filter);
    if content.len() > 0 {
        law_calls_and_results_are_blocks(content.drop_last(), answer);
    }
    if answer.len() > 0 {
        law_calls_and_results_are_blocks(content, answer.drop_last());
    }
    assert(calls_in(content).map_values(|c: ToolCallView| AssistantContentView::ToolCall(c))
        =~= content.filter(|b: AssistantContentView| b is ToolCall));
    assert(results_in(answer).map_values(|r: ToolResultView| UserContentView::ToolResult(r))
        =~= answer.filter(|b: UserContentView| b is ToolResult));
}

/// Only an assistant makes calls and only a user message carries results, all of them those of its
/// content.
pub proof fn law_assistants_call_and_users_answer(message: MessageView)
    ensures
        match message {
            MessageView::System { .. } => calls_of(message).len() == 0 && results_of(message).len()
                == 0,
            MessageView::User { content } => calls_of(message).len() == 0 && results_of(message)
                == results_in(content),
            MessageView::Assistant { content, .. } => calls_of(message) == calls_in(content)
                && results_of(message).len() == 0,
        },
{
}

/// A result answers a call under the call's id and the provider's identity of the call, and says
/// something.
pub proof fn law_answers_have_the_identity_of_the_call(call: ToolCallView, result: ToolResultView)
    ensures
        answers(call, result) <==> result.call == call.id && result.provider == call.provider
            && result.content.len() > 0,
{
}

/// Whether results are those of some calls: one for each, each under the identity of its call.
pub open spec fn is_batch_for(calls: Seq<ToolCallView>, results: Seq<ToolResultView>) -> bool {
    &&& results.len() == calls.len()
    &&& forall|j: int, k: int|
        0 <= j < k < results.len() ==> (#[trigger] results[j]).call != (#[trigger] results[k]).call
    &&& forall|k: int|
        0 <= k < results.len() ==> exists|j: int|
            0 <= j < calls.len() && answers(#[trigger] calls[j], #[trigger] results[k])
}

/// Whether a message may follow some open calls in a journal.
pub open spec fn may_follow(open: Seq<ToolCallView>, message: MessageView) -> bool {
    &&& message matches MessageView::User { content } ==> content.len() > 0
    &&& message matches MessageView::Assistant { content, .. } ==> content.len() > 0
    &&& if open.len() > 0 {
        message is User && is_batch_for(open, results_of(message))
    } else {
        &&& results_of(message).len() == 0
        &&& forall|j: int, k: int|
            0 <= j < k < calls_of(message).len() ==> (#[trigger] calls_of(message)[j]).id != (
            #[trigger] calls_of(message)[k]).id
    }
}

proof fn lemma_may_follow(history: Seq<MessageView>, i: int)
    requires
        0 <= i < history.len(),
    ensures
        fault_at(history, i) is None <==> may_follow(
            if i == 0 {
                Seq::empty()
            } else {
                calls_of(history[i - 1])
            },
            history[i],
        ),
{
    let open = pending_before(history, i);
    let message = history[i];
    let results = results_of(message);
    let ids = call_ids(calls_of(message));
    if open.len() > 0 {
        lemma_faultless_batch(open, results, 0);
        if fault_at(history, i) is None {
            assert forall|j: int, k: int| 0 <= j < k < results.len() implies (#[trigger] results[j]).call
                != (#[trigger] results[k]).call by {
                assert(result_fault(open, results, k) is None);
            }
            assert forall|k: int| 0 <= k < results.len() implies exists|j: int|
                0 <= j < open.len() && answers(#[trigger] open[j], #[trigger] results[k]) by {
                assert(result_fault(open, results, k) is None);
            }
        }
        if may_follow(open, message) {
            assert forall|k: int| 0 <= k < results.len() implies #[trigger] result_fault(
                open,
                results,
                k,
            ) is None by {
                let j = choose|j: int| 0 <= j < open.len() && answers(#[trigger] open[j], results[k]);
                assert(answers(open[j], results[k]));
                assert(call_ids(open)[j] == results[k].call);
            }
        }
    } else {
        if ids.no_duplicates() {
            assert forall|j: int, k: int| 0 <= j < k < calls_of(message).len() implies (
            #[trigger] calls_of(message)[j]).id != (#[trigger] calls_of(message)[k]).id by {
                assert(ids[j] != ids[k]);
            }
        } else {
            let (j, k) = choose|j: int, k: int|
                0 <= j < ids.len() && 0 <= k < ids.len() && j != k && ids[j] == ids[k];
            if j < k {
                assert(calls_of(message)[j].id == calls_of(message)[k].id);
            } else {
                assert(calls_of(message)[k].id == calls_of(message)[j].id);
            }
        }
    }
}

/// A journal is accepted exactly when each of its messages may follow the calls of the message
/// before it; a history, when in addition its last message makes no calls.
pub proof fn law_accepted_journals(history: Seq<MessageView>)
    ensures
        refusal(history, true) is None <==> (forall|i: int|
            0 <= i < history.len() ==> may_follow(
                if i == 0 {
                    Seq::empty()
                } else {
                    calls_of(history[i - 1])
                },
                #[trigger] history[i],
            )),
        refusal(history, false) is None <==> refusal(history, true) is None && (history.len() == 0
            || calls_of(history.last()).len() == 0),
        is_journal(history) <==> refusal(history, true) is None,
        is_history(history) <==> refusal(history, false) is None,
        tail_calls(history) == (if history.len() == 0 {
            Seq::empty()
        } else {
            calls_of(history.last())
        }),
{
    law_journals_are_not_refused(history);
    if is_journal(history) {
        assert forall|i: int| 0 <= i < history.len() implies may_follow(
            if i == 0 {
                Seq::empty()
            } else {
                calls_of(history[i - 1])
            },
            #[trigger] history[i],
        ) by {
            assert(fault_at(history, i) is None);
            lemma_may_follow(history, i);
        }
    }
    if forall|i: int|
        0 <= i < history.len() ==> may_follow(
            if i == 0 {
                Seq::empty()
            } else {
                calls_of(history[i - 1])
            },
            #[trigger] history[i],
        ) {
        assert forall|i: int| 0 <= i < history.len() implies (#[trigger] fault_at(history, i)) is None by {
            let message = history[i];
            lemma_may_follow(history, i);
        }
    }
}

/// A signal is a user message that says something and carries no result.
pub proof fn law_signals_are_user_messages(message: MessageView)
    ensures
        is_signal(message) <==> (message matches MessageView::User { content } && content.len() > 0
            && (forall|k: int| 0 <= k < content.len() ==> (#[trigger] content[k]) !is ToolResult)),
{
    if let MessageView::User { content } = message {
        lemma_no_results(content);
    }
}

proof fn lemma_no_results(content: Seq<UserContentView>)
    ensures
        results_in(content).len() == 0 <==> (forall|k: int|
            0 <= k < content.len() ==> (#[trigger] content[k]) !is ToolResult),
    decreases content.len(),
{
    if content.len() > 0 {
        let rest = content.drop_last();
        lemma_no_results(rest);
        if content.last() !is ToolResult {
            if forall|k: int| 0 <= k < rest.len() ==> (#[trigger] rest[k]) !is ToolResult {
                assert forall|k: int| 0 <= k < content.len() implies (#[trigger] content[k]) !is ToolResult by {
                    if k < rest.len() {
                        assert(rest[k] !is ToolResult);
                    }
                }
            } else {
                let k = choose|k: int| 0 <= k < rest.len() && (#[trigger] rest[k]) is ToolResult;
                assert(content[k] is ToolResult);
            }
        } else {
            assert(content[content.len() - 1] is ToolResult);
        }
    }
}

/// Whether the ids of some results are those of some calls, each once.
pub open spec fn are_ids_of(calls: Seq<ToolCallView>, results: Seq<ToolResultView>) -> bool {
    &&& results.len() > 0
    &&& forall|j: int, k: int|
        0 <= j < k < results.len() ==> (#[trigger] results[j]).call != (#[trigger] results[k]).call
    &&& forall|c: int|
        0 <= c < calls.len() ==> exists|k: int|
            0 <= k < results.len() && (#[trigger] results[k]).call == (#[trigger] calls[c]).id
    &&& forall|k: int|
        0 <= k < results.len() ==> exists|c: int|
            0 <= c < calls.len() && (#[trigger] calls[c]).id == (#[trigger] results[k]).call
}

/// Whether a message may follow some open calls in the history of a loop.
pub open spec fn is_due(open: Seq<ToolCallView>, message: MessageView) -> bool {
    if open.len() > 0 {
        message is User && are_ids_of(open, results_of(message))
    } else {
        &&& results_of(message).len() == 0
        &&& forall|j: int, k: int|
            0 <= j < k < calls_of(message).len() ==> (#[trigger] calls_of(message)[j]).id != (
            #[trigger] calls_of(message)[k]).id
    }
}

proof fn lemma_are_ids(calls: Seq<ToolCallView>, results: Seq<ToolResultView>)
    ensures
        is_complete(call_ids(calls), answered_ids(results)) <==> are_ids_of(calls, results),
{
    let (expected, found) = (call_ids(calls), answered_ids(results));
    if is_complete(expected, found) {
        assert forall|j: int, k: int| 0 <= j < k < results.len() implies (#[trigger] results[j]).call
            != (#[trigger] results[k]).call by {
            assert(found[j] != found[k]);
        }
        assert forall|c: int| 0 <= c < calls.len() implies exists|k: int|
            0 <= k < results.len() && (#[trigger] results[k]).call == (#[trigger] calls[c]).id by {
            assert(found.contains(expected[c]));
            let k = choose|k: int| 0 <= k < found.len() && found[k] == expected[c];
            assert(results[k].call == calls[c].id);
        }
        assert forall|k: int| 0 <= k < results.len() implies exists|c: int|
            0 <= c < calls.len() && (#[trigger] calls[c]).id == (#[trigger] results[k]).call by {
            assert(expected.contains(found[k]));
            let c = choose|c: int| 0 <= c < expected.len() && expected[c] == found[k];
            assert(calls[c].id == results[k].call);
        }
    }
    if are_ids_of(calls, results) {
        assert forall|j: int, k: int| 0 <= j < found.len() && 0 <= k < found.len() && j != k implies found[j]
            != found[k] by {
            if j < k {
                assert(results[j].call != results[k].call);
            } else {
                assert(results[k].call != results[j].call);
            }
        }
        assert forall|c: int| 0 <= c < expected.len() implies found.contains(#[trigger] expected[c]) by {
            assert(calls[c].id == expected[c]);
            let k = choose|k: int| 0 <= k < results.len() && (#[trigger] results[k]).call == calls[c].id;
            assert(found[k] == expected[c]);
        }
        assert forall|k: int| 0 <= k < found.len() implies expected.contains(#[trigger] found[k]) by {
            assert(results[k].call == found[k]);
            let c = choose|c: int| 0 <= c < calls.len() && (#[trigger] calls[c]).id == results[k].call;
            assert(expected[c] == found[k]);
        }
    }
}

proof fn lemma_is_due(history: Seq<MessageView>, i: int)
    requires
        0 <= i < history.len(),
    ensures
        order_fault(history, i) is None <==> is_due(
            if i == 0 {
                Seq::empty()
            } else {
                calls_of(history[i - 1])
            },
            history[i],
        ),
{
    let open = pending_before(history, i);
    let message = history[i];
    let ids = call_ids(calls_of(message));
    lemma_batch_fault(call_ids(open), answered_ids(results_of(message)), i);
    lemma_are_ids(open, results_of(message));
    lemma_first_repeat(ids, 0);
    if ids.no_duplicates() {
        assert forall|j: int, k: int| 0 <= j < k < calls_of(message).len() implies (
        #[trigger] calls_of(message)[j]).id != (#[trigger] calls_of(message)[k]).id by {
            assert(ids[j] != ids[k]);
        }
    } else {
        let (j, k) = choose|j: int, k: int|
            0 <= j < ids.len() && 0 <= k < ids.len() && j != k && ids[j] == ids[k];
        if j < k {
            assert(calls_of(message)[j].id == calls_of(message)[k].id);
        } else {
            assert(calls_of(message)[k].id == calls_of(message)[j].id);
        }
    }
}

/// The history of a loop is accepted exactly when each message is due behind the calls of the one
/// before it and the last one makes no calls. It can be resumed exactly when it is accepted and
/// ends with a message of the user or of the assistant.
pub proof fn law_accepted_histories(history: Seq<MessageView>)
    ensures
        is_open_ordered(history) <==> (forall|i: int|
            0 <= i < history.len() ==> is_due(
                if i == 0 {
                    Seq::empty()
                } else {
                    calls_of(history[i - 1])
                },
                #[trigger] history[i],
            )),
        first_order_fault(history, 0) is None <==> is_open_ordered(history) && (history.len() == 0
            || calls_of(history.last()).len() == 0),
        is_ordered(history) <==> first_order_fault(history, 0) is None,
        resume_fault(history) is None <==> first_order_fault(history, 0) is None && history.len() > 0
            && (history.last() is User || history.last() is Assistant),
{
    law_ordered_histories_have_no_fault(history);
    if is_open_ordered(history) {
        assert forall|i: int| 0 <= i < history.len() implies is_due(
            if i == 0 {
                Seq::empty()
            } else {
                calls_of(history[i - 1])
            },
            #[trigger] history[i],
        ) by {
            assert(order_fault(history, i) is None);
            lemma_is_due(history, i);
        }
    }
    if forall|i: int|
        0 <= i < history.len() ==> is_due(
            if i == 0 {
                Seq::empty()
            } else {
                calls_of(history[i - 1])
            },
            #[trigger] history[i],
        ) {
        assert forall|i: int| 0 <= i < history.len() implies (#[trigger] order_fault(history, i)) is None by {
            let message = history[i];
            lemma_is_due(history, i);
        }
    }
}

/// A refusal names the fault of the first message that may not follow the one before it; where there
/// is none, that calls are left without an answer.
pub proof fn law_refusals_name_the_first_fault(history: Seq<MessageView>, i: int, allow_tail: bool)
    requires
        0 <= i < history.len(),
        fault_at(history, i) is Some,
        forall|j: int| 0 <= j < i ==> (#[trigger] fault_at(history, j)) is None,
    ensures
        refusal(history, allow_tail) == fault_at(history, i),
{
    lemma_first_fault_from(history, 0, i);
}

proof fn lemma_first_fault_from(history: Seq<MessageView>, from: int, i: int)
    requires
        0 <= from <= i < history.len(),
        fault_at(history, i) is Some,
        forall|j: int| from <= j < i ==> (#[trigger] fault_at(history, j)) is None,
    ensures
        first_fault(history, from) == fault_at(history, i),
    decreases i - from,
{
    if from < i {
        assert(fault_at(history, from) is None);
        lemma_first_fault_from(history, from + 1, i);
    }
}

/// What is said of a message that may not follow some open calls: that it is empty; behind calls,
/// that it is no message of the user or has another number of results; behind none, that it has
/// results or makes two calls under one id.
pub proof fn law_faults_are_named(open: Seq<ToolCallView>, message: MessageView)
    ensures
        ({
            let fault = message_fault(open, message);
            let empty = match message {
                MessageView::User { content } => content.len() == 0,
                MessageView::Assistant { content, .. } => content.len() == 0,
                MessageView::System { .. } => false,
            };
            &&& empty ==> fault == Some("empty message content"@)
            &&& !empty && open.len() > 0 && message !is User ==> fault == Some(
                "tool calls require an immediately following user result batch"@,
            )
            &&& !empty && open.len() > 0 && message is User && results_of(message).len() != open.len()
                ==> fault == Some(
                "incomplete or extra tool results; normalize stored history before starting"@,
            )
            &&& !empty && open.len() == 0 && results_of(message).len() > 0 ==> fault == Some(
                "orphan tool result"@,
            )
            &&& !empty && open.len() == 0 && results_of(message).len() == 0 && !may_follow(
                open,
                message,
            ) ==> fault == Some("duplicate tool call"@)
        }),
{
    if open.len() == 0 {
        let ids = call_ids(calls_of(message));
        if ids.no_duplicates() {
            assert forall|j: int, k: int| 0 <= j < k < calls_of(message).len() implies (
            #[trigger] calls_of(message)[j]).id != (#[trigger] calls_of(message)[k]).id by {
                assert(ids[j] != ids[k]);
            }
        }
    }
}

/// What is said of a result in a batch: that its call has one already, that no call has its id, or
/// that it does not have the identity of its call or says nothing.
pub proof fn law_faults_of_results_are_named(
    open: Seq<ToolCallView>,
    results: Seq<ToolResultView>,
    k: int,
)
    requires
        0 <= k < results.len(),
    ensures
        ({
            let fault = result_fault(open, results, k);
            let repeated = exists|j: int| 0 <= j < k && (#[trigger] results[j]).call == results[k].call;
            let known = exists|c: int| 0 <= c < open.len() && (#[trigger] open[c]).id == results[k].call;
            let answered = exists|c: int|
                0 <= c < open.len() && answers(#[trigger] open[c], results[k]);
            fault == (if repeated {
                Some("duplicate tool result"@)
            } else if !known {
                Some("orphan tool result"@)
            } else if !answered {
                Some("tool result identity/content does not match its call"@)
            } else {
                None
            })
        }),
{
    let ids = call_ids(open);
    if ids.contains(results[k].call) {
        let c = choose|c: int| 0 <= c < ids.len() && ids[c] == results[k].call;
        assert(open[c].id == results[k].call);
    } else {
        assert forall|c: int| 0 <= c < open.len() implies (#[trigger] open[c]).id != results[k].call by {
            assert(ids[c] == open[c].id);
        }
    }
}

/// What is said of the first message in the history of a loop that is not due: by the place of the
/// message, and by the id of the call or of the result.
pub proof fn law_faults_of_loop_histories_are_named(history: Seq<MessageView>, i: int)
    requires
        0 <= i < history.len(),
        order_fault(history, i) is Some,
        forall|j: int| 0 <= j < i ==> (#[trigger] order_fault(history, j)) is None,
    ensures
        first_order_fault(history, 0) == order_fault(history, i),
        ({
            let open = if i == 0 {
                Seq::<ToolCallView>::empty()
            } else {
                calls_of(history[i - 1])
            };
            let results = results_of(history[i]);
            &&& open.len() > 0 && history[i] !is User ==> order_fault(history, i) == Some(
                "assistant message "@ + decimal((i - 1) as nat) + " contains tool calls, but message "@
                    + decimal(i as nat) + " is not the required user tool-result message"@,
            )
            &&& open.len() > 0 && history[i] is User && results.len() == 0 ==> order_fault(history, i)
                == Some(
                "assistant message "@ + decimal((i - 1) as nat)
                    + " contains tool calls, but user message "@ + decimal(i as nat)
                    + " contains no tool results"@,
            )
            &&& open.len() == 0 && results.len() > 0 ==> order_fault(history, i) == Some(
                "tool result `"@ + results[0].call + "` at message "@ + decimal(i as nat)
                    + " has no immediately preceding assistant tool call"@,
            )
        }),
{
    lemma_first_order_fault_from(history, 0, i);
    let none = Seq::<Seq<char>>::empty();
    if results_of(history[i]).len() > 0 {
        assert(calls_of(history[i]).len() == 0);
        assert(call_ids(calls_of(history[i])) =~= none);
        lemma_first_repeat(call_ids(calls_of(history[i])), 0);
    }
}

proof fn lemma_first_order_fault_from(history: Seq<MessageView>, from: int, i: int)
    requires
        0 <= from <= i < history.len(),
        order_fault(history, i) is Some,
        forall|j: int| from <= j < i ==> (#[trigger] order_fault(history, j)) is None,
    ensures
        first_order_fault(history, from) == order_fault(history, i),
    decreases i - from,
{
    if from < i {
        assert(order_fault(history, from) is None);
        lemma_first_order_fault_from(history, from + 1, i);
    }
}

} // verus!
