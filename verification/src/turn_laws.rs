//! What a turn keeps while calls and their results are streamed.
use crate::api::AgentLoopEventView;
use crate::history::{
    first_order_fault, is_complete, is_ordered, law_ordered_histories_have_no_fault,
    lemma_batch_fault, lemma_first_repeat, order_fault,
};
use crate::journal::{pending_before, tail_calls};
use crate::loop_rules::{
    elapsed, messages_up_to, on_item, partial_append, prepared_turn, turn_deadline, turn_fault,
    ActiveTurnView, LoopEffectView, LoopItemView, LoopPhaseView, PendingTurnView, RunnerView,
};
use crate::message::{
    answered_ids, call_ids, calls_in, calls_of, results_in, results_of, AssistantContentView,
    MessageView, ToolCallView, UserContentView,
};
use crate::partial::{
    call_blocks, current_message, lemma_place, nothing_streamed, pending_place, with_assistant,
    with_result, with_text, PartialTurnView, PendingToolCallView, StreamedAssistantContentView,
    StreamedUserContentView,
};
use vstd::prelude::*;

verus! {

/// A message with calls, and a message with a result for each of them.
pub open spec fn is_roundtrip(message: MessageView, batch: MessageView) -> bool {
    &&& message is Assistant
    &&& calls_of(message).len() > 0
    &&& call_ids(calls_of(message)).no_duplicates()
    &&& batch is User
    &&& is_complete(call_ids(calls_of(message)), answered_ids(results_of(batch)))
}

/// The `k`th pair among some messages is a roundtrip.
pub open spec fn is_roundtrip_at(messages: Seq<MessageView>, k: int) -> bool {
    is_roundtrip(messages[2 * k], messages[2 * k + 1])
}

/// Messages that are roundtrips, one behind the other.
pub open spec fn are_answered(messages: Seq<MessageView>) -> bool {
    &&& messages.len() % 2 == 0
    &&& forall|k: int| 0 <= 2 * k < messages.len() ==> #[trigger] is_roundtrip_at(messages, k)
}

/// The calls that wait for their results.
pub open spec fn waiting_calls(pending: Seq<PendingToolCallView>) -> Seq<ToolCallView> {
    Seq::new(pending.len(), |i: int| pending[i].tool_call)
}

/// What holds of a turn while calls and results are streamed that fit together: its messages are
/// roundtrips, and the calls of the open message are those that were answered and those that wait.
pub open spec fn is_well_streamed(turn: PartialTurnView) -> bool {
    let waiting = call_ids(waiting_calls(turn.pending_tool_calls));
    let answered = answered_ids(results_in(turn.active_tool_results));
    &&& are_answered(turn.completed_messages)
    &&& calls_in(turn.assistant_content).len() == 0
    &&& waiting.no_duplicates()
    &&& turn.active_tool_results.len() == 0 ==> {
        &&& turn.open_message is None
        &&& turn.finished_assistant_message matches Some(message) ==> message is Assistant && calls_of(
            message,
        ) == waiting_calls(turn.pending_tool_calls)
    }
    &&& turn.active_tool_results.len() > 0 ==> {
        &&& turn.finished_assistant_message is None
        &&& turn.pending_tool_calls.len() > 0
        &&& turn.open_message matches Some(message) && message is Assistant && call_ids(
            calls_of(message),
        ).no_duplicates() && is_complete(call_ids(calls_of(message)), answered + waiting)
    }
}

/// A call fits a turn if it has an id of its own and comes before its message is reported and
/// answered.
pub open spec fn call_fits(turn: PartialTurnView, said: StreamedAssistantContentView) -> bool {
    said matches StreamedAssistantContentView::ToolCall { tool_call, .. } ==> {
        &&& turn.finished_assistant_message is None
        &&& turn.active_tool_results.len() == 0
        &&& !call_ids(waiting_calls(turn.pending_tool_calls)).contains(tool_call.id)
    }
}

/// A result fits a turn if it answers the call that it is streamed for.
pub open spec fn result_fits(turn: PartialTurnView, item: StreamedUserContentView) -> bool {
    pending_place(turn.pending_tool_calls, item.internal_call_id, 0) matches Some(place)
        ==> turn.pending_tool_calls[place].tool_call.id == item.tool_result.call
}

/// Content without calls, followed by calls, makes those calls.
proof fn lemma_calls_behind(content: Seq<AssistantContentView>, pending: Seq<PendingToolCallView>)
    requires
        calls_in(content).len() == 0,
    ensures
        calls_in(content + call_blocks(pending)) == waiting_calls(pending),
    decreases pending.len(),
{
    let whole = content + call_blocks(pending);
    if pending.len() == 0 {
        assert(whole =~= content);
        assert(calls_in(whole) =~= waiting_calls(pending));
    } else {
        lemma_calls_behind(content, pending.drop_last());
        assert(whole.drop_last() =~= content + call_blocks(pending.drop_last()));
        assert(whole.last() == AssistantContentView::ToolCall(pending.last().tool_call));
        assert(calls_in(whole) =~= waiting_calls(pending));
    }
}

/// An id that moves from those that wait to those that are answered stays among them.
proof fn lemma_moved(expected: Seq<Seq<char>>, answered: Seq<Seq<char>>, waiting: Seq<Seq<char>>, p: int)
    requires
        0 <= p < waiting.len(),
        is_complete(expected, answered + waiting),
    ensures
        is_complete(expected, answered.push(waiting[p]) + waiting.remove(p)),
{
    let before = answered + waiting;
    let after = answered.push(waiting[p]) + waiting.remove(p);
    let n = answered.len() as int;
    let from = |k: int|
        if k < n {
            k
        } else if k == n {
            n + p
        } else if k <= n + p {
            k - 1
        } else {
            k
        };
    assert forall|k: int| 0 <= k < after.len() implies #[trigger] after[k] == before[from(k)] && 0 <= from(k)
        < before.len() by {}
    assert forall|i: int, j: int| 0 <= i < after.len() && 0 <= j < after.len() && i != j implies after[i]
        != after[j] by {
        assert(before[from(i)] != before[from(j)]);
    }
    assert forall|i: int| 0 <= i < expected.len() implies after.contains(#[trigger] expected[i]) by {
        let k = choose|k: int| 0 <= k < before.len() && before[k] == expected[i];
        let to = if k < n {
            k
        } else if k == n + p {
            n
        } else if k < n + p {
            k + 1
        } else {
            k
        };
        assert(after[to] == before[k]);
    }
    assert forall|i: int| 0 <= i < after.len() implies expected.contains(#[trigger] after[i]) by {
        assert(expected.contains(before[from(i)]));
    }
}

proof fn lemma_one_more_roundtrip(messages: Seq<MessageView>, message: MessageView, batch: MessageView)
    requires
        are_answered(messages),
        is_roundtrip(message, batch),
    ensures
        are_answered(messages.push(message).push(batch)),
{
    let more = messages.push(message).push(batch);
    assert forall|k: int| 0 <= 2 * k < more.len() implies #[trigger] is_roundtrip_at(more, k) by {
        if 2 * k < messages.len() {
            assert(is_roundtrip_at(messages, k));
            assert(more[2 * k] == messages[2 * k]);
            assert(more[2 * k + 1] == messages[2 * k + 1]);
        }
    }
}

/// The message of a turn, once a result comes for one of its calls.
spec fn answered_message(turn: PartialTurnView) -> Option<MessageView> {
    if turn.active_tool_results.len() > 0 {
        turn.open_message
    } else if turn.finished_assistant_message is Some {
        turn.finished_assistant_message
    } else {
        current_message(turn)
    }
}

proof fn lemma_answered_message(turn: PartialTurnView)
    requires
        is_well_streamed(turn),
        turn.pending_tool_calls.len() > 0,
    ensures
        answered_message(turn) matches Some(message) && message is Assistant && call_ids(
            calls_of(message),
        ).no_duplicates() && is_complete(
            call_ids(calls_of(message)),
            answered_ids(results_in(turn.active_tool_results)) + call_ids(
                waiting_calls(turn.pending_tool_calls),
            ),
        ),
{
    if turn.active_tool_results.len() == 0 {
        let waiting = call_ids(waiting_calls(turn.pending_tool_calls));
        let answered = answered_ids(results_in(turn.active_tool_results));
        lemma_calls_behind(turn.assistant_content, turn.pending_tool_calls);
        assert(answered + waiting =~= waiting);
        assert(call_blocks(turn.pending_tool_calls).len() > 0);
        assert forall|i: int| 0 <= i < waiting.len() implies waiting.contains(#[trigger] waiting[i]) by {}
    }
}

proof fn lemma_result_keeps(turn: PartialTurnView, item: StreamedUserContentView)
    requires
        is_well_streamed(turn),
        result_fits(turn, item),
    ensures
        is_well_streamed(with_result(turn, item)),
{
    let pending = turn.pending_tool_calls;
    if let Some(place) = pending_place(pending, item.internal_call_id, 0) {
        lemma_place(pending, item.internal_call_id, 0);
        lemma_answered_message(turn);
        let next = with_result(turn, item);
        let message = answered_message(turn)->0;
        let block = UserContentView::ToolResult(item.tool_result);
        let results = turn.active_tool_results.push(block);
        let answered = answered_ids(results_in(turn.active_tool_results));
        let waiting = call_ids(waiting_calls(pending));
        let ids = call_ids(calls_of(message));
        lemma_moved(ids, answered, waiting, place);
        assert(results.drop_last() =~= turn.active_tool_results);
        assert(results_in(results) == results_in(turn.active_tool_results).push(item.tool_result));
        assert(answered_ids(results_in(results)) =~= answered.push(waiting[place]));
        assert(call_ids(waiting_calls(pending.remove(place))) =~= waiting.remove(place));
        let left = call_ids(waiting_calls(pending.remove(place)));
        assert forall|i: int, j: int| 0 <= i < left.len() && 0 <= j < left.len() && i != j implies left[i]
            != left[j] by {
            let (a, b) = (
                if i < place {
                    i
                } else {
                    i + 1
                },
                if j < place {
                    j
                } else {
                    j + 1
                },
            );
            assert(waiting[a] != waiting[b]);
        }
        assert(calls_in(Seq::<AssistantContentView>::empty()).len() == 0);
        if pending.remove(place).len() == 0 {
            let batch = MessageView::User { content: results };
            assert(answered.push(waiting[place]) + left =~= answered_ids(results_of(batch)));
            let found = answered_ids(results_of(batch));
            assert(ids.contains(found[0]));
            assert(calls_of(message).len() > 0);
            lemma_one_more_roundtrip(turn.completed_messages, message, batch);
            assert(next.completed_messages == turn.completed_messages.push(message).push(batch));
            assert(answered_ids(results_in(next.active_tool_results)).len() == 0);
            if turn.active_tool_results.len() == 0 {
                assert(next.finished_assistant_message is None);
            }
        } else {
            assert(next.open_message == Some(message));
        }
    }
}

proof fn lemma_assistant_keeps(turn: PartialTurnView, said: StreamedAssistantContentView)
    requires
        is_well_streamed(turn),
        call_fits(turn, said),
    ensures
        is_well_streamed(with_assistant(turn, said)),
{
    let next = with_assistant(turn, said);
    match said {
        StreamedAssistantContentView::Text(text) => {
            let content = turn.assistant_content;
            let more = with_text(content, text);
            assert(content.len() > 0 ==> content.push(content.last()).drop_last() =~= content);
            if more.len() == content.len() {
                assert(more.drop_last() =~= content.drop_last());
            } else {
                assert(more.drop_last() =~= content);
            }
        },
        StreamedAssistantContentView::Reasoning(_) => {
            assert(next.assistant_content.drop_last() =~= turn.assistant_content);
        },
        StreamedAssistantContentView::ToolCall { tool_call, .. } => {
            let before = call_ids(waiting_calls(turn.pending_tool_calls));
            let after = call_ids(waiting_calls(next.pending_tool_calls));
            assert(after =~= before.push(tool_call.id));
            assert forall|i: int, j: int| 0 <= i < after.len() && 0 <= j < after.len() && i != j implies after[i]
                != after[j] by {
                if i < before.len() {
                    assert(before.contains(before[i]));
                }
                if j < before.len() {
                    assert(before.contains(before[j]));
                }
            }
        },
        StreamedAssistantContentView::Other => {},
    }
}

/// Where calls and results fit together, the messages of a turn are complete roundtrips: each
/// call of a message has its result in the next message, and each result its call.
pub proof fn law_fitting_turns_hold_complete_roundtrips(
    turn: PartialTurnView,
    said: StreamedAssistantContentView,
    result: StreamedUserContentView,
)
    requires
        is_well_streamed(turn),
    ensures
        is_well_streamed(nothing_streamed()),
        call_fits(turn, said) ==> is_well_streamed(with_assistant(turn, said)),
        result_fits(turn, result) ==> is_well_streamed(with_result(turn, result)),
        current_message(turn) matches Some(message) ==> is_well_streamed(
            PartialTurnView { finished_assistant_message: Some(message), ..turn },
        ),
{
    if call_fits(turn, said) {
        lemma_assistant_keeps(turn, said);
    }
    if result_fits(turn, result) {
        lemma_result_keeps(turn, result);
    }
    lemma_calls_behind(turn.assistant_content, turn.pending_tool_calls);
}

/// Roundtrips behind a valid history make a valid history.
proof fn lemma_roundtrips_extend(history: Seq<MessageView>, more: Seq<MessageView>)
    requires
        is_ordered(history),
        are_answered(more),
    ensures
        is_ordered(history + more),
{
    let whole = history + more;
    let n = history.len() as int;
    assert forall|i: int| 0 <= i < whole.len() implies (#[trigger] order_fault(whole, i)) is None by {
        if i < n {
            assert(order_fault(history, i) is None);
            assert(pending_before(whole, i) == pending_before(history, i));
        } else {
            let k = (i - n) / 2;
            assert(is_roundtrip_at(more, k));
            let calls = call_ids(calls_of(whole[i]));
            if (i - n) % 2 == 0 {
                assert(whole[i] == more[2 * k]);
                if i == n {
                    assert(pending_before(whole, i) == tail_calls(history));
                } else {
                    assert(is_roundtrip_at(more, k - 1));
                    assert(whole[i - 1] == more[2 * (k - 1) + 1]);
                    assert(pending_before(whole, i).len() == 0);
                }
                assert(call_ids(pending_before(whole, i)).len() == 0);
                lemma_first_repeat(calls, 0);
                assert(answered_ids(results_of(whole[i])).len() == 0);
            } else {
                assert(whole[i] == more[2 * k + 1]);
                assert(whole[i - 1] == more[2 * k]);
                lemma_batch_fault(
                    call_ids(pending_before(whole, i)),
                    answered_ids(results_of(whole[i])),
                    i,
                );
            }
        }
    }
    if more.len() > 0 {
        let k = (more.len() - 1) / 2;
        assert(is_roundtrip_at(more, k));
        assert(whole.last() == more[2 * k + 1]);
        assert(tail_calls(whole).len() == 0);
    } else {
        assert(whole =~= history);
    }
}

/// A turn that is stopped where calls and results fit together leaves a valid history: what it
/// adds can be committed, whatever was left unanswered.
pub proof fn law_stopped_turns_leave_valid_histories(
    history: Seq<MessageView>,
    pending: PendingTurnView,
    partial: PartialTurnView,
)
    requires
        is_ordered(history),
        turn_fault(pending, history) is None,
        is_well_streamed(partial),
    ensures
        first_order_fault(history + partial_append(prepared_turn(pending, history), partial), 0) is None,
{
    let turn = prepared_turn(pending, history);
    let added = partial_append(turn, partial);
    let done = partial.completed_messages;
    if done.len() == 0 {
        assert(history + added =~= history);
    } else {
        match pending {
            PendingTurnView::Prompt { prelude, prompt } => {
                let asked = (history + prelude).push(prompt);
                law_ordered_histories_have_no_fault(asked);
                lemma_roundtrips_extend(asked, done);
                assert(history + added =~= asked + done);
            },
            PendingTurnView::Resume => {
                lemma_roundtrips_extend(history, done);
                assert((seq![turn.prompt] + done).skip(1) =~= done);
                assert(history + added =~= history + done);
            },
        }
    }
    law_ordered_histories_have_no_fault(history + added);
}

/// A message that was reported is the one that its results are put behind, with all of its calls:
/// what was told of a turn is not told otherwise later.
pub proof fn law_reported_messages_are_kept(turn: PartialTurnView, item: StreamedUserContentView)
    requires
        pending_place(turn.pending_tool_calls, item.internal_call_id, 0) is Some,
    ensures
        turn.active_tool_results.len() == 0 && turn.finished_assistant_message is Some ==> {
            let message = turn.finished_assistant_message->0;
            let next = with_result(turn, item);
            ||| next.open_message == Some(message) && next.completed_messages == turn.completed_messages
            ||| next.completed_messages.drop_last() == turn.completed_messages.push(message)
        },
        turn.active_tool_results.len() > 0 && turn.open_message is Some ==> {
            let message = turn.open_message->0;
            let next = with_result(turn, item);
            ||| next.open_message == Some(message) && next.completed_messages == turn.completed_messages
            ||| next.completed_messages.drop_last() == turn.completed_messages.push(message)
        },
{
    let next = with_result(turn, item);
    if next.completed_messages.len() > turn.completed_messages.len() {
        let message = answered_message(turn);
        if message is Some {
            assert(next.completed_messages.drop_last() =~= turn.completed_messages.push(message->0));
        }
    }
}

/// Calls of one message are reported together: nothing is reported for a call that is followed by
/// further ones, and the last one reports a message that holds all of them.
pub proof fn law_calls_of_a_message_are_reported_together(
    r: RunnerView,
    turn: ActiveTurnView,
    internal_call_id: Seq<char>,
    tool_call: ToolCallView,
    more: bool,
    now: u128,
)
    requires
        turn.partial.finished_assistant_message is None,
        turn.partial.active_tool_results.len() == 0,
        !turn.hook_running,
        elapsed(turn_deadline(r, turn), now) is None,
    ensures
        ({
            let said = StreamedAssistantContentView::ToolCall { internal_call_id, tool_call, more };
            let next = on_item(r, turn, LoopItemView::Assistant(said), now);
            let calls = turn.partial.pending_tool_calls.push(
                PendingToolCallView { internal_call_id, tool_call },
            );
            let message = MessageView::Assistant {
                id: None,
                content: turn.partial.assistant_content + call_blocks(calls),
            };
            &&& more ==> next.effects.len() == 0
            &&& !more ==> next.effects.len() > 0 && next.effects[0] == LoopEffectView::Emit(
                AgentLoopEventView::AssistantMessageFinished {
                    message,
                    messages: messages_up_to(turn.prepared, turn.partial, message),
                },
            )
            &&& next.runner.phase matches LoopPhaseView::Running { turn: after }
                && after.partial.pending_tool_calls == calls
                && after.partial.finished_assistant_message == (if more {
                None
            } else {
                Some(message)
            })
        }),
{
    let calls = turn.partial.pending_tool_calls.push(PendingToolCallView { internal_call_id, tool_call });
    assert(call_blocks(calls).len() > 0);
}

} // verus!
