//! What a session does during a turn: what is committed when, what a turn may pass, how it ends and
//! what is recorded of it.
use crate::journal::{
    answers, is_journal, law_journals_are_not_refused, law_only_the_seam_matters, seam, tail_calls,
};
use crate::message::{
    answered_ids, call_ids, result_blocks, MessageView, ToolCallView, ToolResultContentView,
    ToolResultView, UserContentView,
};
use crate::protocol::{
    call_with, held, held_for, hold, no_usage, recovery_result, step, usage_sum, ActorView, After,
    CheckpointView, EffectView, FailureView, FinishReasonView, InputView, Moment, PhaseView,
    RequestView, StreamFailureView, StreamItemView,
};
use crate::protocol_laws::{is_in_order, lemma_held, lemma_hold, lemma_open_ids, receipts_fit};
use crate::session::{EndReasonView, ErrorView, Usage};
use crate::store::{CommitView, ToolKeyView};
use vstd::prelude::*;

verus! {

/// Once the signals of a turn are stored, the turn opens on the last of their messages and on
/// everything in front of it.
pub proof fn law_turns_open_on_the_last_message(a: ActorView, commit: CommitView, moment: Moment)
    requires
        a.phase == (PhaseView::Committing { commit, after: After::Open }),
        commit.messages.len() > 0,
    ensures
        ({
            let next = step(a, InputView::Stored(Ok(())), moment);
            &&& next.request matches RequestView::Open { prompt, history, max_turns } && {
                &&& history.push(prompt) == a.history + commit.messages
                &&& prompt == commit.messages.last()
                &&& max_turns == a.max_turns
            }
            &&& next.effects == seq![EffectView::Committed(commit)]
            &&& next.actor.history == a.history + commit.messages
            &&& next.actor.turn == a.turn && next.actor.queue == a.queue
        }),
{
    let all = a.history + commit.messages;
    assert(all.drop_last().push(all.last()) =~= all);
    assert(Seq::<EffectView>::empty().push(EffectView::Committed(commit)) =~= seq![
        EffectView::Committed(commit),
    ]);
}

/// A model is called only on the messages that are durable, all of them, and only once every call
/// among them has its result; otherwise the session stops before the call.
pub proof fn law_models_are_called_on_durable_messages(a: ActorView, expected: usize, moment: Moment)
    requires
        a.phase is Running && a.turn.reason is None || a.phase is Settling && a.turn.reason is Some,
    ensures
        ({
            let next = step(
                a,
                InputView::Checkpoint(CheckpointView::BeforeRequest(expected)),
                moment,
            );
            if expected == a.history.len() && tail_calls(a.history).len() == 0 {
                &&& next.effects == seq![EffectView::Release]
                &&& next.actor == a
                &&& a.phase is Running ==> next.request is AwaitTurn
                &&& a.phase is Settling ==> next.request is TryCheckpoint
            } else {
                &&& next.effects.len() == 0
                &&& next.request matches RequestView::Stop(result)
                &&& result is Err && result->Err_0 is InvalidHistory
            }
        }),
{
    assert(Seq::<EffectView>::empty().push(EffectView::Release) =~= seq![EffectView::Release]);
}

proof fn lemma_call_is_there(calls: Seq<ToolCallView>, id: Seq<char>)
    ensures
        call_with(calls, id) is Some <==> (exists|k: int|
            0 <= k < calls.len() && (#[trigger] calls[k]).id == id),
        call_with(calls, id) matches Some(call) ==> call.id == id && calls.contains(call),
    decreases calls.len(),
{
    if calls.len() > 0 {
        let rest = calls.skip(1);
        lemma_call_is_there(rest, id);
        if calls[0].id == id {
            assert(calls.contains(calls[0]));
        } else if call_with(rest, id) is Some {
            let k = choose|k: int| 0 <= k < rest.len() && rest[k] == call_with(rest, id)->0;
            assert(calls[k + 1] == rest[k]);
        } else {
            assert forall|k: int| 0 <= k < calls.len() implies (#[trigger] calls[k]).id != id by {
                if k > 0 {
                    assert(rest[k - 1] == calls[k]);
                }
            }
        }
    }
}

/// A tool runs only for a call that is durable and open; otherwise the session stops before it.
pub proof fn law_tools_run_for_durable_calls(a: ActorView, id: Seq<char>, moment: Moment)
    requires
        a.phase is Running && a.turn.reason is None || a.phase is Settling && a.turn.reason is Some,
    ensures
        ({
            let next = step(a, InputView::Checkpoint(CheckpointView::BeforeTool(id)), moment);
            let open = tail_calls(a.history);
            if exists|k: int| 0 <= k < open.len() && (#[trigger] open[k]).id == id {
                &&& next.effects == seq![EffectView::Release]
                &&& next.actor == a
                &&& a.phase is Running ==> next.request is AwaitTurn
                &&& a.phase is Settling ==> next.request is TryCheckpoint
            } else {
                &&& next.effects.len() == 0
                &&& next.request matches RequestView::Stop(result)
                &&& result is Err && result->Err_0 is InvalidHistory
            }
        }),
{
    lemma_call_is_there(tail_calls(a.history), id);
    assert(Seq::<EffectView>::empty().push(EffectView::Release) =~= seq![EffectView::Release]);
}

/// What the assistant says is committed, alone and unchanged, before the turn goes on; where the
/// journal does not admit it, the session stops.
pub proof fn law_assistant_messages_are_committed(a: ActorView, message: MessageView, moment: Moment)
    requires
        a.phase is Running || a.phase is Settling,
        is_journal(a.history),
        a.history.len() <= usize::MAX,
    ensures
        ({
            let next = step(a, InputView::Checkpoint(CheckpointView::Assistant(message)), moment);
            if is_journal(a.history.push(message)) {
                &&& next.request matches RequestView::Commit { commit, .. } && {
                    &&& commit.messages == seq![message]
                    &&& commit.id == moment.commit_id
                    &&& commit.expected_messages == a.history.len()
                    &&& commit.ack_inbox_ids.len() == 0
                    &&& commit.outcome is None
                }
                &&& next.effects.len() == 0
                &&& next.actor.history == a.history
            } else {
                &&& next.request matches RequestView::Stop(result)
                &&& result is Err && result->Err_0 is InvalidHistory
            }
        }),
{
    assert(a.history + seq![message] =~= a.history.push(message));
    law_only_the_seam_matters(a.history, seq![message]);
    law_journals_are_not_refused(seam(a.history) + seq![message]);
}

/// Once a message or a batch of results is committed, the turn goes on behind its checkpoint, and
/// what was kept for the batch is let go.
pub proof fn law_turns_go_on_behind_a_commit(a: ActorView, commit: CommitView, moment: Moment)
    requires
        a.phase == (PhaseView::Committing { commit, after: After::Release }),
    ensures
        ({
            let next = step(a, InputView::Stored(Ok(())), moment);
            &&& next.effects == seq![EffectView::Committed(commit), EffectView::Release]
            &&& next.actor.history == a.history + commit.messages
            &&& next.actor.receipts.len() == 0
            &&& next.actor.turn == a.turn && next.actor.queue == a.queue
            &&& a.turn.reason is None ==> next.request == (RequestView::AwaitTurn {
                deadline: a.turn.deadline,
            })
            &&& a.turn.reason is Some ==> next.request is TryCheckpoint
        }),
{
    assert(Seq::<EffectView>::empty().push(EffectView::Committed(commit)).push(EffectView::Release)
        =~= seq![EffectView::Committed(commit), EffectView::Release]);
}

/// The result of a tool is saved under its call: with the id and the provider's identity of the
/// call, the name and the content that the tool gave, and the place of the message that made the
/// call. A result for anything else stops the session.
pub proof fn law_results_are_saved_under_their_call(
    a: ActorView,
    id: Seq<char>,
    name: Seq<char>,
    content: Seq<ToolResultContentView>,
    moment: Moment,
)
    requires
        a.phase is Running || a.phase is Settling,
        a.history.len() <= usize::MAX,
    ensures
        ({
            let open = tail_calls(a.history);
            let next = step(
                a,
                InputView::Checkpoint(CheckpointView::Result { id, name, content }),
                moment,
            );
            if exists|k: int| 0 <= k < open.len() && (#[trigger] open[k]).id == id {
                &&& next.request matches RequestView::Save { key, result, .. } && {
                    &&& key.call_id == id
                    &&& key.assistant_position + 1 == a.history.len()
                    &&& result.call == id
                    &&& exists|k: int|
                        0 <= k < open.len() && (#[trigger] open[k]).id == id && open[k].provider
                            == result.provider
                    &&& result.name == name
                    &&& result.content == content
                }
                &&& next.effects.len() == 0
                &&& next.actor == (ActorView { phase: next.actor.phase, ..a })
            } else {
                &&& next.effects.len() == 0
                &&& next.request matches RequestView::Stop(result)
                &&& result is Err && result->Err_0 is InvalidHistory
            }
        }),
{
    let open = tail_calls(a.history);
    lemma_call_is_there(open, id);
    if let Some(call) = call_with(open, id) {
        let k = choose|k: int| 0 <= k < open.len() && open[k] == call;
        assert(open[k].id == id && open[k].provider == call.provider);
    }
}

/// Keeping a result for a call keeps it as the one for this call, and leaves those for the others.
pub proof fn law_kept_results_are_found(
    receipts: Seq<ToolResultView>,
    result: ToolResultView,
    id: Seq<char>,
)
    ensures
        held(hold(receipts, result), result.call) == Some(result),
        id != result.call ==> held(hold(receipts, result), id) == held(receipts, id),
        held(receipts, id) matches Some(found) ==> found.call == id && receipts.contains(found),
        held(receipts, id) is None <==> (forall|k: int|
            0 <= k < receipts.len() ==> (#[trigger] receipts[k]).call != id),
    decreases receipts.len(),
{
    lemma_held(receipts, id);
    if held(receipts, id) is Some {
        let k = choose|k: int| 0 <= k < receipts.len() && receipts[k] == held(receipts, id)->0;
        assert(receipts[k].call == id);
    }
    let next = hold(receipts, result);
    if receipts.len() > 0 {
        let rest = receipts.drop_last();
        law_kept_results_are_found(rest, result, id);
        if receipts.last().call == result.call {
            assert(next.drop_last() =~= rest);
        } else {
            assert(next.drop_last() =~= hold(rest, result));
        }
    } else {
        assert(next.drop_last() =~= Seq::empty());
        assert(held(Seq::<ToolResultView>::empty(), id) is None);
        assert(next.last() == result);
    }
}

/// A turn goes on behind a saved result until the last call of the batch has its result. Then one
/// message with all results, in the order of the calls, is committed.
pub proof fn law_complete_batches_are_committed(
    a: ActorView,
    key: ToolKeyView,
    result: ToolResultView,
    deadline: u128,
    moment: Moment,
)
    requires
        is_in_order(a),
        a.phase == (PhaseView::Saving { key, result, deadline }),
        a.history.len() <= usize::MAX,
    ensures
        ({
            let open = tail_calls(a.history);
            let next = step(a, InputView::Stored(Ok(())), moment);
            let complete = forall|k: int|
                0 <= k < open.len() ==> (#[trigger] open[k]).id == result.call || (exists|j: int|
                    0 <= j < a.receipts.len() && (#[trigger] a.receipts[j]).call == open[k].id);
            &&& next.actor.history == a.history
            &&& !complete ==> next.effects == seq![EffectView::Release]
            &&& complete ==> next.effects.len() == 0 && (next.request matches RequestView::Commit {
                commit,
                deadline: by,
            } ==> {
                &&& by == deadline
                &&& commit.id == moment.commit_id
                &&& commit.ack_inbox_ids.len() == 0 && commit.outcome is None
                &&& commit.messages.len() == 1
                &&& commit.messages[0] matches MessageView::User { content } && content.len()
                    == open.len() && (forall|k: int|
                    0 <= k < open.len() ==> #[trigger] content[k] == (if open[k].id == result.call {
                        UserContentView::ToolResult(result)
                    } else {
                        UserContentView::ToolResult(held(a.receipts, open[k].id)->0)
                    }))
            })
            &&& complete ==> next.request is Commit || next.request is Stop
        }),
{
    let open = tail_calls(a.history);
    let ids = call_ids(open);
    let receipts = hold(a.receipts, result);
    lemma_hold(a.receipts, result, open);
    lemma_open_ids(a.history);
    assert(Seq::<EffectView>::empty().push(EffectView::Release) =~= seq![EffectView::Release]);
    let complete = forall|k: int|
        0 <= k < open.len() ==> (#[trigger] open[k]).id == result.call || (exists|j: int|
            0 <= j < a.receipts.len() && (#[trigger] a.receipts[j]).call == open[k].id);
    assert forall|k: int| 0 <= k < open.len() implies (held(receipts, #[trigger] ids[k]) is Some <==> (
    open[k].id == result.call || (exists|j: int|
        0 <= j < a.receipts.len() && (#[trigger] a.receipts[j]).call == open[k].id))) by {
        law_kept_results_are_found(a.receipts, result, open[k].id);
    }
    lemma_full_receipts(receipts, open);
    if complete {
        assert forall|k: int| 0 <= k < open.len() implies held(receipts, #[trigger] ids[k]) is Some by {
            assert(open[k].id == ids[k]);
        }
        let batch = held_for(receipts, open);
        assert forall|k: int| 0 <= k < open.len() implies #[trigger] result_blocks(batch)[k] == (
        if open[k].id == result.call {
            UserContentView::ToolResult(result)
        } else {
            UserContentView::ToolResult(held(a.receipts, open[k].id)->0)
        }) by {
            law_kept_results_are_found(a.receipts, result, open[k].id);
        }
    } else {
        let k = choose|k: int|
            0 <= k < open.len() && !((#[trigger] open[k]).id == result.call || (exists|j: int|
                0 <= j < a.receipts.len() && (#[trigger] a.receipts[j]).call == open[k].id));
        assert(held(receipts, ids[k]) is None);
    }
}

/// There are as many results as calls exactly when each call has one.
proof fn lemma_full_receipts(receipts: Seq<ToolResultView>, open: Seq<ToolCallView>)
    requires
        receipts_fit(receipts, open),
        call_ids(open).no_duplicates(),
    ensures
        receipts.len() == open.len() <==> (forall|k: int|
            0 <= k < open.len() ==> held(receipts, #[trigger] call_ids(open)[k]) is Some),
{
    let ids = call_ids(open);
    let found = answered_ids(receipts);
    assert(found.no_duplicates()) by {
        assert forall|i: int, j: int| 0 <= i < found.len() && 0 <= j < found.len() && i != j implies found[i]
            != found[j] by {
            if i < j {
                assert(receipts[i].call != receipts[j].call);
            } else {
                assert(receipts[j].call != receipts[i].call);
            }
        }
    }
    ids.unique_seq_to_set();
    found.unique_seq_to_set();
    vstd::seq_lib::seq_to_set_is_finite(ids);
    vstd::seq_lib::seq_to_set_is_finite(found);
    assert(found.to_set().subset_of(ids.to_set())) by {
        assert forall|id: Seq<char>| found.to_set().contains(id) implies ids.to_set().contains(id) by {
            let k = choose|k: int| 0 <= k < found.len() && found[k] == id;
            assert(ids.contains(receipts[k].call));
        }
    }
    vstd::set_lib::lemma_len_subset(found.to_set(), ids.to_set());
    if receipts.len() == open.len() {
        vstd::set_lib::lemma_subset_equality(found.to_set(), ids.to_set());
        assert forall|k: int| 0 <= k < open.len() implies held(receipts, #[trigger] ids[k]) is Some by {
            assert(ids.contains(ids[k]));
            assert(found.to_set().contains(ids[k]));
            let j = choose|j: int| 0 <= j < found.len() && found[j] == ids[k];
            assert(receipts[j].call == ids[k]);
            lemma_held(receipts, ids[k]);
        }
    }
    if forall|k: int| 0 <= k < open.len() ==> held(receipts, #[trigger] ids[k]) is Some {
        assert(ids.to_set().subset_of(found.to_set())) by {
            assert forall|id: Seq<char>| ids.to_set().contains(id) implies found.to_set().contains(id) by {
                let k = choose|k: int| 0 <= k < ids.len() && ids[k] == id;
                assert(held(receipts, ids[k]) is Some);
                lemma_held(receipts, ids[k]);
                let j = choose|j: int| 0 <= j < receipts.len() && receipts[j] == held(receipts, ids[k])->0;
                assert(found[j] == id);
            }
        }
        vstd::set_lib::lemma_len_subset(ids.to_set(), found.to_set());
    }
}

/// Counts of tokens add up; a sum beyond the range of its type is the largest count.
pub proof fn law_usage_adds_up(a: Usage, b: Usage)
    ensures
        is_count_sum(a.input_tokens, b.input_tokens, usage_sum(a, b).input_tokens),
        is_count_sum(a.output_tokens, b.output_tokens, usage_sum(a, b).output_tokens),
        is_count_sum(a.total_tokens, b.total_tokens, usage_sum(a, b).total_tokens),
        is_count_sum(
            a.cached_input_tokens,
            b.cached_input_tokens,
            usage_sum(a, b).cached_input_tokens,
        ),
        is_count_sum(
            a.cache_creation_input_tokens,
            b.cache_creation_input_tokens,
            usage_sum(a, b).cache_creation_input_tokens,
        ),
        is_count_sum(
            a.tool_use_prompt_tokens,
            b.tool_use_prompt_tokens,
            usage_sum(a, b).tool_use_prompt_tokens,
        ),
        is_count_sum(a.reasoning_tokens, b.reasoning_tokens, usage_sum(a, b).reasoning_tokens),
        usage_sum(a, b) == usage_sum(b, a),
        usage_sum(a, no_usage()) == a,
        no_usage().input_tokens == 0 && no_usage().output_tokens == 0 && no_usage().total_tokens == 0
            && no_usage().cached_input_tokens == 0 && no_usage().cache_creation_input_tokens == 0
            && no_usage().tool_use_prompt_tokens == 0 && no_usage().reasoning_tokens == 0,
{
}

/// Whether a count is the sum of two.
pub open spec fn is_count_sum(a: u64, b: u64, sum: u64) -> bool {
    sum == a + b || (a + b > u64::MAX && sum == u64::MAX)
}

/// A model call adds its usage to that of the turn, which is known as long as every call reports
/// one, and tells how the turn will end if nothing follows it.
pub proof fn law_model_calls_are_counted(
    a: ActorView,
    usage: Usage,
    finish_reason: Option<FinishReasonView>,
    moment: Moment,
)
    requires
        a.phase is Running,
        a.turn.reason is None,
    ensures
        ({
            let next = step(
                a,
                InputView::Item(StreamItemView::CompletionCall { usage, finish_reason }),
                moment,
            );
            let turn = next.actor.turn;
            &&& turn.usage == usage_sum(a.turn.usage, usage)
            &&& turn.any_call
            &&& turn.usage_known <==> a.turn.usage_known && usage != no_usage()
            &&& turn.finish_reason == Some(EndReasonView::Length) <==> finish_reason == Some(
                FinishReasonView::Length,
            )
            &&& turn.finish_reason == Some(EndReasonView::ContentFilter) <==> finish_reason == Some(
                FinishReasonView::ContentFilter,
            )
            &&& turn.finish_reason is None <==> finish_reason != Some(FinishReasonView::Length)
                && finish_reason != Some(FinishReasonView::ContentFilter)
            &&& turn.reason is None && turn.deadline == a.turn.deadline
            &&& next.effects.len() == 0 && next.request is AwaitTurn
            &&& next.actor.history == a.history && next.actor.queue == a.queue
        }),
{
}

/// A turn whose model gives its final response is completed, unless the model stopped for its
/// length or for the content. A stream that fails or ends without one ends the turn for that
/// reason, and its usage cannot be told.
pub proof fn law_streams_end_turns(a: ActorView, failure: StreamFailureView, moment: Moment)
    requires
        a.phase is Running,
        a.turn.reason is None,
    ensures
        ({
            let done = step(a, InputView::Item(StreamItemView::FinalResponse), moment).actor.turn;
            &&& a.turn.finish_reason is None ==> done.reason == Some(EndReasonView::Completed)
            &&& a.turn.finish_reason is Some ==> done.reason == a.turn.finish_reason
            &&& done.usage == a.turn.usage && done.usage_known == a.turn.usage_known && done.any_call
                == a.turn.any_call
        }),
        ({
            let ended = step(a, InputView::Ended, moment).actor.turn;
            &&& ended.reason matches Some(reason) && reason is ProviderError
            &&& !ended.usage_known
        }),
        ({
            let failed = step(a, InputView::Failed(failure), moment).actor.turn;
            &&& !failed.usage_known
            &&& failed.reason == Some(
                match failure {
                    StreamFailureView::MaxTurns => EndReasonView::MaxTurns,
                    StreamFailureView::Cancelled(text) => EndReasonView::HookStopped(text),
                    StreamFailureView::Completion(text) => EndReasonView::ProviderError(text),
                    StreamFailureView::Prompt(text) => EndReasonView::RunError(text),
                    StreamFailureView::Other(text) => EndReasonView::ProviderError(text),
                },
            )
        }),
        step(a, InputView::Item(StreamItemView::Other), moment).actor == a,
        step(a, InputView::Failed(failure), moment).request is TryCheckpoint,
        step(a, InputView::Ended, moment).request is TryCheckpoint,
        step(a, InputView::Item(StreamItemView::FinalResponse), moment).request is TryCheckpoint,
{
}

/// A turn that is over is closed, and what is recorded of it is the reason that it ended for, the
/// usage where every model call reported one, and when; nothing is appended with it.
pub proof fn law_outcomes_tell_how_turns_ended(a: ActorView, moment: Moment)
    requires
        is_in_order(a),
        a.phase is Settling,
        tail_calls(a.history).len() == 0,
        a.history.len() <= usize::MAX,
    ensures
        ({
            let next = step(a, InputView::NoCheckpoint, moment);
            &&& next.effects == seq![EffectView::CloseTurn]
            &&& next.request matches RequestView::Commit { commit, deadline } && {
                &&& deadline == a.turn.finalization
                &&& commit.id == moment.commit_id
                &&& commit.expected_messages == a.history.len()
                &&& commit.messages.len() == 0 && commit.ack_inbox_ids.len() == 0
                &&& commit.outcome matches Some(outcome) && {
                    &&& outcome.run_id == moment.run_id
                    &&& Some(outcome.reason) == a.turn.reason
                    &&& outcome.finished_at == moment.wall
                    &&& outcome.usage == (if a.turn.usage_known && a.turn.any_call {
                        Some(a.turn.usage)
                    } else {
                        None
                    })
                }
            }
            &&& next.actor.history == a.history && next.actor.queue == a.queue
        }),
{
    assert(Seq::<EffectView>::empty().push(EffectView::CloseTurn) =~= seq![EffectView::CloseTurn]);
    assert(a.history + Seq::<MessageView>::empty() =~= a.history);
    law_only_the_seam_matters(a.history, Seq::empty());
    law_journals_are_not_refused(seam(a.history) + Seq::<MessageView>::empty());
}

/// Behind a turn that was completed or interrupted the session goes on; behind any other it stops
/// for the reason that the turn ended for. A session that has run out of time stops for that.
pub proof fn law_sessions_go_on_behind_completed_turns(
    a: ActorView,
    commit: CommitView,
    reason: EndReasonView,
    moment: Moment,
)
    requires
        a.phase == (PhaseView::Committing { commit, after: After::Finish }),
        a.turn.reason == Some(reason),
    ensures
        ({
            let next = step(a, InputView::Stored(Ok(())), moment);
            let late = a.loop_deadline matches Some(d) && moment.now >= d;
            &&& next.effects == seq![EffectView::Committed(commit)]
            &&& next.actor.queue == a.queue && next.actor.waiters == a.waiters
            &&& if reason is Completed || reason is Interrupted {
                if late {
                    next.request == RequestView::Stop(Ok(EndReasonView::LoopTimedOut))
                } else {
                    next.request is TryCommand && next.actor.phase == (PhaseView::Draining {
                        left: a.capacity,
                    })
                }
            } else {
                next.request == RequestView::Stop(Ok(reason))
            }
        }),
{
    assert(Seq::<EffectView>::empty().push(EffectView::Committed(commit)) =~= seq![
        EffectView::Committed(commit),
    ]);
}

/// The result that stands in for one that is not recorded answers its call, under its identity and
/// the name of its tool, with one text.
pub proof fn law_recovery_results_answer_their_call(call: ToolCallView)
    ensures
        answers(call, recovery_result(call)),
        recovery_result(call).name == call.function.name,
        recovery_result(call).content.len() == 1,
        recovery_result(call).content[0] is Text,
{
}

/// A repair at the start lets the session look for commands; one at the end of a turn lets the
/// outcome be recorded; in both cases what was committed is told.
pub proof fn law_repairs_lead_on(a: ActorView, commit: CommitView, after: After, moment: Moment)
    requires
        is_in_order(a),
        a.phase == (PhaseView::Committing { commit, after }),
        after is Start || after is Record,
        a.history.len() + commit.messages.len() <= usize::MAX,
    ensures
        ({
            let next = step(a, InputView::Stored(Ok(())), moment);
            let late = a.loop_deadline matches Some(d) && moment.now >= d;
            &&& next.effects == seq![EffectView::Committed(commit)]
            &&& next.actor.history == a.history + commit.messages
            &&& next.actor.queue == a.queue && next.actor.waiters == a.waiters
            &&& after is Start && !late ==> next.request is TryCommand
            &&& after is Start && late ==> next.request == RequestView::Stop(
                Ok(EndReasonView::LoopTimedOut),
            )
            &&& after is Record ==> (next.request matches RequestView::Commit {
                commit: record,
                deadline,
            } && record.messages.len() == 0 && record.ack_inbox_ids.len() == 0 && deadline
                == a.turn.finalization && record.expected_messages == a.history.len()
                + commit.messages.len() && (record.outcome matches Some(outcome) && Some(outcome.reason)
                == a.turn.reason && outcome.run_id == moment.run_id && outcome.finished_at
                == moment.wall && outcome.usage == (if a.turn.usage_known && a.turn.any_call {
                Some(a.turn.usage)
            } else {
                None
            })))
        }),
{
    let history = a.history + commit.messages;
    assert(Seq::<EffectView>::empty().push(EffectView::Committed(commit)) =~= seq![
        EffectView::Committed(commit),
    ]);
    assert(history + Seq::<MessageView>::empty() =~= history);
    law_only_the_seam_matters(history, Seq::empty());
    law_journals_are_not_refused(seam(history) + Seq::<MessageView>::empty());
}

/// A session stops at a storage operation that fails, and tells why: that time ran out, or in the
/// words of the store.
pub proof fn law_storage_failures_are_told(a: ActorView, failure: FailureView, moment: Moment)
    ensures
        a.phase is Repairing ==> {
            let next = step(a, InputView::Loaded(Err(failure)), moment);
            &&& next.request matches RequestView::Stop(Err(ErrorView::Store { message, .. }))
            &&& failure matches FailureView::Refused(text) ==> message == text
            &&& failure is TimedOut ==> message == "storage deadline elapsed"@
            &&& next.actor.history == a.history
        },
        a.phase matches PhaseView::Committing { commit, .. } ==> {
            let next = step(a, InputView::Stored(Err(failure)), moment);
            &&& next.request matches RequestView::Stop(Err(ErrorView::CommitUncertain {
                commit: same,
                message,
            }))
            &&& same == commit
            &&& failure matches FailureView::Refused(text) ==> message == text
            &&& failure is TimedOut ==> message == "storage deadline elapsed"@
            &&& next.actor.history == a.history && next.effects.len() == 0
        },
        a.phase matches PhaseView::Saving { key, result, .. } ==> {
            let next = step(a, InputView::Stored(Err(failure)), moment);
            &&& next.request matches RequestView::Stop(Err(ErrorView::ToolWriteUncertain {
                key: same_key,
                result: same,
                message,
            }))
            &&& same_key == key && same == result
            &&& failure matches FailureView::Refused(text) ==> message == text
            &&& failure is TimedOut ==> message == "storage deadline elapsed"@
            &&& next.actor.history == a.history && next.effects.len() == 0
        },
{
}

} // verus!
