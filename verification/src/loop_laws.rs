//! What an agent loop keeps, whatever happens.
use crate::api::{
    AgentLoopEventView, ApiErrorInfoView, CommandView, EndReasonView, TurnHookActionView,
};
use crate::history::{is_ordered, law_ordered_histories_have_no_fault};
use crate::loop_rules::{
    await_open, await_turn, begin_commit, commit_report, completion_reason, conclude,
    deadline_after, earlier_deadline, elapsed, expects, fault_history, fault_reason, finish_commit,
    has_pending, lowered, next_pending, on_boundary, on_deadline, on_draining, on_fault, on_final,
    on_hook_answer, on_hooked, on_idle, on_item, on_loaded, on_opening, on_persisted, on_running,
    partial_append, prepared_turn, projected_end, queued, reported, run_turn, snapshot, step,
    stop_turn, time_out, turn_append, turn_deadline, turn_fault, without_next, ActiveTurnView,
    AfterCommitView, CommitEventView, FinalResponseView, LoopEffectView, LoopInputView,
    LoopItemView, LoopPhaseView, LoopStepView, PendingTurnView, PreparedTurnView, RunnerView,
    StreamFaultView, ThenView, TimeoutDeadline, TimeoutKind,
};
use crate::message::MessageView;
use crate::partial::{
    is_coherent, law_messages_of_a_turn_come_in_pairs, nothing_streamed, with_assistant,
    with_result, PartialTurnView, StreamedAssistantContentView, StreamedUserContentView,
};
use crate::session::Usage;
use vstd::prelude::*;

verus! {

/// What holds of a loop in every phase: a commit that waits for its hook leaves a valid history,
/// results are looked up only for a repair, and a turn holds whole roundtrips.
pub open spec fn is_in_order(r: RunnerView) -> bool {
    match r.phase {
        LoopPhaseView::Loading => r.repair is Some,
        LoopPhaseView::Opening { turn } => is_coherent(turn.partial),
        LoopPhaseView::Running { turn } => is_coherent(turn.partial),
        LoopPhaseView::Hooked { turn, .. } => is_coherent(turn.partial),
        LoopPhaseView::Persisting { turn, .. } => is_coherent(turn.partial),
        LoopPhaseView::Committing { turn, messages, .. } => is_coherent(turn.partial) && is_ordered(
            r.history + messages,
        ),
        _ => true,
    }
}

/// A step after which the loop is in order, with the history that it had or a valid one.
spec fn is_sound_step(r: RunnerView, next: LoopStepView) -> bool {
    is_in_order(next.runner) && (next.runner.history == r.history || is_ordered(next.runner.history))
}

proof fn lemma_time_out(
    r: RunnerView,
    fx: Seq<LoopEffectView>,
    turn: ActiveTurnView,
    deadline: TimeoutDeadline,
    now: u128,
)
    requires
        is_coherent(turn.partial),
    ensures
        is_sound_step(r, time_out(r, fx, turn, deadline, now)),
{
    law_ordered_histories_have_no_fault(
        r.history + partial_append(turn.prepared, turn.partial),
    );
}

proof fn lemma_await_turn(r: RunnerView, fx: Seq<LoopEffectView>, turn: ActiveTurnView, now: u128)
    requires
        is_coherent(turn.partial),
    ensures
        is_sound_step(r, await_turn(r, fx, turn, now)),
        is_sound_step(r, await_open(r, fx, turn, now)),
{
    if let Some(d) = elapsed(turn_deadline(r, turn), now) {
        lemma_time_out(r, fx, turn, d, now);
    }
}

proof fn lemma_finish_commit(
    r: RunnerView,
    fx: Seq<LoopEffectView>,
    turn: ActiveTurnView,
    messages: Seq<MessageView>,
    event: CommitEventView,
    after: AfterCommitView,
    replaced: Option<Seq<MessageView>>,
    stopped: Option<Seq<char>>,
    now: u128,
)
    requires
        is_coherent(turn.partial),
        replaced is None ==> is_ordered(r.history + messages),
        replaced is Some ==> is_ordered(replaced->0),
    ensures
        is_sound_step(
            r,
            finish_commit(r, fx, turn, messages, event, after, replaced, stopped, now),
        ),
{
    let s = RunnerView {
        history: match replaced {
            Some(history) => history,
            None => r.history + messages,
        },
        turn_running: false,
        ..r
    };
    let told = fx.push(LoopEffectView::Emit(commit_report(event, messages)));
    let shown = match replaced {
        Some(history) => told.push(
            LoopEffectView::Emit(AgentLoopEventView::HistoryReplaced { messages: history }),
        ),
        None => told,
    };
    lemma_coherent_start();
    lemma_await_turn(s, shown, ActiveTurnView { partial: nothing_streamed(), ..turn }, now);
}

proof fn lemma_begin_commit(
    r: RunnerView,
    fx: Seq<LoopEffectView>,
    turn: ActiveTurnView,
    messages: Seq<MessageView>,
    event: CommitEventView,
    after: AfterCommitView,
    now: u128,
)
    requires
        is_coherent(turn.partial),
    ensures
        is_sound_step(r, begin_commit(r, fx, turn, messages, event, after, now)),
{
    law_ordered_histories_have_no_fault(r.history + messages);
    if is_ordered(r.history + messages) {
        lemma_finish_commit(r, fx, turn, messages, event, after, None, None, now);
    }
}

proof fn lemma_run_turn(r: RunnerView, fx: Seq<LoopEffectView>, pending: PendingTurnView, now: u128)
    ensures
        is_sound_step(r, run_turn(r, fx, pending, now)),
{
    if turn_fault(pending, r.history) is None {
        let prepared = prepared_turn(pending, r.history);
        let turn = ActiveTurnView {
            prepared,
            partial: nothing_streamed(),
            deadline: deadline_after(TimeoutKind::Turn, now, r.turn_timeout),
            commands_closed: false,
            hook_running: false,
        };
        let s = RunnerView { turn_running: true, ..r };
        let started = fx.push(
            LoopEffectView::Emit(AgentLoopEventView::TurnStarted { prompt: prepared.prompt }),
        );
        lemma_coherent_start();
        if let Some(d) = elapsed(turn_deadline(s, turn), now) {
            lemma_time_out(s, started, turn, d, now);
        }
    }
}

proof fn lemma_coherent_start()
    ensures
        is_coherent(nothing_streamed()),
{
}

proof fn lemma_stop_turn(r: RunnerView, turn: ActiveTurnView, command: CommandView, now: u128)
    requires
        is_coherent(turn.partial),
    ensures
        is_sound_step(r, stop_turn(r, turn, command, now)),
{
    let messages = partial_append(turn.prepared, turn.partial);
    let none = Seq::<LoopEffectView>::empty();
    if let CommandView::Interrupt(message) = command {
        lemma_begin_commit(
            r,
            none,
            turn,
            messages,
            CommitEventView::Interrupted,
            AfterCommitView::Interrupted(message),
            now,
        );
    } else {
        lemma_begin_commit(
            r,
            none,
            turn,
            messages,
            CommitEventView::Aborted,
            AfterCommitView::Aborted,
            now,
        );
    }
}

proof fn lemma_snapshot(
    r: RunnerView,
    turn: ActiveTurnView,
    end_reason: Option<EndReasonView>,
    usage: Option<Usage>,
)
    requires
        is_coherent(turn.partial),
    ensures
        is_coherent(snapshot(r, turn, end_reason, usage).0.partial),
{
}

proof fn lemma_conclude(
    r: RunnerView,
    fx: Seq<LoopEffectView>,
    turn: ActiveTurnView,
    response: FinalResponseView,
    now: u128,
)
    requires
        is_coherent(turn.partial),
    ensures
        is_sound_step(r, conclude(r, fx, turn, response, now)),
{
    let s = RunnerView { last_response: Some(response.response), ..r };
    match response.history {
        None => {
            lemma_await_turn(s, fx, turn, now);
        },
        Some(messages) => {
            lemma_begin_commit(
                s,
                fx,
                turn,
                turn_append(turn.prepared, messages),
                CommitEventView::Committed {
                    end_reason: projected_end(r, turn.commands_closed),
                    usage: reported(response.usage),
                },
                AfterCommitView::Final,
                now,
            );
        },
    }
}

proof fn lemma_on_boundary(r: RunnerView, turn: ActiveTurnView, now: u128)
    requires
        is_coherent(turn.partial),
    ensures
        is_sound_step(r, on_boundary(r, turn, now)),
{
    lemma_snapshot(r, turn, None, None);
    let (next, fx) = snapshot(r, turn, None, None);
    lemma_await_turn(r, fx, next, now);
}

proof fn lemma_on_final(r: RunnerView, turn: ActiveTurnView, response: FinalResponseView, now: u128)
    requires
        is_coherent(turn.partial),
    ensures
        is_sound_step(r, on_final(r, turn, response, now)),
{
    let end = projected_end(r, turn.commands_closed);
    let usage = reported(response.usage);
    lemma_snapshot(r, turn, end, usage);
    let (next, fx) = snapshot(r, turn, end, usage);
    lemma_conclude(r, fx, next, response, now);
}

proof fn lemma_on_fault(r: RunnerView, turn: ActiveTurnView, fault: StreamFaultView, now: u128)
    requires
        is_coherent(turn.partial),
    ensures
        is_sound_step(r, on_fault(r, turn, fault, now)),
{
    let none = Seq::<LoopEffectView>::empty();
    let reason = fault_reason(fault);
    let event = CommitEventView::Committed { end_reason: Some(reason), usage: None };
    match fault_history(fault) {
        Some(history) => {
            lemma_begin_commit(
                r,
                none,
                turn,
                history.skip(turn.prepared.committed_base_history.len() as int),
                event,
                AfterCommitView::Failed(reason),
                now,
            );
        },
        None => {
            lemma_begin_commit(
                r,
                none,
                turn,
                partial_append(turn.prepared, turn.partial),
                event,
                AfterCommitView::Failed(reason),
                now,
            );
        },
    }
}

proof fn lemma_on_deadline(r: RunnerView, turn: ActiveTurnView, now: u128)
    requires
        is_coherent(turn.partial),
    ensures
        is_sound_step(r, on_deadline(r, turn, now)),
{
    if let Some(d) = turn_deadline(r, turn) {
        lemma_time_out(r, Seq::empty(), turn, d, now);
    } else {
        lemma_await_turn(r, Seq::empty(), turn, now);
    }
}

proof fn lemma_with_result(partial: PartialTurnView, item: StreamedUserContentView)
    requires
        is_coherent(partial),
    ensures
        is_coherent(with_result(partial, item)),
{
    law_messages_of_a_turn_come_in_pairs(partial, StreamedAssistantContentView::Other, item);
}

proof fn lemma_on_item(r: RunnerView, turn: ActiveTurnView, item: LoopItemView, now: u128)
    requires
        is_coherent(turn.partial),
    ensures
        is_sound_step(r, on_item(r, turn, item, now)),
{
    let none = Seq::<LoopEffectView>::empty();
    match item {
        LoopItemView::Assistant(said) => {
            let next = ActiveTurnView { partial: with_assistant(turn.partial, said), ..turn };
            lemma_on_boundary(r, next, now);
            lemma_await_turn(r, none, next, now);
        },
        LoopItemView::User(item) => {
            lemma_with_result(turn.partial, item);
            let next = ActiveTurnView { partial: with_result(turn.partial, item), ..turn };
            lemma_await_turn(r, none, next, now);
        },
        LoopItemView::Final(response) => {
            lemma_on_final(r, turn, response, now);
        },
        LoopItemView::Other => {
            lemma_await_turn(r, none, turn, now);
        },
    }
}

proof fn lemma_on_running(r: RunnerView, turn: ActiveTurnView, input: LoopInputView, now: u128)
    requires
        is_coherent(turn.partial),
    ensures
        is_sound_step(r, on_running(r, turn, input, now)),
        is_sound_step(r, on_opening(r, turn, input, now)),
{
    reveal(on_running);
    reveal(on_opening);
    let none = Seq::<LoopEffectView>::empty();
    lemma_await_turn(r, none, turn, now);
    lemma_on_deadline(r, turn, now);
    match input {
        LoopInputView::Command(command) => {
            lemma_await_turn(queued(r, command), none, turn, now);
            lemma_stop_turn(r, turn, command, now);
        },
        LoopInputView::Closed => {
            lemma_await_turn(r, none, ActiveTurnView { commands_closed: true, ..turn }, now);
        },
        LoopInputView::HookDone(_) => {
            lemma_await_turn(r, none, ActiveTurnView { hook_running: false, ..turn }, now);
        },
        LoopInputView::Item(item) => {
            lemma_on_item(r, turn, item, now);
        },
        LoopInputView::Failed(fault) => {
            lemma_on_fault(r, turn, fault, now);
        },
        _ => {},
    }
}

proof fn lemma_on_hooked(
    r: RunnerView,
    turn: ActiveTurnView,
    then: ThenView,
    input: LoopInputView,
    now: u128,
)
    requires
        is_coherent(turn.partial),
    ensures
        is_sound_step(r, on_hooked(r, turn, then, input, now)),
{
    reveal(on_hooked);
    lemma_on_deadline(r, turn, now);
    let next = ActiveTurnView { hook_running: false, ..turn };
    match then {
        ThenView::Command(command) => {
            lemma_stop_turn(r, next, command, now);
        },
        ThenView::Ended => {},
        ThenView::Failed(fault) => {
            lemma_on_fault(r, next, fault, now);
        },
        ThenView::Snapshot => {
            lemma_on_boundary(r, next, now);
        },
        ThenView::Report(response) => {
            lemma_on_final(r, next, response, now);
        },
        ThenView::Conclude(response) => {
            lemma_conclude(r, Seq::empty(), next, response, now);
        },
    }
}

proof fn lemma_on_persisted(
    r: RunnerView,
    turn: ActiveTurnView,
    item: StreamedUserContentView,
    failure: Option<Seq<char>>,
    now: u128,
)
    requires
        is_coherent(turn.partial),
    ensures
        is_sound_step(r, on_persisted(r, turn, item, failure, now)),
{
    reveal(on_persisted);
    lemma_with_result(turn.partial, item);
    let next = ActiveTurnView { partial: with_result(turn.partial, item), ..turn };
    lemma_await_turn(r, Seq::empty(), next, now);
}

proof fn lemma_on_hook_answer(
    r: RunnerView,
    turn: ActiveTurnView,
    messages: Seq<MessageView>,
    event: CommitEventView,
    after: AfterCommitView,
    action: TurnHookActionView,
    now: u128,
)
    requires
        is_coherent(turn.partial),
        is_ordered(r.history + messages),
    ensures
        is_sound_step(r, on_hook_answer(r, turn, messages, event, after, action, now)),
{
    reveal(on_hook_answer);
    let none = Seq::<LoopEffectView>::empty();
    let replaced = match action {
        TurnHookActionView::ReplaceHistory(history) => Some(history),
        TurnHookActionView::ReplaceHistoryAndAbort { history, .. } => Some(history),
        _ => None,
    };
    let stopped = match action {
        TurnHookActionView::Abort { reason } => Some(reason),
        TurnHookActionView::ReplaceHistoryAndAbort { reason, .. } => Some(reason),
        _ => None,
    };
    if replaced is Some {
        law_ordered_histories_have_no_fault(replaced->0);
    }
    if replaced is None || is_ordered(replaced->0) {
        lemma_finish_commit(r, none, turn, messages, event, after, replaced, stopped, now);
    }
}

proof fn lemma_between_turns(r: RunnerView, again: bool, input: LoopInputView, now: u128)
    ensures
        is_sound_step(r, on_draining(r, again, input, now)),
        is_sound_step(r, on_idle(r, input, now)),
{
    reveal(on_draining);
    reveal(on_idle);
    lemma_run_turn(without_next(r), Seq::empty(), next_pending(r), now);
}

/// A loop that is in order stays in order, and every history that it commits is valid: a step
/// leaves the history as it was, or repairs the one that the loop started with, or leaves a valid
/// one.
pub proof fn law_committed_histories_are_valid(r: RunnerView, input: LoopInputView, now: u128)
    requires
        is_in_order(r),
        expects(r.phase, input),
    ensures
        is_in_order(step(r, input, now).runner),
        step(r, input, now).runner.history == r.history || r.phase is Loading || is_ordered(
            step(r, input, now).runner.history,
        ),
{
    let s = RunnerView { phase: LoopPhaseView::Done, ..r };
    match r.phase {
        LoopPhaseView::Loading => {
            reveal(on_loaded);
        },
        LoopPhaseView::Draining { again } => {
            lemma_between_turns(s, again, input, now);
        },
        LoopPhaseView::Idle => {
            lemma_between_turns(s, false, input, now);
        },
        LoopPhaseView::Opening { turn } => {
            lemma_on_running(s, turn, input, now);
        },
        LoopPhaseView::Running { turn } => {
            lemma_on_running(s, turn, input, now);
        },
        LoopPhaseView::Hooked { turn, then } => {
            lemma_on_hooked(s, turn, then, input, now);
        },
        LoopPhaseView::Persisting { turn, item } => {
            lemma_on_persisted(s, turn, item, input->Persisted_0, now);
        },
        LoopPhaseView::Committing { turn, messages, event, after } => {
            if let LoopInputView::HookAnswered(Ok(action)) = input {
                lemma_on_hook_answer(s, turn, messages, event, after, action, now);
            }
        },
        LoopPhaseView::Done => {},
    }
}

/// Of two deadlines the earlier one counts; the loop's, where they are at the same time.
pub proof fn law_earlier_deadline_counts(turn: TimeoutDeadline, whole: TimeoutDeadline)
    ensures
        earlier_deadline(Some(turn), Some(whole)) matches Some(d) && d.at <= turn.at && d.at <= whole.at
            && (d == turn || d == whole),
        turn.at == whole.at ==> earlier_deadline(Some(turn), Some(whole)) == Some(whole),
{
}

/// Taking the next turn takes away exactly its messages, and a resume takes away none.
pub proof fn law_turns_take_their_messages(r: RunnerView)
    requires
        has_pending(r),
    ensures
        ({
            let rest = without_next(r);
            let taken = match next_pending(r) {
                PendingTurnView::Prompt { prelude, prompt } => prelude.push(prompt),
                PendingTurnView::Resume => Seq::empty(),
            };
            &&& taken + (rest.immediate + rest.steering + rest.follow_ups) == r.immediate + r.steering
                + r.follow_ups
            &&& next_pending(r) is Resume ==> rest.resumes + 1 == r.resumes
            &&& next_pending(r) !is Resume ==> rest.resumes == r.resumes
        }),
{
    let rest = without_next(r);
    let taken = match next_pending(r) {
        PendingTurnView::Prompt { prelude, prompt } => prelude.push(prompt),
        PendingTurnView::Resume => Seq::empty(),
    };
    if r.immediate.len() > 0 {
        assert(taken =~= seq![r.immediate[0]]);
    } else if r.steering.len() > 0 {
        assert(taken =~= r.steering);
    } else if r.resumes == 0 {
        assert(taken =~= seq![r.follow_ups[0]]);
    }
    assert(taken + (rest.immediate + rest.steering + rest.follow_ups) =~= r.immediate + r.steering
        + r.follow_ups);
}

/// How an error is classified does not depend on the case of its letters.
pub proof fn law_error_classes_ignore_case(error: ApiErrorInfoView, other: ApiErrorInfoView)
    requires
        lowered(error.message) == lowered(other.message),
    ensures
        completion_reason(error) is ContentFilter <==> completion_reason(other) is ContentFilter,
        completion_reason(error) is ContextFull <==> completion_reason(other) is ContextFull,
        completion_reason(error) is Length <==> completion_reason(other) is Length,
        completion_reason(error) is ApiError <==> completion_reason(other) is ApiError,
{
}

/// A turn that is stopped adds nothing, or its prompt and whole roundtrips; a resumed turn does
/// not add its prompt again.
pub proof fn law_stopped_turns_keep_roundtrips(turn: PreparedTurnView, partial: PartialTurnView)
    ensures
        partial.completed_messages.len() == 0 ==> partial_append(turn, partial).len() == 0,
        partial.completed_messages.len() > 0 && turn.commit_prompt ==> partial_append(turn, partial)
            == turn.prelude + (seq![turn.prompt] + partial.completed_messages),
        partial.completed_messages.len() > 0 && !turn.commit_prompt ==> partial_append(turn, partial)
            == turn.prelude + partial.completed_messages,
{
    assert((seq![turn.prompt] + partial.completed_messages).skip(1) =~= partial.completed_messages);
}

/// A loop whose running turn has nothing to commit, as behind its final response.
pub open spec fn is_through(r: RunnerView) -> bool {
    match r.phase {
        LoopPhaseView::Running { turn } => turn.partial.completed_messages.len() == 0,
        LoopPhaseView::Hooked { turn, then } => turn.partial.completed_messages.len() == 0
            && match then {
            ThenView::Failed(fault) => fault_history(fault) is None,
            ThenView::Report(_) => false,
            ThenView::Conclude(_) => false,
            _ => true,
        },
        LoopPhaseView::Committing { messages, after, .. } => messages.len() == 0 && after !is Final,
        _ => false,
    }
}

/// What may happen to a turn behind its final response: it gets no further result and no further
/// final response, and a stream that fails leaves no history of its own.
pub open spec fn adds_nothing(input: LoopInputView) -> bool {
    match input {
        LoopInputView::Item(item) => item is Assistant || item is Other,
        LoopInputView::Failed(fault) => fault_history(fault) is None,
        _ => true,
    }
}

/// The history that a turn hook puts in place of the one that there is, if it does.
pub open spec fn replacement(input: LoopInputView) -> Option<Seq<MessageView>> {
    match input {
        LoopInputView::HookAnswered(Ok(TurnHookActionView::ReplaceHistory(history))) => Some(history),
        LoopInputView::HookAnswered(Ok(TurnHookActionView::ReplaceHistoryAndAbort { history, .. })) => Some(
            history,
        ),
        _ => None,
    }
}

/// A step after which the turn has nothing left to commit, or is over.
spec fn is_settled(next: LoopStepView, history: Seq<MessageView>) -> bool {
    &&& next.runner.history == history
    &&& is_through(next.runner) || next.runner.phase is Draining || next.runner.phase is Done
}

proof fn lemma_nothing_kept(turn: ActiveTurnView, history: Seq<MessageView>)
    requires
        turn.partial.completed_messages.len() == 0,
    ensures
        partial_append(turn.prepared, turn.partial).len() == 0,
        history + partial_append(turn.prepared, turn.partial) == history,
{
    law_stopped_turns_keep_roundtrips(turn.prepared, turn.partial);
    assert(history + partial_append(turn.prepared, turn.partial) =~= history);
}

proof fn lemma_settled_wait(r: RunnerView, fx: Seq<LoopEffectView>, turn: ActiveTurnView, now: u128)
    requires
        turn.partial.completed_messages.len() == 0,
    ensures
        is_settled(await_turn(r, fx, turn, now), r.history),
        is_settled(on_deadline(r, turn, now), r.history),
{
    lemma_nothing_kept(turn, r.history);
}

proof fn lemma_settled_commit(
    r: RunnerView,
    turn: ActiveTurnView,
    messages: Seq<MessageView>,
    event: CommitEventView,
    after: AfterCommitView,
    now: u128,
)
    requires
        messages.len() == 0,
        after !is Final,
    ensures
        is_settled(begin_commit(r, Seq::empty(), turn, messages, event, after, now), r.history),
{
    assert(r.history + messages =~= r.history);
}

proof fn lemma_settled_stop(r: RunnerView, turn: ActiveTurnView, command: CommandView, now: u128)
    requires
        turn.partial.completed_messages.len() == 0,
    ensures
        is_settled(stop_turn(r, turn, command, now), r.history),
{
    lemma_nothing_kept(turn, r.history);
    let messages = partial_append(turn.prepared, turn.partial);
    if let CommandView::Interrupt(message) = command {
        lemma_settled_commit(
            r,
            turn,
            messages,
            CommitEventView::Interrupted,
            AfterCommitView::Interrupted(message),
            now,
        );
    } else {
        lemma_settled_commit(
            r,
            turn,
            messages,
            CommitEventView::Aborted,
            AfterCommitView::Aborted,
            now,
        );
    }
}

proof fn lemma_settled_boundary(r: RunnerView, turn: ActiveTurnView, now: u128)
    requires
        turn.partial.completed_messages.len() == 0,
    ensures
        is_settled(on_boundary(r, turn, now), r.history),
{
    let (next, fx) = snapshot(r, turn, None, None);
    lemma_settled_wait(r, fx, next, now);
}

proof fn lemma_settled_hook_answer(
    r: RunnerView,
    turn: ActiveTurnView,
    messages: Seq<MessageView>,
    event: CommitEventView,
    after: AfterCommitView,
    action: TurnHookActionView,
    now: u128,
)
    ensures
        ({
            let next = on_hook_answer(r, turn, messages, event, after, action, now);
            let history = match replacement(LoopInputView::HookAnswered(Ok(action))) {
                Some(history) => history,
                None => r.history + messages,
            };
            is_settled(next, history) || (next.request is Fail && is_settled(next, r.history))
        }),
{
    reveal(on_hook_answer);
    let none = Seq::<LoopEffectView>::empty();
    let replaced = replacement(LoopInputView::HookAnswered(Ok(action)));
    let s = RunnerView {
        history: match replaced {
            Some(history) => history,
            None => r.history + messages,
        },
        turn_running: false,
        ..r
    };
    let told = none.push(LoopEffectView::Emit(commit_report(event, messages)));
    let shown = match replaced {
        Some(history) => told.push(
            LoopEffectView::Emit(AgentLoopEventView::HistoryReplaced { messages: history }),
        ),
        None => told,
    };
    lemma_settled_wait(s, shown, ActiveTurnView { partial: nothing_streamed(), ..turn }, now);
}

/// Committing the final response of a turn leaves nothing of the turn to commit: the history is the
/// one that there was with the messages of the turn behind it, or the one that the hook puts in its
/// place, and the turn is over or waits with nothing kept.
pub proof fn law_final_commits_settle_the_turn(
    r: RunnerView,
    fx: Seq<LoopEffectView>,
    turn: ActiveTurnView,
    messages: Seq<MessageView>,
    event: CommitEventView,
    action: TurnHookActionView,
    now: u128,
)
    ensures
        ({
            let asked = RunnerView {
                phase: LoopPhaseView::Committing { turn, messages, event, after: AfterCommitView::Final },
                ..r
            };
            let input = LoopInputView::HookAnswered(Ok(action));
            let next = step(asked, input, now);
            let history = match replacement(input) {
                Some(history) => history,
                None => r.history + messages,
            };
            next.request !is Fail ==> {
                &&& next.runner.history == history
                &&& is_through(next.runner) || next.runner.phase is Done
            }
        }),
        !r.has_turn_hook ==> {
            let next = begin_commit(r, fx, turn, messages, event, AfterCommitView::Final, now);
            next.request !is Fail ==> {
                &&& next.runner.history == r.history + messages
                &&& is_through(next.runner) || next.runner.phase is Done
            }
        },
{
    let s = RunnerView { phase: LoopPhaseView::Done, ..r };
    lemma_settled_hook_answer(s, turn, messages, event, AfterCommitView::Final, action, now);
    reveal(on_hook_answer);
    let told = fx.push(LoopEffectView::Emit(commit_report(event, messages)));
    lemma_settled_wait(
        RunnerView { history: r.history + messages, turn_running: false, ..r },
        told,
        ActiveTurnView { partial: nothing_streamed(), ..turn },
        now,
    );
}

/// Nothing that the final response of a turn committed is appended again: however the turn goes on
/// and whatever stops it, the history stays as it is, unless a hook puts another one in its place.
/// Left out are a result or another final response behind the final one, and a stream that fails
/// with a history of its own.
pub proof fn law_final_commits_are_not_repeated(r: RunnerView, input: LoopInputView, now: u128)
    requires
        is_through(r),
        expects(r.phase, input),
        adds_nothing(input),
    ensures
        ({
            let next = step(r, input, now);
            &&& next.runner.history == r.history || replacement(input) == Some(next.runner.history)
            &&& is_through(next.runner) || next.runner.phase is Draining || next.runner.phase is Done
        }),
{
    let s = RunnerView { phase: LoopPhaseView::Done, ..r };
    let none = Seq::<LoopEffectView>::empty();
    match r.phase {
        LoopPhaseView::Running { turn } => {
            reveal(on_running);
            lemma_nothing_kept(turn, r.history);
            lemma_settled_wait(s, none, turn, now);
            match input {
                LoopInputView::Command(command) => {
                    lemma_settled_wait(queued(s, command), none, turn, now);
                    lemma_settled_stop(s, turn, command, now);
                },
                LoopInputView::Closed => {
                    let next = ActiveTurnView { commands_closed: true, ..turn };
                    lemma_settled_wait(s, none, next, now);
                },
                LoopInputView::HookDone(_) => {
                    let next = ActiveTurnView { hook_running: false, ..turn };
                    lemma_settled_wait(s, none, next, now);
                },
                LoopInputView::Item(LoopItemView::Assistant(said)) => {
                    let next = ActiveTurnView { partial: with_assistant(turn.partial, said), ..turn };
                    lemma_settled_wait(s, none, next, now);
                    lemma_settled_boundary(s, next, now);
                },
                _ => {},
            }
        },
        LoopPhaseView::Hooked { turn, then } => {
            reveal(on_hooked);
            let next = ActiveTurnView { hook_running: false, ..turn };
            lemma_nothing_kept(next, r.history);
            lemma_settled_wait(s, none, turn, now);
            match then {
                ThenView::Command(command) => {
                    lemma_settled_stop(s, next, command, now);
                },
                ThenView::Snapshot => {
                    lemma_settled_boundary(s, next, now);
                },
                _ => {},
            }
        },
        LoopPhaseView::Committing { turn, messages, event, after } => {
            assert(r.history + messages =~= r.history);
            if let LoopInputView::HookAnswered(Ok(action)) = input {
                lemma_settled_hook_answer(s, turn, messages, event, after, action, now);
            }
        },
        _ => {},
    }
}

} // verus!
