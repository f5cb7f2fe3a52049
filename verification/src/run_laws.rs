//! What an agent loop is for: which turn comes next, on what it runs, what it commits and why the
//! loop ends.
use crate::api::{
    loop_error_text, AgentLoopErrorInfoView, AgentLoopErrorView, AgentLoopEventView,
    AgentLoopResultView, ApiErrorInfoView, CommandView, EndReasonView, TurnHookActionView,
    TurnHookContextView, TurnOutcomeKind,
};
use crate::history::{first_order_fault, is_ordered, law_ordered_histories_have_no_fault};
use crate::loop_laws::law_stopped_turns_keep_roundtrips;
use crate::loop_rules::{
    any_occurs, await_hook, await_open, await_turn, begin_commit, commit_report, completion_reason,
    conclude, content_filter_signs, context_full_signs, deadline_after, deadline_reason,
    earlier_deadline, elapsed, expects, fail, fail_invalid, fault_history, fault_reason, finish,
    finish_commit, first_step, length_signs, lower, lowered, messages_up_to, next_pending,
    next_round, occurs, on_boundary, on_deadline, on_draining, on_ended, on_fault, on_final,
    on_hook_answer, on_hooked, on_idle, on_item, on_loaded, on_opening, on_persisted, on_running,
    partial_append, prepared_turn, projected_end, queued, reported, run_turn, snapshot, step,
    stop_turn, time_of, turn_append, turn_fault, without_next, ActiveTurnView, AfterCommitView,
    CommitEventView, FinalResponseView, LoopEffectView, LoopInputView, LoopItemView, LoopPhaseView,
    LoopRequestView, LoopStepView, PendingTurnView, RunnerView, StreamFaultView, ThenView,
    TimeoutDeadline, TimeoutKind,
};
use crate::message::MessageView;
use crate::partial::{
    current_message, nothing_streamed, with_assistant, with_result, PartialTurnView,
    StreamedUserContentView,
};
use crate::repair::{first_failure, missing_from, restored_history, LoadedView};
use crate::session::Usage;
use crate::session_laws::is_time_after;
use vstd::prelude::*;

verus! {

/// Between two turns every signal waits behind those of its kind, an interrupt in front of all
/// immediate ones, and nothing else changes; an abort ends the loop.
pub proof fn law_loops_queue_what_they_are_asked(
    r: RunnerView,
    again: bool,
    command: CommandView,
    now: u128,
)
    requires
        r.phase == (LoopPhaseView::Draining { again }),
    ensures
        ({
            let next = step(r, LoopInputView::Command(command), now);
            let n = next.runner;
            &&& n.history == r.history
            &&& match command {
                CommandView::Steer(m) => n == (RunnerView { steering: r.steering.push(m), ..r }),
                CommandView::FollowUp(m) => n == (RunnerView { follow_ups: r.follow_ups.push(m), ..r }),
                CommandView::Interrupt(m) => n == (RunnerView {
                    immediate: seq![m] + r.immediate,
                    ..r
                }),
                CommandView::FinishWhenIdle => n == (RunnerView { finish_when_idle: true, ..r }),
                CommandView::Resume => {
                    &&& n == (RunnerView { resumes: n.resumes, ..r })
                    &&& n.resumes > r.resumes || r.resumes == usize::MAX && n.resumes == usize::MAX
                    &&& n.resumes <= r.resumes + 1
                },
                CommandView::Abort => next.request matches LoopRequestView::Finish(result)
                    && result.end_reason is Aborted && result.history == r.history,
            }
            &&& command !is Abort ==> next.request is TryCommand && next.effects.len() == 0
        }),
{
    reveal(on_draining);
}

/// What waits while a turn runs waits as between two turns; the turn goes on unless it is
/// interrupted or aborted.
pub proof fn law_running_turns_go_on(r: RunnerView, turn: ActiveTurnView, command: CommandView, now: u128)
    requires
        r.phase == (LoopPhaseView::Running { turn }),
        elapsed(earlier_deadline(turn.deadline, r.loop_deadline), now) is None,
        command !is Interrupt && command !is Abort,
    ensures
        ({
            let next = step(r, LoopInputView::Command(command), now);
            let n = next.runner;
            &&& n.phase == r.phase && n.history == r.history && n.immediate == r.immediate
            &&& next.effects.len() == 0 && next.request is AwaitTurn
            &&& n.steering == (match command {
                CommandView::Steer(m) => r.steering.push(m),
                _ => r.steering,
            })
            &&& n.follow_ups == (match command {
                CommandView::FollowUp(m) => r.follow_ups.push(m),
                _ => r.follow_ups,
            })
            &&& command !is Resume ==> n.resumes == r.resumes
            &&& n.finish_when_idle == (r.finish_when_idle || command is FinishWhenIdle)
        }),
{
    reveal(on_running);
}

/// Time runs out at a deadline and not before; the earlier of two counts, and each ends a loop for
/// what it bounds.
pub proof fn law_deadlines(
    turn: Option<TimeoutDeadline>,
    whole: Option<TimeoutDeadline>,
    kind: TimeoutKind,
    now: u128,
    timeout: Option<u128>,
)
    ensures
        ({
            let d = earlier_deadline(turn, whole);
            &&& d is None <==> turn is None && whole is None
            &&& d is Some ==> d == turn || d == whole
            &&& d is Some && turn is Some ==> d->0.at <= turn->0.at
            &&& d is Some && whole is Some ==> d->0.at <= whole->0.at
            &&& turn is Some && whole is Some && turn->0.at == whole->0.at ==> d == whole
            &&& elapsed(d, now) == (if d is Some && d->0.at <= now {
                d
            } else {
                None
            })
            &&& time_of(d) is Some <==> d is Some
            &&& d is Some ==> time_of(d) == Some(d->0.at)
        }),
        deadline_after(kind, now, timeout) is Some <==> timeout is Some,
        deadline_after(kind, now, timeout) matches Some(d) ==> d.kind == kind && d.timeout == timeout->0
            && is_time_after(now, timeout->0, d.at),
{
}

/// The turn that comes next runs an immediate prompt alone; without one, all steering messages
/// together, the last of them as the prompt; without those, a resume on the last message; without
/// one, the oldest follow-up alone. It opens on the history with what it takes, and takes nothing
/// else.
pub proof fn law_turns_run_what_is_due(r: RunnerView, now: u128)
    requires
        r.phase == (LoopPhaseView::Draining { again: true }),
        r.immediate.len() > 0 || r.steering.len() > 0 || r.resumes > 0 || r.follow_ups.len() > 0,
        elapsed(
            earlier_deadline(
                deadline_after(TimeoutKind::Turn, now, r.turn_timeout),
                r.loop_deadline,
            ),
            now,
        ) is None,
    ensures
        ({
            let next = step(r, LoopInputView::NoCommand, now);
            let resumed = r.immediate.len() == 0 && r.steering.len() == 0 && r.resumes > 0;
            let taken = if r.immediate.len() > 0 {
                seq![r.immediate.first()]
            } else if r.steering.len() > 0 {
                r.steering
            } else if r.resumes > 0 {
                Seq::empty()
            } else {
                seq![r.follow_ups.first()]
            };
            let n = next.runner;
            next.request !is Fail ==> {
                &&& next.request matches LoopRequestView::Open { prompt, history, max_turns, .. }
                &&& history.push(prompt) == r.history + taken
                &&& max_turns == r.max_turns
                &&& next.effects == seq![
                    LoopEffectView::Emit(AgentLoopEventView::TurnStarted { prompt }),
                ]
                &&& n.turn_running
                &&& n.history == r.history
                &&& n.immediate == (if r.immediate.len() > 0 {
                    r.immediate.drop_first()
                } else {
                    r.immediate
                })
                &&& n.steering == (if r.immediate.len() == 0 {
                    Seq::empty()
                } else {
                    r.steering
                })
                &&& n.resumes == (if resumed {
                    r.resumes - 1
                } else {
                    r.resumes as int
                })
                &&& n.follow_ups == (if r.immediate.len() == 0 && r.steering.len() == 0 && r.resumes
                    == 0 {
                    r.follow_ups.drop_first()
                } else {
                    r.follow_ups
                })
                &&& n.phase matches LoopPhaseView::Opening { turn } && {
                    &&& turn.partial == nothing_streamed()
                    &&& turn.prepared.committed_base_history == r.history
                    &&& turn.prepared.prompt == prompt
                    &&& turn.prepared.commit_prompt == !resumed
                    &&& turn.deadline == deadline_after(TimeoutKind::Turn, now, r.turn_timeout)
                    &&& !turn.commands_closed && !turn.hook_running
                }
            }
        }),
{
    reveal(on_draining);
    if r.immediate.len() > 0 {
        let one = seq![r.immediate[0]];
        assert(r.immediate.skip(1) =~= r.immediate.drop_first());
        assert((r.history + one.drop_last()).push(one.last()) =~= r.history + one);
    } else if r.steering.len() > 0 {
        assert((r.history + r.steering.drop_last()).push(r.steering.last()) =~= r.history + r.steering);
    } else if r.resumes > 0 {
        if r.history.len() > 0 {
            assert(r.history.drop_last().push(r.history.last()) =~= r.history);
        }
        assert(r.history + Seq::<MessageView>::empty() =~= r.history);
        assert(r.steering =~= Seq::empty());
    } else {
        let one = seq![r.follow_ups[0]];
        assert(r.follow_ups.skip(1) =~= r.follow_ups.drop_first());
        assert((r.history + one.drop_last()).push(one.last()) =~= r.history + one);
        assert(r.steering =~= Seq::empty());
    }
    assert forall|p: MessageView| Seq::<LoopEffectView>::empty().push(
        LoopEffectView::Emit(AgentLoopEventView::TurnStarted { prompt: p }),
    ) == #[trigger] seq![LoopEffectView::Emit(AgentLoopEventView::TurnStarted { prompt: p })] by {}
}

/// A turn runs exactly where the history with what it takes up is valid.
pub proof fn law_turns_run_on_valid_histories(
    history: Seq<MessageView>,
    prelude: Seq<MessageView>,
    prompt: MessageView,
)
    ensures
        turn_fault(PendingTurnView::Prompt { prelude, prompt }, history) is None <==> is_ordered(
            (history + prelude).push(prompt),
        ),
        turn_fault(PendingTurnView::Resume, history) is None <==> is_ordered(history) && history.len()
            > 0 && (history.last() is User || history.last() is Assistant),
{
    law_ordered_histories_have_no_fault((history + prelude).push(prompt));
    law_ordered_histories_have_no_fault(history);
}

/// Where nothing waits the loop waits for commands, or ends where it is to finish when idle or can
/// get no more commands; where something waits it looks for commands once more and then runs it.
pub proof fn law_idle_loops_wait_or_end(r: RunnerView, again: bool, now: u128)
    requires
        r.phase == (LoopPhaseView::Draining { again }),
    ensures
        ({
            let next = step(r, LoopInputView::NoCommand, now);
            let waits = r.immediate.len() > 0 || r.steering.len() > 0 || r.resumes > 0
                || r.follow_ups.len() > 0;
            &&& !waits && r.finish_when_idle ==> next.request == LoopRequestView::Finish(
                AgentLoopResultView {
                    end_reason: EndReasonView::Idle,
                    history: r.history,
                    last_response: r.last_response,
                },
            )
            &&& !waits && !r.finish_when_idle ==> next.runner == (RunnerView {
                phase: LoopPhaseView::Idle,
                ..r
            }) && (next.request matches LoopRequestView::AwaitCommand { deadline } && (deadline is Some
                <==> r.loop_deadline is Some))
            &&& waits && !again ==> next.runner == (RunnerView {
                phase: LoopPhaseView::Draining { again: true },
                ..r
            }) && next.request is TryCommand
        }),
        ({
            let idle = RunnerView { phase: LoopPhaseView::Idle, ..r };
            let closed = step(idle, LoopInputView::Closed, now);
            closed.request matches LoopRequestView::Finish(result) && result.end_reason is Idle
                && result.history == r.history
        }),
{
    reveal(on_draining);
    reveal(on_idle);
}

/// The messages that a turn adds are its prelude and, unless it resumes, its prompt, with what it
/// was told behind them; a turn that is stopped adds them only with the roundtrips that are
/// complete.
pub proof fn law_turns_add_their_messages(
    pending: PendingTurnView,
    base: Seq<MessageView>,
    said: Seq<MessageView>,
    partial: PartialTurnView,
)
    requires
        pending is Resume ==> base.len() > 0,
    ensures
        ({
            let turn = prepared_turn(pending, base);
            let added = turn_append(turn, seq![turn.prompt] + said);
            let stopped = partial_append(turn, partial);
            &&& pending matches PendingTurnView::Prompt { prelude, prompt } ==> {
                &&& added == prelude.push(prompt) + said
                &&& partial.completed_messages.len() > 0 ==> stopped == prelude.push(prompt)
                    + partial.completed_messages
            }
            &&& pending is Resume ==> {
                &&& added == said
                &&& partial.completed_messages.len() > 0 ==> stopped == partial.completed_messages
            }
            &&& partial.completed_messages.len() == 0 ==> stopped.len() == 0
        }),
{
    let turn = prepared_turn(pending, base);
    let all = seq![turn.prompt] + said;
    let done = seq![turn.prompt] + partial.completed_messages;
    assert(all.skip(1) =~= said);
    assert(done.skip(1) =~= partial.completed_messages);
    if let PendingTurnView::Prompt { prelude, prompt } = pending {
        assert(prelude + all =~= prelude.push(prompt) + said);
        assert(prelude + done =~= prelude.push(prompt) + partial.completed_messages);
    } else {
        assert(Seq::<MessageView>::empty() + said =~= said);
        assert(Seq::<MessageView>::empty() + partial.completed_messages =~= partial.completed_messages);
    }
}

/// Whether a running turn may be stopped: what it has completed can be committed, and no hook is to
/// be waited for or asked.
pub open spec fn stops_cleanly(r: RunnerView, turn: ActiveTurnView) -> bool {
    &&& r.phase == (LoopPhaseView::Running { turn })
    &&& !turn.hook_running
    &&& !r.has_turn_hook
    &&& is_ordered(r.history + partial_append(turn.prepared, turn.partial))
}

/// A turn that is aborted, runs out of time, or fails without telling a history keeps what is
/// complete, and the loop ends for that reason with it. An interrupt keeps it, too, and goes first.
pub proof fn law_stopped_turns_keep_what_is_complete(
    r: RunnerView,
    turn: ActiveTurnView,
    message: MessageView,
    fault: StreamFaultView,
    deadline: TimeoutDeadline,
    now: u128,
)
    requires
        stops_cleanly(r, turn),
    ensures
        ({
            let history = r.history + partial_append(turn.prepared, turn.partial);
            &&& step(r, LoopInputView::Command(CommandView::Abort), now).request
                == LoopRequestView::Finish(
                AgentLoopResultView {
                    end_reason: EndReasonView::Aborted,
                    history,
                    last_response: r.last_response,
                },
            )
            &&& fault_history(fault) is None ==> step(r, LoopInputView::Failed(fault), now).request
                == LoopRequestView::Finish(
                AgentLoopResultView {
                    end_reason: fault_reason(fault),
                    history,
                    last_response: r.last_response,
                },
            )
            &&& earlier_deadline(turn.deadline, r.loop_deadline) == Some(deadline) ==> {
                let next = step(r, LoopInputView::DeadlineElapsed, now);
                &&& next.request matches LoopRequestView::Finish(result)
                &&& result.history == history
                &&& next.effects == seq![
                    LoopEffectView::Emit(
                        AgentLoopEventView::TurnTimedOut {
                            messages: partial_append(turn.prepared, turn.partial),
                        },
                    ),
                    LoopEffectView::Emit(
                        AgentLoopEventView::LoopEnded { end_reason: result.end_reason },
                    ),
                ]
                &&& deadline.kind is Turn ==> result.end_reason == (EndReasonView::TurnTimedOut {
                    timeout: deadline.timeout,
                })
                &&& deadline.kind is Loop ==> result.end_reason == (EndReasonView::LoopTimedOut {
                    timeout: deadline.timeout,
                })
            }
        }),
        ({
            let next = step(r, LoopInputView::Command(CommandView::Interrupt(message)), now);
            &&& next.runner.history == r.history + partial_append(turn.prepared, turn.partial)
            &&& next.runner.immediate == seq![message] + r.immediate
            &&& next.runner.steering == r.steering && next.runner.follow_ups == r.follow_ups
            &&& !next.runner.turn_running
            &&& next.effects.contains(LoopEffectView::CloseTurn)
            &&& elapsed(r.loop_deadline, now) is None ==> next.request is TryCommand
        }),
{
    reveal(on_running);
    let messages = partial_append(turn.prepared, turn.partial);
    law_ordered_histories_have_no_fault(r.history + messages);
    if messages.len() == 0 {
        assert(r.history + messages =~= r.history);
    }
    let next = step(r, LoopInputView::Command(CommandView::Interrupt(message)), now);
    assert(next.effects[1] == LoopEffectView::CloseTurn);
    assert forall|a: LoopEffectView, b: LoopEffectView| Seq::<LoopEffectView>::empty().push(a).push(b)
        == #[trigger] seq![a, b] by {}
}

/// A stream that ends leaves the history as it is, and the loop goes on.
pub proof fn law_ended_streams_leave_the_history(r: RunnerView, turn: ActiveTurnView, now: u128)
    requires
        r.phase == (LoopPhaseView::Running { turn }),
        !turn.hook_running,
    ensures
        ({
            let next = step(r, LoopInputView::Ended, now);
            &&& next.runner.history == r.history
            &&& !next.runner.turn_running
            &&& elapsed(r.loop_deadline, now) is None ==> next.request is TryCommand
        }),
{
    reveal(on_running);
}

/// A stream that fails and tells a history is committed with what that history adds, if it is valid
/// and goes on from what was committed; otherwise the loop fails.
pub proof fn law_failed_streams_leave_their_history(
    r: RunnerView,
    turn: ActiveTurnView,
    fault: StreamFaultView,
    history: Seq<MessageView>,
    now: u128,
)
    requires
        r.phase == (LoopPhaseView::Running { turn }),
        !turn.hook_running,
        !r.has_turn_hook,
        turn.prepared.committed_base_history == r.history,
        match fault {
            StreamFaultView::MaxTurns { history: told, .. } => told == history,
            StreamFaultView::Cancelled { history: told, .. } => told == history,
            StreamFaultView::UnknownTool { history: told, .. } => told == history,
            _ => false,
        },
    ensures
        ({
            let next = step(r, LoopInputView::Failed(fault), now);
            if is_ordered(history) && r.history.is_prefix_of(history) {
                next.request == LoopRequestView::Finish(
                    AgentLoopResultView {
                        end_reason: fault_reason(fault),
                        history,
                        last_response: r.last_response,
                    },
                )
            } else {
                &&& next.request matches LoopRequestView::Fail(error)
                &&& error is InvalidMessageHistory
                &&& next.runner.history == r.history
            }
        }),
{
    reveal(on_running);
    law_ordered_histories_have_no_fault(history);
    if r.history.is_prefix_of(history) {
        assert(r.history + history.skip(r.history.len() as int) =~= history);
    }
}

/// Why a loop ends at a failed stream.
pub proof fn law_faults_are_told_apart(fault: StreamFaultView)
    ensures
        match fault {
            StreamFaultView::MaxTurns { max_turns, .. } => fault_reason(fault)
                == (EndReasonView::MaxTurns { max_turns }),
            StreamFaultView::Cancelled { reason, .. } => fault_reason(fault) == (EndReasonView::Other {
                message: reason,
            }),
            StreamFaultView::Tool(message) => fault_reason(fault) == (EndReasonView::ToolError { message }),
            StreamFaultView::UnknownTool { name, .. } => fault_reason(fault) == (EndReasonView::ToolError {
                message: "unknown tool call: "@ + name,
            }),
            StreamFaultView::Other(message) => fault_reason(fault) == (EndReasonView::Other { message }),
            StreamFaultView::Completion(error) => fault_reason(fault) == completion_reason(error),
        },
{
}

/// Whether a text holds a word at a place, whatever the case of its letters.
pub open spec fn says_at(text: Seq<char>, word: Seq<char>, i: int) -> bool {
    0 <= i <= text.len() - word.len() && (forall|k: int|
        0 <= k < word.len() ==> lower(#[trigger] text[i + k]) == word[k])
}

/// Whether a text holds a word, whatever the case of its letters.
pub open spec fn says(text: Seq<char>, word: Seq<char>) -> bool {
    exists|i: int| says_at(text, word, i)
}

proof fn lemma_says(text: Seq<char>, word: Seq<char>)
    ensures
        occurs(lowered(text), word) <==> says(text, word),
{
    let low = lowered(text);
    if occurs(low, word) {
        let i = choose|i: int|
            0 <= i <= low.len() - word.len() && #[trigger] low.subrange(i, i + word.len()) == word;
        assert forall|k: int| 0 <= k < word.len() implies lower(#[trigger] text[i + k]) == word[k] by {
            assert(low.subrange(i, i + word.len())[k] == low[i + k]);
        }
        assert(says_at(text, word, i));
    }
    if says(text, word) {
        let i = choose|i: int| says_at(text, word, i);
        assert(low.subrange(i, i + word.len()) =~= word) by {
            assert forall|k: int| 0 <= k < word.len() implies low.subrange(i, i + word.len())[k] == word[k] by {
                assert(lower(text[i + k]) == word[k]);
            }
        }
    }
}

/// A failed model call is told by its words: a filter of the content before a full context, that
/// before the length of the output, and anything else as it is. The error is kept whole.
pub proof fn law_errors_are_told_by_their_words(error: ApiErrorInfoView)
    ensures
        ({
            let text = error.message;
            let filter = says(text, "content_filter"@) || says(text, "content filter"@) || says(
                text,
                "safety filter"@,
            ) || says(text, "policy violation"@) || says(text, "responsible_ai_policy"@) || says(
                text,
                "unsafe prompt"@,
            ) || says(text, "blocked by policy"@);
            let full = says(text, "context_length_exceeded"@) || says(text, "context length"@) || says(
                text,
                "context window"@,
            ) || says(text, "maximum context"@) || says(text, "prompt is too long"@) || says(
                text,
                "too many input tokens"@,
            );
            let length = says(text, "max_output_tokens"@) || says(text, "max output tokens"@) || says(
                text,
                "output token limit"@,
            ) || says(text, "finish_reason: length"@) || says(text, "finish reason length"@);
            completion_reason(error) == (if filter {
                EndReasonView::ContentFilter { error }
            } else if full {
                EndReasonView::ContextFull { error }
            } else if length {
                EndReasonView::Length { error }
            } else {
                EndReasonView::ApiError { error }
            })
        }),
{
    let text = error.message;
    let low = lowered(text);
    assert forall|word: Seq<char>| #[trigger] occurs(low, word) <==> says(text, word) by {
        lemma_says(text, word);
    }
    lemma_any_of_seven(low, content_filter_signs());
    lemma_any_of_six(low, context_full_signs());
    lemma_any_of_five(low, length_signs());
}

proof fn lemma_any_of_seven(text: Seq<char>, w: Seq<Seq<char>>)
    requires
        w.len() == 7,
    ensures
        any_occurs(text, w) <==> occurs(text, w[0]) || occurs(text, w[1]) || occurs(text, w[2])
            || occurs(text, w[3]) || occurs(text, w[4]) || occurs(text, w[5]) || occurs(text, w[6]),
{
}

proof fn lemma_any_of_six(text: Seq<char>, w: Seq<Seq<char>>)
    requires
        w.len() == 6,
    ensures
        any_occurs(text, w) <==> occurs(text, w[0]) || occurs(text, w[1]) || occurs(text, w[2])
            || occurs(text, w[3]) || occurs(text, w[4]) || occurs(text, w[5]),
{
}

proof fn lemma_any_of_five(text: Seq<char>, w: Seq<Seq<char>>)
    requires
        w.len() == 5,
    ensures
        any_occurs(text, w) <==> occurs(text, w[0]) || occurs(text, w[1]) || occurs(text, w[2])
            || occurs(text, w[3]) || occurs(text, w[4]),
{
}

/// Capital letters of ASCII become small ones, and every other character stays what it is.
pub proof fn law_capital_letters_become_small(c: char, text: Seq<char>)
    ensures
        'A' <= c && c <= 'Z' ==> lower(c) as u32 == c as u32 + 32,
        !('A' <= c && c <= 'Z') ==> lower(c) == c,
        lowered(text).len() == text.len(),
        forall|i: int| 0 <= i < text.len() ==> #[trigger] lowered(text)[i] == lower(text[i]),
{
}

/// A usage is told exactly where something was counted.
pub proof fn law_usage_is_told_where_something_was_counted(usage: Usage)
    ensures
        reported(usage) is None <==> usage.input_tokens == 0 && usage.output_tokens == 0
            && usage.total_tokens == 0 && usage.cached_input_tokens == 0
            && usage.cache_creation_input_tokens == 0 && usage.tool_use_prompt_tokens == 0
            && usage.reasoning_tokens == 0,
        reported(usage) is Some ==> reported(usage) == Some(usage),
{
}

/// The end of the loop is told ahead exactly where nothing waits and nothing more is to come.
pub proof fn law_the_end_is_told_ahead(r: RunnerView, commands_closed: bool)
    ensures
        projected_end(r, commands_closed) == (if r.immediate.len() == 0 && r.steering.len() == 0
            && r.resumes == 0 && r.follow_ups.len() == 0 && (r.finish_when_idle || commands_closed) {
            Some(EndReasonView::Idle)
        } else {
            None
        }),
{
}

/// The final response of a turn is kept, and the messages that come with it are committed behind
/// the history, once; without a hook this is done at once, with one it is asked first.
pub proof fn law_final_responses_are_committed(
    r: RunnerView,
    turn: ActiveTurnView,
    response: FinalResponseView,
    said: Seq<MessageView>,
    now: u128,
)
    requires
        r.phase == (LoopPhaseView::Running { turn }),
        !turn.hook_running,
        !r.has_message_hook,
        response.history == Some(seq![turn.prepared.prompt] + said),
        is_ordered(r.history + turn_append(turn.prepared, response.history->0)),
    ensures
        ({
            let next = step(r, LoopInputView::Item(LoopItemView::Final(response)), now);
            let added = turn.prepared.prelude + (if turn.prepared.commit_prompt {
                seq![turn.prepared.prompt] + said
            } else {
                said
            });
            &&& r.has_turn_hook ==> next.request == LoopRequestView::CallTurnHook(
                TurnHookContextView {
                    history: r.history + added,
                    new_messages: added,
                    outcome_kind: TurnOutcomeKind::Committed,
                    end_reason: projected_end(r, turn.commands_closed),
                    usage: reported(response.usage),
                },
            ) && next.runner.history == r.history
            &&& !r.has_turn_hook && elapsed(earlier_deadline(turn.deadline, r.loop_deadline), now) is None
                ==> {
                &&& next.runner.history == r.history + added
                &&& next.effects.last() == LoopEffectView::Emit(
                    AgentLoopEventView::TurnCommitted { messages: added },
                )
                &&& !next.runner.turn_running
                &&& next.request is AwaitTurn
            }
            &&& next.runner.last_response == Some(response.response) || next.request is Finish
        }),
{
    reveal(on_running);
    let all = seq![turn.prepared.prompt] + said;
    assert(all.skip(1) =~= said);
    law_ordered_histories_have_no_fault(r.history + turn_append(turn.prepared, all));
}

/// A commit is made as the turn hook says: the history with the messages of the turn behind it, or
/// the one that the hook puts in its place if it is valid, and the loop ends where the hook says
/// so. A hook that fails stops the loop with nothing committed.
pub proof fn law_turn_hooks_decide(
    r: RunnerView,
    turn: ActiveTurnView,
    messages: Seq<MessageView>,
    event: CommitEventView,
    action: TurnHookActionView,
    text: Seq<char>,
    now: u128,
)
    requires
        r.phase == (LoopPhaseView::Committing { turn, messages, event, after: AfterCommitView::Final }),
        elapsed(earlier_deadline(turn.deadline, r.loop_deadline), now) is None,
    ensures
        ({
            let next = step(r, LoopInputView::HookAnswered(Ok(action)), now);
            match action {
                TurnHookActionView::Continue => next.runner.history == r.history + messages
                    && next.request is AwaitTurn,
                TurnHookActionView::ReplaceHistory(history) => if is_ordered(history) {
                    next.runner.history == history && next.request is AwaitTurn
                } else {
                    next.runner.history == r.history && next.request is Fail
                },
                TurnHookActionView::Abort { reason } => next.request == LoopRequestView::Finish(
                    AgentLoopResultView {
                        end_reason: EndReasonView::AbortedByHook { reason },
                        history: r.history + messages,
                        last_response: r.last_response,
                    },
                ),
                TurnHookActionView::ReplaceHistoryAndAbort { history, reason } => if is_ordered(history) {
                    next.request == LoopRequestView::Finish(
                        AgentLoopResultView {
                            end_reason: EndReasonView::AbortedByHook { reason },
                            history,
                            last_response: r.last_response,
                        },
                    )
                } else {
                    next.runner.history == r.history && next.request is Fail
                },
            }
        }),
        ({
            let next = step(r, LoopInputView::HookAnswered(Err(text)), now);
            next.request == LoopRequestView::Fail(AgentLoopErrorView::TurnHook(text))
                && next.runner.history == r.history
        }),
{
    reveal(on_hook_answer);
    match action {
        TurnHookActionView::ReplaceHistory(history) => {
            law_ordered_histories_have_no_fault(history);
        },
        TurnHookActionView::ReplaceHistoryAndAbort { history, .. } => {
            law_ordered_histories_have_no_fault(history);
        },
        _ => {},
    }
}

/// Where results are saved, a result is saved as it came before the turn goes on with it; a failure
/// stops the loop.
pub proof fn law_results_are_saved_as_they_come(
    r: RunnerView,
    turn: ActiveTurnView,
    item: StreamedUserContentView,
    text: Seq<char>,
    now: u128,
)
    requires
        r.phase == (LoopPhaseView::Running { turn }),
        r.has_persistence,
        elapsed(earlier_deadline(turn.deadline, r.loop_deadline), now) is None,
    ensures
        ({
            let asked = step(r, LoopInputView::Item(LoopItemView::User(item)), now);
            let saved = step(asked.runner, LoopInputView::Persisted(None), now);
            let failed = step(asked.runner, LoopInputView::Persisted(Some(text)), now);
            let plain = step(
                RunnerView { has_persistence: false, ..r },
                LoopInputView::Item(LoopItemView::User(item)),
                now,
            );
            &&& asked.request matches LoopRequestView::Persist { key, result } && {
                &&& result == item.tool_result
                &&& key.id == item.tool_result.call
                &&& key.call_id is Some <==> item.tool_result.provider is Some
                &&& key.call_id is Some ==> key.call_id == Some(item.tool_result.provider->0.call_id)
            }
            &&& asked.effects.len() == 0 && saved.effects.len() == 0
            &&& saved.runner.phase == (LoopPhaseView::Running {
                turn: ActiveTurnView { partial: with_result(turn.partial, item), ..turn },
            })
            &&& saved.runner.phase == plain.runner.phase
            &&& saved.request is AwaitTurn
            &&& failed.request == LoopRequestView::Fail(
                AgentLoopErrorView::ToolResultPersistence(text),
            )
            &&& failed.runner.history == r.history && saved.runner.history == r.history
        }),
{
    reveal(on_running);
    reveal(on_persisted);
}

/// A loop starts by telling so and, where it repairs its history, by looking up the missing
/// results; then its time begins to run.
pub proof fn law_loops_start(r: RunnerView, now: u128)
    ensures
        ({
            let next = first_step(r, now);
            &&& next.effects.len() > 0
            &&& next.effects[0] == LoopEffectView::Emit(AgentLoopEventView::LoopStarted)
            &&& r.repair is None ==> next.runner.history == r.history
            &&& !r.has_persistence ==> (r.repair matches Some(text) ==> next.runner.history
                == restored_history(r.history, Seq::empty(), text))
            &&& r.repair is None || !r.has_persistence ==> (match r.loop_timeout {
                Some(timeout) => next.runner.loop_deadline matches Some(d) && d.kind is Loop && d.timeout
                    == timeout && is_time_after(now, timeout, d.at),
                None => next.runner.loop_deadline is None && next.request is TryCommand,
            })
            &&& r.repair is Some && r.has_persistence ==> {
                &&& next.request matches LoopRequestView::Load(keys)
                &&& keys.len() == missing_from(r.history, 0).len()
                &&& forall|k: int|
                    0 <= k < keys.len() ==> (#[trigger] keys[k]).id == missing_from(r.history, 0)[k].id
                &&& next.runner.history == r.history
            }
        }),
{
}

/// Before a turn streams, what is asked waits as at any other time; an abort or an interrupt ends the
/// turn with nothing added.
pub proof fn law_turns_that_do_not_stream_add_nothing(
    r: RunnerView,
    turn: ActiveTurnView,
    command: CommandView,
    now: u128,
)
    requires
        r.phase == (LoopPhaseView::Opening { turn }),
        turn.partial.completed_messages.len() == 0,
        elapsed(earlier_deadline(turn.deadline, r.loop_deadline), now) is None,
        !r.has_turn_hook,
        is_ordered(r.history),
    ensures
        ({
            let next = step(r, LoopInputView::Command(command), now);
            let n = next.runner;
            &&& n.history == r.history
            &&& match command {
                CommandView::Abort => next.request matches LoopRequestView::Finish(result)
                    && result.end_reason is Aborted && result.history == r.history,
                CommandView::Interrupt(m) => n.immediate == seq![m] + r.immediate && !n.turn_running
                    && next.effects.contains(LoopEffectView::CloseTurn),
                CommandView::Steer(m) => n == (RunnerView { steering: r.steering.push(m), ..r }),
                CommandView::FollowUp(m) => n == (RunnerView { follow_ups: r.follow_ups.push(m), ..r }),
                CommandView::FinishWhenIdle => n == (RunnerView { finish_when_idle: true, ..r }),
                CommandView::Resume => n == (RunnerView { resumes: n.resumes, ..r }) && n.resumes
                    >= r.resumes,
            }
            &&& command !is Abort && command !is Interrupt ==> next.request is AwaitOpen
                && next.effects.len() == 0
        }),
        ({
            let next = step(r, LoopInputView::Opened, now);
            next.runner == (RunnerView { phase: LoopPhaseView::Running { turn }, ..r })
                && next.request is AwaitTurn && next.effects.len() == 0
        }),
{
    reveal(on_opening);
    let messages = partial_append(turn.prepared, turn.partial);
    law_stopped_turns_keep_roundtrips(turn.prepared, turn.partial);
    assert(r.history + messages =~= r.history);
    law_ordered_histories_have_no_fault(r.history);
    let next = step(r, LoopInputView::Command(command), now);
    if command is Interrupt {
        assert(next.effects[1] == LoopEffectView::CloseTurn);
    }
}

/// That no further commands can come is remembered, and ends nothing by itself.
pub proof fn law_closed_commands_are_remembered(r: RunnerView, turn: ActiveTurnView, now: u128)
    requires
        r.phase == (LoopPhaseView::Running { turn }),
        elapsed(earlier_deadline(turn.deadline, r.loop_deadline), now) is None,
    ensures
        ({
            let next = step(r, LoopInputView::Closed, now);
            &&& next.runner == (RunnerView {
                phase: LoopPhaseView::Running { turn: ActiveTurnView { commands_closed: true, ..turn } },
                ..r
            })
            &&& next.request matches LoopRequestView::AwaitTurn { commands, .. } && !commands
            &&& next.effects.len() == 0
        }),
        step(r, LoopInputView::Item(LoopItemView::Other), now).runner == r,
{
    reveal(on_running);
}

/// While the hook on a message runs, the end of a turn waits for it and is then what it would have
/// been without it. A hook that fails stops the loop, and one that takes too long runs out of time
/// with the turn.
pub proof fn law_ends_wait_for_the_message_hook(
    r: RunnerView,
    turn: ActiveTurnView,
    input: LoopInputView,
    error: AgentLoopErrorView,
    now: u128,
    later: u128,
)
    requires
        r.phase == (LoopPhaseView::Running { turn }),
        turn.hook_running,
        input is Failed || input is Ended || input == LoopInputView::Command(CommandView::Abort)
            || input matches LoopInputView::Command(CommandView::Interrupt(_)),
    ensures
        ({
            let waits = step(r, input, now);
            let quiet = RunnerView {
                phase: LoopPhaseView::Running { turn: ActiveTurnView { hook_running: false, ..turn } },
                ..r
            };
            &&& waits.request is AwaitHook && waits.effects.len() == 0
            &&& waits.runner.history == r.history
            &&& step(waits.runner, LoopInputView::HookDone(None), later) == step(quiet, input, later)
            &&& step(waits.runner, LoopInputView::HookDone(Some(error)), later).request
                == LoopRequestView::Fail(error)
            &&& step(waits.runner, LoopInputView::DeadlineElapsed, later) == step(
                r,
                LoopInputView::DeadlineElapsed,
                later,
            )
        }),
        step(r, LoopInputView::HookDone(Some(error)), now).request == LoopRequestView::Fail(error),
        elapsed(earlier_deadline(turn.deadline, r.loop_deadline), now) is None ==> step(
            r,
            LoopInputView::HookDone(None),
            now,
        ).runner.phase == (LoopPhaseView::Running {
            turn: ActiveTurnView { hook_running: false, ..turn },
        }),
{
    reveal(on_running);
    reveal(on_hooked);
}

/// Where a hook on messages is set, it is started on the last message of a turn once this is told,
/// with the history up to and with the message, and the turn is committed behind it.
pub proof fn law_message_hooks_are_started(
    r: RunnerView,
    turn: ActiveTurnView,
    response: FinalResponseView,
    message: MessageView,
    now: u128,
)
    requires
        r.phase == (LoopPhaseView::Running { turn }),
        !turn.hook_running,
        current_message(turn.partial) == Some(message),
    ensures
        ({
            let next = step(r, LoopInputView::Item(LoopItemView::Final(response)), now);
            let messages = messages_up_to(turn.prepared, turn.partial, message);
            &&& next.effects.len() > 0
            &&& next.effects[0] == LoopEffectView::Emit(
                AgentLoopEventView::AssistantMessageFinished { message, messages },
            )
            &&& r.has_message_hook ==> {
                &&& next.effects.len() == 2
                &&& next.effects[1] matches LoopEffectView::SpawnHook(context)
                &&& context.message == message
                &&& context.new_messages == messages
                &&& context.history == r.history + messages
                &&& context.end_reason == projected_end(r, turn.commands_closed)
                &&& context.usage == reported(response.usage)
                &&& next.request is AwaitHook
                &&& next.runner.history == r.history
            }
        }),
{
    reveal(on_running);
}

/// A final response without messages commits nothing; the response is kept.
pub proof fn law_responses_without_messages_commit_nothing(
    r: RunnerView,
    turn: ActiveTurnView,
    response: FinalResponseView,
    now: u128,
)
    requires
        r.phase == (LoopPhaseView::Running { turn }),
        !turn.hook_running,
        !r.has_message_hook,
        response.history is None,
        elapsed(earlier_deadline(turn.deadline, r.loop_deadline), now) is None,
    ensures
        ({
            let next = step(r, LoopInputView::Item(LoopItemView::Final(response)), now);
            &&& next.runner.history == r.history
            &&& next.runner.last_response == Some(response.response)
            &&& next.request is AwaitTurn
        }),
{
    reveal(on_running);
}

/// A turn hook is asked before anything is committed, and is told the history as it would be, what
/// is new, what became of the turn, and why the loop is about to end if it is.
pub proof fn law_turn_hooks_are_asked_first(
    r: RunnerView,
    turn: ActiveTurnView,
    message: MessageView,
    fault: StreamFaultView,
    deadline: TimeoutDeadline,
    now: u128,
)
    requires
        r.phase == (LoopPhaseView::Running { turn }),
        !turn.hook_running,
        r.has_turn_hook,
        is_ordered(r.history + partial_append(turn.prepared, turn.partial)),
    ensures
        ({
            let added = partial_append(turn.prepared, turn.partial);
            let history = r.history + added;
            let aborted = step(r, LoopInputView::Command(CommandView::Abort), now);
            let interrupted = step(r, LoopInputView::Command(CommandView::Interrupt(message)), now);
            let late = step(r, LoopInputView::DeadlineElapsed, now);
            let failed = step(r, LoopInputView::Failed(fault), now);
            &&& aborted.request == LoopRequestView::CallTurnHook(
                TurnHookContextView {
                    history,
                    new_messages: added,
                    outcome_kind: TurnOutcomeKind::Aborted,
                    end_reason: Some(EndReasonView::Aborted),
                    usage: None,
                },
            )
            &&& interrupted.request == LoopRequestView::CallTurnHook(
                TurnHookContextView {
                    history,
                    new_messages: added,
                    outcome_kind: TurnOutcomeKind::Interrupted,
                    end_reason: None,
                    usage: None,
                },
            )
            &&& earlier_deadline(turn.deadline, r.loop_deadline) == Some(deadline)
                ==> late.runner.history == r.history && (late.request matches
                LoopRequestView::CallTurnHook(context) && context.history == history
                && context.new_messages == added && context.outcome_kind is TimedOut
                && context.end_reason == Some(deadline_reason(deadline)) && context.usage is None)
            &&& fault_history(fault) is None && added.len() > 0 ==> failed.request
                == LoopRequestView::CallTurnHook(
                TurnHookContextView {
                    history,
                    new_messages: added,
                    outcome_kind: TurnOutcomeKind::Committed,
                    end_reason: Some(fault_reason(fault)),
                    usage: None,
                },
            )
            &&& aborted.runner.history == r.history && interrupted.runner.history == r.history
        }),
{
    reveal(on_running);
    law_ordered_histories_have_no_fault(r.history + partial_append(turn.prepared, turn.partial));
}

/// A turn that was stopped is committed as the hook says. An abort ends the loop as one in any case;
/// an interrupt goes first unless the hook stops the loop; a timeout or a failure ends the loop for
/// its own reason unless the hook gives another one.
pub proof fn law_turn_hooks_decide_on_stopped_turns(
    r: RunnerView,
    turn: ActiveTurnView,
    messages: Seq<MessageView>,
    event: CommitEventView,
    after: AfterCommitView,
    action: TurnHookActionView,
    now: u128,
)
    requires
        r.phase == (LoopPhaseView::Committing { turn, messages, event, after }),
        after !is Final,
        action is Continue || action is Abort,
    ensures
        ({
            let next = step(r, LoopInputView::HookAnswered(Ok(action)), now);
            let history = r.history + messages;
            &&& next.runner.history == history && !next.runner.turn_running
            &&& after is Interrupted && action is Continue ==> next.runner.immediate == seq![
                after->Interrupted_0,
            ] + r.immediate && next.effects.contains(LoopEffectView::CloseTurn)
            &&& !(after is Interrupted && action is Continue) ==> {
                &&& next.request matches LoopRequestView::Finish(result)
                &&& result.history == history
                &&& next.effects.last() == LoopEffectView::Emit(
                    AgentLoopEventView::LoopEnded { end_reason: result.end_reason },
                )
                &&& result.end_reason == (match (after, action) {
                    (AfterCommitView::Aborted, _) => EndReasonView::Aborted,
                    (_, TurnHookActionView::Abort { reason }) => EndReasonView::AbortedByHook { reason },
                    (AfterCommitView::TimedOut(reason), _) => reason,
                    (AfterCommitView::Failed(reason), _) => reason,
                    _ => result.end_reason,
                })
            }
        }),
{
    reveal(on_hook_answer);
    let next = step(r, LoopInputView::HookAnswered(Ok(action)), now);
    if after is Interrupted && action is Continue {
        assert(next.effects[1] == LoopEffectView::CloseTurn);
    }
}

/// What became of a turn is told with the messages that it added.
pub proof fn law_commits_are_told(event: CommitEventView, messages: Seq<MessageView>)
    ensures
        commit_report(event, messages) == (match event {
            CommitEventView::Committed { .. } => AgentLoopEventView::TurnCommitted { messages },
            CommitEventView::Interrupted => AgentLoopEventView::TurnInterrupted { messages },
            CommitEventView::Aborted => AgentLoopEventView::TurnAborted { messages },
            CommitEventView::TimedOut { .. } => AgentLoopEventView::TurnTimedOut { messages },
        }),
{
}

/// What was looked up is used for the history, and the time of the loop begins to run; a lookup that
/// failed stops the loop, with the history as it was.
pub proof fn law_lookups_are_used(r: RunnerView, loaded: Seq<LoadedView>, text: Seq<char>, now: u128)
    requires
        r.phase is Loading,
        r.repair == Some(text),
    ensures
        ({
            let next = step(r, LoopInputView::Loaded(loaded), now);
            match first_failure(loaded, 0, missing_from(r.history, 0).len() as int) {
                Some(reason) => next.request == LoopRequestView::Fail(
                    AgentLoopErrorView::ToolResultPersistence(reason),
                ) && next.runner.history == r.history,
                None => {
                    &&& next.runner.history == restored_history(r.history, loaded, text)
                    &&& r.loop_timeout is None ==> next.runner.loop_deadline is None && next.request
                        is TryCommand
                    &&& r.loop_timeout matches Some(timeout) ==> {
                        &&& next.runner.loop_deadline matches Some(d)
                        &&& d.kind is Loop && d.timeout == timeout && is_time_after(now, timeout, d.at)
                    }
                },
            }
        }),
{
    reveal(on_loaded);
}

/// A loop that waits takes up what it is asked, and ends when it is aborted or has run out of time.
pub proof fn law_waiting_loops(r: RunnerView, command: CommandView, deadline: TimeoutDeadline, now: u128)
    requires
        r.phase is Idle,
    ensures
        r.loop_deadline == Some(deadline) && deadline.kind is Loop ==> {
            let next = step(r, LoopInputView::DeadlineElapsed, now);
            &&& next.request matches LoopRequestView::Finish(result)
            &&& result.end_reason == (EndReasonView::LoopTimedOut { timeout: deadline.timeout })
            &&& result.history == r.history && result.last_response == r.last_response
            &&& next.effects == seq![
                LoopEffectView::Emit(AgentLoopEventView::LoopEnded { end_reason: result.end_reason }),
            ]
        },
        command is Abort ==> (step(r, LoopInputView::Command(command), now).request matches
            LoopRequestView::Finish(result) && result.end_reason is Aborted && result.history
            == r.history),
        command !is Abort && elapsed(r.loop_deadline, now) is None ==> {
            let next = step(r, LoopInputView::Command(command), now);
            let drained = step(
                RunnerView { phase: LoopPhaseView::Draining { again: false }, ..r },
                LoopInputView::Command(command),
                now,
            );
            next.request is TryCommand && next.runner == drained.runner && next.effects.len() == 0
        },
        command !is Abort && elapsed(r.loop_deadline, now) is Some ==> step(
            r,
            LoopInputView::Command(command),
            now,
        ).request is Finish,
{
    reveal(on_idle);
    reveal(on_draining);
    assert forall|e: LoopEffectView| Seq::<LoopEffectView>::empty().push(e) == #[trigger] seq![e] by {}
}

/// Whether a loop waits for a turn until the earlier of the deadlines of the turn and the loop, and
/// for commands and for the hook where they can still come.
pub open spec fn waits_in_time(next: LoopStepView) -> bool {
    let n = next.runner;
    match next.request {
        LoopRequestView::Open { deadline, .. } => n.phase matches LoopPhaseView::Opening { turn }
            && is_earlier(turn.deadline, n.loop_deadline, deadline),
        LoopRequestView::AwaitOpen { deadline, commands } => n.phase matches LoopPhaseView::Opening {
            turn,
        } && is_earlier(turn.deadline, n.loop_deadline, deadline) && commands == !turn.commands_closed,
        LoopRequestView::AwaitTurn { deadline, commands, hook } => n.phase matches
            LoopPhaseView::Running { turn } && is_earlier(turn.deadline, n.loop_deadline, deadline)
            && commands == !turn.commands_closed && hook == turn.hook_running,
        LoopRequestView::AwaitHook { deadline } => n.phase matches LoopPhaseView::Hooked { turn, .. }
            && is_earlier(turn.deadline, n.loop_deadline, deadline),
        LoopRequestView::AwaitCommand { deadline } => n.phase is Idle && is_earlier(
            None,
            n.loop_deadline,
            deadline,
        ),
        _ => true,
    }
}

/// Whether a time is that of the earlier of two deadlines.
pub open spec fn is_earlier(
    turn: Option<TimeoutDeadline>,
    whole: Option<TimeoutDeadline>,
    time: Option<u128>,
) -> bool {
    match (turn, whole) {
        (None, None) => time is None,
        (Some(x), None) => time == Some(x.at),
        (None, Some(y)) => time == Some(y.at),
        (Some(x), Some(y)) => time is Some && time->0 <= x.at && time->0 <= y.at && (time->0 == x.at
            || time->0 == y.at),
    }
}

/// Whether the last thing that a loop does is to tell how it ended.
pub open spec fn tells_its_end(next: LoopStepView) -> bool {
    match next.request {
        LoopRequestView::Finish(result) => next.effects.len() > 0 && next.effects.last()
            == LoopEffectView::Emit(AgentLoopEventView::LoopEnded { end_reason: result.end_reason })
            && result.history == next.runner.history,
        LoopRequestView::Fail(error) => next.effects.len() > 0 && next.effects.last()
            == LoopEffectView::Emit(
            AgentLoopEventView::LoopFailed {
                error: AgentLoopErrorInfoView { message: loop_error_text(error) },
            },
        ),
        _ => true,
    }
}

/// A step after which the loop waits in time, or has told its end.
#[verifier::opaque]
spec fn is_orderly(next: LoopStepView) -> bool {
    &&& waits_in_time(next)
    &&& tells_its_end(next)
    &&& next.request is Finish || next.request is Fail ==> next.runner.phase is Done
}

proof fn lemma_ends(r: RunnerView, fx: Seq<LoopEffectView>, reason: EndReasonView, error: AgentLoopErrorView, text: Seq<char>, now: u128)
    ensures
        is_orderly(finish(r, fx, reason)),
        is_orderly(fail(r, fx, error)),
        is_orderly(fail_invalid(r, fx, text)),
        is_orderly(next_round(r, fx, now)),
{
    reveal(is_orderly);
}

proof fn lemma_waits(r: RunnerView, fx: Seq<LoopEffectView>, turn: ActiveTurnView, then: ThenView, now: u128)
    ensures
        is_orderly(await_turn(r, fx, turn, now)),
        is_orderly(await_open(r, fx, turn, now)),
        is_orderly(await_hook(r, fx, turn, then)),
        is_orderly(on_deadline(r, turn, now)),
{
    reveal(is_orderly);
}

proof fn lemma_commits(
    r: RunnerView,
    fx: Seq<LoopEffectView>,
    turn: ActiveTurnView,
    messages: Seq<MessageView>,
    event: CommitEventView,
    after: AfterCommitView,
    replaced: Option<Seq<MessageView>>,
    stopped: Option<Seq<char>>,
    now: u128,
)
    ensures
        is_orderly(finish_commit(r, fx, turn, messages, event, after, replaced, stopped, now)),
        is_orderly(begin_commit(r, fx, turn, messages, event, after, now)),
{
    reveal(is_orderly);
}

proof fn lemma_stops(r: RunnerView, turn: ActiveTurnView, command: CommandView, now: u128)
    ensures
        is_orderly(stop_turn(r, turn, command, now)),
{
    let messages = partial_append(turn.prepared, turn.partial);
    let none = Seq::<LoopEffectView>::empty();
    if let CommandView::Interrupt(message) = command {
        lemma_commits(
            r,
            none,
            turn,
            messages,
            CommitEventView::Interrupted,
            AfterCommitView::Interrupted(message),
            None,
            None,
            now,
        );
    } else {
        lemma_commits(
            r,
            none,
            turn,
            messages,
            CommitEventView::Aborted,
            AfterCommitView::Aborted,
            None,
            None,
            now,
        );
    }
}

proof fn lemma_concludes(
    r: RunnerView,
    fx: Seq<LoopEffectView>,
    turn: ActiveTurnView,
    response: FinalResponseView,
    now: u128,
)
    ensures
        is_orderly(conclude(r, fx, turn, response, now)),
{
    let s = RunnerView { last_response: Some(response.response), ..r };
    lemma_waits(s, fx, turn, ThenView::Ended, now);
    if let Some(messages) = response.history {
        lemma_commits(
            s,
            fx,
            turn,
            turn_append(turn.prepared, messages),
            CommitEventView::Committed {
                end_reason: projected_end(r, turn.commands_closed),
                usage: reported(response.usage),
            },
            AfterCommitView::Final,
            None,
            None,
            now,
        );
    }
}

proof fn lemma_finals(r: RunnerView, turn: ActiveTurnView, response: FinalResponseView, now: u128)
    ensures
        is_orderly(on_final(r, turn, response, now)),
        is_orderly(on_boundary(r, turn, now)),
{
    let none = Seq::<LoopEffectView>::empty();
    let (next, fx) = snapshot(
        r,
        turn,
        projected_end(r, turn.commands_closed),
        reported(response.usage),
    );
    lemma_waits(r, none, turn, ThenView::Report(response), now);
    lemma_waits(r, none, turn, ThenView::Snapshot, now);
    lemma_waits(r, fx, next, ThenView::Conclude(response), now);
    lemma_concludes(r, fx, next, response, now);
    let (told, more) = snapshot(r, turn, None, None);
    lemma_waits(r, more, told, ThenView::Ended, now);
}

proof fn lemma_faults(r: RunnerView, turn: ActiveTurnView, fault: StreamFaultView, now: u128)
    ensures
        is_orderly(on_fault(r, turn, fault, now)),
{
    let none = Seq::<LoopEffectView>::empty();
    let reason = fault_reason(fault);
    let event = CommitEventView::Committed { end_reason: Some(reason), usage: None };
    let after = AfterCommitView::Failed(reason);
    match fault_history(fault) {
        Some(history) => {
            lemma_ends(
                r,
                none,
                reason,
                AgentLoopErrorView::CommandChannelClosed,
                first_order_fault(history, 0)->0,
                now,
            );
            lemma_ends(
                r,
                none,
                reason,
                AgentLoopErrorView::CommandChannelClosed,
                "recovered history does not extend the committed base history"@,
                now,
            );
            lemma_commits(
                r,
                none,
                turn,
                history.skip(turn.prepared.committed_base_history.len() as int),
                event,
                after,
                None,
                None,
                now,
            );
        },
        None => {
            lemma_ends(
                RunnerView { turn_running: false, ..r },
                none,
                reason,
                AgentLoopErrorView::CommandChannelClosed,
                Seq::empty(),
                now,
            );
            lemma_commits(
                r,
                none,
                turn,
                partial_append(turn.prepared, turn.partial),
                event,
                after,
                None,
                None,
                now,
            );
        },
    }
}

proof fn lemma_ended(r: RunnerView, now: u128)
    ensures
        is_orderly(on_ended(r, now)),
{
    reveal(is_orderly);
}

proof fn lemma_items(r: RunnerView, turn: ActiveTurnView, item: LoopItemView, now: u128)
    ensures
        is_orderly(on_item(r, turn, item, now)),
{
    let none = Seq::<LoopEffectView>::empty();
    match item {
        LoopItemView::Assistant(said) => {
            let next = ActiveTurnView { partial: with_assistant(turn.partial, said), ..turn };
            lemma_finals(r, next, arbitrary(), now);
            lemma_waits(r, none, next, ThenView::Ended, now);
        },
        LoopItemView::User(item) => {
            let next = ActiveTurnView { partial: with_result(turn.partial, item), ..turn };
            lemma_waits(r, none, next, ThenView::Ended, now);
            reveal(is_orderly);
        },
        LoopItemView::Final(response) => {
            lemma_finals(r, turn, response, now);
        },
        LoopItemView::Other => {
            lemma_waits(r, none, turn, ThenView::Ended, now);
        },
    }
}

proof fn lemma_running(r: RunnerView, turn: ActiveTurnView, input: LoopInputView, now: u128)
    ensures
        is_orderly(on_running(r, turn, input, now)),
        is_orderly(on_opening(r, turn, input, now)),
{
    reveal(on_running);
    reveal(on_opening);
    let none = Seq::<LoopEffectView>::empty();
    lemma_waits(r, none, turn, ThenView::Ended, now);
    match input {
        LoopInputView::Command(command) => {
            lemma_waits(queued(r, command), none, turn, ThenView::Ended, now);
            lemma_waits(r, none, turn, ThenView::Command(command), now);
            lemma_stops(r, turn, command, now);
        },
        LoopInputView::Closed => {
            let next = ActiveTurnView { commands_closed: true, ..turn };
            lemma_waits(r, none, next, ThenView::Ended, now);
        },
        LoopInputView::HookDone(failure) => {
            let next = ActiveTurnView { hook_running: false, ..turn };
            lemma_waits(r, none, next, ThenView::Ended, now);
            if let Some(error) = failure {
                lemma_ends(r, none, EndReasonView::Idle, error, Seq::empty(), now);
            }
        },
        LoopInputView::Item(item) => {
            lemma_items(r, turn, item, now);
        },
        LoopInputView::Failed(fault) => {
            lemma_waits(r, none, turn, ThenView::Failed(fault), now);
            lemma_faults(r, turn, fault, now);
        },
        _ => {
            lemma_ended(r, now);
        },
    }
}

proof fn lemma_hooked(r: RunnerView, turn: ActiveTurnView, then: ThenView, input: LoopInputView, now: u128)
    ensures
        is_orderly(on_hooked(r, turn, then, input, now)),
{
    reveal(on_hooked);
    let none = Seq::<LoopEffectView>::empty();
    let next = ActiveTurnView { hook_running: false, ..turn };
    lemma_waits(r, none, turn, then, now);
    if let LoopInputView::HookDone(Some(error)) = input {
        lemma_ends(r, none, EndReasonView::Idle, error, Seq::empty(), now);
    }
    match then {
        ThenView::Command(command) => {
            lemma_stops(r, next, command, now);
        },
        ThenView::Ended => {
            lemma_ended(r, now);
        },
        ThenView::Failed(fault) => {
            lemma_faults(r, next, fault, now);
        },
        ThenView::Snapshot => {
            lemma_finals(r, next, arbitrary(), now);
        },
        ThenView::Report(response) => {
            lemma_finals(r, next, response, now);
        },
        ThenView::Conclude(response) => {
            lemma_concludes(r, none, next, response, now);
        },
    }
}

proof fn lemma_run(r: RunnerView, fx: Seq<LoopEffectView>, pending: PendingTurnView, now: u128)
    ensures
        is_orderly(run_turn(r, fx, pending, now)),
{
    reveal(is_orderly);
}

proof fn lemma_between(r: RunnerView, again: bool, input: LoopInputView, now: u128)
    ensures
        is_orderly(on_draining(r, again, input, now)),
        is_orderly(on_idle(r, input, now)),
{
    reveal(on_draining);
    reveal(on_idle);
    lemma_run(without_next(r), Seq::empty(), next_pending(r), now);
    reveal(is_orderly);
}

proof fn lemma_answered(
    r: RunnerView,
    turn: ActiveTurnView,
    messages: Seq<MessageView>,
    event: CommitEventView,
    after: AfterCommitView,
    action: TurnHookActionView,
    now: u128,
)
    ensures
        is_orderly(on_hook_answer(r, turn, messages, event, after, action, now)),
{
    reveal(on_hook_answer);
    let none = Seq::<LoopEffectView>::empty();
    let replaced = match action {
        TurnHookActionView::ReplaceHistory(history) => Some(history),
        TurnHookActionView::ReplaceHistoryAndAbort { history, .. } => Some(history),
        _ => None,
    };
    let stopped = match action {
        TurnHookActionView::Abort { reason } => Some(reason),
        TurnHookActionView::ReplaceHistoryAndAbort { reason, .. } => Some(reason),
        _ => None,
    };
    lemma_commits(r, none, turn, messages, event, after, replaced, stopped, now);
    if replaced is Some {
        lemma_ends(
            r,
            none,
            EndReasonView::Idle,
            AgentLoopErrorView::CommandChannelClosed,
            first_order_fault(replaced->0, 0)->0,
            now,
        );
    }
}

proof fn lemma_starts(r: RunnerView, loaded: Seq<LoadedView>, now: u128)
    ensures
        is_orderly(on_loaded(r, loaded, now)),
        is_orderly(first_step(r, now)),
{
    reveal(on_loaded);
    reveal(is_orderly);
}

proof fn lemma_saved(
    r: RunnerView,
    turn: ActiveTurnView,
    item: StreamedUserContentView,
    failure: Option<Seq<char>>,
    now: u128,
)
    ensures
        is_orderly(on_persisted(r, turn, item, failure, now)),
{
    reveal(on_persisted);
    let none = Seq::<LoopEffectView>::empty();
    let next = ActiveTurnView { partial: with_result(turn.partial, item), ..turn };
    lemma_waits(r, none, next, ThenView::Ended, now);
    if let Some(reason) = failure {
        lemma_ends(
            r,
            none,
            EndReasonView::Idle,
            AgentLoopErrorView::ToolResultPersistence(reason),
            Seq::empty(),
            now,
        );
    }
}

/// Whatever a loop waits for, it waits until the deadline that comes first, and no longer. A loop
/// that ends or fails tells so last, with the reason or the error and with the history that it has,
/// and does nothing more.
pub proof fn law_loops_wait_in_time_and_tell_their_end(r: RunnerView, input: LoopInputView, now: u128)
    requires
        expects(r.phase, input),
    ensures
        ({
            let next = step(r, input, now);
            &&& waits_in_time(next)
            &&& tells_its_end(next)
            &&& next.request is Finish || next.request is Fail ==> next.runner.phase is Done
        }),
        waits_in_time(first_step(r, now)),
{
    let s = RunnerView { phase: LoopPhaseView::Done, ..r };
    lemma_starts(r, Seq::empty(), now);
    match r.phase {
        LoopPhaseView::Loading => {
            lemma_starts(s, input->Loaded_0, now);
        },
        LoopPhaseView::Draining { again } => {
            lemma_between(s, again, input, now);
        },
        LoopPhaseView::Idle => {
            lemma_between(s, false, input, now);
        },
        LoopPhaseView::Opening { turn } => {
            lemma_running(s, turn, input, now);
        },
        LoopPhaseView::Running { turn } => {
            lemma_running(s, turn, input, now);
        },
        LoopPhaseView::Hooked { turn, then } => {
            lemma_hooked(s, turn, then, input, now);
        },
        LoopPhaseView::Persisting { turn, item } => {
            lemma_saved(s, turn, item, input->Persisted_0, now);
        },
        LoopPhaseView::Committing { turn, messages, event, after } => {
            match input->HookAnswered_0 {
                Ok(action) => {
                    lemma_answered(s, turn, messages, event, after, action, now);
                },
                Err(reason) => {
                    lemma_ends(
                        s,
                        Seq::empty(),
                        EndReasonView::Idle,
                        AgentLoopErrorView::TurnHook(reason),
                        Seq::empty(),
                        now,
                    );
                },
            }
        },
        LoopPhaseView::Done => {},
    }
    assert(is_orderly(step(r, input, now)));
    reveal(is_orderly);
}

/// What a loop takes in each phase; one that is over takes nothing.
pub proof fn law_loops_take_what_they_wait_for(phase: LoopPhaseView, input: LoopInputView)
    ensures
        expects(phase, input) <==> match input {
            LoopInputView::Loaded(_) => phase is Loading,
            LoopInputView::NoCommand => phase is Draining,
            LoopInputView::Command(_) => phase is Draining || phase is Idle || phase is Opening
                || phase is Running,
            LoopInputView::Closed => phase is Idle || phase is Opening || phase is Running,
            LoopInputView::DeadlineElapsed => phase is Idle || phase is Opening || phase is Running
                || phase is Hooked,
            LoopInputView::Opened => phase is Opening,
            LoopInputView::HookDone(_) => phase is Hooked || (phase matches LoopPhaseView::Running { turn }
                && turn.hook_running),
            LoopInputView::Item(_) => phase is Running,
            LoopInputView::Failed(_) => phase is Running,
            LoopInputView::Ended => phase is Running,
            LoopInputView::Persisted(_) => phase is Persisting,
            LoopInputView::HookAnswered(_) => phase is Committing,
        },
{
}

} // verus!
