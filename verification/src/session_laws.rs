//! What a session is for: what it may be started with, how it answers what it is asked, which
//! signals it takes up, and by when.
use crate::identity::uuid_text;
use crate::journal::{
    is_history, is_journal, is_signal, law_journals_are_not_refused, law_only_the_seam_matters,
    law_signals_extend_a_history, refusal, seam, tail_calls,
};
use crate::message::MessageView;
use crate::protocol::{
    expects, first_step, fresh_turn, io_deadline, no_usage, step, still_open, ActorView,
    CheckpointView, CommandView, EffectView, FailureView, InputView, Moment, Origin, PhaseView,
    RequestView,
};
use crate::protocol_laws::storage_deadline;
use crate::queue::{
    law_restored_entries_keep_their_order, queue_has, queue_len, waiting, QueueView,
};
use crate::session::{
    all_reached, asked_timeouts, first_pending_fault, pending_fault, start_fault, started,
    submission_fault, EndReasonView, ErrorView, SessionView,
};
use crate::store::{entry_ids, entry_messages, new_entry, InboxEntryView, InboxStatus, SignalKind};
use vstd::prelude::*;

verus! {

/// Whether entries may wait when a session starts: each carries a signal under an id of its own.
pub open spec fn may_wait(pending: Seq<InboxEntryView>) -> bool {
    &&& forall|k: int| 0 <= k < pending.len() ==> is_signal((#[trigger] pending[k]).message)
    &&& forall|k: int| 0 <= k < pending.len() ==> (#[trigger] pending[k]).id.len() > 0
    &&& forall|j: int, k: int|
        0 <= j < k < pending.len() ==> (#[trigger] pending[j]).id != (#[trigger] pending[k]).id
}

proof fn lemma_pending_faults(pending: Seq<InboxEntryView>, from: int)
    requires
        0 <= from <= pending.len(),
    ensures
        first_pending_fault(pending, from) is None <==> (forall|k: int|
            from <= k < pending.len() ==> (#[trigger] pending_fault(pending, k)) is None),
    decreases pending.len() - from,
{
    if from < pending.len() {
        lemma_pending_faults(pending, from + 1);
        if first_pending_fault(pending, from) is None {
            assert forall|k: int| from <= k < pending.len() implies (#[trigger] pending_fault(pending, k)) is None by {
                if k > from {
                    assert(first_pending_fault(pending, from + 1) is None);
                }
            }
        }
    }
}

/// A session can be started exactly when its limits are positive and finite, the clock reaches as
/// far as its timeouts, its history is a journal, and the entries that wait may wait and are no
/// more than the capacity.
pub proof fn law_sessions_that_can_be_started(s: SessionView, in_range: bool)
    ensures
        start_fault(s, in_range) is None <==> {
            &&& s.capacity > 0
            &&& 0 < s.max_turns < usize::MAX
            &&& s.io_timeout > 0
            &&& in_range
            &&& is_journal(s.history)
            &&& s.pending.len() <= s.capacity
            &&& may_wait(s.pending)
        },
{
    let ids = entry_ids(s.pending);
    law_journals_are_not_refused(s.history);
    lemma_pending_faults(s.pending, 0);
    if first_pending_fault(s.pending, 0) is None {
        assert forall|k: int| 0 <= k < s.pending.len() implies is_signal((#[trigger] s.pending[k]).message)
            && s.pending[k].id.len() > 0 by {
            assert(pending_fault(s.pending, k) is None);
        }
        assert forall|j: int, k: int| 0 <= j < k < s.pending.len() implies (#[trigger] s.pending[j]).id != (
        #[trigger] s.pending[k]).id by {
            assert(pending_fault(s.pending, k) is None);
            assert(ids.take(k)[j] == s.pending[j].id);
        }
    }
    if may_wait(s.pending) {
        assert forall|k: int| 0 <= k < s.pending.len() implies (#[trigger] pending_fault(s.pending, k)) is None by {
            assert(is_signal(s.pending[k].message));
            if ids.take(k).contains(s.pending[k].id) {
                let j = choose|j: int| 0 <= j < k && ids.take(k)[j] == s.pending[k].id;
                assert(s.pending[j].id == s.pending[k].id);
            }
        }
    }
}

/// A session starts with everything that waits, kind by kind and in order, on the history that it
/// was given, and with a deadline exactly where it was given a timeout.
pub proof fn law_sessions_start_with_what_waits(s: SessionView, now: u128)
    ensures
        ({
            let a = started(s, now);
            &&& a.history == s.history
            &&& a.queue.immediate == s.pending.filter(|e: InboxEntryView| e.kind is Interrupt)
            &&& a.queue.steers == s.pending.filter(|e: InboxEntryView| e.kind is Steer)
            &&& a.queue.follow_ups == s.pending.filter(|e: InboxEntryView| e.kind is FollowUp)
            &&& !a.queue.resume && !a.paused && !a.idle
            &&& a.waiters.len() == 0 && a.receipts.len() == 0
            &&& a.capacity == s.capacity && a.max_turns == s.max_turns
            &&& a.turn_timeout == s.turn_timeout && a.io_timeout == s.io_timeout
            &&& a.loop_deadline is Some <==> s.loop_timeout is Some
            &&& a.loop_deadline matches Some(d) ==> is_time_after(now, s.loop_timeout->0, d)
        }),
{
    law_restored_entries_keep_their_order(s.pending);
}

/// Whether a time is so much later than another one; a time beyond the clock's range is its end.
pub open spec fn is_time_after(now: u128, timeout: u128, time: u128) -> bool {
    time == now + timeout || (now + timeout > u128::MAX && time == u128::MAX)
}

/// A journal without open calls needs no repair: the session looks for commands at once.
pub proof fn law_closed_journals_start_at_once(a: ActorView, moment: Moment)
    requires
        tail_calls(a.history).len() == 0,
        a.loop_deadline matches Some(d) ==> moment.now < d,
    ensures
        first_step(a, moment).request is TryCommand,
        first_step(a, moment).effects.len() == 0,
        first_step(a, moment).actor == (ActorView {
            phase: PhaseView::Draining { left: a.capacity },
            ..a
        }),
{
}

/// An entry may be submitted exactly when it carries a signal under an id.
pub proof fn law_entries_that_can_be_submitted(entry: InboxEntryView)
    ensures
        submission_fault(entry) is None <==> is_signal(entry.message) && entry.id.len() > 0,
{
}

/// A turn that starts now has a deadline exactly where it or the session is bounded: the earlier
/// of the two. It runs out as the session does exactly where the deadline is that of the session.
pub proof fn law_turns_are_bounded_by_the_earlier_deadline(a: ActorView, now: u128)
    ensures
        ({
            let turn = fresh_turn(a, now);
            &&& turn.deadline is None <==> a.turn_timeout is None && a.loop_deadline is None
            &&& turn.deadline matches Some(d) ==> {
                &&& a.turn_timeout matches Some(timeout) ==> d <= now + timeout
                &&& a.loop_deadline matches Some(l) ==> d <= l
                &&& a.loop_deadline == Some(d) || (a.turn_timeout matches Some(timeout)
                    && is_time_after(now, timeout, d))
            }
            &&& turn.timeout_reason is LoopTimedOut <==> turn.deadline is Some && turn.deadline
                == a.loop_deadline
            &&& turn.timeout_reason is LoopTimedOut || turn.timeout_reason is TurnTimedOut
            &&& turn.reason is None && turn.finish_reason is None
            &&& turn.usage == no_usage() && turn.usage_known && !turn.any_call
        }),
{
}

/// A running turn is waited for until its deadline, and ends there for the reason that the deadline
/// stands for; whatever stops it, it is stopped once.
pub proof fn law_turns_end_at_their_deadline(a: ActorView, moment: Moment)
    requires
        a.turn.reason is None,
    ensures
        a.phase is Opening ==> step(a, InputView::Opened, moment).request == (RequestView::AwaitTurn {
            deadline: a.turn.deadline,
        }),
        a.phase is Running ==> {
            let next = step(a, InputView::DeadlineElapsed, moment);
            &&& next.actor.turn.reason == Some(a.turn.timeout_reason)
            &&& next.request is TryCheckpoint
            &&& next.actor.queue == a.queue && next.actor.history == a.history
        },
{
}

/// A session that has run out of time stops for that reason instead of taking up anything more.
pub proof fn law_sessions_end_at_their_deadline(a: ActorView, moment: Moment)
    ensures
        a.phase is Idle ==> step(a, InputView::DeadlineElapsed, moment).request == RequestView::Stop(
            Ok(EndReasonView::LoopTimedOut),
        ),
        a.phase is Idle ==> step(a, InputView::Closed, moment).request == RequestView::Stop(
            Ok(EndReasonView::Aborted),
        ),
        a.phase is Running && a.turn.reason is None ==> step(
            a,
            InputView::Closed,
            moment,
        ).actor.turn.reason == Some(EndReasonView::Aborted),
        a.phase is Idle && a.loop_deadline is Some && moment.now >= a.loop_deadline->0 ==> forall|
            reply: u64,
        | #[trigger]
            step(a, InputView::Command(CommandView::History { reply }), moment).request
                == RequestView::Stop(Ok(EndReasonView::LoopTimedOut)),
{
}

/// Storage is bounded by the time that it may take, and during work by what bounds the work: the
/// earlier of the two counts.
pub proof fn law_storage_deadlines_are_the_earlier_ones(a: ActorView, now: u128, work: Option<u128>)
    ensures
        ({
            let by = io_deadline(a, now, work);
            &&& by <= now + a.io_timeout
            &&& work matches Some(d) ==> by <= d
            &&& work == Some(by) || is_time_after(now, a.io_timeout, by)
        }),
{
}

/// What a session asks of the store during a turn, or between two turns, is to be answered within
/// the time that storage may take and before the deadline of the turn and of the session.
pub proof fn law_questions_to_the_store_are_bounded(
    a: ActorView,
    entry: InboxEntryView,
    reply: u64,
    message: MessageView,
    moment: Moment,
)
    requires
        a.phase is Running || a.phase is Idle || a.phase is Draining,
    ensures
        storage_deadline(
            step(a, InputView::Command(CommandView::Submit { entry, reply }), moment).request,
        ) matches Some(by) ==> {
            &&& by <= moment.now + a.io_timeout
            &&& a.phase is Running ==> (a.turn.deadline matches Some(d) ==> by <= d)
            &&& a.phase !is Running ==> (a.loop_deadline matches Some(d) ==> by <= d)
        },
        a.phase is Running ==> (storage_deadline(
            step(
                a,
                InputView::Checkpoint(CheckpointView::Assistant(message)),
                moment,
            ).request,
        ) matches Some(by) ==> by <= moment.now + a.io_timeout && (a.turn.deadline matches Some(d)
            ==> by <= d)),
        a.phase is Draining ==> (storage_deadline(step(a, InputView::NoCommand, moment).request) matches Some(
            by,
        ) ==> by <= moment.now + a.io_timeout && (a.loop_deadline matches Some(d) ==> by <= d)),
{
}

/// The waits that are not closed are kept, in order, and no other.
proof fn lemma_open_waits(waiters: Seq<u64>, closed: Seq<u64>)
    ensures
        still_open(waiters, closed) == waiters.filter(|w: u64| !closed.contains(w)),
    decreases waiters.len(),
{
    reveal(Seq::filter);
    if waiters.len() > 0 {
        lemma_open_waits(waiters.drop_last(), closed);
    }
}

/// Whoever asks to wait waits behind the others, unless as many as the capacity wait already; then
/// the answer comes at once. Waits that were given up count no more.
pub proof fn law_waits_are_noted(a: ActorView, reply: u64, closed: Seq<u64>, moment: Moment)
    requires
        a.phase is Running || a.phase is Idle || (a.phase matches PhaseView::Draining { left } && left
            > 1),
        a.phase is Running ==> a.turn.reason is None,
    ensures
        ({
            let left = a.waiters.filter(|w: u64| !closed.contains(w));
            let next = step(a, InputView::Command(CommandView::Wait { reply, closed }), moment);
            if left.len() < a.capacity {
                next.actor.waiters == left.push(reply) && next.effects.len() == 0
            } else {
                next.actor.waiters == left && next.effects == seq![
                    EffectView::WaitReply { reply, result: Err(ErrorView::QueueFull) },
                ]
            }
        }),
        step(a, InputView::Command(CommandView::Wait { reply, closed }), moment).actor.queue == a.queue,
{
    lemma_open_waits(a.waiters, closed);
    assert(Seq::<EffectView>::empty().push(
        EffectView::WaitReply { reply, result: Err(ErrorView::QueueFull) },
    ) =~= seq![EffectView::WaitReply { reply, result: Err(ErrorView::QueueFull) }]);
}

/// Once nothing is left to do, everyone who waits is answered, in order and once: the `i`th answer
/// goes to the `i`th who waits. That the session is idle is told once until it works again.
pub proof fn law_everyone_who_waits_is_answered(a: ActorView, moment: Moment)
    requires
        a.phase is Draining,
        !a.paused,
        queue_len(a.queue) == 0,
    ensures
        ({
            let next = step(a, InputView::NoCommand, moment);
            &&& forall|i: int|
                0 <= i < a.waiters.len() ==> #[trigger] next.effects[i] == (EffectView::WaitReply {
                    reply: a.waiters[i],
                    result: Ok(EndReasonView::Idle),
                })
            &&& next.effects.len() == a.waiters.len() + (if a.idle {
                0int
            } else {
                1
            })
            &&& !a.idle ==> next.effects.last() == EffectView::Idle
            &&& next.actor.waiters.len() == 0
            &&& next.actor.idle
            &&& next.actor.phase is Idle
            &&& next.request == (RequestView::AwaitCommand { deadline: a.loop_deadline })
            &&& next.actor.history == a.history
        }),
{
}

/// A resume outside a turn is accepted exactly when the history ends with a message of the user or
/// of the assistant and there is room for it, which a resume that waits already has made. It then
/// waits to be run. Where the history is empty or ends with a system message it is refused as such.
pub proof fn law_resumes_are_answered(a: ActorView, reply: u64, moment: Moment)
    requires
        a.phase is Idle || (a.phase matches PhaseView::Draining { left } && left > 0),
    ensures
        ({
            let next = step(a, InputView::Command(CommandView::Resume { reply }), moment);
            let ends = a.history.len() > 0 && (a.history.last() is User || a.history.last() is Assistant);
            let room = a.queue.resume || a.queue.immediate.len() + a.queue.steers.len()
                + a.queue.follow_ups.len() < a.capacity;
            let last = a.phase == (PhaseView::Draining { left: 1 });
            &&& next.effects.len() > 0
            &&& next.actor.history == a.history
            &&& !last ==> next.effects.len() == 1 && next.actor.waiters == a.waiters
            &&& ends && room ==> next.effects[0] == (EffectView::ResumeReply { reply, result: Ok(()) })
            &&& ends && room && !last ==> next.actor.queue == (QueueView { resume: true, ..a.queue })
            &&& !ends ==> {
                &&& next.effects[0] matches EffectView::ResumeReply { reply: r, result }
                &&& r == reply
                &&& result is Err && result->Err_0 is InvalidHistory
            }
            &&& ends && !room ==> next.effects[0] == (EffectView::ResumeReply {
                reply,
                result: Err(ErrorView::QueueFull),
            })
            &&& !(ends && room) && !last ==> next.actor.queue == a.queue
        }),
{
}

/// A resume that is accepted is run: once its turn has come, it opens on the last message and the
/// history in front of it, and nothing is appended.
pub proof fn law_resumes_are_run(a: ActorView, reply: u64, moment: Moment, later: Moment)
    requires
        a.phase matches PhaseView::Draining { left } && left > 1,
        !a.paused,
        a.history.len() > 0,
        a.history.last() is User || a.history.last() is Assistant,
        queue_len(a.queue) == 0,
        a.capacity > 0,
    ensures
        ({
            let asked = step(a, InputView::Command(CommandView::Resume { reply }), moment).actor;
            let next = step(asked, InputView::NoCommand, later);
            &&& next.request == (RequestView::Open {
                prompt: a.history.last(),
                history: a.history.drop_last(),
                max_turns: a.max_turns,
            })
            &&& next.actor.history == a.history
            &&& queue_len(next.actor.queue) == 0
        }),
{
}

/// During a turn a resume is answered and does nothing.
pub proof fn law_resumes_during_a_turn_do_nothing(a: ActorView, reply: u64, moment: Moment)
    requires
        a.phase is Running,
        a.turn.reason is None,
    ensures
        ({
            let next = step(a, InputView::Command(CommandView::Resume { reply }), moment);
            &&& next.actor == a
            &&& next.effects == seq![EffectView::ResumeReply { reply, result: Ok(()) }]
            &&& next.request == (RequestView::AwaitTurn { deadline: a.turn.deadline })
        }),
{
    assert(Seq::<EffectView>::empty().push(EffectView::ResumeReply { reply, result: Ok(()) })
        =~= seq![EffectView::ResumeReply { reply, result: Ok(()) }]);
}

/// An abort ends the running turn, or the session where none runs; a pause lets the turn go on and
/// is remembered; neither touches what waits.
pub proof fn law_aborts_and_pauses(a: ActorView, moment: Moment)
    requires
        a.phase is Running || a.phase is Idle || a.phase is Draining,
        a.phase is Running ==> a.turn.reason is None,
    ensures
        ({
            let next = step(a, InputView::Command(CommandView::Abort), moment);
            &&& next.effects.len() == 0
            &&& next.actor.queue == a.queue && next.actor.history == a.history
            &&& a.phase is Running ==> next.actor.turn.reason == Some(EndReasonView::Aborted)
                && next.request is TryCheckpoint && next.actor.receipts == a.receipts
            &&& a.phase !is Running ==> next.request == RequestView::Stop(Ok(EndReasonView::Aborted))
        }),
        ({
            let next = step(a, InputView::Command(CommandView::Pause), moment);
            &&& next.actor.paused
            &&& next.effects.len() == 0
            &&& next.actor.queue == a.queue && next.actor.history == a.history
            &&& a.phase is Running ==> next.actor == (ActorView { paused: true, ..a })
            &&& a.phase matches PhaseView::Draining { left } ==> {
                &&& left > 1 ==> next.request is TryCommand
                &&& left == 1 ==> next.request == RequestView::Stop(Ok(EndReasonView::Paused))
            }
        }),
{
}

/// Between two turns no more commands are taken than the capacity; then the session goes on as if
/// no further command had come. While nothing is to be done, a command starts another such round.
pub proof fn law_commands_do_not_keep_turns_waiting(a: ActorView, reply: u64, moment: Moment)
    ensures
        ({
            let next = step(a, InputView::Command(CommandView::History { reply }), moment);
            let without = step(a, InputView::NoCommand, moment);
            &&& a.phase matches PhaseView::Draining { left } ==> {
                &&& left > 1 ==> next.request is TryCommand && next.actor == (ActorView {
                    phase: PhaseView::Draining { left: (left - 1) as usize },
                    ..a
                })
                &&& left == 1 ==> next.request == without.request && next.actor == without.actor
            }
            &&& a.phase is Idle && (a.loop_deadline matches Some(d) ==> moment.now < d) ==> next.request
                is TryCommand && next.actor == (ActorView {
                phase: PhaseView::Draining { left: a.capacity },
                ..a
            })
        }),
{
}

/// Whoever asks for the history is given it as it is.
pub proof fn law_history_is_told(a: ActorView, reply: u64, moment: Moment)
    requires
        a.phase is Running || a.phase is Idle || a.phase is Draining,
    ensures
        ({
            let next = step(a, InputView::Command(CommandView::History { reply }), moment);
            &&& next.effects.len() > 0
            &&& next.effects[0] == (EffectView::HistoryReply { reply, history: a.history })
            &&& next.actor.history == a.history
        }),
{
}

/// A signal reaches the store before it is answered or waits, unless the session is full of other
/// ones; nothing is changed or told before the store has answered.
pub proof fn law_signals_are_stored_first(a: ActorView, entry: InboxEntryView, reply: u64, moment: Moment)
    requires
        a.phase is Running || a.phase is Idle || a.phase is Draining,
        a.queue.immediate.len() + a.queue.steers.len() + a.queue.follow_ups.len() + (if a.queue.resume {
            1int
        } else {
            0
        }) < a.capacity || (exists|k: int|
            0 <= k < waiting(a.queue).len() && (#[trigger] waiting(a.queue)[k]).id == entry.id),
    ensures
        ({
            let next = step(a, InputView::Command(CommandView::Submit { entry, reply }), moment);
            &&& next.request matches RequestView::Submit { entry: asked, .. } && asked == entry
            &&& next.effects.len() == 0
            &&& next.actor == (ActorView { phase: next.actor.phase, ..a })
        }),
{
    let ids = entry_ids(waiting(a.queue));
    if exists|k: int| 0 <= k < waiting(a.queue).len() && (#[trigger] waiting(a.queue)[k]).id == entry.id {
        let k = choose|k: int|
            0 <= k < waiting(a.queue).len() && (#[trigger] waiting(a.queue)[k]).id == entry.id;
        assert(ids[k] == entry.id);
    }
}

/// The store's answer is passed on. A signal that it holds as pending, and that does not wait yet,
/// waits from then on: an interrupt before all others, the others behind those of their kind.
/// Anything else leaves what waits as it is.
pub proof fn law_stored_signals_wait(
    a: ActorView,
    entry: InboxEntryView,
    reply: u64,
    origin: Origin,
    status: InboxStatus,
    moment: Moment,
)
    requires
        a.phase == (PhaseView::Submitting { entry, reply, origin }),
        origin != (Origin::Draining { left: 0 }),
        origin is Running ==> a.turn.reason is None,
    ensures
        ({
            let next = step(a, InputView::Submitted(Ok(status)), moment);
            let q = a.queue;
            let new = status is Pending && (forall|k: int|
                0 <= k < waiting(q).len() ==> (#[trigger] waiting(q)[k]).id != entry.id);
            &&& next.effects == seq![EffectView::SubmitReply { reply, result: Ok(status) }]
            &&& next.actor.history == a.history
            &&& !new ==> next.actor.queue == q
            &&& new && entry.kind is Interrupt ==> next.actor.queue == (QueueView {
                immediate: seq![entry] + q.immediate,
                ..q
            })
            &&& new && entry.kind is Steer ==> next.actor.queue == (QueueView {
                steers: q.steers.push(entry),
                ..q
            })
            &&& new && entry.kind is FollowUp ==> next.actor.queue == (QueueView {
                follow_ups: q.follow_ups.push(entry),
                ..q
            })
            &&& next.actor.turn.reason == (if new && entry.kind is Interrupt && !a.paused
                && origin is Running {
                Some(EndReasonView::Interrupted)
            } else {
                a.turn.reason
            })
            &&& origin is Running && next.actor.turn.reason is None ==> next.actor.phase is Running
            &&& origin matches Origin::Draining { left } ==> next.actor.phase == (PhaseView::Draining {
                left,
            })
        }),
{
    let ids = entry_ids(waiting(a.queue));
    assert forall|k: int| 0 <= k < waiting(a.queue).len() implies (#[trigger] waiting(a.queue)[k]).id == ids[k] by {}
    if queue_has(a.queue, entry.id) {
        let k = choose|k: int| 0 <= k < ids.len() && ids[k] == entry.id;
        assert(waiting(a.queue)[k].id == entry.id);
    } else {
        assert forall|k: int| 0 <= k < waiting(a.queue).len() implies (#[trigger] waiting(a.queue)[k]).id != entry.id by {
            assert(ids[k] == waiting(a.queue)[k].id);
        }
    }
    assert(Seq::<EffectView>::empty().push(EffectView::SubmitReply { reply, result: Ok(status) })
        =~= seq![EffectView::SubmitReply { reply, result: Ok(status) }]);
}

/// A signal that the store refuses is answered so and does not wait; one whose fate is unknown stops
/// the session.
pub proof fn law_refused_signals_do_not_wait(
    a: ActorView,
    entry: InboxEntryView,
    reply: u64,
    origin: Origin,
    failure: FailureView,
    moment: Moment,
)
    requires
        a.phase == (PhaseView::Submitting { entry, reply, origin }),
        origin != (Origin::Draining { left: 0 }),
        origin is Running ==> a.turn.reason is None,
    ensures
        ({
            let next = step(a, InputView::Submitted(Err(failure)), moment);
            &&& next.actor.queue == a.queue && next.actor.history == a.history
            &&& failure is TimedOut ==> (next.request matches RequestView::Stop(result) && result is Err
                && result->Err_0 is Store)
            &&& failure matches FailureView::Refused(text) ==> {
                &&& origin is Running ==> next.request is AwaitTurn
                &&& origin is Draining ==> next.request is TryCommand
                &&& next.effects.len() == 1
                &&& next.effects[0] matches EffectView::SubmitReply { reply: r, result }
                &&& r == reply
                &&& result matches Err(ErrorView::Store { message, .. }) && message == text
            }
        }),
{
}

/// Whether what waits are signals.
pub open spec fn are_signals(entries: Seq<InboxEntryView>) -> bool {
    forall|k: int| 0 <= k < entries.len() ==> is_signal((#[trigger] entries[k]).message)
}

proof fn lemma_signals_are_admitted(history: Seq<MessageView>, entries: Seq<InboxEntryView>)
    requires
        is_history(history),
        are_signals(entries),
    ensures
        refusal(seam(history) + entry_messages(entries), true) is None,
{
    let messages = entry_messages(entries);
    assert forall|i: int| 0 <= i < messages.len() implies is_signal(#[trigger] messages[i]) by {
        assert(is_signal(entries[i].message));
    }
    law_signals_extend_a_history(history, messages);
    law_only_the_seam_matters(history, messages);
    law_journals_are_not_refused(seam(history) + messages);
}

/// The turn that comes next takes up the newest interrupt; without one, all steering signals
/// together; without those, a resume; without one, the oldest follow-up. It commits the messages of
/// what it takes up, in order, and acknowledges exactly those entries, in one commit. Everything
/// else goes on waiting.
pub proof fn law_turns_commit_what_they_take_up(a: ActorView, moment: Moment)
    requires
        a.phase is Draining,
        !a.paused,
        is_history(a.history),
        a.history.len() <= usize::MAX,
        are_signals(a.queue.immediate),
        are_signals(a.queue.steers),
        are_signals(a.queue.follow_ups),
        a.queue.immediate.len() > 0 || a.queue.steers.len() > 0 || (!a.queue.resume
            && a.queue.follow_ups.len() > 0),
    ensures
        ({
            let q = a.queue;
            let next = step(a, InputView::NoCommand, moment);
            let taken = if q.immediate.len() > 0 {
                seq![q.immediate.first()]
            } else if q.steers.len() > 0 {
                q.steers
            } else {
                seq![q.follow_ups.first()]
            };
            &&& next.request matches RequestView::Commit { commit, .. } && {
                &&& commit.id == moment.commit_id
                &&& commit.expected_messages == a.history.len()
                &&& commit.messages.len() == taken.len()
                &&& forall|i: int|
                    0 <= i < taken.len() ==> #[trigger] commit.messages[i] == taken[i].message
                &&& commit.ack_inbox_ids.len() == taken.len()
                &&& forall|i: int| 0 <= i < taken.len() ==> #[trigger] commit.ack_inbox_ids[i] == taken[i].id
                &&& commit.outcome is None
            }
            &&& next.actor.queue == (if q.immediate.len() > 0 {
                QueueView { immediate: q.immediate.drop_first(), ..q }
            } else if q.steers.len() > 0 {
                QueueView { steers: Seq::empty(), ..q }
            } else {
                QueueView { follow_ups: q.follow_ups.drop_first(), ..q }
            })
            &&& next.actor.turn == fresh_turn(a, moment.now)
            &&& next.effects.len() == 0
            &&& next.actor.history == a.history
        }),
{
    let q = a.queue;
    let taken = if q.immediate.len() > 0 {
        seq![q.immediate.first()]
    } else if q.steers.len() > 0 {
        q.steers
    } else {
        seq![q.follow_ups.first()]
    };
    assert(are_signals(taken)) by {
        assert forall|k: int| 0 <= k < taken.len() implies is_signal((#[trigger] taken[k]).message) by {
            if q.immediate.len() > 0 {
                assert(is_signal(q.immediate[0].message));
            } else if q.steers.len() > 0 {
                assert(is_signal(q.steers[k].message));
            } else {
                assert(is_signal(q.follow_ups[0].message));
            }
        }
    }
    lemma_signals_are_admitted(a.history, taken);
    if q.immediate.len() > 0 {
        assert(q.immediate.skip(1) =~= q.immediate.drop_first());
    } else if q.steers.len() == 0 {
        assert(q.follow_ups.skip(1) =~= q.follow_ups.drop_first());
    }
}

/// The clock is asked for the time that storage may take, and for the timeouts of a turn and of the
/// session where they are set; each of them has to be reached.
pub proof fn law_the_clock_is_asked_for_each_timeout(s: SessionView, answers: Seq<bool>)
    ensures
        asked_timeouts(s).contains(s.io_timeout),
        s.turn_timeout matches Some(timeout) ==> asked_timeouts(s).contains(timeout),
        s.loop_timeout matches Some(timeout) ==> asked_timeouts(s).contains(timeout),
        asked_timeouts(s).len() == 1 + (if s.turn_timeout is Some {
            1int
        } else {
            0
        }) + (if s.loop_timeout is Some {
            1int
        } else {
            0
        }),
        all_reached(answers) <==> !answers.contains(false),
{
    let asked = asked_timeouts(s);
    assert(asked[0] == s.io_timeout);
    if s.turn_timeout is Some {
        assert(asked[1] == s.turn_timeout->0);
    }
    if s.loop_timeout is Some {
        assert(asked[asked.len() - 1] == s.loop_timeout->0);
    }
    if !answers.contains(false) {
        assert forall|i: int| 0 <= i < answers.len() implies answers[i] by {
            if !answers[i] {
                assert(answers.contains(answers[i]));
            }
        }
    }
}

/// Every question has its answers: what a session asks for in a phase is what it takes there, and
/// one that has stopped takes nothing.
pub proof fn law_questions_have_their_answers(phase: PhaseView, input: InputView)
    ensures
        expects(phase, input) <==> match input {
            InputView::Loaded(_) => phase is Repairing,
            InputView::Stored(_) => phase is Committing || phase is Saving,
            InputView::Submitted(_) => phase is Submitting,
            InputView::NoCommand => phase is Draining,
            InputView::Command(_) => phase is Draining || phase is Idle || phase is Running,
            InputView::Closed => phase is Idle || phase is Running,
            InputView::DeadlineElapsed => phase is Idle || phase is Running,
            InputView::Opened => phase is Opening,
            InputView::Checkpoint(_) => phase is Running || phase is Settling,
            InputView::NoCheckpoint => phase is Settling,
            InputView::Item(_) => phase is Running,
            InputView::Failed(_) => phase is Running,
            InputView::Ended => phase is Running,
        },
{
}

/// A new signal carries what it was made of, under the text of its id.
pub proof fn law_new_signals_carry_what_they_are_made_of(
    kind: SignalKind,
    message: MessageView,
    bits: u128,
    now: i128,
)
    ensures
        ({
            let entry = new_entry(kind, message, bits, now);
            entry.kind == kind && entry.message == message && entry.id == uuid_text(bits)
                && entry.submitted_at == now
        }),
{
}

} // verus!
