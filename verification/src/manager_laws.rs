//! What a manager is for: every signal reaches a loop, in order, and everyone who waits is told.
use crate::api::{CommandView, EndReasonView};
use crate::durable::{durable_error_text, DurableAgentErrorView, DurableInboxKind};
use crate::manager::{
    manager_expects, manager_step, new_manager, DurableManagerView, ManagerCommandView,
    ManagerEffectView, ManagerInputView, ManagerPhaseView, ManagerRequestView, QueuedSignalView,
};
use crate::message::{calls_of, MessageView};
use vstd::prelude::*;

verus! {

/// Whether the history that a manager was given is still to be gone on with: it ends with a message
/// of the user or with calls.
pub open spec fn is_unfinished(m: DurableManagerView) -> bool {
    !m.did_continue_initial_state && m.initial_history.len() > 0 && (m.initial_history.last() is User
        || calls_of(m.initial_history.last()).len() > 0)
}

/// A signal that comes while no loop runs is run, behind those that wait already.
pub proof fn law_signals_start_a_loop(m: DurableManagerView, signal: QueuedSignalView)
    requires
        m.phase is Waiting,
        m.failed_message is None,
    ensures
        ({
            let next = manager_step(
                m,
                ManagerInputView::Command(ManagerCommandView::Signal(signal)),
            );
            let waiting = m.pending.push(signal);
            &&& next.request == ManagerRequestView::RunPrompt(waiting.first().message)
            &&& next.manager.pending == waiting.drop_first()
            &&& next.manager.phase == (ManagerPhaseView::Active { closed: false })
            &&& next.manager.waiters == m.waiters
            &&& next.effects.len() == 0
        }),
{
    assert(m.pending.push(signal).skip(1) =~= m.pending.push(signal).drop_first());
}

/// Signals are handed to a running loop in the order in which they came, each as the command of its
/// kind; those that it does not take wait, in their order, for the next loop.
pub proof fn law_signals_are_forwarded_in_order(m: DurableManagerView, signal: QueuedSignalView)
    requires
        m.phase == (ManagerPhaseView::Active { closed: false }),
    ensures
        ({
            let next = manager_step(
                m,
                ManagerInputView::Command(ManagerCommandView::Signal(signal)),
            );
            let waiting = m.pending.push(signal);
            let first = waiting.first();
            &&& next.request == ManagerRequestView::Forward(
                match first.kind {
                    DurableInboxKind::Steer => CommandView::Steer(first.message),
                    DurableInboxKind::FollowUp => CommandView::FollowUp(first.message),
                    DurableInboxKind::Interrupt => CommandView::Interrupt(first.message),
                },
            )
            &&& next.manager.phase == ManagerPhaseView::ForwardingSignal(first)
            &&& next.manager.pending == waiting.drop_first()
            &&& next.effects.len() == 0
            &&& ({
                let taken = manager_step(next.manager, ManagerInputView::Forwarded(true));
                let refused = manager_step(next.manager, ManagerInputView::Forwarded(false));
                &&& refused.manager.pending == waiting
                &&& refused.manager.phase == (ManagerPhaseView::Active { closed: true })
                &&& refused.request is AwaitLoop
                &&& m.pending.len() == 0 ==> taken.request is AwaitLoop
                    && taken.manager.pending.len() == 0
                &&& m.pending.len() > 0 ==> taken.request is Forward && taken.manager.pending
                    == waiting.drop_first().drop_first()
            })
        }),
{
    let waiting = m.pending.push(signal);
    assert(waiting.skip(1) =~= waiting.drop_first());
    assert(seq![waiting[0]] + waiting.skip(1) =~= waiting);
    assert(waiting.skip(1).skip(1) =~= waiting.drop_first().drop_first());
}

/// A loop that starts is handed what waits at once; one that takes no more commands is handed
/// nothing, and signals wait.
pub proof fn law_signals_wait_for_a_loop(m: DurableManagerView, signal: QueuedSignalView)
    requires
        m.phase is Active,
    ensures
        m.pending.len() == 0 ==> manager_step(m, ManagerInputView::Started).request is AwaitLoop,
        m.pending.len() > 0 ==> manager_step(m, ManagerInputView::Started).request is Forward,
        m.phase == (ManagerPhaseView::Active { closed: true }) ==> {
            let next = manager_step(
                m,
                ManagerInputView::Command(ManagerCommandView::Signal(signal)),
            );
            next.manager.pending == m.pending.push(signal) && next.request is AwaitLoop
        },
{
}

/// An abort while no loop runs drops what waits and is what the next who waits is told; while one
/// runs it is handed to it, and what waits goes on waiting.
pub proof fn law_aborts_reach_the_loop(m: DurableManagerView)
    ensures
        m.phase is Waiting && m.failed_message is None && !is_unfinished(m) ==> {
            let next = manager_step(m, ManagerInputView::Command(ManagerCommandView::Abort));
            &&& next.manager.pending.len() == 0
            &&& next.request is AwaitCommand
            &&& m.waiters.len() == 0 ==> next.manager.last_end_reason is Aborted
        },
        m.phase is Active ==> {
            let next = manager_step(m, ManagerInputView::Command(ManagerCommandView::Abort));
            &&& next.request == ManagerRequestView::Forward(CommandView::Abort)
            &&& next.manager.pending == m.pending && next.manager.waiters == m.waiters
        },
        m.phase is ForwardingAbort ==> manager_step(
            m,
            ManagerInputView::Forwarded(true),
        ).request is AwaitLoop,
{
}

/// Once a loop is over and nothing is left to do, everyone who waits is told why it ended, in order
/// and once; whoever waits later is told that nothing was run.
pub proof fn law_everyone_who_waits_is_told(
    m: DurableManagerView,
    reason: EndReasonView,
    history: Seq<MessageView>,
)
    requires
        m.phase is Active,
        m.failed_message is None,
        m.pending.len() == 0,
        !is_unfinished(DurableManagerView { initial_history: history, ..m }),
    ensures
        ({
            let next = manager_step(m, ManagerInputView::Finished(reason, history));
            &&& next.effects.len() == m.waiters.len()
            &&& forall|i: int|
                0 <= i < m.waiters.len() ==> #[trigger] next.effects[i] == (ManagerEffectView::Reply {
                    waiter: m.waiters[i],
                    result: Ok(reason),
                })
            &&& next.manager.waiters.len() == 0
            &&& next.manager.initial_history == history
            &&& next.manager.last_end_reason == (if m.waiters.len() > 0 {
                EndReasonView::NoRun
            } else {
                reason
            })
            &&& next.manager.phase is Waiting
            &&& next.request is AwaitCommand
        }),
{
}

/// Whoever asks to wait while nothing is to be done is told at once why the last loop ended; while a
/// loop runs, they wait behind the others; before the history is gone on with, it is.
pub proof fn law_waits_are_answered_or_noted(m: DurableManagerView, waiter: u64)
    requires
        m.failed_message is None,
        m.pending.len() == 0,
    ensures
        ({
            let next = manager_step(m, ManagerInputView::Command(ManagerCommandView::Wait(waiter)));
            &&& m.phase is Waiting && !is_unfinished(m) ==> {
                &&& next.effects.len() == m.waiters.len() + 1
                &&& next.effects.last() == (ManagerEffectView::Reply {
                    waiter,
                    result: Ok(m.last_end_reason),
                })
                &&& next.manager.waiters.len() == 0
            }
            &&& m.phase is Waiting && is_unfinished(m) ==> {
                &&& next.request is RunResume
                &&& next.effects.len() == 0
                &&& next.manager.waiters == m.waiters.push(waiter)
                &&& next.manager.did_continue_initial_state
            }
            &&& m.phase is Active ==> next.manager.waiters == m.waiters.push(waiter)
                && next.effects.len() == 0 && next.request is AwaitLoop
        }),
{
}

/// A loop that fails is told to everyone who waits, in order: the first the error itself, the others
/// its words. The manager has failed from then on.
pub proof fn law_failures_are_told(m: DurableManagerView, error: DurableAgentErrorView)
    requires
        m.phase is Active,
    ensures
        ({
            let next = manager_step(m, ManagerInputView::Failed(error));
            &&& next.effects.len() == m.waiters.len()
            &&& forall|i: int|
                0 <= i < m.waiters.len() ==> #[trigger] next.effects[i] == (ManagerEffectView::Reply {
                    waiter: m.waiters[i],
                    result: Err(
                        if i == 0 {
                            error
                        } else {
                            DurableAgentErrorView::ManagerFailed(durable_error_text(error))
                        },
                    ),
                })
            &&& next.manager.failed_message == Some(durable_error_text(error))
            &&& next.manager.waiters.len() == 0
            &&& next.request is AwaitCommand
        }),
{
}

/// A manager starts with nothing to run but its history, and is done once no further command can
/// come while no loop runs.
pub proof fn law_managers_start_and_return(history: Seq<MessageView>, m: DurableManagerView)
    ensures
        ({
            let fresh = new_manager(history);
            &&& fresh.initial_history == history
            &&& fresh.pending.len() == 0 && fresh.waiters.len() == 0
            &&& fresh.last_end_reason is NoRun && fresh.failed_message is None
            &&& !fresh.did_continue_initial_state
        }),
        m.phase is Waiting ==> manager_step(m, ManagerInputView::Closed).request is Return,
{
}

/// What a manager takes in each phase; one that is done takes nothing.
pub proof fn law_managers_take_what_they_wait_for(phase: ManagerPhaseView, input: ManagerInputView)
    ensures
        manager_expects(phase, input) <==> match input {
            ManagerInputView::Command(_) => phase is Waiting || phase is Active,
            ManagerInputView::Closed => phase is Waiting || phase is Active,
            ManagerInputView::Started => phase is Active,
            ManagerInputView::Forwarded(_) => phase is ForwardingSignal || phase is ForwardingAbort,
            ManagerInputView::Finished(_, _) => phase is Active,
            ManagerInputView::Failed(_) => phase is Active,
        },
{
}

/// A running loop that can be given no more, and one that does not take an abort, fail the manager.
pub proof fn law_lost_loops_fail_the_manager(m: DurableManagerView)
    ensures
        m.phase is Active ==> {
            let next = manager_step(m, ManagerInputView::Closed);
            next.manager.failed_message == Some(
                durable_error_text(DurableAgentErrorView::CommandChannelClosed),
            ) && next.request is AwaitCommand
        },
        m.phase is ForwardingAbort ==> {
            let next = manager_step(m, ManagerInputView::Forwarded(false));
            next.manager.failed_message == Some(
                durable_error_text(DurableAgentErrorView::CommandChannelClosed),
            ) && next.request is AwaitCommand
        },
{
}

} // verus!
