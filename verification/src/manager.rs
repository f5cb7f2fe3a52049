//! The rules by which a manager runs one loop after the other on the signals that come.
use crate::api::{Command, CommandView, EndReason, EndReasonView};
use crate::deep::result_view;
use crate::durable::{
    differs_in_id, durable_error_text, has_plain_text, message_id, tag_message_with_inbox_id,
    tagged, DurableAgentError, DurableAgentErrorView, DurableInboxEntry, DurableInboxEntryView,
    DurableInboxKind, DurableInboxStatus,
};
use crate::identity::{fresh_uuid, is_random_uuid, render_uuid, uuid_text};
use crate::journal::calls;
use crate::message::{calls_of, Message, MessageView};
use std::collections::VecDeque;
use vstd::prelude::*;

verus! {

/// A signal that waits for a loop.
#[derive(Debug, PartialEq, Eq)]
pub struct QueuedSignal {
    pub kind: DurableInboxKind,
    pub message: Message,
}

/// The value of a [`QueuedSignal`].
pub struct QueuedSignalView {
    pub kind: DurableInboxKind,
    pub message: MessageView,
}

impl DeepView for QueuedSignal {
    type V = QueuedSignalView;

    open spec fn deep_view(&self) -> QueuedSignalView {
        QueuedSignalView {
            kind: self.kind,
            message: self.message.deep_view(),
        }
    }
}

/// What a manager is asked from outside. A reply is asked for under a number.
#[derive(Debug, PartialEq, Eq)]
pub enum ManagerCommand {
    Signal(QueuedSignal),
    Abort,
    Wait(u64),
}

/// The value of a [`ManagerCommand`].
pub enum ManagerCommandView {
    Signal(QueuedSignalView),
    Abort,
    Wait(u64),
}

impl DeepView for ManagerCommand {
    type V = ManagerCommandView;

    open spec fn deep_view(&self) -> ManagerCommandView {
        match self {
            ManagerCommand::Signal(x) => ManagerCommandView::Signal(x.deep_view()),
            ManagerCommand::Abort => ManagerCommandView::Abort,
            ManagerCommand::Wait(x) => ManagerCommandView::Wait(*x),
        }
    }
}

/// What happened.
#[derive(Debug, PartialEq, Eq)]
pub enum ManagerInput {
    Command(ManagerCommand),
    /// No further command can come.
    Closed,
    /// The loop runs.
    Started,
    /// Whether the running loop took the command.
    Forwarded(bool),
    /// The loop is over, for a reason and with a history.
    Finished(EndReason, Vec<Message>),
    /// The loop or an observer failed.
    Failed(DurableAgentError),
}

/// The value of a [`ManagerInput`].
pub enum ManagerInputView {
    Command(ManagerCommandView),
    Closed,
    Started,
    Forwarded(bool),
    Finished(EndReasonView, Seq<MessageView>),
    Failed(DurableAgentErrorView),
}

impl DeepView for ManagerInput {
    type V = ManagerInputView;

    open spec fn deep_view(&self) -> ManagerInputView {
        match self {
            ManagerInput::Command(x) => ManagerInputView::Command(x.deep_view()),
            ManagerInput::Closed => ManagerInputView::Closed,
            ManagerInput::Started => ManagerInputView::Started,
            ManagerInput::Forwarded(x) => ManagerInputView::Forwarded(*x),
            ManagerInput::Finished(x, y) => ManagerInputView::Finished(x.deep_view(), y.deep_view()),
            ManagerInput::Failed(x) => ManagerInputView::Failed(x.deep_view()),
        }
    }
}

/// What is to be told, in order, before the next request is carried out.
#[derive(Debug, PartialEq, Eq)]
pub enum ManagerEffect {
    Reply { waiter: u64, result: Result<EndReason, DurableAgentError> },
}

/// The value of a [`ManagerEffect`].
pub enum ManagerEffectView {
    Reply { waiter: u64, result: Result<EndReasonView, DurableAgentErrorView> },
}

impl DeepView for ManagerEffect {
    type V = ManagerEffectView;

    open spec fn deep_view(&self) -> ManagerEffectView {
        match self {
            ManagerEffect::Reply { waiter, result } => ManagerEffectView::Reply { waiter: *waiter, result: result_view(*result) },
        }
    }
}

/// What is to be done next.
#[derive(Debug, PartialEq, Eq)]
pub enum ManagerRequest {
    AwaitCommand,
    /// Start a loop on a prompt; it is to finish when idle. Then report as for the next one.
    RunPrompt(Message),
    /// Start a loop on its history; it is to finish when idle. Then report as for the next one.
    RunResume,
    /// Hand the running loop a command.
    Forward(Command),
    /// Wait for the loop or for a command.
    AwaitLoop,
    /// The manager is done.
    Return,
}

/// The value of a [`ManagerRequest`].
pub enum ManagerRequestView {
    AwaitCommand,
    RunPrompt(MessageView),
    RunResume,
    Forward(CommandView),
    AwaitLoop,
    Return,
}

impl DeepView for ManagerRequest {
    type V = ManagerRequestView;

    open spec fn deep_view(&self) -> ManagerRequestView {
        match self {
            ManagerRequest::AwaitCommand => ManagerRequestView::AwaitCommand,
            ManagerRequest::RunPrompt(x) => ManagerRequestView::RunPrompt(x.deep_view()),
            ManagerRequest::RunResume => ManagerRequestView::RunResume,
            ManagerRequest::Forward(x) => ManagerRequestView::Forward(x.deep_view()),
            ManagerRequest::AwaitLoop => ManagerRequestView::AwaitLoop,
            ManagerRequest::Return => ManagerRequestView::Return,
        }
    }
}

/// What a manager waits for.
#[derive(Debug, PartialEq, Eq)]
pub enum ManagerPhase {
    Waiting,
    Active { closed: bool },
    ForwardingSignal(QueuedSignal),
    ForwardingAbort,
    Done,
}

/// The value of a [`ManagerPhase`].
pub enum ManagerPhaseView {
    Waiting,
    Active { closed: bool },
    ForwardingSignal(QueuedSignalView),
    ForwardingAbort,
    Done,
}

impl DeepView for ManagerPhase {
    type V = ManagerPhaseView;

    open spec fn deep_view(&self) -> ManagerPhaseView {
        match self {
            ManagerPhase::Waiting => ManagerPhaseView::Waiting,
            ManagerPhase::Active { closed } => ManagerPhaseView::Active { closed: *closed },
            ManagerPhase::ForwardingSignal(x) => ManagerPhaseView::ForwardingSignal(x.deep_view()),
            ManagerPhase::ForwardingAbort => ManagerPhaseView::ForwardingAbort,
            ManagerPhase::Done => ManagerPhaseView::Done,
        }
    }
}

/// A manager of loops.
#[derive(Debug)]
pub struct DurableManager {
    pub initial_history: Vec<Message>,
    pub pending: VecDeque<QueuedSignal>,
    pub waiters: Vec<u64>,
    pub last_end_reason: EndReason,
    pub failed_message: Option<String>,
    pub did_continue_initial_state: bool,
    pub phase: ManagerPhase,
}

/// The value of a [`DurableManager`].
pub struct DurableManagerView {
    pub initial_history: Seq<MessageView>,
    pub pending: Seq<QueuedSignalView>,
    pub waiters: Seq<u64>,
    pub last_end_reason: EndReasonView,
    pub failed_message: Option<Seq<char>>,
    pub did_continue_initial_state: bool,
    pub phase: ManagerPhaseView,
}

impl DeepView for DurableManager {
    type V = DurableManagerView;

    open spec fn deep_view(&self) -> DurableManagerView {
        DurableManagerView {
            initial_history: self.initial_history.deep_view(),
            pending: self.pending.deep_view(),
            waiters: self.waiters.deep_view(),
            last_end_reason: self.last_end_reason.deep_view(),
            failed_message: self.failed_message.deep_view(),
            did_continue_initial_state: self.did_continue_initial_state,
            phase: self.phase.deep_view(),
        }
    }
}

/// What a harness still has to start with.
#[derive(Debug, PartialEq, Eq)]
pub struct HarnessState {
    pub running: bool,
    pub has_config: bool,
    pub has_commands: bool,
}

/// The value of a [`HarnessState`].
pub struct HarnessStateView {
    pub running: bool,
    pub has_config: bool,
    pub has_commands: bool,
}

impl DeepView for HarnessState {
    type V = HarnessStateView;

    open spec fn deep_view(&self) -> HarnessStateView {
        HarnessStateView {
            running: self.running,
            has_config: self.has_config,
            has_commands: self.has_commands,
        }
    }
}

impl HarnessState {
    /// A harness that was not started.
    pub fn new() -> (r: HarnessState)
        ensures
            r.deep_view() == (HarnessStateView { running: false, has_config: true, has_commands: true }),
    {
        HarnessState { running: false, has_config: true, has_commands: true }
    }

    /// Start the manager, unless it runs: whether it is to be started now. What it starts with is
    /// taken and can be taken once.
    pub fn start(&mut self) -> (r: Result<bool, DurableAgentError>)
        ensures
            old(self).running ==> r == Ok::<bool, DurableAgentError>(false)
                && final(self).deep_view() == old(self).deep_view(),
            !old(self).running && old(self).has_config && old(self).has_commands ==> r == Ok::<
                bool,
                DurableAgentError,
            >(true) && final(self).deep_view() == (HarnessStateView {
                running: true,
                has_config: false,
                has_commands: false,
            }),
            !old(self).running && !(old(self).has_config && old(self).has_commands) ==> {
                &&& r matches Err(e) && e.deep_view() is AlreadyStarted
                &&& final(self).deep_view() == (HarnessStateView {
                    has_config: false,
                    ..old(self).deep_view()
                })
            },
    {
        if self.running {
            return Ok(false);
        }
        if !self.has_config {
            return Err(DurableAgentError::AlreadyStarted);
        }
        self.has_config = false;
        if !self.has_commands {
            return Err(DurableAgentError::AlreadyStarted);
        }
        self.has_commands = false;
        self.running = true;
        Ok(true)
    }
}

/// An id for an inbox entry that no other entry has, also after a restart: the text of a random
/// UUID.
pub fn default_inbox_id() -> (r: String)
    ensures
        exists|bits: u128| is_random_uuid(bits) && r@ == #[trigger] uuid_text(bits),
{
    let bits: u128 = fresh_uuid();
    render_uuid(bits)
}

/// What is stored and what is queued of a signal, or why it cannot be submitted.
pub fn submit_signal(kind: DurableInboxKind, message: Message, id: String, now: u128) -> (r: Result<
    (DurableInboxEntry, QueuedSignal),
    DurableAgentError,
>)
    ensures
        match tagged(message.deep_view(), id@) {
            Ok(m) => r matches Ok((entry, signal)) && entry.deep_view() == (DurableInboxEntryView {
                id: id@,
                kind,
                message: m,
                status: DurableInboxStatus::Submitted,
                submitted_at: now,
            }) && signal.deep_view() == (QueuedSignalView { kind, message: m }) && message_id(m) == Some(
                id@,
            ) && differs_in_id(message.deep_view(), m),
            Err(text) => r matches Err(e) && e.deep_view()
                == DurableAgentErrorView::InvalidSignalMessage(text),
        },
        has_plain_text(message.deep_view()) ==> r is Ok,
{
    let message = match tag_message_with_inbox_id(message, id.as_str()) {
        Ok(message) => message,
        Err(error) => {
            return Err(error);
        },
    };
    let signal = QueuedSignal { kind, message: message.clone() };
    let entry = DurableInboxEntry {
        id,
        kind,
        message,
        status: DurableInboxStatus::Submitted,
        submitted_at: now,
    };
    Ok((entry, signal))
}

/// What a step of a manager leads to.
pub struct ManagerStepView {
    pub manager: DurableManagerView,
    pub effects: Seq<ManagerEffectView>,
    pub request: ManagerRequestView,
}

/// A signal as a command of a loop.
pub open spec fn signal_command(signal: QueuedSignalView) -> CommandView {
    match signal.kind {
        DurableInboxKind::Steer => CommandView::Steer(signal.message),
        DurableInboxKind::FollowUp => CommandView::FollowUp(signal.message),
        DurableInboxKind::Interrupt => CommandView::Interrupt(signal.message),
    }
}

/// The same answer for everyone who waits.
pub open spec fn end_replies(waiters: Seq<u64>, reason: EndReasonView) -> Seq<ManagerEffectView> {
    Seq::new(waiters.len(), |i: int| ManagerEffectView::Reply { waiter: waiters[i], result: Ok(reason) })
}

/// An error for everyone who waits: the first is told the error itself, the others its words.
pub open spec fn error_replies(waiters: Seq<u64>, error: DurableAgentErrorView) -> Seq<ManagerEffectView> {
    Seq::new(
        waiters.len(),
        |i: int|
            ManagerEffectView::Reply {
                waiter: waiters[i],
                result: Err(
                    if i == 0 {
                        error
                    } else {
                        DurableAgentErrorView::ManagerFailed(durable_error_text(error))
                    },
                ),
            },
    )
}

/// Whether the history that a manager was given is to be gone on with: it ends with a message of
/// the user, or with calls.
pub open spec fn should_resume(m: DurableManagerView) -> bool {
    !m.did_continue_initial_state && m.initial_history.len() > 0 && (m.initial_history.last() is User
        || calls_of(m.initial_history.last()).len() > 0)
}

/// Go on with what there is to do.
pub open spec fn next_run(m: DurableManagerView, fx: Seq<ManagerEffectView>) -> ManagerStepView {
    match m.failed_message {
        Some(text) => ManagerStepView {
            manager: DurableManagerView {
                waiters: Seq::empty(),
                phase: ManagerPhaseView::Waiting,
                ..m
            },
            effects: fx + error_replies(m.waiters, DurableAgentErrorView::ManagerFailed(text)),
            request: ManagerRequestView::AwaitCommand,
        },
        None => if m.pending.len() > 0 {
            ManagerStepView {
                manager: DurableManagerView {
                    pending: m.pending.skip(1),
                    phase: ManagerPhaseView::Active { closed: false },
                    ..m
                },
                effects: fx,
                request: ManagerRequestView::RunPrompt(m.pending[0].message),
            }
        } else if should_resume(m) {
            ManagerStepView {
                manager: DurableManagerView {
                    did_continue_initial_state: true,
                    phase: ManagerPhaseView::Active { closed: false },
                    ..m
                },
                effects: fx,
                request: ManagerRequestView::RunResume,
            }
        } else {
            ManagerStepView {
                manager: DurableManagerView {
                    waiters: Seq::empty(),
                    last_end_reason: if m.waiters.len() > 0 {
                        EndReasonView::NoRun
                    } else {
                        m.last_end_reason
                    },
                    phase: ManagerPhaseView::Waiting,
                    ..m
                },
                effects: fx + end_replies(m.waiters, m.last_end_reason),
                request: ManagerRequestView::AwaitCommand,
            }
        },
    }
}

/// A run has failed: whoever waits is told, and no further run is made.
pub open spec fn run_failed(m: DurableManagerView, error: DurableAgentErrorView) -> ManagerStepView {
    next_run(
        DurableManagerView {
            failed_message: Some(durable_error_text(error)),
            waiters: Seq::empty(),
            ..m
        },
        error_replies(m.waiters, error),
    )
}

/// Wait for the running loop.
pub open spec fn await_loop(m: DurableManagerView, closed: bool) -> ManagerStepView {
    ManagerStepView {
        manager: DurableManagerView { phase: ManagerPhaseView::Active { closed }, ..m },
        effects: Seq::empty(),
        request: ManagerRequestView::AwaitLoop,
    }
}

/// Hand the running loop the signals that wait.
pub open spec fn forward_next(m: DurableManagerView) -> ManagerStepView {
    if m.pending.len() == 0 {
        await_loop(m, false)
    } else {
        ManagerStepView {
            manager: DurableManagerView {
                pending: m.pending.skip(1),
                phase: ManagerPhaseView::ForwardingSignal(m.pending[0]),
                ..m
            },
            effects: Seq::empty(),
            request: ManagerRequestView::Forward(signal_command(m.pending[0])),
        }
    }
}

/// A manager that was asked something while no loop runs.
pub open spec fn noted(m: DurableManagerView, command: ManagerCommandView) -> DurableManagerView {
    match command {
        ManagerCommandView::Signal(signal) => DurableManagerView { pending: m.pending.push(signal), ..m },
        ManagerCommandView::Abort => DurableManagerView {
            pending: Seq::empty(),
            last_end_reason: EndReasonView::Aborted,
            ..m
        },
        ManagerCommandView::Wait(waiter) => DurableManagerView { waiters: m.waiters.push(waiter), ..m },
    }
}

/// Act on what happened while a loop runs; `closed` says that it takes no more commands.
pub open spec fn on_active(m: DurableManagerView, closed: bool, input: ManagerInputView) -> ManagerStepView {
    match input {
        ManagerInputView::Started => forward_next(m),
        ManagerInputView::Command(command) => match command {
            ManagerCommandView::Signal(_) => if closed {
                await_loop(noted(m, command), true)
            } else {
                forward_next(noted(m, command))
            },
            ManagerCommandView::Abort => ManagerStepView {
                manager: DurableManagerView { phase: ManagerPhaseView::ForwardingAbort, ..m },
                effects: Seq::empty(),
                request: ManagerRequestView::Forward(CommandView::Abort),
            },
            ManagerCommandView::Wait(_) => await_loop(noted(m, command), closed),
        },
        ManagerInputView::Finished(reason, history) => next_run(
            DurableManagerView { initial_history: history, last_end_reason: reason, ..m },
            Seq::empty(),
        ),
        ManagerInputView::Failed(error) => run_failed(m, error),
        _ => run_failed(m, DurableAgentErrorView::CommandChannelClosed),
    }
}

/// Whether a manager in this phase waits for this input.
pub open spec fn manager_expects(phase: ManagerPhaseView, input: ManagerInputView) -> bool {
    match phase {
        ManagerPhaseView::Waiting => input is Command || input is Closed,
        ManagerPhaseView::Active { .. } => input is Started || input is Command || input is Closed
            || input is Finished || input is Failed,
        ManagerPhaseView::ForwardingSignal(_) => input is Forwarded,
        ManagerPhaseView::ForwardingAbort => input is Forwarded,
        ManagerPhaseView::Done => false,
    }
}

/// What happens next, for every input that a manager waits for. A signal that the running loop
/// does not take waits for the next one.
pub open spec fn manager_step(manager: DurableManagerView, input: ManagerInputView) -> ManagerStepView {
    let m = DurableManagerView { phase: ManagerPhaseView::Done, ..manager };
    match manager.phase {
        ManagerPhaseView::Waiting => match input {
            ManagerInputView::Command(command) => next_run(noted(m, command), Seq::empty()),
            _ => ManagerStepView {
                manager: m,
                effects: Seq::empty(),
                request: ManagerRequestView::Return,
            },
        },
        ManagerPhaseView::Active { closed } => on_active(m, closed, input),
        ManagerPhaseView::ForwardingSignal(signal) => if input->Forwarded_0 {
            forward_next(m)
        } else {
            await_loop(DurableManagerView { pending: seq![signal] + m.pending, ..m }, true)
        },
        ManagerPhaseView::ForwardingAbort => if input->Forwarded_0 {
            await_loop(m, false)
        } else {
            run_failed(m, DurableAgentErrorView::CommandChannelClosed)
        },
        ManagerPhaseView::Done => run_failed(m, DurableAgentErrorView::CommandChannelClosed),
    }
}

/// A manager of a loop that has not run.
pub open spec fn new_manager(history: Seq<MessageView>) -> DurableManagerView {
    DurableManagerView {
        initial_history: history,
        pending: Seq::empty(),
        waiters: Seq::empty(),
        last_end_reason: EndReasonView::NoRun,
        failed_message: None,
        did_continue_initial_state: false,
        phase: ManagerPhaseView::Done,
    }
}

/// Whether a manager, the effects of a step and its request are what a step leads to.
pub open spec fn manager_leads_to(
    manager: &DurableManager,
    fx: &Vec<ManagerEffect>,
    request: ManagerRequest,
    step: ManagerStepView,
) -> bool {
    &&& manager.deep_view() == step.manager
    &&& fx.deep_view() == step.effects
    &&& request.deep_view() == step.request
}

/// A signal as a command of a loop.
pub fn command_for_signal(signal: &QueuedSignal) -> (r: Command)
    ensures
        r.deep_view() == signal_command(signal.deep_view()),
{
    match signal.kind {
        DurableInboxKind::Steer => Command::Steer(signal.message.clone()),
        DurableInboxKind::FollowUp => Command::FollowUp(signal.message.clone()),
        DurableInboxKind::Interrupt => Command::Interrupt(signal.message.clone()),
    }
}

fn add_reply(fx: &mut Vec<ManagerEffect>, waiter: u64, result: Result<EndReason, DurableAgentError>)
    ensures
        final(fx).deep_view() == old(fx).deep_view().push(
            ManagerEffectView::Reply { waiter, result: result_view(result) },
        ),
{
    let ghost before = fx.deep_view();
    let effect = ManagerEffect::Reply { waiter, result };
    let ghost e = effect.deep_view();
    fx.push(effect);
    assert(fx.deep_view() =~= before.push(e));
}

impl DurableManager {
    /// A manager of a loop that has not run.
    pub fn new(initial_history: Vec<Message>) -> (r: DurableManager)
        ensures
            r.deep_view() == new_manager(initial_history.deep_view()),
    {
        let r = DurableManager {
            initial_history,
            pending: VecDeque::new(),
            waiters: Vec::new(),
            last_end_reason: EndReason::NoRun,
            failed_message: None,
            did_continue_initial_state: false,
            phase: ManagerPhase::Done,
        };
        assert(r.pending.deep_view() =~= Seq::empty());
        assert(r.waiters.deep_view() =~= Seq::empty());
        r
    }

    fn finish_waiters(&mut self, fx: &mut Vec<ManagerEffect>, reason: EndReason)
        ensures
            final(self).deep_view() == (DurableManagerView {
                waiters: Seq::empty(),
                ..old(self).deep_view()
            }),
            final(fx).deep_view() == old(fx).deep_view() + end_replies(
                old(self).deep_view().waiters,
                reason.deep_view(),
            ),
    {
        let ghost m = self.deep_view();
        let ghost start = fx.deep_view();
        let ghost replies = end_replies(m.waiters, reason.deep_view());
        assert(start + replies.take(0) =~= start);
        let mut i: usize = 0;
        while i < self.waiters.len()
            invariant
                i <= self.waiters.len(),
                m == self.deep_view(),
                replies == end_replies(m.waiters, reason.deep_view()),
                fx.deep_view() == start + replies.take(i as int),
            decreases self.waiters.len() - i,
        {
            add_reply(fx, self.waiters[i], Ok(reason.clone()));
            assert(fx.deep_view() =~= start + replies.take(i + 1));
            i += 1;
        }
        assert(replies.take(replies.len() as int) =~= replies);
        self.waiters = Vec::new();
        assert(self.waiters.deep_view() =~= Seq::empty());
    }

    fn finish_waiters_with_error(&mut self, fx: &mut Vec<ManagerEffect>, error: DurableAgentError)
        ensures
            final(self).deep_view() == (DurableManagerView {
                waiters: Seq::empty(),
                ..old(self).deep_view()
            }),
            final(fx).deep_view() == old(fx).deep_view() + error_replies(
                old(self).deep_view().waiters,
                error.deep_view(),
            ),
    {
        let ghost m = self.deep_view();
        let ghost start = fx.deep_view();
        let ghost replies = error_replies(m.waiters, error.deep_view());
        assert(start + replies.take(0) =~= start);
        let mut i: usize = 0;
        while i < self.waiters.len()
            invariant
                i <= self.waiters.len(),
                m == self.deep_view(),
                replies == error_replies(m.waiters, error.deep_view()),
                fx.deep_view() == start + replies.take(i as int),
            decreases self.waiters.len() - i,
        {
            let told = if i == 0 {
                error.clone()
            } else {
                DurableAgentError::ManagerFailed(error.text())
            };
            add_reply(fx, self.waiters[i], Err(told));
            assert(fx.deep_view() =~= start + replies.take(i + 1));
            i += 1;
        }
        assert(replies.take(replies.len() as int) =~= replies);
        self.waiters = Vec::new();
        assert(self.waiters.deep_view() =~= Seq::empty());
    }

    fn should_resume_initial_state(&self) -> (r: bool)
        ensures
            r == should_resume(self.deep_view()),
    {
        assert(self.initial_history.deep_view().len() == self.initial_history.len());
        if self.did_continue_initial_state || self.initial_history.is_empty() {
            return false;
        }
        let last = &self.initial_history[self.initial_history.len() - 1];
        assert(self.initial_history.deep_view().last() == last.deep_view());
        match last {
            Message::User { .. } => true,
            _ => {
                let open = calls(last);
                assert(open.deep_view().len() == open.len());
                open.len() > 0
            },
        }
    }

    fn next_run(&mut self, fx: &mut Vec<ManagerEffect>) -> (r: ManagerRequest)
        ensures
            manager_leads_to(final(self), final(fx), r, next_run(
                old(self).deep_view(),
                old(fx).deep_view(),
            )),
    {
        let ghost m = self.deep_view();
        let failed = match &self.failed_message {
            Some(text) => Some(text.clone()),
            None => None,
        };
        if let Some(text) = failed {
            self.finish_waiters_with_error(fx, DurableAgentError::ManagerFailed(text));
            self.phase = ManagerPhase::Waiting;
            return ManagerRequest::AwaitCommand;
        }
        if let Some(signal) = self.pending.pop_front() {
            assert(self.pending.deep_view() =~= m.pending.skip(1));
            self.phase = ManagerPhase::Active { closed: false };
            return ManagerRequest::RunPrompt(signal.message);
        }
        assert(self.pending.deep_view() =~= m.pending);
        if self.should_resume_initial_state() {
            self.did_continue_initial_state = true;
            self.phase = ManagerPhase::Active { closed: false };
            return ManagerRequest::RunResume;
        }
        assert(m.waiters.len() == self.waiters.len());
        if self.waiters.len() > 0 {
            let mut reason = EndReason::NoRun;
            std::mem::swap(&mut reason, &mut self.last_end_reason);
            self.finish_waiters(fx, reason);
        } else {
            assert(fx.deep_view() =~= old(fx).deep_view() + end_replies(m.waiters, m.last_end_reason));
            assert(m.waiters =~= Seq::empty());
        }
        self.phase = ManagerPhase::Waiting;
        ManagerRequest::AwaitCommand
    }

    fn fail(&mut self, fx: &mut Vec<ManagerEffect>, error: DurableAgentError) -> (r: ManagerRequest)
        requires
            old(fx).deep_view() == Seq::<ManagerEffectView>::empty(),
        ensures
            manager_leads_to(final(self), final(fx), r, run_failed(
                old(self).deep_view(),
                error.deep_view(),
            )),
    {
        self.failed_message = Some(error.text());
        let ghost replies = error_replies(self.deep_view().waiters, error.deep_view());
        self.finish_waiters_with_error(fx, error);
        assert(fx.deep_view() =~= replies);
        self.next_run(fx)
    }

    fn await_loop(&mut self, closed: bool) -> (r: ManagerRequest)
        ensures
            final(self).deep_view() == await_loop(old(self).deep_view(), closed).manager,
            r.deep_view() == await_loop(old(self).deep_view(), closed).request,
    {
        self.phase = ManagerPhase::Active { closed };
        ManagerRequest::AwaitLoop
    }

    fn forward_next(&mut self) -> (r: ManagerRequest)
        ensures
            final(self).deep_view() == forward_next(old(self).deep_view()).manager,
            r.deep_view() == forward_next(old(self).deep_view()).request,
    {
        let ghost m = self.deep_view();
        match self.pending.pop_front() {
            None => {
                assert(self.pending.deep_view() =~= m.pending);
                self.await_loop(false)
            },
            Some(signal) => {
                assert(self.pending.deep_view() =~= m.pending.skip(1));
                let command = command_for_signal(&signal);
                self.phase = ManagerPhase::ForwardingSignal(signal);
                ManagerRequest::Forward(command)
            },
        }
    }

    /// Note what was asked while no loop runs.
    fn handle_idle_command(&mut self, command: ManagerCommand)
        ensures
            final(self).deep_view() == noted(old(self).deep_view(), command.deep_view()),
    {
        let ghost m = self.deep_view();
        let ghost c = command.deep_view();
        match command {
            ManagerCommand::Signal(signal) => {
                self.pending.push_back(signal);
                assert(self.pending.deep_view() =~= m.pending.push(c->Signal_0));
            },
            ManagerCommand::Abort => {
                self.pending = VecDeque::new();
                assert(self.pending.deep_view() =~= Seq::empty());
                self.last_end_reason = EndReason::Aborted;
            },
            ManagerCommand::Wait(waiter) => {
                self.waiters.push(waiter);
                assert(self.waiters.deep_view() =~= m.waiters.push(waiter));
            },
        }
    }

    fn on_active(&mut self, fx: &mut Vec<ManagerEffect>, closed: bool, input: ManagerInput) -> (r:
        ManagerRequest)
        requires
            old(fx).deep_view() == Seq::<ManagerEffectView>::empty(),
        ensures
            manager_leads_to(final(self), final(fx), r, on_active(
                old(self).deep_view(),
                closed,
                input.deep_view(),
            )),
    {
        match input {
            ManagerInput::Started => self.forward_next(),
            ManagerInput::Command(command) => match command {
                ManagerCommand::Signal(signal) => {
                    self.handle_idle_command(ManagerCommand::Signal(signal));
                    if closed {
                        self.await_loop(true)
                    } else {
                        self.forward_next()
                    }
                },
                ManagerCommand::Abort => {
                    self.phase = ManagerPhase::ForwardingAbort;
                    ManagerRequest::Forward(Command::Abort)
                },
                ManagerCommand::Wait(waiter) => {
                    self.handle_idle_command(ManagerCommand::Wait(waiter));
                    self.await_loop(closed)
                },
            },
            ManagerInput::Finished(reason, history) => {
                self.initial_history = history;
                self.last_end_reason = reason;
                self.next_run(fx)
            },
            ManagerInput::Failed(error) => self.fail(fx, error),
            _ => self.fail(fx, DurableAgentError::CommandChannelClosed),
        }
    }

    /// Whether the manager waits for this input.
    pub fn expects(&self, input: &ManagerInput) -> (r: bool)
        ensures
            r == manager_expects(self.deep_view().phase, input.deep_view()),
    {
        match (&self.phase, input) {
            (ManagerPhase::Waiting, ManagerInput::Command(_) | ManagerInput::Closed) => true,
            (
                ManagerPhase::Active { .. },
                ManagerInput::Started
                | ManagerInput::Command(_)
                | ManagerInput::Closed
                | ManagerInput::Finished(_, _)
                | ManagerInput::Failed(_),
            ) => true,
            (ManagerPhase::ForwardingSignal(_), ManagerInput::Forwarded(_)) => true,
            (ManagerPhase::ForwardingAbort, ManagerInput::Forwarded(_)) => true,
            _ => false,
        }
    }

    /// Take the first step.
    pub fn begin(&mut self) -> (r: (Vec<ManagerEffect>, ManagerRequest))
        ensures
            manager_leads_to(final(self), &r.0, r.1, next_run(old(self).deep_view(), Seq::empty())),
    {
        let mut fx: Vec<ManagerEffect> = Vec::new();
        assert(fx.deep_view() =~= Seq::empty());
        let request = self.next_run(&mut fx);
        (fx, request)
    }

    /// Act on what happened.
    pub fn step(&mut self, input: ManagerInput) -> (r: (Vec<ManagerEffect>, ManagerRequest))
        requires
            manager_expects(old(self).deep_view().phase, input.deep_view()),
        ensures
            manager_leads_to(final(self), &r.0, r.1, manager_step(
                old(self).deep_view(),
                input.deep_view(),
            )),
    {
        let mut fx: Vec<ManagerEffect> = Vec::new();
        assert(fx.deep_view() =~= Seq::empty());
        let mut phase = ManagerPhase::Done;
        std::mem::swap(&mut self.phase, &mut phase);
        let request = match (phase, input) {
            (ManagerPhase::Waiting, ManagerInput::Command(command)) => {
                self.handle_idle_command(command);
                self.next_run(&mut fx)
            },
            (ManagerPhase::Waiting, _) => ManagerRequest::Return,
            (ManagerPhase::Active { closed }, input) => self.on_active(&mut fx, closed, input),
            (ManagerPhase::ForwardingSignal(signal), ManagerInput::Forwarded(taken)) => {
                if taken {
                    self.forward_next()
                } else {
                    let ghost before = self.pending.deep_view();
                    let ghost s = signal.deep_view();
                    self.pending.push_front(signal);
                    assert(self.pending.deep_view() =~= seq![s] + before);
                    self.await_loop(true)
                }
            },
            (ManagerPhase::ForwardingAbort, ManagerInput::Forwarded(taken)) => {
                if taken {
                    self.await_loop(false)
                } else {
                    self.fail(&mut fx, DurableAgentError::CommandChannelClosed)
                }
            },
            _ => self.fail(&mut fx, DurableAgentError::CommandChannelClosed),
        };
        (fx, request)
    }
}

/// A signal that the running loop does not take is not lost: it waits, before all others, for the
/// next loop.
pub proof fn law_signals_are_not_lost(m: DurableManagerView, signal: QueuedSignalView)
    requires
        m.phase == ManagerPhaseView::ForwardingSignal(signal),
    ensures
        manager_step(m, ManagerInputView::Forwarded(false)).manager.pending == seq![signal] + m.pending,
        manager_step(m, ManagerInputView::Forwarded(false)).manager.failed_message == m.failed_message,
{
}

/// What waits when a loop is over is run next, before anyone who waits is answered.
pub proof fn law_waiting_signals_run_next(
    m: DurableManagerView,
    closed: bool,
    reason: EndReasonView,
    history: Seq<MessageView>,
)
    requires
        m.phase == (ManagerPhaseView::Active { closed }),
        m.failed_message is None,
        m.pending.len() > 0,
    ensures
        ({
            let next = manager_step(m, ManagerInputView::Finished(reason, history));
            &&& next.request == ManagerRequestView::RunPrompt(m.pending[0].message)
            &&& next.effects.len() == 0
            &&& next.manager.waiters == m.waiters
            &&& next.manager.initial_history == history
        }),
{
}

/// A manager that has failed runs nothing more, and whoever waits is told so.
pub proof fn law_failed_managers_run_nothing(m: DurableManagerView, command: ManagerCommandView)
    requires
        m.failed_message is Some,
        m.phase is Waiting,
    ensures
        ({
            let next = manager_step(m, ManagerInputView::Command(command));
            &&& next.request is AwaitCommand
            &&& next.manager.failed_message == m.failed_message
            &&& next.manager.waiters.len() == 0
            &&& command matches ManagerCommandView::Wait(waiter) ==> (m.waiters.len() == 0
                ==> next.effects == seq![
                ManagerEffectView::Reply {
                    waiter,
                    result: Err(DurableAgentErrorView::ManagerFailed(m.failed_message->0)),
                },
            ])
        }),
{
    if let ManagerCommandView::Wait(waiter) = command {
        let next = manager_step(m, ManagerInputView::Command(command));
        if m.waiters.len() == 0 {
            assert(m.waiters =~= Seq::empty());
            assert(next.effects =~= seq![
                ManagerEffectView::Reply {
                    waiter,
                    result: Err(DurableAgentErrorView::ManagerFailed(m.failed_message->0)),
                },
            ]);
        }
    }
}

/// The history that a manager was given is gone on with at most once.
pub proof fn law_initial_state_is_continued_once(m: DurableManagerView, fx: Seq<ManagerEffectView>)
    requires
        next_run(m, fx).request is RunResume,
    ensures
        next_run(m, fx).manager.did_continue_initial_state,
        !should_resume(next_run(m, fx).manager),
{
}

} // verus!
