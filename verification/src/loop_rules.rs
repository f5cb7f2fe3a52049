//! The rules by which an agent loop runs, as a machine: it is told what happened, and says what is
//! to be done next.
//!
//! The machine does no I/O of its own. Its driver carries out each [`LoopRequest`] and reports
//! back with a [`LoopInput`]. Times are nanoseconds on the driver's clock.
use crate::api::{
    loop_error_text, result_key, AgentLoopError, AgentLoopErrorInfoView, AgentLoopErrorView,
    AgentLoopEvent, AgentLoopEventView, AgentLoopResult, AgentLoopResultView, ApiErrorInfo,
    ApiErrorInfoView, AssistantMessageContext, AssistantMessageContextView, Command, CommandView,
    EndReason, EndReasonView, InvalidMessageHistoryErrorView, ToolResultKey, ToolResultKeyView,
    TurnHookAction, TurnHookActionView, TurnHookContext, TurnHookContextView, TurnOutcomeKind,
};
use crate::deep::{result_view, DeepEq};
use crate::history::{first_order_fault, resume_fault};
use crate::message::{Message, MessageView, ToolResult, ToolResultView};
use crate::partial::{
    completed_behind, current_message, nothing_streamed, with_assistant, with_result, PartialTurn,
    PartialTurnView, StreamedAssistantContent, StreamedAssistantContentView, StreamedUserContent,
    StreamedUserContentView,
};
use crate::protocol::{later, no_usage};
use crate::repair::{first_failure, keys_of, missing_from, restored_history, Loaded, LoadedView};
use crate::session::Usage;
use std::collections::VecDeque;
use vstd::prelude::*;

verus! {

/// What has taken too long.
#[derive(Clone, Copy, Debug, PartialEq, Eq, Structural)]
pub enum TimeoutKind {
    Turn,
    Loop,
}

impl DeepView for TimeoutKind {
    type V = TimeoutKind;

    open spec fn deep_view(&self) -> TimeoutKind {
        *self
    }
}

impl DeepEq for TimeoutKind {
    fn deep_eq(&self, other: &TimeoutKind) -> (r: bool) {
        *self == *other
    }
}

/// A time at which a turn or the loop has taken too long.
#[derive(Clone, Copy, Debug, PartialEq, Eq, Structural)]
pub struct TimeoutDeadline {
    pub kind: TimeoutKind,
    pub at: u128,
    pub timeout: u128,
}

impl DeepView for TimeoutDeadline {
    type V = TimeoutDeadline;

    open spec fn deep_view(&self) -> TimeoutDeadline {
        *self
    }
}

/// A turn that is to be run.
#[derive(Debug, PartialEq, Eq)]
pub enum PendingTurn {
    /// On a prompt, with messages in front of it.
    Prompt { prelude: Vec<Message>, prompt: Message },
    /// On the last message of the history.
    Resume,
}

/// The value of a [`PendingTurn`].
pub enum PendingTurnView {
    Prompt { prelude: Seq<MessageView>, prompt: MessageView },
    Resume,
}

impl DeepView for PendingTurn {
    type V = PendingTurnView;

    open spec fn deep_view(&self) -> PendingTurnView {
        match self {
            PendingTurn::Prompt { prelude, prompt } => PendingTurnView::Prompt { prelude: prelude.deep_view(), prompt: prompt.deep_view() },
            PendingTurn::Resume => PendingTurnView::Resume,
        }
    }
}

/// A turn that is run.
#[derive(Debug, PartialEq, Eq)]
pub struct PreparedTurn {
    pub committed_base_history: Vec<Message>,
    pub request_history: Vec<Message>,
    pub prelude: Vec<Message>,
    pub prompt: Message,
    pub commit_prompt: bool,
}

/// The value of a [`PreparedTurn`].
pub struct PreparedTurnView {
    pub committed_base_history: Seq<MessageView>,
    pub request_history: Seq<MessageView>,
    pub prelude: Seq<MessageView>,
    pub prompt: MessageView,
    pub commit_prompt: bool,
}

impl DeepView for PreparedTurn {
    type V = PreparedTurnView;

    open spec fn deep_view(&self) -> PreparedTurnView {
        PreparedTurnView {
            committed_base_history: self.committed_base_history.deep_view(),
            request_history: self.request_history.deep_view(),
            prelude: self.prelude.deep_view(),
            prompt: self.prompt.deep_view(),
            commit_prompt: self.commit_prompt,
        }
    }
}

/// Why a turn is committed.
#[derive(Debug, PartialEq, Eq)]
#[allow(inconsistent_fields)]
pub enum CommitEvent {
    Committed { end_reason: Option<EndReason>, usage: Option<Usage> },
    Interrupted,
    Aborted,
    TimedOut { end_reason: EndReason },
}

/// The value of a [`CommitEvent`].
#[allow(inconsistent_fields)]
pub enum CommitEventView {
    Committed { end_reason: Option<EndReasonView>, usage: Option<Usage> },
    Interrupted,
    Aborted,
    TimedOut { end_reason: EndReasonView },
}

impl DeepView for CommitEvent {
    type V = CommitEventView;

    open spec fn deep_view(&self) -> CommitEventView {
        match self {
            CommitEvent::Committed { end_reason, usage } => CommitEventView::Committed { end_reason: end_reason.deep_view(), usage: usage.deep_view() },
            CommitEvent::Interrupted => CommitEventView::Interrupted,
            CommitEvent::Aborted => CommitEventView::Aborted,
            CommitEvent::TimedOut { end_reason } => CommitEventView::TimedOut { end_reason: end_reason.deep_view() },
        }
    }
}

/// The end of a turn, as the model reports it.
#[derive(Debug, PartialEq, Eq)]
pub struct FinalResponse {
    pub response: String,
    /// The messages of the turn, from its prompt on.
    pub history: Option<Vec<Message>>,
    pub usage: Usage,
}

/// The value of a [`FinalResponse`].
pub struct FinalResponseView {
    pub response: Seq<char>,
    pub history: Option<Seq<MessageView>>,
    pub usage: Usage,
}

impl DeepView for FinalResponse {
    type V = FinalResponseView;

    open spec fn deep_view(&self) -> FinalResponseView {
        FinalResponseView {
            response: self.response.deep_view(),
            history: self.history.deep_view(),
            usage: self.usage,
        }
    }
}

/// How a stream failed.
#[derive(Debug, PartialEq, Eq)]
#[allow(inconsistent_fields)]
pub enum StreamFault {
    Completion(ApiErrorInfo),
    Tool(String),
    MaxTurns { max_turns: usize, history: Vec<Message> },
    Cancelled { reason: String, history: Vec<Message> },
    UnknownTool { name: String, history: Vec<Message> },
    Other(String),
}

/// The value of a [`StreamFault`].
#[allow(inconsistent_fields)]
pub enum StreamFaultView {
    Completion(ApiErrorInfoView),
    Tool(Seq<char>),
    MaxTurns { max_turns: usize, history: Seq<MessageView> },
    Cancelled { reason: Seq<char>, history: Seq<MessageView> },
    UnknownTool { name: Seq<char>, history: Seq<MessageView> },
    Other(Seq<char>),
}

impl DeepView for StreamFault {
    type V = StreamFaultView;

    open spec fn deep_view(&self) -> StreamFaultView {
        match self {
            StreamFault::Completion(x) => StreamFaultView::Completion(x.deep_view()),
            StreamFault::Tool(x) => StreamFaultView::Tool(x.deep_view()),
            StreamFault::MaxTurns { max_turns, history } => StreamFaultView::MaxTurns { max_turns: *max_turns, history: history.deep_view() },
            StreamFault::Cancelled { reason, history } => StreamFaultView::Cancelled { reason: reason.deep_view(), history: history.deep_view() },
            StreamFault::UnknownTool { name, history } => StreamFaultView::UnknownTool { name: name.deep_view(), history: history.deep_view() },
            StreamFault::Other(x) => StreamFaultView::Other(x.deep_view()),
        }
    }
}

/// What a running turn reports.
#[derive(Debug, PartialEq, Eq)]
pub enum LoopItem {
    Assistant(StreamedAssistantContent),
    User(StreamedUserContent),
    Final(FinalResponse),
    Other,
}

/// The value of a [`LoopItem`].
pub enum LoopItemView {
    Assistant(StreamedAssistantContentView),
    User(StreamedUserContentView),
    Final(FinalResponseView),
    Other,
}

impl DeepView for LoopItem {
    type V = LoopItemView;

    open spec fn deep_view(&self) -> LoopItemView {
        match self {
            LoopItem::Assistant(x) => LoopItemView::Assistant(x.deep_view()),
            LoopItem::User(x) => LoopItemView::User(x.deep_view()),
            LoopItem::Final(x) => LoopItemView::Final(x.deep_view()),
            LoopItem::Other => LoopItemView::Other,
        }
    }
}

/// What is to be done once the hook on a message is through.
#[derive(Debug, PartialEq, Eq)]
pub enum Then {
    Command(Command),
    Ended,
    Failed(StreamFault),
    Snapshot,
    Report(FinalResponse),
    Conclude(FinalResponse),
}

/// The value of a [`Then`].
pub enum ThenView {
    Command(CommandView),
    Ended,
    Failed(StreamFaultView),
    Snapshot,
    Report(FinalResponseView),
    Conclude(FinalResponseView),
}

impl DeepView for Then {
    type V = ThenView;

    open spec fn deep_view(&self) -> ThenView {
        match self {
            Then::Command(x) => ThenView::Command(x.deep_view()),
            Then::Ended => ThenView::Ended,
            Then::Failed(x) => ThenView::Failed(x.deep_view()),
            Then::Snapshot => ThenView::Snapshot,
            Then::Report(x) => ThenView::Report(x.deep_view()),
            Then::Conclude(x) => ThenView::Conclude(x.deep_view()),
        }
    }
}

/// What is to be done once a turn is committed.
#[derive(Debug, PartialEq, Eq)]
pub enum AfterCommit {
    Interrupted(Message),
    Aborted,
    TimedOut(EndReason),
    Final,
    Failed(EndReason),
}

/// The value of an [`AfterCommit`].
pub enum AfterCommitView {
    Interrupted(MessageView),
    Aborted,
    TimedOut(EndReasonView),
    Final,
    Failed(EndReasonView),
}

impl DeepView for AfterCommit {
    type V = AfterCommitView;

    open spec fn deep_view(&self) -> AfterCommitView {
        match self {
            AfterCommit::Interrupted(x) => AfterCommitView::Interrupted(x.deep_view()),
            AfterCommit::Aborted => AfterCommitView::Aborted,
            AfterCommit::TimedOut(x) => AfterCommitView::TimedOut(x.deep_view()),
            AfterCommit::Final => AfterCommitView::Final,
            AfterCommit::Failed(x) => AfterCommitView::Failed(x.deep_view()),
        }
    }
}

/// The running turn.
#[derive(Debug, PartialEq, Eq)]
pub struct ActiveTurn {
    pub prepared: PreparedTurn,
    pub partial: PartialTurn,
    pub deadline: Option<TimeoutDeadline>,
    pub commands_closed: bool,
    pub hook_running: bool,
}

/// The value of an [`ActiveTurn`].
pub struct ActiveTurnView {
    pub prepared: PreparedTurnView,
    pub partial: PartialTurnView,
    pub deadline: Option<TimeoutDeadline>,
    pub commands_closed: bool,
    pub hook_running: bool,
}

impl DeepView for ActiveTurn {
    type V = ActiveTurnView;

    open spec fn deep_view(&self) -> ActiveTurnView {
        ActiveTurnView {
            prepared: self.prepared.deep_view(),
            partial: self.partial.deep_view(),
            deadline: self.deadline.deep_view(),
            commands_closed: self.commands_closed,
            hook_running: self.hook_running,
        }
    }
}

/// What the loop waits for.
#[derive(Debug, PartialEq, Eq)]
pub enum LoopPhase {
    Loading,
    Draining { again: bool },
    Idle,
    Opening { turn: ActiveTurn },
    Running { turn: ActiveTurn },
    Hooked { turn: ActiveTurn, then: Then },
    Persisting { turn: ActiveTurn, item: StreamedUserContent },
    Committing { turn: ActiveTurn, messages: Vec<Message>, event: CommitEvent, after: AfterCommit },
    Done,
}

/// The value of a [`LoopPhase`].
pub enum LoopPhaseView {
    Loading,
    Draining { again: bool },
    Idle,
    Opening { turn: ActiveTurnView },
    Running { turn: ActiveTurnView },
    Hooked { turn: ActiveTurnView, then: ThenView },
    Persisting { turn: ActiveTurnView, item: StreamedUserContentView },
    Committing { turn: ActiveTurnView, messages: Seq<MessageView>, event: CommitEventView, after: AfterCommitView },
    Done,
}

impl DeepView for LoopPhase {
    type V = LoopPhaseView;

    open spec fn deep_view(&self) -> LoopPhaseView {
        match self {
            LoopPhase::Loading => LoopPhaseView::Loading,
            LoopPhase::Draining { again } => LoopPhaseView::Draining { again: *again },
            LoopPhase::Idle => LoopPhaseView::Idle,
            LoopPhase::Opening { turn } => LoopPhaseView::Opening { turn: turn.deep_view() },
            LoopPhase::Running { turn } => LoopPhaseView::Running { turn: turn.deep_view() },
            LoopPhase::Hooked { turn, then } => LoopPhaseView::Hooked { turn: turn.deep_view(), then: then.deep_view() },
            LoopPhase::Persisting { turn, item } => LoopPhaseView::Persisting { turn: turn.deep_view(), item: item.deep_view() },
            LoopPhase::Committing { turn, messages, event, after } => LoopPhaseView::Committing { turn: turn.deep_view(), messages: messages.deep_view(), event: event.deep_view(), after: after.deep_view() },
            LoopPhase::Done => LoopPhaseView::Done,
        }
    }
}

/// What happened.
#[derive(Debug, PartialEq, Eq)]
pub enum LoopInput {
    Loaded(Vec<Loaded>),
    NoCommand,
    Command(Command),
    /// No further command can come.
    Closed,
    DeadlineElapsed,
    /// The turn streams.
    Opened,
    /// The hook on a message is through, with an error or without.
    HookDone(Option<AgentLoopError>),
    Item(LoopItem),
    Failed(StreamFault),
    /// The stream of the turn ended.
    Ended,
    /// A result is saved, or why it is not.
    Persisted(Option<String>),
    /// What the turn hook asks for, or how it failed.
    HookAnswered(Result<TurnHookAction, String>),
}

/// The value of a [`LoopInput`].
pub enum LoopInputView {
    Loaded(Seq<LoadedView>),
    NoCommand,
    Command(CommandView),
    Closed,
    DeadlineElapsed,
    Opened,
    HookDone(Option<AgentLoopErrorView>),
    Item(LoopItemView),
    Failed(StreamFaultView),
    Ended,
    Persisted(Option<Seq<char>>),
    HookAnswered(Result<TurnHookActionView, Seq<char>>),
}

impl DeepView for LoopInput {
    type V = LoopInputView;

    open spec fn deep_view(&self) -> LoopInputView {
        match self {
            LoopInput::Loaded(x) => LoopInputView::Loaded(x.deep_view()),
            LoopInput::NoCommand => LoopInputView::NoCommand,
            LoopInput::Command(x) => LoopInputView::Command(x.deep_view()),
            LoopInput::Closed => LoopInputView::Closed,
            LoopInput::DeadlineElapsed => LoopInputView::DeadlineElapsed,
            LoopInput::Opened => LoopInputView::Opened,
            LoopInput::HookDone(x) => LoopInputView::HookDone(x.deep_view()),
            LoopInput::Item(x) => LoopInputView::Item(x.deep_view()),
            LoopInput::Failed(x) => LoopInputView::Failed(x.deep_view()),
            LoopInput::Ended => LoopInputView::Ended,
            LoopInput::Persisted(x) => LoopInputView::Persisted(x.deep_view()),
            LoopInput::HookAnswered(x) => LoopInputView::HookAnswered(result_view(*x)),
        }
    }
}

/// What is to be done, in order, before the next request is carried out.
#[derive(Debug, PartialEq, Eq)]
pub enum LoopEffect {
    Emit(AgentLoopEvent),
    /// Start the hook on a message.
    SpawnHook(AssistantMessageContext),
    /// Stop the turn and its hook.
    CloseTurn,
}

/// The value of a [`LoopEffect`].
pub enum LoopEffectView {
    Emit(AgentLoopEventView),
    SpawnHook(AssistantMessageContextView),
    CloseTurn,
}

impl DeepView for LoopEffect {
    type V = LoopEffectView;

    open spec fn deep_view(&self) -> LoopEffectView {
        match self {
            LoopEffect::Emit(x) => LoopEffectView::Emit(x.deep_view()),
            LoopEffect::SpawnHook(x) => LoopEffectView::SpawnHook(x.deep_view()),
            LoopEffect::CloseTurn => LoopEffectView::CloseTurn,
        }
    }
}

/// What is to be done next.
#[derive(Debug, PartialEq, Eq)]
#[allow(inconsistent_fields)]
pub enum LoopRequest {
    /// Look up results, in order, up to the first failure.
    Load(Vec<ToolResultKey>),
    TryCommand,
    AwaitCommand { deadline: Option<u128> },
    /// Start a turn, and wait as for the next one.
    Open { prompt: Message, history: Vec<Message>, max_turns: usize, deadline: Option<u128> },
    /// Wait for the turn to stream, for the deadline, and for commands where they can still come.
    AwaitOpen { deadline: Option<u128>, commands: bool },
    /// Wait for the turn, the deadline, for commands where they can still come, and for the hook where one runs.
    AwaitTurn { deadline: Option<u128>, commands: bool, hook: bool },
    AwaitHook { deadline: Option<u128> },
    Persist { key: ToolResultKey, result: ToolResult },
    CallTurnHook(TurnHookContext),
    Finish(AgentLoopResult),
    Fail(AgentLoopError),
}

/// The value of a [`LoopRequest`].
#[allow(inconsistent_fields)]
pub enum LoopRequestView {
    Load(Seq<ToolResultKeyView>),
    TryCommand,
    AwaitCommand { deadline: Option<u128> },
    Open { prompt: MessageView, history: Seq<MessageView>, max_turns: usize, deadline: Option<u128> },
    AwaitOpen { deadline: Option<u128>, commands: bool },
    AwaitTurn { deadline: Option<u128>, commands: bool, hook: bool },
    AwaitHook { deadline: Option<u128> },
    Persist { key: ToolResultKeyView, result: ToolResultView },
    CallTurnHook(TurnHookContextView),
    Finish(AgentLoopResultView),
    Fail(AgentLoopErrorView),
}

impl DeepView for LoopRequest {
    type V = LoopRequestView;

    open spec fn deep_view(&self) -> LoopRequestView {
        match self {
            LoopRequest::Load(x) => LoopRequestView::Load(x.deep_view()),
            LoopRequest::TryCommand => LoopRequestView::TryCommand,
            LoopRequest::AwaitCommand { deadline } => LoopRequestView::AwaitCommand { deadline: deadline.deep_view() },
            LoopRequest::Open { prompt, history, max_turns, deadline } => LoopRequestView::Open { prompt: prompt.deep_view(), history: history.deep_view(), max_turns: *max_turns, deadline: deadline.deep_view() },
            LoopRequest::AwaitOpen { deadline, commands } => LoopRequestView::AwaitOpen { deadline: deadline.deep_view(), commands: *commands },
            LoopRequest::AwaitTurn { deadline, commands, hook } => LoopRequestView::AwaitTurn { deadline: deadline.deep_view(), commands: *commands, hook: *hook },
            LoopRequest::AwaitHook { deadline } => LoopRequestView::AwaitHook { deadline: deadline.deep_view() },
            LoopRequest::Persist { key, result } => LoopRequestView::Persist { key: key.deep_view(), result: result.deep_view() },
            LoopRequest::CallTurnHook(x) => LoopRequestView::CallTurnHook(x.deep_view()),
            LoopRequest::Finish(x) => LoopRequestView::Finish(x.deep_view()),
            LoopRequest::Fail(x) => LoopRequestView::Fail(x.deep_view()),
        }
    }
}

/// A running loop.
#[derive(Debug)]
pub struct Runner {
    pub max_turns: usize,
    pub turn_timeout: Option<u128>,
    pub loop_timeout: Option<u128>,
    pub has_turn_hook: bool,
    pub has_message_hook: bool,
    /// What stands in for missing results; None for no repair.
    pub repair: Option<String>,
    pub has_persistence: bool,
    pub history: Vec<Message>,
    pub turn_running: bool,
    pub immediate: VecDeque<Message>,
    pub steering: VecDeque<Message>,
    pub resumes: usize,
    pub follow_ups: VecDeque<Message>,
    pub finish_when_idle: bool,
    pub last_response: Option<String>,
    pub loop_deadline: Option<TimeoutDeadline>,
    pub phase: LoopPhase,
}

/// The value of a [`Runner`].
pub struct RunnerView {
    pub max_turns: usize,
    pub turn_timeout: Option<u128>,
    pub loop_timeout: Option<u128>,
    pub has_turn_hook: bool,
    pub has_message_hook: bool,
    pub repair: Option<Seq<char>>,
    pub has_persistence: bool,
    pub history: Seq<MessageView>,
    pub turn_running: bool,
    pub immediate: Seq<MessageView>,
    pub steering: Seq<MessageView>,
    pub resumes: usize,
    pub follow_ups: Seq<MessageView>,
    pub finish_when_idle: bool,
    pub last_response: Option<Seq<char>>,
    pub loop_deadline: Option<TimeoutDeadline>,
    pub phase: LoopPhaseView,
}

impl DeepView for Runner {
    type V = RunnerView;

    open spec fn deep_view(&self) -> RunnerView {
        RunnerView {
            max_turns: self.max_turns,
            turn_timeout: self.turn_timeout.deep_view(),
            loop_timeout: self.loop_timeout.deep_view(),
            has_turn_hook: self.has_turn_hook,
            has_message_hook: self.has_message_hook,
            repair: self.repair.deep_view(),
            has_persistence: self.has_persistence,
            history: self.history.deep_view(),
            turn_running: self.turn_running,
            immediate: self.immediate.deep_view(),
            steering: self.steering.deep_view(),
            resumes: self.resumes,
            follow_ups: self.follow_ups.deep_view(),
            finish_when_idle: self.finish_when_idle,
            last_response: self.last_response.deep_view(),
            loop_deadline: self.loop_deadline.deep_view(),
            phase: self.phase.deep_view(),
        }
    }
}

/// What a step leads to.
pub struct LoopStepView {
    pub runner: RunnerView,
    pub effects: Seq<LoopEffectView>,
    pub request: LoopRequestView,
}

/// A time at which something that starts now has taken too long.
pub open spec fn deadline_after(kind: TimeoutKind, now: u128, timeout: Option<u128>) -> Option<TimeoutDeadline> {
    match timeout {
        Some(timeout) => Some(TimeoutDeadline { kind, at: later(now, timeout), timeout }),
        None => None,
    }
}

/// Why a loop ends at a deadline.
pub open spec fn deadline_reason(deadline: TimeoutDeadline) -> EndReasonView {
    match deadline.kind {
        TimeoutKind::Turn => EndReasonView::TurnTimedOut { timeout: deadline.timeout },
        TimeoutKind::Loop => EndReasonView::LoopTimedOut { timeout: deadline.timeout },
    }
}

/// The earlier of two deadlines; the loop's where they are at the same time.
pub open spec fn earlier_deadline(
    turn: Option<TimeoutDeadline>,
    whole: Option<TimeoutDeadline>,
) -> Option<TimeoutDeadline> {
    match (turn, whole) {
        (Some(x), Some(y)) => if y.at <= x.at {
            Some(y)
        } else {
            Some(x)
        },
        (Some(x), None) => Some(x),
        (None, y) => y,
    }
}

/// The deadline, if it has come.
pub open spec fn elapsed(deadline: Option<TimeoutDeadline>, now: u128) -> Option<TimeoutDeadline> {
    match deadline {
        Some(d) => if now >= d.at {
            Some(d)
        } else {
            None
        },
        None => None,
    }
}

/// When a deadline comes.
pub open spec fn time_of(deadline: Option<TimeoutDeadline>) -> Option<u128> {
    match deadline {
        Some(d) => Some(d.at),
        None => None,
    }
}

/// Some messages as a turn: the last one is the prompt.
pub open spec fn turn_on(messages: Seq<MessageView>) -> PendingTurnView {
    PendingTurnView::Prompt { prelude: messages.drop_last(), prompt: messages.last() }
}

/// Whether a turn is to be run.
pub open spec fn has_pending(r: RunnerView) -> bool {
    r.immediate.len() > 0 || r.steering.len() > 0 || r.resumes > 0 || r.follow_ups.len() > 0
}

/// The next turn: an immediate prompt, else all steering messages together, else a resume, else
/// one follow-up.
pub open spec fn next_pending(r: RunnerView) -> PendingTurnView {
    if r.immediate.len() > 0 {
        turn_on(seq![r.immediate[0]])
    } else if r.steering.len() > 0 {
        turn_on(r.steering)
    } else if r.resumes > 0 {
        PendingTurnView::Resume
    } else {
        turn_on(seq![r.follow_ups[0]])
    }
}

/// A loop once its next turn was taken.
pub open spec fn without_next(r: RunnerView) -> RunnerView {
    if r.immediate.len() > 0 {
        RunnerView { immediate: r.immediate.skip(1), ..r }
    } else if r.steering.len() > 0 {
        RunnerView { steering: Seq::empty(), ..r }
    } else if r.resumes > 0 {
        RunnerView { resumes: (r.resumes - 1) as usize, ..r }
    } else if r.follow_ups.len() > 0 {
        RunnerView { follow_ups: r.follow_ups.skip(1), ..r }
    } else {
        r
    }
}

/// A loop that was asked something between two turns; an abort is not queued.
pub open spec fn queued(r: RunnerView, command: CommandView) -> RunnerView {
    match command {
        CommandView::Steer(message) => RunnerView { steering: r.steering.push(message), ..r },
        CommandView::FollowUp(message) => RunnerView { follow_ups: r.follow_ups.push(message), ..r },
        CommandView::Resume => RunnerView {
            resumes: if r.resumes == usize::MAX {
                usize::MAX
            } else {
                (r.resumes + 1) as usize
            },
            ..r
        },
        CommandView::Interrupt(message) => RunnerView {
            immediate: seq![message] + r.immediate,
            ..r
        },
        CommandView::Abort => r,
        CommandView::FinishWhenIdle => RunnerView { finish_when_idle: true, ..r },
    }
}

/// Why a turn cannot be run, if it cannot.
pub open spec fn turn_fault(turn: PendingTurnView, base: Seq<MessageView>) -> Option<Seq<char>> {
    match turn {
        PendingTurnView::Prompt { prelude, prompt } => first_order_fault(
            (base + prelude).push(prompt),
            0,
        ),
        PendingTurnView::Resume => resume_fault(base),
    }
}

/// A turn that is run on a history.
pub open spec fn prepared_turn(turn: PendingTurnView, base: Seq<MessageView>) -> PreparedTurnView {
    match turn {
        PendingTurnView::Prompt { prelude, prompt } => PreparedTurnView {
            committed_base_history: base,
            request_history: base + prelude,
            prelude,
            prompt,
            commit_prompt: true,
        },
        PendingTurnView::Resume => PreparedTurnView {
            committed_base_history: base,
            request_history: base.drop_last(),
            prelude: Seq::empty(),
            prompt: base.last(),
            commit_prompt: false,
        },
    }
}

/// What a turn adds to the history, given its messages from the prompt on.
pub open spec fn turn_append(turn: PreparedTurnView, messages: Seq<MessageView>) -> Seq<MessageView> {
    turn.prelude + if !turn.commit_prompt && messages.len() > 0 {
        messages.skip(1)
    } else {
        messages
    }
}

/// What a turn adds that is stopped before its end: its complete roundtrips.
pub open spec fn partial_append(turn: PreparedTurnView, partial: PartialTurnView) -> Seq<MessageView> {
    match completed_behind(partial, turn.prompt) {
        Some(messages) => turn_append(turn, messages),
        None => Seq::empty(),
    }
}

/// The messages of a turn so far, up to a message of the assistant.
pub open spec fn messages_up_to(
    turn: PreparedTurnView,
    partial: PartialTurnView,
    message: MessageView,
) -> Seq<MessageView> {
    (turn.prelude + (if turn.commit_prompt {
        seq![turn.prompt]
    } else {
        Seq::empty()
    }) + partial.completed_messages).push(message)
}

/// Why the loop is about to end at a commit, if it is.
pub open spec fn commit_end(event: CommitEventView) -> Option<EndReasonView> {
    match event {
        CommitEventView::Committed { end_reason, .. } => end_reason,
        CommitEventView::Interrupted => None,
        CommitEventView::Aborted => Some(EndReasonView::Aborted),
        CommitEventView::TimedOut { end_reason } => Some(end_reason),
    }
}

/// What became of a turn that is committed.
pub open spec fn commit_kind(event: CommitEventView) -> TurnOutcomeKind {
    match event {
        CommitEventView::Committed { .. } => TurnOutcomeKind::Committed,
        CommitEventView::Interrupted => TurnOutcomeKind::Interrupted,
        CommitEventView::Aborted => TurnOutcomeKind::Aborted,
        CommitEventView::TimedOut { .. } => TurnOutcomeKind::TimedOut,
    }
}

/// The usage that a commit tells of.
pub open spec fn commit_usage(event: CommitEventView) -> Option<Usage> {
    match event {
        CommitEventView::Committed { usage, .. } => usage,
        _ => None,
    }
}

/// What is reported of a commit.
pub open spec fn commit_report(event: CommitEventView, messages: Seq<MessageView>) -> AgentLoopEventView {
    match event {
        CommitEventView::Committed { .. } => AgentLoopEventView::TurnCommitted { messages },
        CommitEventView::Interrupted => AgentLoopEventView::TurnInterrupted { messages },
        CommitEventView::Aborted => AgentLoopEventView::TurnAborted { messages },
        CommitEventView::TimedOut { .. } => AgentLoopEventView::TurnTimedOut { messages },
    }
}

/// The history that a failed stream leaves, if it tells one.
pub open spec fn fault_history(fault: StreamFaultView) -> Option<Seq<MessageView>> {
    match fault {
        StreamFaultView::MaxTurns { history, .. } => Some(history),
        StreamFaultView::Cancelled { history, .. } => Some(history),
        StreamFaultView::UnknownTool { history, .. } => Some(history),
        _ => None,
    }
}

/// A character in lower case, where it is a letter of ASCII.
pub open spec fn lower(c: char) -> char {
    if 'A' <= c && c <= 'Z' {
        ((c as u32 + 32) as u8) as char
    } else {
        c
    }
}

/// A text in lower case, as far as it is letters of ASCII.
pub open spec fn lowered(text: Seq<char>) -> Seq<char> {
    Seq::new(text.len(), |i: int| lower(text[i]))
}

/// Whether a text occurs in another one.
pub open spec fn occurs(text: Seq<char>, needle: Seq<char>) -> bool {
    exists|i: int|
        0 <= i <= text.len() - needle.len() && #[trigger] text.subrange(i, i + needle.len()) == needle
}

/// Whether one of some texts occurs in another one.
pub open spec fn any_occurs(text: Seq<char>, needles: Seq<Seq<char>>) -> bool {
    exists|k: int| 0 <= k < needles.len() && occurs(text, #[trigger] needles[k])
}

/// What tells that a provider filtered the content.
pub open spec fn content_filter_signs() -> Seq<Seq<char>> {
    seq![
        "content_filter"@,
        "content filter"@,
        "safety filter"@,
        "policy violation"@,
        "responsible_ai_policy"@,
        "unsafe prompt"@,
        "blocked by policy"@,
    ]
}

/// What tells that the context was too large.
pub open spec fn context_full_signs() -> Seq<Seq<char>> {
    seq![
        "context_length_exceeded"@,
        "context length"@,
        "context window"@,
        "maximum context"@,
        "prompt is too long"@,
        "too many input tokens"@,
    ]
}

/// What tells that the output reached its limit.
pub open spec fn length_signs() -> Seq<Seq<char>> {
    seq![
        "max_output_tokens"@,
        "max output tokens"@,
        "output token limit"@,
        "finish_reason: length"@,
        "finish reason length"@,
    ]
}

/// Why a loop ends at a failed model call.
pub open spec fn completion_reason(error: ApiErrorInfoView) -> EndReasonView {
    let text = lowered(error.message);
    if any_occurs(text, content_filter_signs()) {
        EndReasonView::ContentFilter { error }
    } else if any_occurs(text, context_full_signs()) {
        EndReasonView::ContextFull { error }
    } else if any_occurs(text, length_signs()) {
        EndReasonView::Length { error }
    } else {
        EndReasonView::ApiError { error }
    }
}

/// Why a loop ends at a failed stream.
pub open spec fn fault_reason(fault: StreamFaultView) -> EndReasonView {
    match fault {
        StreamFaultView::Completion(error) => completion_reason(error),
        StreamFaultView::Tool(message) => EndReasonView::ToolError { message },
        StreamFaultView::MaxTurns { max_turns, .. } => EndReasonView::MaxTurns { max_turns },
        StreamFaultView::Cancelled { reason, .. } => EndReasonView::Other { message: reason },
        StreamFaultView::UnknownTool { name, .. } => EndReasonView::ToolError {
            message: "unknown tool call: "@ + name,
        },
        StreamFaultView::Other(message) => EndReasonView::Other { message },
    }
}

/// Why the loop is about to end when the running turn is through, if it is.
pub open spec fn projected_end(r: RunnerView, commands_closed: bool) -> Option<EndReasonView> {
    if has_pending(r) || !(r.finish_when_idle || commands_closed) {
        None
    } else {
        Some(EndReasonView::Idle)
    }
}

/// A usage, where something was reported.
pub open spec fn reported(usage: Usage) -> Option<Usage> {
    if usage == no_usage() {
        None
    } else {
        Some(usage)
    }
}

/// The loop has failed.
pub open spec fn fail(r: RunnerView, fx: Seq<LoopEffectView>, error: AgentLoopErrorView) -> LoopStepView {
    LoopStepView {
        runner: RunnerView { turn_running: false, phase: LoopPhaseView::Done, ..r },
        effects: fx.push(
            LoopEffectView::Emit(
                AgentLoopEventView::LoopFailed {
                    error: AgentLoopErrorInfoView { message: loop_error_text(error) },
                },
            ),
        ),
        request: LoopRequestView::Fail(error),
    }
}

/// The loop has failed because a history cannot be used.
pub open spec fn fail_invalid(r: RunnerView, fx: Seq<LoopEffectView>, text: Seq<char>) -> LoopStepView {
    fail(
        r,
        fx,
        AgentLoopErrorView::InvalidMessageHistory(InvalidMessageHistoryErrorView { message: text }),
    )
}

/// The loop is over.
pub open spec fn finish(r: RunnerView, fx: Seq<LoopEffectView>, end_reason: EndReasonView) -> LoopStepView {
    LoopStepView {
        runner: RunnerView { last_response: None, phase: LoopPhaseView::Done, ..r },
        effects: fx.push(LoopEffectView::Emit(AgentLoopEventView::LoopEnded { end_reason })),
        request: LoopRequestView::Finish(
            AgentLoopResultView { end_reason, history: r.history, last_response: r.last_response },
        ),
    }
}

/// Look for commands between two turns, unless the loop has run out of time.
pub open spec fn next_round(r: RunnerView, fx: Seq<LoopEffectView>, now: u128) -> LoopStepView {
    match elapsed(r.loop_deadline, now) {
        Some(deadline) => finish(r, fx, deadline_reason(deadline)),
        None => LoopStepView {
            runner: RunnerView { phase: LoopPhaseView::Draining { again: false }, ..r },
            effects: fx,
            request: LoopRequestView::TryCommand,
        },
    }
}

/// The deadline of a running turn.
pub open spec fn turn_deadline(r: RunnerView, turn: ActiveTurnView) -> Option<TimeoutDeadline> {
    earlier_deadline(turn.deadline, r.loop_deadline)
}

/// Ask the turn hook about a commit, or make it where there is none, if the history stays valid.
pub open spec fn begin_commit(
    r: RunnerView,
    fx: Seq<LoopEffectView>,
    turn: ActiveTurnView,
    messages: Seq<MessageView>,
    event: CommitEventView,
    after: AfterCommitView,
    now: u128,
) -> LoopStepView {
    let next = r.history + messages;
    match first_order_fault(next, 0) {
        Some(text) => fail_invalid(r, fx, text),
        None => if r.has_turn_hook {
            LoopStepView {
                runner: RunnerView {
                    phase: LoopPhaseView::Committing { turn, messages, event, after },
                    ..r
                },
                effects: fx,
                request: LoopRequestView::CallTurnHook(
                    TurnHookContextView {
                        history: next,
                        new_messages: messages,
                        outcome_kind: commit_kind(event),
                        end_reason: commit_end(event),
                        usage: commit_usage(event),
                    },
                ),
            }
        } else {
            finish_commit(r, fx, turn, messages, event, after, None, None, now)
        },
    }
}

/// A turn is committed, perhaps with another history, and perhaps to stop for a reason. A turn that
/// goes on behind its final response has nothing left to commit.
pub open spec fn finish_commit(
    r: RunnerView,
    fx: Seq<LoopEffectView>,
    turn: ActiveTurnView,
    messages: Seq<MessageView>,
    event: CommitEventView,
    after: AfterCommitView,
    replaced: Option<Seq<MessageView>>,
    stopped: Option<Seq<char>>,
    now: u128,
) -> LoopStepView {
    let s = RunnerView {
        history: match replaced {
            Some(history) => history,
            None => r.history + messages,
        },
        turn_running: false,
        ..r
    };
    let told = fx.push(LoopEffectView::Emit(commit_report(event, messages)));
    let shown = match replaced {
        Some(history) => told.push(
            LoopEffectView::Emit(AgentLoopEventView::HistoryReplaced { messages: history }),
        ),
        None => told,
    };
    let hook_reason = match stopped {
        Some(reason) => Some(EndReasonView::AbortedByHook { reason }),
        None => None,
    };
    match after {
        AfterCommitView::Interrupted(message) => match hook_reason {
            Some(reason) => finish(s, shown, reason),
            None => next_round(
                RunnerView { immediate: seq![message] + s.immediate, ..s },
                shown.push(LoopEffectView::CloseTurn),
                now,
            ),
        },
        AfterCommitView::Aborted => finish(s, shown, EndReasonView::Aborted),
        AfterCommitView::TimedOut(reason) => finish(
            s,
            shown,
            match hook_reason {
                Some(own) => own,
                None => reason,
            },
        ),
        AfterCommitView::Final => match hook_reason {
            Some(reason) => finish(s, shown, reason),
            None => await_turn(
                s,
                shown,
                ActiveTurnView { partial: nothing_streamed(), ..turn },
                now,
            ),
        },
        AfterCommitView::Failed(reason) => finish(
            s,
            shown,
            match hook_reason {
                Some(own) => own,
                None => reason,
            },
        ),
    }
}

/// The running turn has taken too long: keep what is complete.
pub open spec fn time_out(
    r: RunnerView,
    fx: Seq<LoopEffectView>,
    turn: ActiveTurnView,
    deadline: TimeoutDeadline,
    now: u128,
) -> LoopStepView {
    let reason = deadline_reason(deadline);
    let messages = partial_append(turn.prepared, turn.partial);
    let event = CommitEventView::TimedOut { end_reason: reason };
    let next = r.history + messages;
    match first_order_fault(next, 0) {
        Some(text) => fail_invalid(r, fx, text),
        None => if r.has_turn_hook {
            LoopStepView {
                runner: RunnerView {
                    phase: LoopPhaseView::Committing {
                        turn,
                        messages,
                        event,
                        after: AfterCommitView::TimedOut(reason),
                    },
                    ..r
                },
                effects: fx,
                request: LoopRequestView::CallTurnHook(
                    TurnHookContextView {
                        history: next,
                        new_messages: messages,
                        outcome_kind: TurnOutcomeKind::TimedOut,
                        end_reason: Some(reason),
                        usage: None,
                    },
                ),
            }
        } else {
            finish(
                RunnerView { history: next, turn_running: false, ..r },
                fx.push(LoopEffectView::Emit(AgentLoopEventView::TurnTimedOut { messages })),
                reason,
            )
        },
    }
}

/// Wait for what the running turn does next, unless it has taken too long.
pub open spec fn await_turn(
    r: RunnerView,
    fx: Seq<LoopEffectView>,
    turn: ActiveTurnView,
    now: u128,
) -> LoopStepView {
    let deadline = turn_deadline(r, turn);
    match elapsed(deadline, now) {
        Some(d) => time_out(r, fx, turn, d, now),
        None => LoopStepView {
            runner: RunnerView { phase: LoopPhaseView::Running { turn }, ..r },
            effects: fx,
            request: LoopRequestView::AwaitTurn {
                deadline: time_of(deadline),
                commands: !turn.commands_closed,
                hook: turn.hook_running,
            },
        },
    }
}

/// Wait for the turn to stream, unless it has taken too long.
pub open spec fn await_open(
    r: RunnerView,
    fx: Seq<LoopEffectView>,
    turn: ActiveTurnView,
    now: u128,
) -> LoopStepView {
    let deadline = turn_deadline(r, turn);
    match elapsed(deadline, now) {
        Some(d) => time_out(r, fx, turn, d, now),
        None => LoopStepView {
            runner: RunnerView { phase: LoopPhaseView::Opening { turn }, ..r },
            effects: fx,
            request: LoopRequestView::AwaitOpen {
                deadline: time_of(deadline),
                commands: !turn.commands_closed,
            },
        },
    }
}

/// Wait for the hook on a message.
pub open spec fn await_hook(
    r: RunnerView,
    fx: Seq<LoopEffectView>,
    turn: ActiveTurnView,
    then: ThenView,
) -> LoopStepView {
    LoopStepView {
        runner: RunnerView { phase: LoopPhaseView::Hooked { turn, then }, ..r },
        effects: fx,
        request: LoopRequestView::AwaitHook { deadline: time_of(turn_deadline(r, turn)) },
    }
}

/// Run a turn.
pub open spec fn run_turn(
    r: RunnerView,
    fx: Seq<LoopEffectView>,
    pending: PendingTurnView,
    now: u128,
) -> LoopStepView {
    match turn_fault(pending, r.history) {
        Some(text) => fail_invalid(r, fx, text),
        None => {
            let prepared = prepared_turn(pending, r.history);
            let turn = ActiveTurnView {
                prepared,
                partial: nothing_streamed(),
                deadline: deadline_after(TimeoutKind::Turn, now, r.turn_timeout),
                commands_closed: false,
                hook_running: false,
            };
            let s = RunnerView { turn_running: true, ..r };
            let started = fx.push(
                LoopEffectView::Emit(AgentLoopEventView::TurnStarted { prompt: prepared.prompt }),
            );
            let deadline = turn_deadline(s, turn);
            match elapsed(deadline, now) {
                Some(d) => time_out(s, started, turn, d, now),
                None => LoopStepView {
                    runner: RunnerView { phase: LoopPhaseView::Opening { turn }, ..s },
                    effects: started,
                    request: LoopRequestView::Open {
                        prompt: prepared.prompt,
                        history: prepared.request_history,
                        max_turns: r.max_turns,
                        deadline: time_of(deadline),
                    },
                },
            }
        },
    }
}

/// No command is left: go on with what there is to do.
pub open spec fn on_drained(r: RunnerView, again: bool, now: u128) -> LoopStepView {
    let none = Seq::<LoopEffectView>::empty();
    if !has_pending(r) {
        if r.finish_when_idle {
            finish(r, none, EndReasonView::Idle)
        } else {
            LoopStepView {
                runner: RunnerView { phase: LoopPhaseView::Idle, ..r },
                effects: none,
                request: LoopRequestView::AwaitCommand { deadline: time_of(r.loop_deadline) },
            }
        }
    } else if !again {
        LoopStepView {
            runner: RunnerView { phase: LoopPhaseView::Draining { again: true }, ..r },
            effects: none,
            request: LoopRequestView::TryCommand,
        }
    } else {
        run_turn(without_next(r), none, next_pending(r), now)
    }
}

/// Act on an interrupt or an abort of the running turn: keep what is complete.
pub open spec fn stop_turn(
    r: RunnerView,
    turn: ActiveTurnView,
    command: CommandView,
    now: u128,
) -> LoopStepView {
    let none = Seq::<LoopEffectView>::empty();
    let messages = partial_append(turn.prepared, turn.partial);
    match command {
        CommandView::Interrupt(message) => begin_commit(
            r,
            none,
            turn,
            messages,
            CommitEventView::Interrupted,
            AfterCommitView::Interrupted(message),
            now,
        ),
        _ => begin_commit(
            r,
            none,
            turn,
            messages,
            CommitEventView::Aborted,
            AfterCommitView::Aborted,
            now,
        ),
    }
}

/// Whether a command stops the running turn.
pub open spec fn stops(command: CommandView) -> bool {
    command is Interrupt || command is Abort
}

/// Report the message that the assistant is at, and start the hook on it.
pub open spec fn snapshot(
    r: RunnerView,
    turn: ActiveTurnView,
    end_reason: Option<EndReasonView>,
    usage: Option<Usage>,
) -> (ActiveTurnView, Seq<LoopEffectView>) {
    let none = Seq::<LoopEffectView>::empty();
    match current_message(turn.partial) {
        None => (turn, none),
        Some(message) => {
            let messages = messages_up_to(turn.prepared, turn.partial, message);
            let told = none.push(
                LoopEffectView::Emit(AgentLoopEventView::AssistantMessageFinished { message, messages }),
            );
            let marked = ActiveTurnView {
                partial: PartialTurnView {
                    finished_assistant_message: Some(message),
                    ..turn.partial
                },
                hook_running: r.has_message_hook || turn.hook_running,
                ..turn
            };
            if r.has_message_hook {
                (
                    marked,
                    told.push(
                        LoopEffectView::SpawnHook(
                            AssistantMessageContextView {
                                message,
                                history: r.history + messages,
                                new_messages: messages,
                                end_reason,
                                usage,
                            },
                        ),
                    ),
                )
            } else {
                (marked, told)
            }
        },
    }
}

/// The assistant has made its calls: report its message once an earlier hook is through.
pub open spec fn on_boundary(r: RunnerView, turn: ActiveTurnView, now: u128) -> LoopStepView {
    if current_message(turn.partial) is Some && turn.hook_running {
        await_hook(r, Seq::empty(), turn, ThenView::Snapshot)
    } else {
        let (next, fx) = snapshot(r, turn, None, None);
        await_turn(r, fx, next, now)
    }
}

/// The turn is through: report its last message once an earlier hook is through.
pub open spec fn on_final(
    r: RunnerView,
    turn: ActiveTurnView,
    response: FinalResponseView,
    now: u128,
) -> LoopStepView {
    if current_message(turn.partial) is Some && turn.hook_running {
        await_hook(r, Seq::empty(), turn, ThenView::Report(response))
    } else {
        let (next, fx) = snapshot(
            r,
            turn,
            projected_end(r, turn.commands_closed),
            reported(response.usage),
        );
        if next.hook_running {
            await_hook(r, fx, next, ThenView::Conclude(response))
        } else {
            conclude(r, fx, next, response, now)
        }
    }
}

/// Commit a turn that is through.
pub open spec fn conclude(
    r: RunnerView,
    fx: Seq<LoopEffectView>,
    turn: ActiveTurnView,
    response: FinalResponseView,
    now: u128,
) -> LoopStepView {
    let s = RunnerView { last_response: Some(response.response), ..r };
    match response.history {
        None => await_turn(s, fx, turn, now),
        Some(messages) => begin_commit(
            s,
            fx,
            turn,
            turn_append(turn.prepared, messages),
            CommitEventView::Committed {
                end_reason: projected_end(r, turn.commands_closed),
                usage: reported(response.usage),
            },
            AfterCommitView::Final,
            now,
        ),
    }
}

/// The stream of the turn is at its end.
pub open spec fn on_ended(r: RunnerView, now: u128) -> LoopStepView {
    next_round(
        RunnerView { turn_running: false, ..r },
        Seq::<LoopEffectView>::empty().push(LoopEffectView::CloseTurn),
        now,
    )
}

/// The stream of the turn has failed: keep the history that it left, or what is complete.
pub open spec fn on_fault(
    r: RunnerView,
    turn: ActiveTurnView,
    fault: StreamFaultView,
    now: u128,
) -> LoopStepView {
    let none = Seq::<LoopEffectView>::empty();
    let reason = fault_reason(fault);
    let event = CommitEventView::Committed { end_reason: Some(reason), usage: None };
    match fault_history(fault) {
        Some(history) => if first_order_fault(history, 0) is Some {
            fail_invalid(r, none, first_order_fault(history, 0)->0)
        } else if !turn.prepared.committed_base_history.is_prefix_of(history) {
            fail_invalid(
                r,
                none,
                "recovered history does not extend the committed base history"@,
            )
        } else {
            begin_commit(
                r,
                none,
                turn,
                history.skip(turn.prepared.committed_base_history.len() as int),
                event,
                AfterCommitView::Failed(reason),
                now,
            )
        },
        None => {
            let messages = partial_append(turn.prepared, turn.partial);
            if messages.len() == 0 {
                finish(RunnerView { turn_running: false, ..r }, none, reason)
            } else {
                begin_commit(
                    r,
                    none,
                    turn,
                    messages,
                    event,
                    AfterCommitView::Failed(reason),
                    now,
                )
            }
        },
    }
}

/// Whether the calls of a message are all there with this one.
pub open spec fn completes_calls(said: StreamedAssistantContentView) -> bool {
    said matches StreamedAssistantContentView::ToolCall { more, .. } && !more
}

/// Act on what the running turn reported.
pub open spec fn on_item(r: RunnerView, turn: ActiveTurnView, item: LoopItemView, now: u128) -> LoopStepView {
    let none = Seq::<LoopEffectView>::empty();
    match item {
        LoopItemView::Assistant(said) => {
            let next = ActiveTurnView { partial: with_assistant(turn.partial, said), ..turn };
            if completes_calls(said) {
                on_boundary(r, next, now)
            } else {
                await_turn(r, none, next, now)
            }
        },
        LoopItemView::User(item) => if r.has_persistence {
            LoopStepView {
                runner: RunnerView { phase: LoopPhaseView::Persisting { turn, item }, ..r },
                effects: none,
                request: LoopRequestView::Persist {
                    key: result_key(item.tool_result),
                    result: item.tool_result,
                },
            }
        } else {
            await_turn(
                r,
                none,
                ActiveTurnView { partial: with_result(turn.partial, item), ..turn },
                now,
            )
        },
        LoopItemView::Final(response) => on_final(r, turn, response, now),
        LoopItemView::Other => await_turn(r, none, turn, now),
    }
}

/// Go on where the hook on a message was waited for.
pub open spec fn on_hook_done(r: RunnerView, turn: ActiveTurnView, then: ThenView, now: u128) -> LoopStepView {
    match then {
        ThenView::Command(command) => stop_turn(r, turn, command, now),
        ThenView::Ended => on_ended(r, now),
        ThenView::Failed(fault) => on_fault(r, turn, fault, now),
        ThenView::Snapshot => on_boundary(r, turn, now),
        ThenView::Report(response) => on_final(r, turn, response, now),
        ThenView::Conclude(response) => conclude(r, Seq::empty(), turn, response, now),
    }
}

/// Act on what the turn hook asks for.
#[verifier::opaque]
pub open spec fn on_hook_answer(
    r: RunnerView,
    turn: ActiveTurnView,
    messages: Seq<MessageView>,
    event: CommitEventView,
    after: AfterCommitView,
    action: TurnHookActionView,
    now: u128,
) -> LoopStepView {
    let none = Seq::<LoopEffectView>::empty();
    let replaced = match action {
        TurnHookActionView::ReplaceHistory(history) => Some(history),
        TurnHookActionView::ReplaceHistoryAndAbort { history, .. } => Some(history),
        _ => None,
    };
    let stopped = match action {
        TurnHookActionView::Abort { reason } => Some(reason),
        TurnHookActionView::ReplaceHistoryAndAbort { reason, .. } => Some(reason),
        _ => None,
    };
    if replaced is Some && first_order_fault(replaced->0, 0) is Some {
        fail_invalid(r, none, first_order_fault(replaced->0, 0)->0)
    } else {
        finish_commit(r, none, turn, messages, event, after, replaced, stopped, now)
    }
}

/// Whether a loop in this phase waits for this input.
pub open spec fn expects(phase: LoopPhaseView, input: LoopInputView) -> bool {
    match phase {
        LoopPhaseView::Loading => input is Loaded,
        LoopPhaseView::Draining { .. } => input is NoCommand || input is Command,
        LoopPhaseView::Idle => input is Command || input is Closed || input is DeadlineElapsed,
        LoopPhaseView::Opening { .. } => input is Opened || input is Command || input is Closed
            || input is DeadlineElapsed,
        LoopPhaseView::Running { turn } => input is Command || input is Closed
            || input is DeadlineElapsed || input is Item || input is Failed || input is Ended || (
        input is HookDone && turn.hook_running),
        LoopPhaseView::Hooked { .. } => input is HookDone || input is DeadlineElapsed,
        LoopPhaseView::Persisting { .. } => input is Persisted,
        LoopPhaseView::Committing { .. } => input is HookAnswered,
        LoopPhaseView::Done => false,
    }
}

/// The running turn has come to its deadline. Where it has none, it goes on.
pub open spec fn on_deadline(r: RunnerView, turn: ActiveTurnView, now: u128) -> LoopStepView {
    match turn_deadline(r, turn) {
        Some(deadline) => time_out(r, Seq::empty(), turn, deadline, now),
        None => await_turn(r, Seq::empty(), turn, now),
    }
}

/// The history of a loop is in order: start the first round.
pub open spec fn on_repaired(r: RunnerView, fx: Seq<LoopEffectView>, now: u128) -> LoopStepView {
    next_round(
        RunnerView {
            loop_deadline: deadline_after(TimeoutKind::Loop, now, r.loop_timeout),
            ..r
        },
        fx,
        now,
    )
}

/// The first step of a loop: repair its history.
pub open spec fn first_step(r: RunnerView, now: u128) -> LoopStepView {
    let fx = Seq::<LoopEffectView>::empty().push(
        LoopEffectView::Emit(AgentLoopEventView::LoopStarted),
    );
    if r.repair is None {
        on_repaired(r, fx, now)
    } else if r.has_persistence {
        LoopStepView {
            runner: RunnerView { phase: LoopPhaseView::Loading, ..r },
            effects: fx,
            request: LoopRequestView::Load(keys_of(missing_from(r.history, 0))),
        }
    } else {
        on_repaired(
            RunnerView { history: restored_history(r.history, Seq::empty(), r.repair->0), ..r },
            fx,
            now,
        )
    }
}

/// Act on what was looked up for the repair of the history.
#[verifier::opaque]
pub open spec fn on_loaded(r: RunnerView, loaded: Seq<LoadedView>, now: u128) -> LoopStepView {
    let none = Seq::<LoopEffectView>::empty();
    match first_failure(loaded, 0, missing_from(r.history, 0).len() as int) {
        Some(reason) => fail(r, none, AgentLoopErrorView::ToolResultPersistence(reason)),
        None => on_repaired(
            RunnerView { history: restored_history(r.history, loaded, r.repair->0), ..r },
            none,
            now,
        ),
    }
}

/// Act on what happened between two turns, while commands are taken.
#[verifier::opaque]
pub open spec fn on_draining(r: RunnerView, again: bool, input: LoopInputView, now: u128) -> LoopStepView {
    let none = Seq::<LoopEffectView>::empty();
    match input {
        LoopInputView::Command(command) => if command is Abort {
            finish(r, none, EndReasonView::Aborted)
        } else {
            LoopStepView {
                runner: RunnerView {
                    phase: LoopPhaseView::Draining { again },
                    ..queued(r, command)
                },
                effects: none,
                request: LoopRequestView::TryCommand,
            }
        },
        _ => on_drained(r, again, now),
    }
}

/// Act on what happened while nothing was to be done.
#[verifier::opaque]
pub open spec fn on_idle(r: RunnerView, input: LoopInputView, now: u128) -> LoopStepView {
    let none = Seq::<LoopEffectView>::empty();
    match input {
        LoopInputView::Command(command) => if command is Abort {
            finish(r, none, EndReasonView::Aborted)
        } else {
            next_round(queued(r, command), none, now)
        },
        LoopInputView::Closed => finish(r, none, EndReasonView::Idle),
        _ => match r.loop_deadline {
            Some(deadline) => finish(r, none, deadline_reason(deadline)),
            None => next_round(r, none, now),
        },
    }
}

/// Act on what happened before the turn streamed.
#[verifier::opaque]
pub open spec fn on_opening(
    r: RunnerView,
    turn: ActiveTurnView,
    input: LoopInputView,
    now: u128,
) -> LoopStepView {
    let none = Seq::<LoopEffectView>::empty();
    match input {
        LoopInputView::Command(command) => if stops(command) {
            stop_turn(r, turn, command, now)
        } else {
            await_open(queued(r, command), none, turn, now)
        },
        LoopInputView::Closed => await_open(
            r,
            none,
            ActiveTurnView { commands_closed: true, ..turn },
            now,
        ),
        LoopInputView::DeadlineElapsed => on_deadline(r, turn, now),
        _ => await_turn(r, none, turn, now),
    }
}

/// Act on what happened while the turn streamed.
#[verifier::opaque]
pub open spec fn on_running(
    r: RunnerView,
    turn: ActiveTurnView,
    input: LoopInputView,
    now: u128,
) -> LoopStepView {
    let none = Seq::<LoopEffectView>::empty();
    match input {
        LoopInputView::Command(command) => if !stops(command) {
            await_turn(queued(r, command), none, turn, now)
        } else if turn.hook_running {
            await_hook(r, none, turn, ThenView::Command(command))
        } else {
            stop_turn(r, turn, command, now)
        },
        LoopInputView::Closed => await_turn(
            r,
            none,
            ActiveTurnView { commands_closed: true, ..turn },
            now,
        ),
        LoopInputView::DeadlineElapsed => on_deadline(r, turn, now),
        LoopInputView::HookDone(failure) => match failure {
            Some(error) => fail(r, none, error),
            None => await_turn(r, none, ActiveTurnView { hook_running: false, ..turn }, now),
        },
        LoopInputView::Item(item) => on_item(r, turn, item, now),
        LoopInputView::Failed(fault) => if turn.hook_running {
            await_hook(r, none, turn, ThenView::Failed(fault))
        } else {
            on_fault(r, turn, fault, now)
        },
        _ => if turn.hook_running {
            await_hook(r, none, turn, ThenView::Ended)
        } else {
            on_ended(r, now)
        },
    }
}

/// Act on what happened while the hook on a message was waited for.
#[verifier::opaque]
pub open spec fn on_hooked(
    r: RunnerView,
    turn: ActiveTurnView,
    then: ThenView,
    input: LoopInputView,
    now: u128,
) -> LoopStepView {
    match input {
        LoopInputView::HookDone(failure) => match failure {
            Some(error) => fail(r, Seq::empty(), error),
            None => on_hook_done(r, ActiveTurnView { hook_running: false, ..turn }, then, now),
        },
        _ => on_deadline(r, turn, now),
    }
}

/// Act on whether a result is saved.
#[verifier::opaque]
pub open spec fn on_persisted(
    r: RunnerView,
    turn: ActiveTurnView,
    item: StreamedUserContentView,
    failure: Option<Seq<char>>,
    now: u128,
) -> LoopStepView {
    let none = Seq::<LoopEffectView>::empty();
    match failure {
        Some(reason) => fail(r, none, AgentLoopErrorView::ToolResultPersistence(reason)),
        None => await_turn(
            r,
            none,
            ActiveTurnView { partial: with_result(turn.partial, item), ..turn },
            now,
        ),
    }
}

/// What happens next, for every input that a loop waits for.
pub open spec fn step(runner: RunnerView, input: LoopInputView, now: u128) -> LoopStepView {
    let none = Seq::<LoopEffectView>::empty();
    let r = RunnerView { phase: LoopPhaseView::Done, ..runner };
    match runner.phase {
        LoopPhaseView::Loading => on_loaded(r, input->Loaded_0, now),
        LoopPhaseView::Draining { again } => on_draining(r, again, input, now),
        LoopPhaseView::Idle => on_idle(r, input, now),
        LoopPhaseView::Opening { turn } => on_opening(r, turn, input, now),
        LoopPhaseView::Running { turn } => on_running(r, turn, input, now),
        LoopPhaseView::Hooked { turn, then } => on_hooked(r, turn, then, input, now),
        LoopPhaseView::Persisting { turn, item } => on_persisted(
            r,
            turn,
            item,
            input->Persisted_0,
            now,
        ),
        LoopPhaseView::Committing { turn, messages, event, after } => match input->HookAnswered_0 {
            Err(reason) => fail(r, none, AgentLoopErrorView::TurnHook(reason)),
            Ok(action) => on_hook_answer(r, turn, messages, event, after, action, now),
        },
        LoopPhaseView::Done => fail(r, none, AgentLoopErrorView::CommandChannelClosed),
    }
}

} // verus!
