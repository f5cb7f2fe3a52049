//! The rules by which a session runs, as a machine: it is told what happened, and says what is to
//! be done next.
//!
//! The machine does no I/O of its own. Its driver carries out each [`Request`] and reports back
//! with an [`Input`]. Times are nanoseconds on the driver's clock.
use crate::deep::{result_view, DeepEq};
use crate::identity::{is_random_uuid, is_wall_time};
use crate::journal::{answers, refusal, seam, tail_calls};
use crate::message::{
    result_blocks, text_block, Message, MessageView, ToolCallView, ToolResult, ToolResultContent,
    ToolResultContentView, ToolResultView,
};
use crate::queue::{queue_has, queue_len, queue_next, queue_push, queue_rest, Queue, QueueView};
use crate::session::{EndReason, EndReasonView, Error, ErrorView, OutcomeView, Usage};
use crate::store::{
    entry_ids, entry_messages, Commit, CommitView, InboxEntry, InboxEntryView, InboxStatus, ToolKey,
    ToolKeyView,
};
use vstd::prelude::*;

verus! {

/// What stands in for the result of a tool that left none behind.
pub const RECOVERY: &'static str = "Recovery: no accepted result was recorded. This tool may or may not have completed. Do not assume it is safe to repeat its side effects.";

/// How a storage operation failed.
#[derive(Debug, PartialEq, Eq)]
pub enum Failure {
    /// Its deadline passed; whether it took effect is unknown.
    TimedOut,
    /// The store refused it, in words.
    Refused(String),
}

/// The value of a [`Failure`].
pub enum FailureView {
    TimedOut,
    Refused(Seq<char>),
}

impl DeepView for Failure {
    type V = FailureView;

    open spec fn deep_view(&self) -> FailureView {
        match self {
            Failure::TimedOut => FailureView::TimedOut,
            Failure::Refused(x) => FailureView::Refused(x.deep_view()),
        }
    }
}

/// Why a model stopped generating.
#[derive(Debug, PartialEq, Eq)]
pub enum FinishReason {
    Stop,
    Length,
    ToolCalls,
    ContentFilter,
    Other(String),
}

/// The value of a [`FinishReason`].
pub enum FinishReasonView {
    Stop,
    Length,
    ToolCalls,
    ContentFilter,
    Other(Seq<char>),
}

impl DeepView for FinishReason {
    type V = FinishReasonView;

    open spec fn deep_view(&self) -> FinishReasonView {
        match self {
            FinishReason::Stop => FinishReasonView::Stop,
            FinishReason::Length => FinishReasonView::Length,
            FinishReason::ToolCalls => FinishReasonView::ToolCalls,
            FinishReason::ContentFilter => FinishReasonView::ContentFilter,
            FinishReason::Other(x) => FinishReasonView::Other(x.deep_view()),
        }
    }
}

/// What a running turn reports.
#[derive(Debug, PartialEq, Eq)]
pub enum StreamItem {
    /// A model call was completed.
    CompletionCall { usage: Usage, finish_reason: Option<FinishReason> },
    /// The turn is over.
    FinalResponse,
    /// Anything else.
    Other,
}

/// The value of a [`StreamItem`].
pub enum StreamItemView {
    CompletionCall { usage: Usage, finish_reason: Option<FinishReasonView> },
    FinalResponse,
    Other,
}

impl DeepView for StreamItem {
    type V = StreamItemView;

    open spec fn deep_view(&self) -> StreamItemView {
        match self {
            StreamItem::CompletionCall { usage, finish_reason } => StreamItemView::CompletionCall { usage: *usage, finish_reason: finish_reason.deep_view() },
            StreamItem::FinalResponse => StreamItemView::FinalResponse,
            StreamItem::Other => StreamItemView::Other,
        }
    }
}

/// How a running turn failed.
#[derive(Debug, PartialEq, Eq)]
pub enum StreamFailure {
    /// Its budget of model calls was used up.
    MaxTurns,
    /// A hook stopped it, for a reason.
    Cancelled(String),
    /// A model call failed, in words.
    Completion(String),
    /// The run failed in another way, in words.
    Prompt(String),
    /// The stream failed, in words.
    Other(String),
}

/// The value of a [`StreamFailure`].
pub enum StreamFailureView {
    MaxTurns,
    Cancelled(Seq<char>),
    Completion(Seq<char>),
    Prompt(Seq<char>),
    Other(Seq<char>),
}

impl DeepView for StreamFailure {
    type V = StreamFailureView;

    open spec fn deep_view(&self) -> StreamFailureView {
        match self {
            StreamFailure::MaxTurns => StreamFailureView::MaxTurns,
            StreamFailure::Cancelled(x) => StreamFailureView::Cancelled(x.deep_view()),
            StreamFailure::Completion(x) => StreamFailureView::Completion(x.deep_view()),
            StreamFailure::Prompt(x) => StreamFailureView::Prompt(x.deep_view()),
            StreamFailure::Other(x) => StreamFailureView::Other(x.deep_view()),
        }
    }
}

/// A boundary that a running turn must not pass before it is durable.
#[derive(Debug, PartialEq, Eq)]
pub enum Checkpoint {
    /// A model is to be called on so many messages.
    BeforeRequest(usize),
    /// The tool of the call with this id is to run.
    BeforeTool(String),
    /// The assistant has spoken.
    Assistant(Message),
    /// The call with this id has its result.
    Result { id: String, name: String, content: Vec<ToolResultContent> },
}

/// The value of a [`Checkpoint`].
pub enum CheckpointView {
    BeforeRequest(usize),
    BeforeTool(Seq<char>),
    Assistant(MessageView),
    Result { id: Seq<char>, name: Seq<char>, content: Seq<ToolResultContentView> },
}

impl DeepView for Checkpoint {
    type V = CheckpointView;

    open spec fn deep_view(&self) -> CheckpointView {
        match self {
            Checkpoint::BeforeRequest(x) => CheckpointView::BeforeRequest(*x),
            Checkpoint::BeforeTool(x) => CheckpointView::BeforeTool(x.deep_view()),
            Checkpoint::Assistant(x) => CheckpointView::Assistant(x.deep_view()),
            Checkpoint::Result { id, name, content } => CheckpointView::Result { id: id.deep_view(), name: name.deep_view(), content: content.deep_view() },
        }
    }
}

/// What a session is asked from outside. A reply is asked for under a number.
#[derive(Debug, PartialEq, Eq)]
pub enum Command {
    Submit { entry: InboxEntry, reply: u64 },
    Resume { reply: u64 },
    Pause,
    Abort,
    /// Wait until nothing is left to do; `closed` names earlier waits that nobody waits for any more.
    Wait { reply: u64, closed: Vec<u64> },
    History { reply: u64 },
}

/// The value of a [`Command`].
pub enum CommandView {
    Submit { entry: InboxEntryView, reply: u64 },
    Resume { reply: u64 },
    Pause,
    Abort,
    Wait { reply: u64, closed: Seq<u64> },
    History { reply: u64 },
}

impl DeepView for Command {
    type V = CommandView;

    open spec fn deep_view(&self) -> CommandView {
        match self {
            Command::Submit { entry, reply } => CommandView::Submit { entry: entry.deep_view(), reply: *reply },
            Command::Resume { reply } => CommandView::Resume { reply: *reply },
            Command::Pause => CommandView::Pause,
            Command::Abort => CommandView::Abort,
            Command::Wait { reply, closed } => CommandView::Wait { reply: *reply, closed: closed.deep_view() },
            Command::History { reply } => CommandView::History { reply: *reply },
        }
    }
}

/// What happened.
#[derive(Debug, PartialEq, Eq)]
pub enum Input {
    Loaded(Result<Option<ToolResult>, Failure>),
    Stored(Result<(), Failure>),
    Submitted(Result<InboxStatus, Failure>),
    NoCommand,
    Command(Command),
    /// No further command can come.
    Closed,
    DeadlineElapsed,
    /// The turn runs.
    Opened,
    Checkpoint(Checkpoint),
    NoCheckpoint,
    Item(StreamItem),
    Failed(StreamFailure),
    /// The stream of the turn ended.
    Ended,
}

/// The value of an [`Input`].
pub enum InputView {
    Loaded(Result<Option<ToolResultView>, FailureView>),
    Stored(Result<(), FailureView>),
    Submitted(Result<InboxStatus, FailureView>),
    NoCommand,
    Command(CommandView),
    Closed,
    DeadlineElapsed,
    Opened,
    Checkpoint(CheckpointView),
    NoCheckpoint,
    Item(StreamItemView),
    Failed(StreamFailureView),
    Ended,
}

impl DeepView for Input {
    type V = InputView;

    open spec fn deep_view(&self) -> InputView {
        match self {
            Input::Loaded(x) => InputView::Loaded(result_view(*x)),
            Input::Stored(x) => InputView::Stored(result_view(*x)),
            Input::Submitted(x) => InputView::Submitted(result_view(*x)),
            Input::NoCommand => InputView::NoCommand,
            Input::Command(x) => InputView::Command(x.deep_view()),
            Input::Closed => InputView::Closed,
            Input::DeadlineElapsed => InputView::DeadlineElapsed,
            Input::Opened => InputView::Opened,
            Input::Checkpoint(x) => InputView::Checkpoint(x.deep_view()),
            Input::NoCheckpoint => InputView::NoCheckpoint,
            Input::Item(x) => InputView::Item(x.deep_view()),
            Input::Failed(x) => InputView::Failed(x.deep_view()),
            Input::Ended => InputView::Ended,
        }
    }
}

/// What is to be told, in order, before the next request is carried out.
#[derive(Debug, PartialEq, Eq)]
#[allow(inconsistent_fields)]
pub enum Effect {
    /// A commit was made.
    Committed(Commit),
    /// Nothing is left to do.
    Idle,
    SubmitReply { reply: u64, result: Result<InboxStatus, Error> },
    ResumeReply { reply: u64, result: Result<(), Error> },
    HistoryReply { reply: u64, history: Vec<Message> },
    WaitReply { reply: u64, result: Result<EndReason, Error> },
    /// The turn may pass its checkpoint.
    Release,
    /// The model, the tools and the hooks of the turn are to be stopped.
    CloseTurn,
}

/// The value of an [`Effect`].
#[allow(inconsistent_fields)]
pub enum EffectView {
    Committed(CommitView),
    Idle,
    SubmitReply { reply: u64, result: Result<InboxStatus, ErrorView> },
    ResumeReply { reply: u64, result: Result<(), ErrorView> },
    HistoryReply { reply: u64, history: Seq<MessageView> },
    WaitReply { reply: u64, result: Result<EndReasonView, ErrorView> },
    Release,
    CloseTurn,
}

impl DeepView for Effect {
    type V = EffectView;

    open spec fn deep_view(&self) -> EffectView {
        match self {
            Effect::Committed(x) => EffectView::Committed(x.deep_view()),
            Effect::Idle => EffectView::Idle,
            Effect::SubmitReply { reply, result } => EffectView::SubmitReply { reply: *reply, result: result_view(*result) },
            Effect::ResumeReply { reply, result } => EffectView::ResumeReply { reply: *reply, result: result_view(*result) },
            Effect::HistoryReply { reply, history } => EffectView::HistoryReply { reply: *reply, history: history.deep_view() },
            Effect::WaitReply { reply, result } => EffectView::WaitReply { reply: *reply, result: result_view(*result) },
            Effect::Release => EffectView::Release,
            Effect::CloseTurn => EffectView::CloseTurn,
        }
    }
}

/// What is to be done next. A deadline is the latest time to report back at.
#[derive(Debug, PartialEq, Eq)]
#[allow(inconsistent_fields)]
pub enum Request {
    Load { key: ToolKey, deadline: u128 },
    Commit { commit: Commit, deadline: u128 },
    Submit { entry: InboxEntry, deadline: u128 },
    Save { key: ToolKey, result: ToolResult, deadline: u128 },
    /// Take a command, if one is there.
    TryCommand,
    AwaitCommand { deadline: Option<u128> },
    /// Start a turn.
    Open { prompt: Message, history: Vec<Message>, max_turns: usize },
    /// Wait for a checkpoint, before all else; for the deadline; for a command or the turn.
    AwaitTurn { deadline: Option<u128> },
    /// Take a checkpoint, if one is there.
    TryCheckpoint,
    /// The session is over.
    Stop(Result<EndReason, Error>),
}

/// The value of a [`Request`].
#[allow(inconsistent_fields)]
pub enum RequestView {
    Load { key: ToolKeyView, deadline: u128 },
    Commit { commit: CommitView, deadline: u128 },
    Submit { entry: InboxEntryView, deadline: u128 },
    Save { key: ToolKeyView, result: ToolResultView, deadline: u128 },
    TryCommand,
    AwaitCommand { deadline: Option<u128> },
    Open { prompt: MessageView, history: Seq<MessageView>, max_turns: usize },
    AwaitTurn { deadline: Option<u128> },
    TryCheckpoint,
    Stop(Result<EndReasonView, ErrorView>),
}

impl DeepView for Request {
    type V = RequestView;

    open spec fn deep_view(&self) -> RequestView {
        match self {
            Request::Load { key, deadline } => RequestView::Load { key: key.deep_view(), deadline: *deadline },
            Request::Commit { commit, deadline } => RequestView::Commit { commit: commit.deep_view(), deadline: *deadline },
            Request::Submit { entry, deadline } => RequestView::Submit { entry: entry.deep_view(), deadline: *deadline },
            Request::Save { key, result, deadline } => RequestView::Save { key: key.deep_view(), result: result.deep_view(), deadline: *deadline },
            Request::TryCommand => RequestView::TryCommand,
            Request::AwaitCommand { deadline } => RequestView::AwaitCommand { deadline: deadline.deep_view() },
            Request::Open { prompt, history, max_turns } => RequestView::Open { prompt: prompt.deep_view(), history: history.deep_view(), max_turns: *max_turns },
            Request::AwaitTurn { deadline } => RequestView::AwaitTurn { deadline: deadline.deep_view() },
            Request::TryCheckpoint => RequestView::TryCheckpoint,
            Request::Stop(x) => RequestView::Stop(result_view(*x)),
        }
    }
}

/// What a commit is made for.
#[derive(Clone, Copy, Debug, PartialEq, Eq, Structural)]
pub enum After {
    /// The journal is in order; the session can start.
    Start,
    /// The signals of a turn are recorded; it can start.
    Open,
    /// A checkpoint is durable; the turn can go on.
    Release,
    /// The journal is in order; the outcome of the turn can be recorded.
    Record,
    /// The outcome is recorded; the turn is over.
    Finish,
}

impl DeepView for After {
    type V = After;

    open spec fn deep_view(&self) -> After {
        *self
    }
}

impl DeepEq for After {
    fn deep_eq(&self, other: &After) -> (r: bool) {
        *self == *other
    }
}

/// Where a command was received.
#[derive(Clone, Copy, Debug, PartialEq, Eq, Structural)]
pub enum Origin {
    /// Between two turns, with room for so many further commands before the next turn.
    Draining { left: usize },
    /// While nothing was to be done.
    Idle,
    /// During a turn.
    Running,
}

impl DeepView for Origin {
    type V = Origin;

    open spec fn deep_view(&self) -> Origin {
        *self
    }
}

/// What a step takes from the world: the time, and fresh identities for what it may write.
#[derive(Clone, Copy, Debug, PartialEq, Eq, Structural)]
pub struct Moment {
    /// The driver's clock.
    pub now: u128,
    /// The id for a commit.
    pub commit_id: u128,
    /// The id for a finished run.
    pub run_id: u128,
    /// Nanoseconds since the Unix epoch.
    pub wall: i128,
}

/// A moment at a time on the driver's clock, with ids that are those of random UUIDs.
pub open spec fn is_fresh(moment: Moment, now: u128) -> bool {
    &&& moment.now == now
    &&& is_random_uuid(moment.commit_id)
    &&& is_random_uuid(moment.run_id)
    &&& is_wall_time(moment.wall)
}

/// What the session waits for.
#[derive(Debug, PartialEq, Eq)]
pub enum Phase {
    Repairing { results: Vec<ToolResult>, deadline: u128, after: After },
    Committing { commit: Commit, after: After },
    Draining { left: usize },
    Idle,
    Submitting { entry: InboxEntry, reply: u64, origin: Origin },
    Opening,
    Running,
    Saving { key: ToolKey, result: ToolResult, deadline: u128 },
    Settling,
    Stopped,
}

/// The value of a [`Phase`].
pub enum PhaseView {
    Repairing { results: Seq<ToolResultView>, deadline: u128, after: After },
    Committing { commit: CommitView, after: After },
    Draining { left: usize },
    Idle,
    Submitting { entry: InboxEntryView, reply: u64, origin: Origin },
    Opening,
    Running,
    Saving { key: ToolKeyView, result: ToolResultView, deadline: u128 },
    Settling,
    Stopped,
}

impl DeepView for Phase {
    type V = PhaseView;

    open spec fn deep_view(&self) -> PhaseView {
        match self {
            Phase::Repairing { results, deadline, after } => PhaseView::Repairing { results: results.deep_view(), deadline: *deadline, after: *after },
            Phase::Committing { commit, after } => PhaseView::Committing { commit: commit.deep_view(), after: *after },
            Phase::Draining { left } => PhaseView::Draining { left: *left },
            Phase::Idle => PhaseView::Idle,
            Phase::Submitting { entry, reply, origin } => PhaseView::Submitting { entry: entry.deep_view(), reply: *reply, origin: *origin },
            Phase::Opening => PhaseView::Opening,
            Phase::Running => PhaseView::Running,
            Phase::Saving { key, result, deadline } => PhaseView::Saving { key: key.deep_view(), result: result.deep_view(), deadline: *deadline },
            Phase::Settling => PhaseView::Settling,
            Phase::Stopped => PhaseView::Stopped,
        }
    }
}

/// The running turn.
#[derive(Debug, PartialEq, Eq)]
pub struct Turn {
    pub deadline: Option<u128>,
    pub timeout_reason: EndReason,
    pub usage: Usage,
    pub usage_known: bool,
    pub any_call: bool,
    pub finish_reason: Option<EndReason>,
    /// Why the turn is over, once it is.
    pub reason: Option<EndReason>,
    /// By when the turn has to be wound up.
    pub finalization: u128,
}

/// The value of a [`Turn`].
pub struct TurnView {
    pub deadline: Option<u128>,
    pub timeout_reason: EndReasonView,
    pub usage: Usage,
    pub usage_known: bool,
    pub any_call: bool,
    pub finish_reason: Option<EndReasonView>,
    pub reason: Option<EndReasonView>,
    pub finalization: u128,
}

impl DeepView for Turn {
    type V = TurnView;

    open spec fn deep_view(&self) -> TurnView {
        TurnView {
            deadline: self.deadline.deep_view(),
            timeout_reason: self.timeout_reason.deep_view(),
            usage: self.usage,
            usage_known: self.usage_known,
            any_call: self.any_call,
            finish_reason: self.finish_reason.deep_view(),
            reason: self.reason.deep_view(),
            finalization: self.finalization,
        }
    }
}

/// A running session.
#[derive(Debug)]
pub struct Actor {
    pub capacity: usize,
    pub max_turns: usize,
    pub turn_timeout: Option<u128>,
    pub io_timeout: u128,
    pub history: Vec<Message>,
    pub queue: Queue,
    pub waiters: Vec<u64>,
    pub paused: bool,
    pub idle: bool,
    pub loop_deadline: Option<u128>,
    /// Results of the open calls that are saved.
    pub receipts: Vec<ToolResult>,
    pub turn: Turn,
    pub phase: Phase,
}

/// The value of an [`Actor`].
pub struct ActorView {
    pub capacity: usize,
    pub max_turns: usize,
    pub turn_timeout: Option<u128>,
    pub io_timeout: u128,
    pub history: Seq<MessageView>,
    pub queue: QueueView,
    pub waiters: Seq<u64>,
    pub paused: bool,
    pub idle: bool,
    pub loop_deadline: Option<u128>,
    pub receipts: Seq<ToolResultView>,
    pub turn: TurnView,
    pub phase: PhaseView,
}

impl DeepView for Actor {
    type V = ActorView;

    open spec fn deep_view(&self) -> ActorView {
        ActorView {
            capacity: self.capacity,
            max_turns: self.max_turns,
            turn_timeout: self.turn_timeout.deep_view(),
            io_timeout: self.io_timeout,
            history: self.history.deep_view(),
            queue: self.queue.deep_view(),
            waiters: self.waiters.deep_view(),
            paused: self.paused,
            idle: self.idle,
            loop_deadline: self.loop_deadline.deep_view(),
            receipts: self.receipts.deep_view(),
            turn: self.turn.deep_view(),
            phase: self.phase.deep_view(),
        }
    }
}

/// What a step leads to.
pub struct StepView {
    pub actor: ActorView,
    pub effects: Seq<EffectView>,
    pub request: RequestView,
}

/// A time so much later. A time beyond the clock's range never comes.
pub open spec fn later(now: u128, timeout: u128) -> u128 {
    if now + timeout > u128::MAX {
        u128::MAX
    } else {
        (now + timeout) as u128
    }
}

/// The earlier of a time and an optional one.
pub open spec fn earlier(time: u128, other: Option<u128>) -> u128 {
    match other {
        Some(t) if t < time => t,
        _ => time,
    }
}

/// By when storage has to answer, during work that is itself bounded.
pub open spec fn io_deadline(a: ActorView, now: u128, execution: Option<u128>) -> u128 {
    earlier(later(now, a.io_timeout), execution)
}

/// A failed storage operation in words.
pub open spec fn failure_text(failure: FailureView) -> Seq<char> {
    match failure {
        FailureView::TimedOut => "storage deadline elapsed"@,
        FailureView::Refused(text) => text,
    }
}

/// The sum of two counts of tokens; a count beyond the range of its type stays at the limit.
pub open spec fn plus(a: u64, b: u64) -> u64 {
    if a + b > u64::MAX {
        u64::MAX
    } else {
        (a + b) as u64
    }
}

/// The sum of two usages, count by count.
pub open spec fn usage_sum(a: Usage, b: Usage) -> Usage {
    Usage {
        input_tokens: plus(a.input_tokens, b.input_tokens),
        output_tokens: plus(a.output_tokens, b.output_tokens),
        total_tokens: plus(a.total_tokens, b.total_tokens),
        cached_input_tokens: plus(a.cached_input_tokens, b.cached_input_tokens),
        cache_creation_input_tokens: plus(
            a.cache_creation_input_tokens,
            b.cache_creation_input_tokens,
        ),
        tool_use_prompt_tokens: plus(a.tool_use_prompt_tokens, b.tool_use_prompt_tokens),
        reasoning_tokens: plus(a.reasoning_tokens, b.reasoning_tokens),
    }
}

/// The usage that reports nothing.
pub open spec fn no_usage() -> Usage {
    Usage {
        input_tokens: 0,
        output_tokens: 0,
        total_tokens: 0,
        cached_input_tokens: 0,
        cache_creation_input_tokens: 0,
        tool_use_prompt_tokens: 0,
        reasoning_tokens: 0,
    }
}

/// Why a turn is over that failed in this way.
pub open spec fn failure_reason(failure: StreamFailureView) -> EndReasonView {
    match failure {
        StreamFailureView::MaxTurns => EndReasonView::MaxTurns,
        StreamFailureView::Cancelled(reason) => EndReasonView::HookStopped(reason),
        StreamFailureView::Completion(text) => EndReasonView::ProviderError(text),
        StreamFailureView::Prompt(text) => EndReasonView::RunError(text),
        StreamFailureView::Other(text) => EndReasonView::ProviderError(text),
    }
}

/// Why a turn will be over if its last model call stopped for this reason; None for success.
pub open spec fn finish_of(reason: Option<FinishReasonView>) -> Option<EndReasonView> {
    match reason {
        Some(FinishReasonView::Length) => Some(EndReasonView::Length),
        Some(FinishReasonView::ContentFilter) => Some(EndReasonView::ContentFilter),
        _ => None,
    }
}

/// A turn that starts now.
pub open spec fn fresh_turn(a: ActorView, now: u128) -> TurnView {
    let own = match a.turn_timeout {
        Some(timeout) => Some(later(now, timeout)),
        None => None,
    };
    let deadline = match (own, a.loop_deadline) {
        (Some(x), Some(y)) => Some(if y < x {
            y
        } else {
            x
        }),
        (Some(x), None) => Some(x),
        (None, y) => y,
    };
    TurnView {
        deadline,
        timeout_reason: if a.loop_deadline is Some && deadline == a.loop_deadline {
            EndReasonView::LoopTimedOut
        } else {
            EndReasonView::TurnTimedOut
        },
        usage: no_usage(),
        usage_known: true,
        any_call: false,
        finish_reason: None,
        reason: None,
        finalization: 0,
    }
}

/// What is recorded of a turn that is over.
pub open spec fn turn_outcome(turn: TurnView, moment: Moment) -> OutcomeView {
    OutcomeView {
        run_id: moment.run_id,
        reason: turn.reason->0,
        usage: if turn.usage_known && turn.any_call {
            Some(turn.usage)
        } else {
            None
        },
        finished_at: moment.wall,
    }
}

/// The result that stands in for one that was not recorded.
pub open spec fn recovery_result(call: ToolCallView) -> ToolResultView {
    ToolResultView {
        call: call.id,
        provider: call.provider,
        name: call.function.name,
        content: seq![text_block(RECOVERY@)],
    }
}

/// The saved result of the call with an id.
pub open spec fn held(receipts: Seq<ToolResultView>, id: Seq<char>) -> Option<ToolResultView>
    decreases receipts.len(),
{
    if receipts.len() == 0 {
        None
    } else if receipts.last().call == id {
        Some(receipts.last())
    } else {
        held(receipts.drop_last(), id)
    }
}

/// The saved results with one more; it takes the place of an earlier one for the same call.
pub open spec fn hold(receipts: Seq<ToolResultView>, result: ToolResultView) -> Seq<ToolResultView>
    decreases receipts.len(),
{
    if receipts.len() == 0 {
        seq![result]
    } else if receipts.last().call == result.call {
        receipts.drop_last().push(result)
    } else {
        hold(receipts.drop_last(), result).push(receipts.last())
    }
}

/// The saved results of some calls, in the order of the calls.
pub open spec fn held_for(receipts: Seq<ToolResultView>, calls: Seq<ToolCallView>) -> Seq<ToolResultView> {
    Seq::new(calls.len(), |i: int| held(receipts, calls[i].id)->0)
}

/// The place in a history of the message whose calls are open.
pub open spec fn tail_key(history: Seq<MessageView>, id: Seq<char>) -> ToolKeyView {
    ToolKeyView { assistant_position: (history.len() - 1) as usize, call_id: id }
}

/// The call with an id, among some calls.
pub open spec fn call_with(calls: Seq<ToolCallView>, id: Seq<char>) -> Option<ToolCallView>
    decreases calls.len(),
{
    if calls.len() == 0 {
        None
    } else if calls[0].id == id {
        Some(calls[0])
    } else {
        call_with(calls.skip(1), id)
    }
}

/// The session is over.
pub open spec fn stop(
    a: ActorView,
    fx: Seq<EffectView>,
    result: Result<EndReasonView, ErrorView>,
) -> StepView {
    StepView {
        actor: ActorView { phase: PhaseView::Stopped, ..a },
        effects: fx,
        request: RequestView::Stop(result),
    }
}

/// The session is over because the messages break a rule.
pub open spec fn stop_invalid(a: ActorView, fx: Seq<EffectView>, text: Seq<char>) -> StepView {
    stop(a, fx, Err(ErrorView::InvalidHistory(text)))
}

/// Ask for a commit at the end of the journal, if the journal admits its messages.
pub open spec fn begin_commit(
    a: ActorView,
    fx: Seq<EffectView>,
    commit: CommitView,
    deadline: u128,
    after: After,
) -> StepView {
    match refusal(seam(a.history) + commit.messages, true) {
        Some(text) => stop_invalid(a, fx, text),
        None => StepView {
            actor: ActorView { phase: PhaseView::Committing { commit, after }, ..a },
            effects: fx,
            request: RequestView::Commit { commit, deadline },
        },
    }
}

/// A commit of messages at the end of a journal.
pub open spec fn commit_of(
    a: ActorView,
    id: u128,
    messages: Seq<MessageView>,
    acks: Seq<Seq<char>>,
    outcome: Option<OutcomeView>,
) -> CommitView {
    CommitView {
        id,
        expected_messages: a.history.len() as usize,
        messages,
        ack_inbox_ids: acks,
        outcome,
    }
}

/// Look for the next command between two turns, unless the session has run out of time.
pub open spec fn next_round(a: ActorView, fx: Seq<EffectView>, now: u128) -> StepView {
    if a.loop_deadline is Some && now >= a.loop_deadline->0 {
        stop(a, fx, Ok(EndReasonView::LoopTimedOut))
    } else {
        StepView {
            actor: ActorView { phase: PhaseView::Draining { left: a.capacity }, ..a },
            effects: fx,
            request: RequestView::TryCommand,
        }
    }
}

/// Start the turn on the last message of the journal.
pub open spec fn open_turn(a: ActorView, fx: Seq<EffectView>) -> StepView {
    if a.history.len() == 0 {
        stop_invalid(a, fx, "cannot run empty history"@)
    } else {
        StepView {
            actor: ActorView { phase: PhaseView::Opening, ..a },
            effects: fx,
            request: RequestView::Open {
                prompt: a.history.last(),
                history: a.history.drop_last(),
                max_turns: a.max_turns,
            },
        }
    }
}

/// Go on with the turn, or with winding it up.
pub open spec fn wait_for_turn(a: ActorView, fx: Seq<EffectView>) -> StepView {
    if a.turn.reason is None {
        StepView {
            actor: ActorView { phase: PhaseView::Running, ..a },
            effects: fx,
            request: RequestView::AwaitTurn { deadline: a.turn.deadline },
        }
    } else {
        StepView {
            actor: ActorView { phase: PhaseView::Settling, ..a },
            effects: fx,
            request: RequestView::TryCheckpoint,
        }
    }
}

/// Let the turn pass its checkpoint.
pub open spec fn release(a: ActorView, fx: Seq<EffectView>) -> StepView {
    wait_for_turn(a, fx.push(EffectView::Release))
}

/// The turn is over; save what it delivered before it is stopped.
pub open spec fn end_turn(a: ActorView, fx: Seq<EffectView>, reason: EndReasonView, now: u128) -> StepView {
    wait_for_turn(
        ActorView {
            turn: TurnView { reason: Some(reason), finalization: io_deadline(a, now, None), ..a.turn },
            ..a
        },
        fx,
    )
}

/// Ask for the record of the turn's outcome.
pub open spec fn record_outcome(a: ActorView, fx: Seq<EffectView>, moment: Moment) -> StepView {
    begin_commit(
        a,
        fx,
        commit_of(
            a,
            moment.commit_id,
            Seq::empty(),
            Seq::empty(),
            Some(turn_outcome(a.turn, moment)),
        ),
        a.turn.finalization,
        After::Finish,
    )
}

/// The turn is over and recorded: go on, or stop for the reason it ended for.
pub open spec fn finish_turn(a: ActorView, fx: Seq<EffectView>, now: u128) -> StepView {
    let reason = a.turn.reason->0;
    if reason is Completed || reason is Interrupted {
        next_round(a, fx, now)
    } else {
        stop(a, fx, Ok(reason))
    }
}

/// Go on with what a commit was made for.
pub open spec fn proceed(a: ActorView, fx: Seq<EffectView>, after: After, moment: Moment) -> StepView {
    match after {
        After::Start => next_round(a, fx, moment.now),
        After::Open => open_turn(a, fx),
        After::Release => release(ActorView { receipts: Seq::empty(), ..a }, fx),
        After::Record => record_outcome(a, fx, moment),
        After::Finish => finish_turn(a, fx, moment.now),
    }
}

/// Collect a result for each open call, and commit them once they are complete.
pub open spec fn collect(
    a: ActorView,
    fx: Seq<EffectView>,
    results: Seq<ToolResultView>,
    deadline: u128,
    after: After,
    commit_id: u128,
) -> StepView
    decreases tail_calls(a.history).len() - results.len(),
{
    let calls = tail_calls(a.history);
    if results.len() >= calls.len() {
        begin_commit(
            ActorView { receipts: Seq::empty(), ..a },
            fx,
            commit_of(
                a,
                commit_id,
                seq![MessageView::User { content: result_blocks(results) }],
                Seq::empty(),
                None,
            ),
            deadline,
            after,
        )
    } else {
        let call = calls[results.len() as int];
        match held(a.receipts, call.id) {
            Some(result) => accept(a, fx, results, result, deadline, after, commit_id),
            None => StepView {
                actor: ActorView { phase: PhaseView::Repairing { results, deadline, after }, ..a },
                effects: fx,
                request: RequestView::Load { key: tail_key(a.history, call.id), deadline },
            },
        }
    }
}

/// Take a result for the next open call.
pub open spec fn accept(
    a: ActorView,
    fx: Seq<EffectView>,
    results: Seq<ToolResultView>,
    result: ToolResultView,
    deadline: u128,
    after: After,
    commit_id: u128,
) -> StepView
    decreases tail_calls(a.history).len() - results.len(), 0nat,
{
    if results.len() < tail_calls(a.history).len() && answers(
        tail_calls(a.history)[results.len() as int],
        result,
    ) {
        collect(a, fx, results.push(result), deadline, after, commit_id)
    } else {
        stop_invalid(a, fx, "tool result identity/content does not match its call"@)
    }
}

/// Bring the journal in order: answer the calls at its end, if there are any.
pub open spec fn repair(
    a: ActorView,
    fx: Seq<EffectView>,
    deadline: u128,
    after: After,
    moment: Moment,
) -> StepView {
    if tail_calls(a.history).len() == 0 {
        proceed(a, fx, after, moment)
    } else {
        collect(a, fx, Seq::empty(), deadline, after, moment.commit_id)
    }
}

/// Take up the signals of the next turn.
pub open spec fn begin_turn(
    a: ActorView,
    fx: Seq<EffectView>,
    entries: Seq<InboxEntryView>,
    moment: Moment,
) -> StepView {
    let b = ActorView { turn: fresh_turn(a, moment.now), idle: false, ..a };
    if entries.len() == 0 {
        open_turn(b, fx)
    } else {
        begin_commit(
            b,
            fx,
            commit_of(b, moment.commit_id, entry_messages(entries), entry_ids(entries), None),
            io_deadline(b, moment.now, b.turn.deadline),
            After::Open,
        )
    }
}

/// Answer everyone who waits for nothing to be left to do.
pub open spec fn idle_replies(waiters: Seq<u64>) -> Seq<EffectView> {
    Seq::new(
        waiters.len(),
        |i: int| EffectView::WaitReply { reply: waiters[i], result: Ok(EndReasonView::Idle) },
    )
}

/// All commands that were there are taken: run the next turn, or wait.
pub open spec fn after_drain(a: ActorView, fx: Seq<EffectView>, moment: Moment) -> StepView {
    if a.paused {
        stop(a, fx, Ok(EndReasonView::Paused))
    } else {
        match queue_next(a.queue) {
            Some(entries) => begin_turn(
                ActorView { queue: queue_rest(a.queue), ..a },
                fx,
                entries,
                moment,
            ),
            None => StepView {
                actor: ActorView {
                    waiters: Seq::empty(),
                    idle: true,
                    phase: PhaseView::Idle,
                    ..a
                },
                effects: fx + idle_replies(a.waiters) + if a.idle {
                    Seq::empty()
                } else {
                    seq![EffectView::Idle]
                },
                request: RequestView::AwaitCommand { deadline: a.loop_deadline },
            },
        }
    }
}

/// Go on where a command was received.
pub open spec fn resume_origin(
    a: ActorView,
    fx: Seq<EffectView>,
    origin: Origin,
    moment: Moment,
) -> StepView {
    match origin {
        Origin::Draining { left } => if left == 0 {
            after_drain(a, fx, moment)
        } else {
            StepView {
                actor: ActorView { phase: PhaseView::Draining { left }, ..a },
                effects: fx,
                request: RequestView::TryCommand,
            }
        },
        Origin::Idle => next_round(a, fx, moment.now),
        Origin::Running => wait_for_turn(a, fx),
    }
}

/// A command ends the turn, or the session where no turn runs.
pub open spec fn end_origin(
    a: ActorView,
    fx: Seq<EffectView>,
    origin: Origin,
    reason: EndReasonView,
    now: u128,
) -> StepView {
    if origin is Running {
        end_turn(a, fx, reason, now)
    } else {
        stop(a, fx, Ok(reason))
    }
}

/// What bounds the work during which a command was received.
pub open spec fn origin_deadline(a: ActorView, origin: Origin) -> Option<u128> {
    if origin is Running {
        a.turn.deadline
    } else {
        a.loop_deadline
    }
}

/// What a resume is answered outside a turn, and whether it waits then.
pub open spec fn resume_answer(a: ActorView) -> Result<(), ErrorView> {
    if a.history.len() == 0 || a.history.last() is System {
        Err(ErrorView::InvalidHistory("resume requires a user or assistant message"@))
    } else if queue_len(a.queue) >= a.capacity && !a.queue.resume {
        Err(ErrorView::QueueFull)
    } else {
        Ok(())
    }
}

/// The waits that somebody still waits for.
pub open spec fn still_open(waiters: Seq<u64>, closed: Seq<u64>) -> Seq<u64>
    decreases waiters.len(),
{
    if waiters.len() == 0 {
        Seq::empty()
    } else if closed.contains(waiters.last()) {
        still_open(waiters.drop_last(), closed)
    } else {
        still_open(waiters.drop_last(), closed).push(waiters.last())
    }
}

/// Act on a command.
pub open spec fn on_command(
    a: ActorView,
    command: CommandView,
    origin: Origin,
    moment: Moment,
) -> StepView {
    let none = Seq::<EffectView>::empty();
    match command {
        CommandView::Submit { entry, reply } => if queue_len(a.queue) >= a.capacity && !queue_has(
            a.queue,
            entry.id,
        ) {
            resume_origin(
                a,
                none.push(EffectView::SubmitReply { reply, result: Err(ErrorView::QueueFull) }),
                origin,
                moment,
            )
        } else {
            StepView {
                actor: ActorView { phase: PhaseView::Submitting { entry, reply, origin }, ..a },
                effects: none,
                request: RequestView::Submit {
                    entry,
                    deadline: io_deadline(a, moment.now, origin_deadline(a, origin)),
                },
            }
        },
        CommandView::Resume { reply } => if origin is Running {
            resume_origin(
                a,
                none.push(EffectView::ResumeReply { reply, result: Ok(()) }),
                origin,
                moment,
            )
        } else {
            resume_origin(
                if resume_answer(a) is Ok {
                    ActorView { queue: QueueView { resume: true, ..a.queue }, ..a }
                } else {
                    a
                },
                none.push(EffectView::ResumeReply { reply, result: resume_answer(a) }),
                origin,
                moment,
            )
        },
        CommandView::Pause => resume_origin(ActorView { paused: true, ..a }, none, origin, moment),
        CommandView::Abort => end_origin(a, none, origin, EndReasonView::Aborted, moment.now),
        CommandView::Wait { reply, closed } => {
            let waiters = still_open(a.waiters, closed);
            if waiters.len() >= a.capacity {
                resume_origin(
                    ActorView { waiters, ..a },
                    none.push(EffectView::WaitReply { reply, result: Err(ErrorView::QueueFull) }),
                    origin,
                    moment,
                )
            } else {
                resume_origin(
                    ActorView { waiters: waiters.push(reply), ..a },
                    none,
                    origin,
                    moment,
                )
            }
        },
        CommandView::History { reply } => resume_origin(
            a,
            none.push(EffectView::HistoryReply { reply, history: a.history }),
            origin,
            moment,
        ),
    }
}

/// Whether a submission that the store answered adds to what waits.
pub open spec fn is_new(a: ActorView, entry: InboxEntryView, status: InboxStatus) -> bool {
    status is Pending && !queue_has(a.queue, entry.id)
}

/// Act on what the store answered to a submission.
pub open spec fn on_submitted(
    a: ActorView,
    entry: InboxEntryView,
    reply: u64,
    origin: Origin,
    answer: Result<InboxStatus, FailureView>,
    moment: Moment,
) -> StepView {
    let none = Seq::<EffectView>::empty();
    match answer {
        Ok(status) => {
            let b = if is_new(a, entry, status) {
                ActorView { queue: queue_push(a.queue, entry), ..a }
            } else {
                a
            };
            let fx = none.push(EffectView::SubmitReply { reply, result: Ok(status) });
            if is_new(a, entry, status) && entry.kind is Interrupt && origin is Running && !a.paused {
                end_origin(b, fx, origin, EndReasonView::Interrupted, moment.now)
            } else {
                resume_origin(b, fx, origin, moment)
            }
        },
        Err(FailureView::TimedOut) => stop(
            a,
            none,
            Err(
                ErrorView::Store {
                    operation: "submit inbox (completion unknown; retry the same entry)"@,
                    message: "storage deadline elapsed"@,
                },
            ),
        ),
        Err(FailureView::Refused(text)) => resume_origin(
            a,
            none.push(
                EffectView::SubmitReply {
                    reply,
                    result: Err(
                        ErrorView::Store {
                            operation: "submit inbox (retry the same entry)"@,
                            message: text,
                        },
                    ),
                },
            ),
            origin,
            moment,
        ),
    }
}

/// Act on a checkpoint of the turn.
pub open spec fn on_checkpoint(
    a: ActorView,
    checkpoint: CheckpointView,
    deadline: u128,
    moment: Moment,
) -> StepView {
    let none = Seq::<EffectView>::empty();
    let open = tail_calls(a.history);
    match checkpoint {
        CheckpointView::BeforeRequest(expected) => if expected != a.history.len() {
            stop_invalid(
                a,
                none,
                "Rig changed transcript without a canonical checkpoint; invalid-tool recovery and retry feedback require upstream checkpoint support"@,
            )
        } else if open.len() > 0 {
            stop_invalid(
                a,
                none,
                "Rig requested a new model turn before the durable tool batch completed"@,
            )
        } else {
            release(a, none)
        },
        CheckpointView::BeforeTool(id) => if call_with(open, id) is Some {
            release(a, none)
        } else {
            stop_invalid(
                a,
                none,
                "tool dispatch without a durable canonical assistant checkpoint; recovered invalid tool calls are not supported"@,
            )
        },
        CheckpointView::Assistant(message) => begin_commit(
            ActorView { receipts: Seq::empty(), ..a },
            none,
            commit_of(a, moment.commit_id, seq![message], Seq::empty(), None),
            deadline,
            After::Release,
        ),
        CheckpointView::Result { id, name, content } => if a.history.len() == 0 {
            stop_invalid(a, none, "tool result before assistant checkpoint"@)
        } else {
            match call_with(open, id) {
                None => stop_invalid(a, none, "tool result outside its pending assistant batch"@),
                Some(call) => {
                    let key = tail_key(a.history, id);
                    let result = ToolResultView {
                        call: call.id,
                        provider: call.provider,
                        name,
                        content,
                    };
                    StepView {
                        actor: ActorView { phase: PhaseView::Saving { key, result, deadline }, ..a },
                        effects: none,
                        request: RequestView::Save { key, result, deadline },
                    }
                },
            }
        },
    }
}

/// A result is saved: release its tool, or commit the batch once it is complete.
pub open spec fn on_saved(
    a: ActorView,
    result: ToolResultView,
    deadline: u128,
    moment: Moment,
) -> StepView {
    let none = Seq::<EffectView>::empty();
    let receipts = hold(a.receipts, result);
    let b = ActorView { receipts, ..a };
    if receipts.len() == tail_calls(a.history).len() {
        let batch = held_for(receipts, tail_calls(a.history));
        begin_commit(
            b,
            none,
            commit_of(
                b,
                moment.commit_id,
                seq![MessageView::User { content: result_blocks(batch) }],
                Seq::empty(),
                None,
            ),
            deadline,
            After::Release,
        )
    } else {
        release(b, none)
    }
}

/// Act on what the running turn reported.
pub open spec fn on_item(a: ActorView, item: StreamItemView, moment: Moment) -> StepView {
    let none = Seq::<EffectView>::empty();
    match item {
        StreamItemView::CompletionCall { usage, finish_reason } => wait_for_turn(
            ActorView {
                turn: TurnView {
                    usage: usage_sum(a.turn.usage, usage),
                    usage_known: a.turn.usage_known && usage != no_usage(),
                    any_call: true,
                    finish_reason: finish_of(finish_reason),
                    ..a.turn
                },
                ..a
            },
            none,
        ),
        StreamItemView::FinalResponse => end_turn(
            a,
            none,
            match a.turn.finish_reason {
                Some(reason) => reason,
                None => EndReasonView::Completed,
            },
            moment.now,
        ),
        StreamItemView::Other => wait_for_turn(a, none),
    }
}

/// A turn whose usage cannot be told.
pub open spec fn usage_lost(a: ActorView) -> ActorView {
    ActorView { turn: TurnView { usage_known: false, ..a.turn }, ..a }
}

/// Whether a session in this phase waits for this input.
pub open spec fn expects(phase: PhaseView, input: InputView) -> bool {
    match phase {
        PhaseView::Repairing { .. } => input is Loaded,
        PhaseView::Committing { .. } => input is Stored,
        PhaseView::Draining { .. } => input is NoCommand || input is Command,
        PhaseView::Idle => input is Command || input is Closed || input is DeadlineElapsed,
        PhaseView::Submitting { .. } => input is Submitted,
        PhaseView::Opening => input is Opened,
        PhaseView::Running => input is Checkpoint || input is DeadlineElapsed || input is Command
            || input is Closed || input is Item || input is Failed || input is Ended,
        PhaseView::Saving { .. } => input is Stored,
        PhaseView::Settling => input is Checkpoint || input is NoCheckpoint,
        PhaseView::Stopped => false,
    }
}

/// What happens next, for every input that a session waits for.
pub open spec fn step(a: ActorView, input: InputView, moment: Moment) -> StepView {
    let none = Seq::<EffectView>::empty();
    match (a.phase, input) {
        (PhaseView::Repairing { results, deadline, after }, InputView::Loaded(loaded)) => match loaded {
            Ok(stored) => {
                let call = tail_calls(a.history)[results.len() as int];
                let result = match stored {
                    Some(result) => result,
                    None => recovery_result(call),
                };
                accept(a, none, results, result, deadline, after, moment.commit_id)
            },
            Err(failure) => stop(
                a,
                none,
                Err(
                    ErrorView::Store {
                        operation: "load tool receipt"@,
                        message: failure_text(failure),
                    },
                ),
            ),
        },
        (PhaseView::Committing { commit, after }, InputView::Stored(stored)) => match stored {
            Ok(()) => proceed(
                ActorView { history: a.history + commit.messages, ..a },
                none.push(EffectView::Committed(commit)),
                after,
                moment,
            ),
            Err(failure) => stop(
                a,
                none,
                Err(ErrorView::CommitUncertain { commit, message: failure_text(failure) }),
            ),
        },
        (PhaseView::Draining { left }, InputView::Command(command)) => on_command(
            a,
            command,
            Origin::Draining { left: (left - 1) as usize },
            moment,
        ),
        (PhaseView::Draining { .. }, _) => after_drain(a, none, moment),
        (PhaseView::Idle, InputView::Command(command)) => on_command(a, command, Origin::Idle, moment),
        (PhaseView::Idle, InputView::Closed) => stop(a, none, Ok(EndReasonView::Aborted)),
        (PhaseView::Idle, _) => stop(a, none, Ok(EndReasonView::LoopTimedOut)),
        (PhaseView::Submitting { entry, reply, origin }, InputView::Submitted(answer)) => on_submitted(
            a,
            entry,
            reply,
            origin,
            answer,
            moment,
        ),
        (PhaseView::Opening, _) => wait_for_turn(a, none),
        (PhaseView::Running, InputView::Checkpoint(checkpoint)) => on_checkpoint(
            a,
            checkpoint,
            io_deadline(a, moment.now, a.turn.deadline),
            moment,
        ),
        (PhaseView::Running, InputView::DeadlineElapsed) => end_turn(
            a,
            none,
            a.turn.timeout_reason,
            moment.now,
        ),
        (PhaseView::Running, InputView::Command(command)) => on_command(
            a,
            command,
            Origin::Running,
            moment,
        ),
        (PhaseView::Running, InputView::Closed) => end_turn(
            a,
            none,
            EndReasonView::Aborted,
            moment.now,
        ),
        (PhaseView::Running, InputView::Item(item)) => on_item(a, item, moment),
        (PhaseView::Running, InputView::Failed(failure)) => end_turn(
            usage_lost(a),
            none,
            failure_reason(failure),
            moment.now,
        ),
        (PhaseView::Running, _) => end_turn(
            usage_lost(a),
            none,
            EndReasonView::ProviderError("Rig stream ended without a final response"@),
            moment.now,
        ),
        (PhaseView::Saving { key, result, deadline }, InputView::Stored(stored)) => match stored {
            Ok(()) => on_saved(a, result, deadline, moment),
            Err(failure) => stop(
                a,
                none,
                Err(ErrorView::ToolWriteUncertain { key, result, message: failure_text(failure) }),
            ),
        },
        (PhaseView::Settling, InputView::Checkpoint(checkpoint)) => on_checkpoint(
            a,
            checkpoint,
            a.turn.finalization,
            moment,
        ),
        (PhaseView::Settling, _) => repair(
            a,
            none.push(EffectView::CloseTurn),
            a.turn.finalization,
            After::Record,
            moment,
        ),
        _ => stop(a, none, Err(ErrorView::TaskPanicked)),
    }
}

/// Whether a session, the effects of a step and its request are what a step leads to.
pub open spec fn leads_to(actor: &Actor, fx: &Vec<Effect>, request: Request, step: StepView) -> bool {
    &&& actor.deep_view() == step.actor
    &&& fx.deep_view() == step.effects
    &&& request.deep_view() == step.request
}

/// The first step of a session: bring the journal in order.
pub open spec fn first_step(a: ActorView, moment: Moment) -> StepView {
    repair(
        a,
        Seq::empty(),
        io_deadline(a, moment.now, a.loop_deadline),
        After::Start,
        moment,
    )
}

} // verus!
