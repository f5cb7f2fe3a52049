//! What an agent loop is configured with, what it reports and how it can fail.
use crate::deep::DeepEq;
use crate::journal::answers;
use crate::message::{
    Message, MessageView, ProviderCallId, ProviderCallIdView, ToolCall, ToolCallView, ToolResult,
    ToolResultView,
};
use crate::session::Usage;
use crate::text::joined;
use vstd::prelude::*;

verus! {

/// How many model calls a turn may make unless it is told otherwise. The number is high enough to
/// stay out of the way, and finite since it is calculated with.
pub const DEFAULT_MAX_TURNS: usize = 1_000_000;

/// What stands in for a result that was not recorded, unless it is told otherwise.
pub const DEFAULT_UNANSWERED_TOOL_CALL_REPAIR_MESSAGE: &'static str = "Recovery message: no result was recorded for this tool call. It may or may not have completed.";

/// The identity of one tool result.
#[derive(Debug, PartialEq, Eq)]
pub struct ToolResultKey {
    /// The id of the call.
    pub id: String,
    /// The id that the provider gave the call, where it has one.
    pub call_id: Option<String>,
}

/// The value of a [`ToolResultKey`].
pub struct ToolResultKeyView {
    pub id: Seq<char>,
    pub call_id: Option<Seq<char>>,
}

impl DeepView for ToolResultKey {
    type V = ToolResultKeyView;

    open spec fn deep_view(&self) -> ToolResultKeyView {
        ToolResultKeyView {
            id: self.id.deep_view(),
            call_id: self.call_id.deep_view(),
        }
    }
}

impl Clone for ToolResultKey {
    fn clone(&self) -> (r: ToolResultKey)
        ensures
            r.deep_view() == self.deep_view(),
    {
        ToolResultKey {
            id: self.id.clone(),
            call_id: self.call_id.clone(),
        }
    }
}

impl DeepEq for ToolResultKey {
    fn deep_eq(&self, other: &ToolResultKey) -> (r: bool) {
        self.id.deep_eq(&other.id) && self.call_id.deep_eq(&other.call_id)
    }
}

/// Where a model call failed.
#[derive(Clone, Copy, Debug, PartialEq, Eq, Structural)]
pub enum ApiErrorKind {
    Http,
    Json,
    Url,
    Request,
    Response,
    Provider,
}

impl DeepView for ApiErrorKind {
    type V = ApiErrorKind;

    open spec fn deep_view(&self) -> ApiErrorKind {
        *self
    }
}

impl DeepEq for ApiErrorKind {
    fn deep_eq(&self, other: &ApiErrorKind) -> (r: bool) {
        *self == *other
    }
}

/// How a model call failed.
#[derive(Debug, PartialEq, Eq)]
pub struct ApiErrorInfo {
    pub kind: ApiErrorKind,
    pub message: String,
}

/// The value of an [`ApiErrorInfo`].
pub struct ApiErrorInfoView {
    pub kind: ApiErrorKind,
    pub message: Seq<char>,
}

impl DeepView for ApiErrorInfo {
    type V = ApiErrorInfoView;

    open spec fn deep_view(&self) -> ApiErrorInfoView {
        ApiErrorInfoView {
            kind: self.kind,
            message: self.message.deep_view(),
        }
    }
}

impl Clone for ApiErrorInfo {
    fn clone(&self) -> (r: ApiErrorInfo)
        ensures
            r.deep_view() == self.deep_view(),
    {
        ApiErrorInfo {
            kind: self.kind,
            message: self.message.clone(),
        }
    }
}

impl DeepEq for ApiErrorInfo {
    fn deep_eq(&self, other: &ApiErrorInfo) -> (r: bool) {
        self.kind.deep_eq(&other.kind) && self.message.deep_eq(&other.message)
    }
}

/// Why a loop came to its end.
#[derive(Debug, PartialEq, Eq)]
pub enum EndReason {
    /// The prompt and everything that was queued completed.
    Idle,
    /// A wait found nothing to do and no turn was run.
    NoRun,
    /// The caller aborted the loop.
    Aborted,
    /// A turn hook stopped the loop after a commit.
    AbortedByHook { reason: String },
    /// The provider refused or filtered the request or the response.
    ContentFilter { error: ApiErrorInfo },
    /// The provider refused the request because its context was too large.
    ContextFull { error: ApiErrorInfo },
    /// The provider stopped at a limit of its output.
    Length { error: ApiErrorInfo },
    /// The turn used up its model calls.
    MaxTurns { max_turns: usize },
    /// The turn took too long, in nanoseconds.
    TurnTimedOut { timeout: u128 },
    /// The loop took too long, in nanoseconds.
    LoopTimedOut { timeout: u128 },
    /// The turn failed while using tools.
    ToolError { message: String },
    /// The provider or the client failed otherwise.
    ApiError { error: ApiErrorInfo },
    /// Something else ended the loop.
    Other { message: String },
}

/// The value of an [`EndReason`].
pub enum EndReasonView {
    Idle,
    NoRun,
    Aborted,
    AbortedByHook { reason: Seq<char> },
    ContentFilter { error: ApiErrorInfoView },
    ContextFull { error: ApiErrorInfoView },
    Length { error: ApiErrorInfoView },
    MaxTurns { max_turns: usize },
    TurnTimedOut { timeout: u128 },
    LoopTimedOut { timeout: u128 },
    ToolError { message: Seq<char> },
    ApiError { error: ApiErrorInfoView },
    Other { message: Seq<char> },
}

impl DeepView for EndReason {
    type V = EndReasonView;

    open spec fn deep_view(&self) -> EndReasonView {
        match self {
            EndReason::Idle => EndReasonView::Idle,
            EndReason::NoRun => EndReasonView::NoRun,
            EndReason::Aborted => EndReasonView::Aborted,
            EndReason::AbortedByHook { reason } => EndReasonView::AbortedByHook { reason: reason.deep_view() },
            EndReason::ContentFilter { error } => EndReasonView::ContentFilter { error: error.deep_view() },
            EndReason::ContextFull { error } => EndReasonView::ContextFull { error: error.deep_view() },
            EndReason::Length { error } => EndReasonView::Length { error: error.deep_view() },
            EndReason::MaxTurns { max_turns } => EndReasonView::MaxTurns { max_turns: *max_turns },
            EndReason::TurnTimedOut { timeout } => EndReasonView::TurnTimedOut { timeout: *timeout },
            EndReason::LoopTimedOut { timeout } => EndReasonView::LoopTimedOut { timeout: *timeout },
            EndReason::ToolError { message } => EndReasonView::ToolError { message: message.deep_view() },
            EndReason::ApiError { error } => EndReasonView::ApiError { error: error.deep_view() },
            EndReason::Other { message } => EndReasonView::Other { message: message.deep_view() },
        }
    }
}

impl Clone for EndReason {
    fn clone(&self) -> (r: EndReason)
        ensures
            r.deep_view() == self.deep_view(),
    {
        match self {
            EndReason::Idle => EndReason::Idle,
            EndReason::NoRun => EndReason::NoRun,
            EndReason::Aborted => EndReason::Aborted,
            EndReason::AbortedByHook { reason } => EndReason::AbortedByHook { reason: reason.clone() },
            EndReason::ContentFilter { error } => EndReason::ContentFilter { error: error.clone() },
            EndReason::ContextFull { error } => EndReason::ContextFull { error: error.clone() },
            EndReason::Length { error } => EndReason::Length { error: error.clone() },
            EndReason::MaxTurns { max_turns } => EndReason::MaxTurns { max_turns: *max_turns },
            EndReason::TurnTimedOut { timeout } => EndReason::TurnTimedOut { timeout: *timeout },
            EndReason::LoopTimedOut { timeout } => EndReason::LoopTimedOut { timeout: *timeout },
            EndReason::ToolError { message } => EndReason::ToolError { message: message.clone() },
            EndReason::ApiError { error } => EndReason::ApiError { error: error.clone() },
            EndReason::Other { message } => EndReason::Other { message: message.clone() },
        }
    }
}

impl DeepEq for EndReason {
    fn deep_eq(&self, other: &EndReason) -> (r: bool) {
        match (self, other) {
            (EndReason::Idle, EndReason::Idle) => true,
            (EndReason::NoRun, EndReason::NoRun) => true,
            (EndReason::Aborted, EndReason::Aborted) => true,
            (EndReason::AbortedByHook { reason }, EndReason::AbortedByHook { reason: other_reason }) => reason.deep_eq(other_reason),
            (EndReason::ContentFilter { error }, EndReason::ContentFilter { error: other_error }) => error.deep_eq(other_error),
            (EndReason::ContextFull { error }, EndReason::ContextFull { error: other_error }) => error.deep_eq(other_error),
            (EndReason::Length { error }, EndReason::Length { error: other_error }) => error.deep_eq(other_error),
            (EndReason::MaxTurns { max_turns }, EndReason::MaxTurns { max_turns: other_max_turns }) => max_turns.deep_eq(other_max_turns),
            (EndReason::TurnTimedOut { timeout }, EndReason::TurnTimedOut { timeout: other_timeout }) => timeout.deep_eq(other_timeout),
            (EndReason::LoopTimedOut { timeout }, EndReason::LoopTimedOut { timeout: other_timeout }) => timeout.deep_eq(other_timeout),
            (EndReason::ToolError { message }, EndReason::ToolError { message: other_message }) => message.deep_eq(other_message),
            (EndReason::ApiError { error }, EndReason::ApiError { error: other_error }) => error.deep_eq(other_error),
            (EndReason::Other { message }, EndReason::Other { message: other_message }) => message.deep_eq(other_message),
            _ => false,
        }
    }
}

/// What became of a turn at its commit.
#[derive(Clone, Copy, Debug, PartialEq, Eq, Structural)]
pub enum TurnOutcomeKind {
    Committed,
    Interrupted,
    Aborted,
    TimedOut,
}

impl DeepView for TurnOutcomeKind {
    type V = TurnOutcomeKind;

    open spec fn deep_view(&self) -> TurnOutcomeKind {
        *self
    }
}

impl DeepEq for TurnOutcomeKind {
    fn deep_eq(&self, other: &TurnOutcomeKind) -> (r: bool) {
        *self == *other
    }
}

/// What a turn hook is told at a commit.
#[derive(Debug, PartialEq, Eq)]
pub struct TurnHookContext {
    /// The full history with the new messages.
    pub history: Vec<Message>,
    /// The messages of this commit, in order. There may be none.
    pub new_messages: Vec<Message>,
    pub outcome_kind: TurnOutcomeKind,
    /// Why the loop is about to end, if it is.
    pub end_reason: Option<EndReason>,
    /// The usage of the turn; None where the provider reported nothing.
    pub usage: Option<Usage>,
}

/// The value of a [`TurnHookContext`].
pub struct TurnHookContextView {
    pub history: Seq<MessageView>,
    pub new_messages: Seq<MessageView>,
    pub outcome_kind: TurnOutcomeKind,
    pub end_reason: Option<EndReasonView>,
    pub usage: Option<Usage>,
}

impl DeepView for TurnHookContext {
    type V = TurnHookContextView;

    open spec fn deep_view(&self) -> TurnHookContextView {
        TurnHookContextView {
            history: self.history.deep_view(),
            new_messages: self.new_messages.deep_view(),
            outcome_kind: self.outcome_kind,
            end_reason: self.end_reason.deep_view(),
            usage: self.usage.deep_view(),
        }
    }
}

impl Clone for TurnHookContext {
    fn clone(&self) -> (r: TurnHookContext)
        ensures
            r.deep_view() == self.deep_view(),
    {
        TurnHookContext {
            history: self.history.clone(),
            new_messages: self.new_messages.clone(),
            outcome_kind: self.outcome_kind,
            end_reason: self.end_reason.clone(),
            usage: self.usage.clone(),
        }
    }
}

/// What is told of an assistant message that has just been streamed.
#[derive(Debug, PartialEq, Eq)]
pub struct AssistantMessageContext {
    pub message: Message,
    /// The full history with the new messages. It may end with open calls.
    pub history: Vec<Message>,
    /// The messages of the turn so far, up to this one.
    pub new_messages: Vec<Message>,
    /// Why the loop is about to end, if it is.
    pub end_reason: Option<EndReason>,
    /// The usage of the turn, at its end; None where the provider reported nothing.
    pub usage: Option<Usage>,
}

/// The value of an [`AssistantMessageContext`].
pub struct AssistantMessageContextView {
    pub message: MessageView,
    pub history: Seq<MessageView>,
    pub new_messages: Seq<MessageView>,
    pub end_reason: Option<EndReasonView>,
    pub usage: Option<Usage>,
}

impl DeepView for AssistantMessageContext {
    type V = AssistantMessageContextView;

    open spec fn deep_view(&self) -> AssistantMessageContextView {
        AssistantMessageContextView {
            message: self.message.deep_view(),
            history: self.history.deep_view(),
            new_messages: self.new_messages.deep_view(),
            end_reason: self.end_reason.deep_view(),
            usage: self.usage.deep_view(),
        }
    }
}

impl Clone for AssistantMessageContext {
    fn clone(&self) -> (r: AssistantMessageContext)
        ensures
            r.deep_view() == self.deep_view(),
    {
        AssistantMessageContext {
            message: self.message.clone(),
            history: self.history.clone(),
            new_messages: self.new_messages.clone(),
            end_reason: self.end_reason.clone(),
            usage: self.usage.clone(),
        }
    }
}

/// What a turn hook asks for.
#[derive(Debug, PartialEq, Eq)]
pub enum TurnHookAction {
    /// Keep the history.
    Continue,
    /// Go on with this history.
    ReplaceHistory(Vec<Message>),
    /// Keep the history and stop.
    Abort { reason: String },
    /// Stop with this history.
    ReplaceHistoryAndAbort { history: Vec<Message>, reason: String },
}

/// The value of a [`TurnHookAction`].
pub enum TurnHookActionView {
    Continue,
    ReplaceHistory(Seq<MessageView>),
    Abort { reason: Seq<char> },
    ReplaceHistoryAndAbort { history: Seq<MessageView>, reason: Seq<char> },
}

impl DeepView for TurnHookAction {
    type V = TurnHookActionView;

    open spec fn deep_view(&self) -> TurnHookActionView {
        match self {
            TurnHookAction::Continue => TurnHookActionView::Continue,
            TurnHookAction::ReplaceHistory(x) => TurnHookActionView::ReplaceHistory(x.deep_view()),
            TurnHookAction::Abort { reason } => TurnHookActionView::Abort { reason: reason.deep_view() },
            TurnHookAction::ReplaceHistoryAndAbort { history, reason } => TurnHookActionView::ReplaceHistoryAndAbort { history: history.deep_view(), reason: reason.deep_view() },
        }
    }
}

/// What a loop leaves behind.
#[derive(Debug, PartialEq, Eq)]
pub struct AgentLoopResult {
    pub end_reason: EndReason,
    pub history: Vec<Message>,
    pub last_response: Option<String>,
}

/// The value of an [`AgentLoopResult`].
pub struct AgentLoopResultView {
    pub end_reason: EndReasonView,
    pub history: Seq<MessageView>,
    pub last_response: Option<Seq<char>>,
}

impl DeepView for AgentLoopResult {
    type V = AgentLoopResultView;

    open spec fn deep_view(&self) -> AgentLoopResultView {
        AgentLoopResultView {
            end_reason: self.end_reason.deep_view(),
            history: self.history.deep_view(),
            last_response: self.last_response.deep_view(),
        }
    }
}

/// What was queued.
#[derive(Clone, Copy, Debug, PartialEq, Eq, Structural)]
pub enum QueueKind {
    Steer,
    FollowUp,
    Resume,
    Interrupt,
    Abort,
}

impl DeepView for QueueKind {
    type V = QueueKind;

    open spec fn deep_view(&self) -> QueueKind {
        *self
    }
}

impl DeepEq for QueueKind {
    fn deep_eq(&self, other: &QueueKind) -> (r: bool) {
        *self == *other
    }
}

/// Why a history cannot be used.
#[derive(Debug, PartialEq, Eq)]
pub struct InvalidMessageHistoryError {
    pub message: String,
}

/// The value of an [`InvalidMessageHistoryError`].
pub struct InvalidMessageHistoryErrorView {
    pub message: Seq<char>,
}

impl DeepView for InvalidMessageHistoryError {
    type V = InvalidMessageHistoryErrorView;

    open spec fn deep_view(&self) -> InvalidMessageHistoryErrorView {
        InvalidMessageHistoryErrorView {
            message: self.message.deep_view(),
        }
    }
}

impl Clone for InvalidMessageHistoryError {
    fn clone(&self) -> (r: InvalidMessageHistoryError)
        ensures
            r.deep_view() == self.deep_view(),
    {
        InvalidMessageHistoryError {
            message: self.message.clone(),
        }
    }
}

impl DeepEq for InvalidMessageHistoryError {
    fn deep_eq(&self, other: &InvalidMessageHistoryError) -> (r: bool) {
        self.message.deep_eq(&other.message)
    }
}

/// An error of a loop in words.
#[derive(Debug, PartialEq, Eq)]
pub struct AgentLoopErrorInfo {
    pub message: String,
}

/// The value of an [`AgentLoopErrorInfo`].
pub struct AgentLoopErrorInfoView {
    pub message: Seq<char>,
}

impl DeepView for AgentLoopErrorInfo {
    type V = AgentLoopErrorInfoView;

    open spec fn deep_view(&self) -> AgentLoopErrorInfoView {
        AgentLoopErrorInfoView {
            message: self.message.deep_view(),
        }
    }
}

impl Clone for AgentLoopErrorInfo {
    fn clone(&self) -> (r: AgentLoopErrorInfo)
        ensures
            r.deep_view() == self.deep_view(),
    {
        AgentLoopErrorInfo {
            message: self.message.clone(),
        }
    }
}

impl DeepEq for AgentLoopErrorInfo {
    fn deep_eq(&self, other: &AgentLoopErrorInfo) -> (r: bool) {
        self.message.deep_eq(&other.message)
    }
}

/// How a loop failed.
#[derive(Debug, PartialEq, Eq)]
pub enum AgentLoopError {
    CommandChannelClosed,
    InvalidMessageHistory(InvalidMessageHistoryError),
    TurnHook(String),
    AssistantMessageHook(String),
    ToolResultPersistence(String),
    Rig(String),
    TaskJoin(String),
}

/// The value of an [`AgentLoopError`].
pub enum AgentLoopErrorView {
    CommandChannelClosed,
    InvalidMessageHistory(InvalidMessageHistoryErrorView),
    TurnHook(Seq<char>),
    AssistantMessageHook(Seq<char>),
    ToolResultPersistence(Seq<char>),
    Rig(Seq<char>),
    TaskJoin(Seq<char>),
}

impl DeepView for AgentLoopError {
    type V = AgentLoopErrorView;

    open spec fn deep_view(&self) -> AgentLoopErrorView {
        match self {
            AgentLoopError::CommandChannelClosed => AgentLoopErrorView::CommandChannelClosed,
            AgentLoopError::InvalidMessageHistory(x) => AgentLoopErrorView::InvalidMessageHistory(x.deep_view()),
            AgentLoopError::TurnHook(x) => AgentLoopErrorView::TurnHook(x.deep_view()),
            AgentLoopError::AssistantMessageHook(x) => AgentLoopErrorView::AssistantMessageHook(x.deep_view()),
            AgentLoopError::ToolResultPersistence(x) => AgentLoopErrorView::ToolResultPersistence(x.deep_view()),
            AgentLoopError::Rig(x) => AgentLoopErrorView::Rig(x.deep_view()),
            AgentLoopError::TaskJoin(x) => AgentLoopErrorView::TaskJoin(x.deep_view()),
        }
    }
}

impl Clone for AgentLoopError {
    fn clone(&self) -> (r: AgentLoopError)
        ensures
            r.deep_view() == self.deep_view(),
    {
        match self {
            AgentLoopError::CommandChannelClosed => AgentLoopError::CommandChannelClosed,
            AgentLoopError::InvalidMessageHistory(x) => AgentLoopError::InvalidMessageHistory(x.clone()),
            AgentLoopError::TurnHook(x) => AgentLoopError::TurnHook(x.clone()),
            AgentLoopError::AssistantMessageHook(x) => AgentLoopError::AssistantMessageHook(x.clone()),
            AgentLoopError::ToolResultPersistence(x) => AgentLoopError::ToolResultPersistence(x.clone()),
            AgentLoopError::Rig(x) => AgentLoopError::Rig(x.clone()),
            AgentLoopError::TaskJoin(x) => AgentLoopError::TaskJoin(x.clone()),
        }
    }
}

impl DeepEq for AgentLoopError {
    fn deep_eq(&self, other: &AgentLoopError) -> (r: bool) {
        match (self, other) {
            (AgentLoopError::CommandChannelClosed, AgentLoopError::CommandChannelClosed) => true,
            (AgentLoopError::InvalidMessageHistory(x), AgentLoopError::InvalidMessageHistory(a)) => x.deep_eq(a),
            (AgentLoopError::TurnHook(x), AgentLoopError::TurnHook(a)) => x.deep_eq(a),
            (AgentLoopError::AssistantMessageHook(x), AgentLoopError::AssistantMessageHook(a)) => x.deep_eq(a),
            (AgentLoopError::ToolResultPersistence(x), AgentLoopError::ToolResultPersistence(a)) => x.deep_eq(a),
            (AgentLoopError::Rig(x), AgentLoopError::Rig(a)) => x.deep_eq(a),
            (AgentLoopError::TaskJoin(x), AgentLoopError::TaskJoin(a)) => x.deep_eq(a),
            _ => false,
        }
    }
}

/// What a loop reports while it runs.
#[derive(Debug, PartialEq, Eq)]
#[allow(inconsistent_fields)]
pub enum AgentLoopEvent {
    LoopStarted,
    Queued { kind: QueueKind, message: Option<Message> },
    TurnStarted { prompt: Message },
    AssistantMessageFinished { message: Message, messages: Vec<Message> },
    TurnCommitted { messages: Vec<Message> },
    TurnInterrupted { messages: Vec<Message> },
    TurnAborted { messages: Vec<Message> },
    TurnTimedOut { messages: Vec<Message> },
    HistoryReplaced { messages: Vec<Message> },
    LoopEnded { end_reason: EndReason },
    LoopFailed { error: AgentLoopErrorInfo },
}

/// The value of an [`AgentLoopEvent`].
#[allow(inconsistent_fields)]
pub enum AgentLoopEventView {
    LoopStarted,
    Queued { kind: QueueKind, message: Option<MessageView> },
    TurnStarted { prompt: MessageView },
    AssistantMessageFinished { message: MessageView, messages: Seq<MessageView> },
    TurnCommitted { messages: Seq<MessageView> },
    TurnInterrupted { messages: Seq<MessageView> },
    TurnAborted { messages: Seq<MessageView> },
    TurnTimedOut { messages: Seq<MessageView> },
    HistoryReplaced { messages: Seq<MessageView> },
    LoopEnded { end_reason: EndReasonView },
    LoopFailed { error: AgentLoopErrorInfoView },
}

impl DeepView for AgentLoopEvent {
    type V = AgentLoopEventView;

    open spec fn deep_view(&self) -> AgentLoopEventView {
        match self {
            AgentLoopEvent::LoopStarted => AgentLoopEventView::LoopStarted,
            AgentLoopEvent::Queued { kind, message } => AgentLoopEventView::Queued { kind: *kind, message: message.deep_view() },
            AgentLoopEvent::TurnStarted { prompt } => AgentLoopEventView::TurnStarted { prompt: prompt.deep_view() },
            AgentLoopEvent::AssistantMessageFinished { message, messages } => AgentLoopEventView::AssistantMessageFinished { message: message.deep_view(), messages: messages.deep_view() },
            AgentLoopEvent::TurnCommitted { messages } => AgentLoopEventView::TurnCommitted { messages: messages.deep_view() },
            AgentLoopEvent::TurnInterrupted { messages } => AgentLoopEventView::TurnInterrupted { messages: messages.deep_view() },
            AgentLoopEvent::TurnAborted { messages } => AgentLoopEventView::TurnAborted { messages: messages.deep_view() },
            AgentLoopEvent::TurnTimedOut { messages } => AgentLoopEventView::TurnTimedOut { messages: messages.deep_view() },
            AgentLoopEvent::HistoryReplaced { messages } => AgentLoopEventView::HistoryReplaced { messages: messages.deep_view() },
            AgentLoopEvent::LoopEnded { end_reason } => AgentLoopEventView::LoopEnded { end_reason: end_reason.deep_view() },
            AgentLoopEvent::LoopFailed { error } => AgentLoopEventView::LoopFailed { error: error.deep_view() },
        }
    }
}

/// What a loop is asked from outside.
#[derive(Debug, PartialEq, Eq)]
pub enum Command {
    Steer(Message),
    FollowUp(Message),
    Resume,
    Interrupt(Message),
    Abort,
    FinishWhenIdle,
}

/// The value of a [`Command`].
pub enum CommandView {
    Steer(MessageView),
    FollowUp(MessageView),
    Resume,
    Interrupt(MessageView),
    Abort,
    FinishWhenIdle,
}

impl DeepView for Command {
    type V = CommandView;

    open spec fn deep_view(&self) -> CommandView {
        match self {
            Command::Steer(x) => CommandView::Steer(x.deep_view()),
            Command::FollowUp(x) => CommandView::FollowUp(x.deep_view()),
            Command::Resume => CommandView::Resume,
            Command::Interrupt(x) => CommandView::Interrupt(x.deep_view()),
            Command::Abort => CommandView::Abort,
            Command::FinishWhenIdle => CommandView::FinishWhenIdle,
        }
    }
}

/// The provider's own id of a call, where it has one.
pub open spec fn provider_call_id(provider: Option<ProviderCallIdView>) -> Option<Seq<char>> {
    match provider {
        Some(identity) => Some(identity.call_id),
        None => None,
    }
}

/// The key under which the result of a call is kept.
pub open spec fn call_key(call: ToolCallView) -> ToolResultKeyView {
    ToolResultKeyView { id: call.id, call_id: provider_call_id(call.provider) }
}

/// The key under which a result is kept.
pub open spec fn result_key(result: ToolResultView) -> ToolResultKeyView {
    ToolResultKeyView { id: result.call, call_id: provider_call_id(result.provider) }
}

fn call_id_of(provider: &Option<ProviderCallId>) -> (r: Option<String>)
    ensures
        r.deep_view() == provider_call_id(provider.deep_view()),
{
    match provider {
        Some(identity) => Some(identity.call_id.clone()),
        None => None,
    }
}

impl ToolResultKey {
    /// A key of its parts.
    pub fn new(id: String, call_id: Option<String>) -> (r: ToolResultKey)
        ensures
            r.deep_view() == (ToolResultKeyView { id: id@, call_id: call_id.deep_view() }),
    {
        ToolResultKey { id, call_id }
    }

    /// The key under which the result of a call is kept.
    pub fn from_tool_call(tool_call: &ToolCall) -> (r: ToolResultKey)
        ensures
            r.deep_view() == call_key(tool_call.deep_view()),
    {
        ToolResultKey::new(tool_call.id.clone(), call_id_of(&tool_call.provider))
    }

    /// The key under which a result is kept.
    pub fn from_tool_result(tool_result: &ToolResult) -> (r: ToolResultKey)
        ensures
            r.deep_view() == result_key(tool_result.deep_view()),
    {
        ToolResultKey::new(tool_result.call.clone(), call_id_of(&tool_result.provider))
    }
}

/// A result that answers a call is kept under the key of the call.
pub proof fn law_answers_share_the_key(call: ToolCallView, result: ToolResultView)
    requires
        answers(call, result),
    ensures
        call_key(call) == result_key(result),
{
}

impl InvalidMessageHistoryError {
    /// An error of its words.
    pub fn new(message: String) -> (r: InvalidMessageHistoryError)
        ensures
            r.message@ == message@,
    {
        InvalidMessageHistoryError { message }
    }

    /// The error in words.
    pub fn text(&self) -> (r: String)
        ensures
            r@ == "invalid Rig message history: "@ + self.message@,
    {
        joined("invalid Rig message history: ", self.message.as_str())
    }
}

/// An error of a loop in words.
pub open spec fn loop_error_text(error: AgentLoopErrorView) -> Seq<char> {
    match error {
        AgentLoopErrorView::CommandChannelClosed => "agent loop command channel is closed"@,
        AgentLoopErrorView::InvalidMessageHistory(error) => "invalid Rig message history: "@
            + error.message,
        AgentLoopErrorView::TurnHook(text) => "turn hook failed: "@ + text,
        AgentLoopErrorView::AssistantMessageHook(text) => "assistant message hook failed: "@ + text,
        AgentLoopErrorView::ToolResultPersistence(text) => "tool result persistence failed: "@ + text,
        AgentLoopErrorView::Rig(text) => text,
        AgentLoopErrorView::TaskJoin(text) => text,
    }
}

impl AgentLoopError {
    /// The error in words.
    pub fn text(&self) -> (r: String)
        ensures
            r@ == loop_error_text(self.deep_view()),
    {
        match self {
            AgentLoopError::CommandChannelClosed => "agent loop command channel is closed".to_owned(),
            AgentLoopError::InvalidMessageHistory(error) => error.text(),
            AgentLoopError::TurnHook(text) => joined("turn hook failed: ", text.as_str()),
            AgentLoopError::AssistantMessageHook(text) => joined(
                "assistant message hook failed: ",
                text.as_str(),
            ),
            AgentLoopError::ToolResultPersistence(text) => joined(
                "tool result persistence failed: ",
                text.as_str(),
            ),
            AgentLoopError::Rig(text) => text.clone(),
            AgentLoopError::TaskJoin(text) => text.clone(),
        }
    }
}

impl AgentLoopErrorInfo {
    /// The words of an error.
    pub fn from_error(error: &AgentLoopError) -> (r: AgentLoopErrorInfo)
        ensures
            r.message@ == loop_error_text(error.deep_view()),
    {
        AgentLoopErrorInfo { message: error.text() }
    }
}

} // verus!
