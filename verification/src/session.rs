//! A session: the queue of signals, the running turn and the durable journal of one conversation.
use crate::deep::DeepEq;
use crate::identity::{clock_reaches, clock_span, render_uuid, uuid_text, LONGEST_NANOS};
use crate::journal::{
    is_signal, law_journals_are_not_refused, refusal, validate_journal, validate_signal,
};
use crate::message::{Message, MessageView, ToolResult, ToolResultView};
use crate::protocol::{later, no_usage, Actor, ActorView, Phase, PhaseView, Turn, TurnView};
use crate::protocol_laws::is_consistent;
use crate::queue::{law_restored_entries_keep_their_order, restored, Queue};
use crate::store::{
    entry_ids, Commit, CommitView, InboxEntry, InboxEntryView, ToolKey, ToolKeyView,
};
use crate::text::joined;
use vstd::prelude::*;

verus! {

/// Token counts of model calls. All zero means that the provider reported nothing.
#[derive(Clone, Copy, Debug, PartialEq, Eq, Structural)]
pub struct Usage {
    pub input_tokens: u64,
    pub output_tokens: u64,
    pub total_tokens: u64,
    pub cached_input_tokens: u64,
    pub cache_creation_input_tokens: u64,
    pub tool_use_prompt_tokens: u64,
    pub reasoning_tokens: u64,
}

impl DeepView for Usage {
    type V = Usage;

    open spec fn deep_view(&self) -> Usage {
        *self
    }
}

impl DeepEq for Usage {
    fn deep_eq(&self, other: &Usage) -> (r: bool) {
        *self == *other
    }
}

/// Why a turn or a session came to its end.
#[derive(Debug, PartialEq, Eq)]
pub enum EndReason {
    Completed,
    Idle,
    Paused,
    Aborted,
    Interrupted,
    TurnTimedOut,
    LoopTimedOut,
    MaxTurns,
    Length,
    ContentFilter,
    HookStopped(String),
    ProviderError(String),
    RunError(String),
}

/// The value of a [`EndReason`].
pub enum EndReasonView {
    Completed,
    Idle,
    Paused,
    Aborted,
    Interrupted,
    TurnTimedOut,
    LoopTimedOut,
    MaxTurns,
    Length,
    ContentFilter,
    HookStopped(Seq<char>),
    ProviderError(Seq<char>),
    RunError(Seq<char>),
}

impl DeepView for EndReason {
    type V = EndReasonView;

    open spec fn deep_view(&self) -> EndReasonView {
        match self {
            EndReason::Completed => EndReasonView::Completed,
            EndReason::Idle => EndReasonView::Idle,
            EndReason::Paused => EndReasonView::Paused,
            EndReason::Aborted => EndReasonView::Aborted,
            EndReason::Interrupted => EndReasonView::Interrupted,
            EndReason::TurnTimedOut => EndReasonView::TurnTimedOut,
            EndReason::LoopTimedOut => EndReasonView::LoopTimedOut,
            EndReason::MaxTurns => EndReasonView::MaxTurns,
            EndReason::Length => EndReasonView::Length,
            EndReason::ContentFilter => EndReasonView::ContentFilter,
            EndReason::HookStopped(x) => EndReasonView::HookStopped(x.deep_view()),
            EndReason::ProviderError(x) => EndReasonView::ProviderError(x.deep_view()),
            EndReason::RunError(x) => EndReasonView::RunError(x.deep_view()),
        }
    }
}

impl Clone for EndReason {
    fn clone(&self) -> (r: EndReason)
        ensures
            r.deep_view() == self.deep_view(),
    {
        match self {
            EndReason::Completed => EndReason::Completed,
            EndReason::Idle => EndReason::Idle,
            EndReason::Paused => EndReason::Paused,
            EndReason::Aborted => EndReason::Aborted,
            EndReason::Interrupted => EndReason::Interrupted,
            EndReason::TurnTimedOut => EndReason::TurnTimedOut,
            EndReason::LoopTimedOut => EndReason::LoopTimedOut,
            EndReason::MaxTurns => EndReason::MaxTurns,
            EndReason::Length => EndReason::Length,
            EndReason::ContentFilter => EndReason::ContentFilter,
            EndReason::HookStopped(x) => EndReason::HookStopped(x.clone()),
            EndReason::ProviderError(x) => EndReason::ProviderError(x.clone()),
            EndReason::RunError(x) => EndReason::RunError(x.clone()),
        }
    }
}

impl DeepEq for EndReason {
    fn deep_eq(&self, other: &EndReason) -> (r: bool) {
        match (self, other) {
            (EndReason::Completed, EndReason::Completed) => true,
            (EndReason::Idle, EndReason::Idle) => true,
            (EndReason::Paused, EndReason::Paused) => true,
            (EndReason::Aborted, EndReason::Aborted) => true,
            (EndReason::Interrupted, EndReason::Interrupted) => true,
            (EndReason::TurnTimedOut, EndReason::TurnTimedOut) => true,
            (EndReason::LoopTimedOut, EndReason::LoopTimedOut) => true,
            (EndReason::MaxTurns, EndReason::MaxTurns) => true,
            (EndReason::Length, EndReason::Length) => true,
            (EndReason::ContentFilter, EndReason::ContentFilter) => true,
            (EndReason::HookStopped(x), EndReason::HookStopped(a)) => x.deep_eq(a),
            (EndReason::ProviderError(x), EndReason::ProviderError(a)) => x.deep_eq(a),
            (EndReason::RunError(x), EndReason::RunError(a)) => x.deep_eq(a),
            _ => false,
        }
    }
}

/// What became of a turn.
#[derive(Debug, PartialEq, Eq)]
pub struct Outcome {
    /// The bits of a UUID.
    pub run_id: u128,
    pub reason: EndReason,
    /// None if any completed call lacked usage, or a provider call failed.
    pub usage: Option<Usage>,
    /// Nanoseconds since the Unix epoch.
    pub finished_at: i128,
}

/// The value of a [`Outcome`].
pub struct OutcomeView {
    pub run_id: u128,
    pub reason: EndReasonView,
    pub usage: Option<Usage>,
    pub finished_at: i128,
}

impl DeepView for Outcome {
    type V = OutcomeView;

    open spec fn deep_view(&self) -> OutcomeView {
        OutcomeView {
            run_id: self.run_id,
            reason: self.reason.deep_view(),
            usage: self.usage.deep_view(),
            finished_at: self.finished_at,
        }
    }
}

impl Clone for Outcome {
    fn clone(&self) -> (r: Outcome)
        ensures
            r.deep_view() == self.deep_view(),
    {
        Outcome {
            run_id: self.run_id,
            reason: self.reason.clone(),
            usage: self.usage.clone(),
            finished_at: self.finished_at,
        }
    }
}

impl DeepEq for Outcome {
    fn deep_eq(&self, other: &Outcome) -> (r: bool) {
        self.run_id.deep_eq(&other.run_id) && self.reason.deep_eq(&other.reason) && self.usage.deep_eq(&other.usage) && self.finished_at.deep_eq(&other.finished_at)
    }
}

/// Why an operation of a session failed.
#[derive(Debug, PartialEq, Eq)]
pub enum Error {
    InvalidHistory(String),
    Closed,
    QueueFull,
    Configuration(String),
    Store { operation: String, message: String },
    CommitUncertain { commit: Commit, message: String },
    ToolWriteUncertain { key: ToolKey, result: ToolResult, message: String },
    TaskPanicked,
}

/// The value of a [`Error`].
pub enum ErrorView {
    InvalidHistory(Seq<char>),
    Closed,
    QueueFull,
    Configuration(Seq<char>),
    Store { operation: Seq<char>, message: Seq<char> },
    CommitUncertain { commit: CommitView, message: Seq<char> },
    ToolWriteUncertain { key: ToolKeyView, result: ToolResultView, message: Seq<char> },
    TaskPanicked,
}

impl DeepView for Error {
    type V = ErrorView;

    open spec fn deep_view(&self) -> ErrorView {
        match self {
            Error::InvalidHistory(x) => ErrorView::InvalidHistory(x.deep_view()),
            Error::Closed => ErrorView::Closed,
            Error::QueueFull => ErrorView::QueueFull,
            Error::Configuration(x) => ErrorView::Configuration(x.deep_view()),
            Error::Store { operation, message } => ErrorView::Store { operation: operation.deep_view(), message: message.deep_view() },
            Error::CommitUncertain { commit, message } => ErrorView::CommitUncertain { commit: commit.deep_view(), message: message.deep_view() },
            Error::ToolWriteUncertain { key, result, message } => ErrorView::ToolWriteUncertain { key: key.deep_view(), result: result.deep_view(), message: message.deep_view() },
            Error::TaskPanicked => ErrorView::TaskPanicked,
        }
    }
}

impl Clone for Error {
    fn clone(&self) -> (r: Error)
        ensures
            r.deep_view() == self.deep_view(),
    {
        match self {
            Error::InvalidHistory(x) => Error::InvalidHistory(x.clone()),
            Error::Closed => Error::Closed,
            Error::QueueFull => Error::QueueFull,
            Error::Configuration(x) => Error::Configuration(x.clone()),
            Error::Store { operation, message } => Error::Store { operation: operation.clone(), message: message.clone() },
            Error::CommitUncertain { commit, message } => Error::CommitUncertain { commit: commit.clone(), message: message.clone() },
            Error::ToolWriteUncertain { key, result, message } => Error::ToolWriteUncertain { key: key.clone(), result: result.clone(), message: message.clone() },
            Error::TaskPanicked => Error::TaskPanicked,
        }
    }
}

impl DeepEq for Error {
    fn deep_eq(&self, other: &Error) -> (r: bool) {
        match (self, other) {
            (Error::InvalidHistory(x), Error::InvalidHistory(a)) => x.deep_eq(a),
            (Error::Closed, Error::Closed) => true,
            (Error::QueueFull, Error::QueueFull) => true,
            (Error::Configuration(x), Error::Configuration(a)) => x.deep_eq(a),
            (Error::Store { operation, message }, Error::Store { operation: other_operation, message: other_message }) => operation.deep_eq(other_operation) && message.deep_eq(other_message),
            (Error::CommitUncertain { commit, message }, Error::CommitUncertain { commit: other_commit, message: other_message }) => commit.deep_eq(other_commit) && message.deep_eq(other_message),
            (Error::ToolWriteUncertain { key, result, message }, Error::ToolWriteUncertain { key: other_key, result: other_result, message: other_message }) => key.deep_eq(other_key) && result.deep_eq(other_result) && message.deep_eq(other_message),
            (Error::TaskPanicked, Error::TaskPanicked) => true,
            _ => false,
        }
    }
}

/// An error in words.
pub open spec fn error_text(error: ErrorView) -> Seq<char> {
    match error {
        ErrorView::InvalidHistory(text) => "invalid history: "@ + text,
        ErrorView::Closed => "session is closed"@,
        ErrorView::QueueFull => "session queue is full"@,
        ErrorView::Configuration(text) => "invalid configuration: "@ + text,
        ErrorView::Store { operation, message } => operation + ": "@ + message,
        ErrorView::CommitUncertain { commit, message } => "commit "@ + uuid_text(commit.id)
            + " is uncertain: "@ + message,
        ErrorView::ToolWriteUncertain { message, .. } => "tool receipt write is uncertain: "@ + message,
        ErrorView::TaskPanicked => "session task panicked"@,
    }
}

impl Error {
    /// The error in words.
    pub fn message(&self) -> (r: String)
        ensures
            r@ == error_text(self.deep_view()),
    {
        match self {
            Error::InvalidHistory(text) => joined("invalid history: ", text.as_str()),
            Error::Closed => "session is closed".to_owned(),
            Error::QueueFull => "session queue is full".to_owned(),
            Error::Configuration(text) => joined("invalid configuration: ", text.as_str()),
            Error::Store { operation, message } => joined(
                joined(operation.as_str(), ": ").as_str(),
                message.as_str(),
            ),
            Error::CommitUncertain { commit, message } => joined(
                joined(
                    joined("commit ", render_uuid(commit.id).as_str()).as_str(),
                    " is uncertain: ",
                ).as_str(),
                message.as_str(),
            ),
            Error::ToolWriteUncertain { message, .. } => joined(
                "tool receipt write is uncertain: ",
                message.as_str(),
            ),
            Error::TaskPanicked => "session task panicked".to_owned(),
        }
    }
}

/// What a session is started with. Timeouts are in nanoseconds.
#[derive(Debug)]
pub struct Session {
    pub history: Vec<Message>,
    pub pending: Vec<InboxEntry>,
    pub max_turns: usize,
    pub turn_timeout: Option<u128>,
    pub loop_timeout: Option<u128>,
    pub io_timeout: u128,
    pub capacity: usize,
}

/// The value of a [`Session`].
pub struct SessionView {
    pub history: Seq<MessageView>,
    pub pending: Seq<InboxEntryView>,
    pub max_turns: usize,
    pub turn_timeout: Option<u128>,
    pub loop_timeout: Option<u128>,
    pub io_timeout: u128,
    pub capacity: usize,
}

impl DeepView for Session {
    type V = SessionView;

    open spec fn deep_view(&self) -> SessionView {
        SessionView {
            history: self.history.deep_view(),
            pending: self.pending.deep_view(),
            max_turns: self.max_turns,
            turn_timeout: self.turn_timeout,
            loop_timeout: self.loop_timeout,
            io_timeout: self.io_timeout,
            capacity: self.capacity,
        }
    }
}

/// What a session is started with unless it is told otherwise.
pub open spec fn default_session() -> SessionView {
    SessionView {
        history: Seq::empty(),
        pending: Seq::empty(),
        max_turns: 1_000_000,
        turn_timeout: None,
        loop_timeout: None,
        io_timeout: 30_000_000_000,
        capacity: 256,
    }
}

/// What is wrong with the `k`th of the entries that were waiting, if anything is.
pub open spec fn pending_fault(pending: Seq<InboxEntryView>, k: int) -> Option<ErrorView> {
    if !is_signal(pending[k].message) {
        Some(
            ErrorView::InvalidHistory(
                "signals must be nonempty user messages without tool results"@,
            ),
        )
    } else if pending[k].id.len() == 0 || entry_ids(pending).take(k).contains(pending[k].id) {
        Some(ErrorView::Configuration("pending inbox IDs must be nonempty and unique"@))
    } else {
        None
    }
}

/// The first fault among the waiting entries from the `k`th on.
pub open spec fn first_pending_fault(pending: Seq<InboxEntryView>, k: int) -> Option<ErrorView>
    decreases pending.len() - k,
{
    if k >= pending.len() {
        None
    } else if pending_fault(pending, k) is Some {
        pending_fault(pending, k)
    } else {
        first_pending_fault(pending, k + 1)
    }
}

/// Why a session cannot be started, if it cannot; `in_range` says whether the clock reaches as
/// far as the timeouts.
pub open spec fn start_fault(s: SessionView, in_range: bool) -> Option<ErrorView> {
    if s.capacity == 0 || s.max_turns == 0 || s.max_turns == usize::MAX || s.io_timeout == 0 {
        Some(
            ErrorView::Configuration(
                "capacity, max_turns and io_timeout must be positive; max_turns must be finite"@,
            ),
        )
    } else if !in_range {
        Some(ErrorView::Configuration("timeout exceeds the clock range"@))
    } else if refusal(s.history, true) is Some {
        Some(ErrorView::InvalidHistory(refusal(s.history, true)->0))
    } else if s.pending.len() > s.capacity {
        Some(ErrorView::QueueFull)
    } else {
        first_pending_fault(s.pending, 0)
    }
}

/// A turn before the first one.
pub open spec fn no_turn() -> TurnView {
    TurnView {
        deadline: None,
        timeout_reason: EndReasonView::TurnTimedOut,
        usage: no_usage(),
        usage_known: true,
        any_call: false,
        finish_reason: None,
        reason: None,
        finalization: 0,
    }
}

/// A session that was started, before its first step.
pub open spec fn started(s: SessionView, now: u128) -> ActorView {
    ActorView {
        capacity: s.capacity,
        max_turns: s.max_turns,
        turn_timeout: s.turn_timeout,
        io_timeout: s.io_timeout,
        history: s.history,
        queue: restored(s.pending),
        waiters: Seq::empty(),
        paused: false,
        idle: false,
        loop_deadline: match s.loop_timeout {
            Some(timeout) => Some(later(now, timeout)),
            None => None,
        },
        receipts: Seq::empty(),
        turn: no_turn(),
        phase: PhaseView::Stopped,
    }
}

/// The timeouts that the clock has to reach: that of storage, that of a turn where there is one,
/// and that of the session where there is one.
pub open spec fn asked_timeouts(s: SessionView) -> Seq<u128> {
    seq![s.io_timeout] + (match s.turn_timeout {
        Some(timeout) => seq![timeout],
        None => Seq::empty(),
    }) + (match s.loop_timeout {
        Some(timeout) => seq![timeout],
        None => Seq::empty(),
    })
}

/// Whether a clock may give these answers on whether it reaches so far: one for each timeout, and
/// no for what is longer than any clock reaches.
pub open spec fn may_answer(asked: Seq<u128>, answers: Seq<bool>) -> bool {
    &&& answers.len() == asked.len()
    &&& forall|i: int| 0 <= i < asked.len() && asked[i] > LONGEST_NANOS ==> !#[trigger] answers[i]
    &&& forall|i: int| 0 <= i < asked.len() && asked[i] == 0 ==> #[trigger] answers[i]
}

/// Whether every answer is yes.
pub open spec fn all_reached(answers: Seq<bool>) -> bool {
    forall|i: int| 0 <= i < answers.len() ==> answers[i]
}

/// Ask the clock, for each of some timeouts, whether it reaches so far.
fn ask_clock(asked: &Vec<u128>) -> (r: Vec<bool>)
    ensures
        may_answer(asked@, r@),
{
    let mut answers: Vec<bool> = Vec::new();
    let mut i: usize = 0;
    while i < asked.len()
        invariant
            i <= asked.len(),
            may_answer(asked@.take(i as int), answers@),
        decreases asked.len() - i,
    {
        let answer = match clock_span(asked[i]) {
            Some((secs, rest)) => clock_reaches(secs, rest),
            None => false,
        };
        answers.push(answer);
        i += 1;
    }
    assert(asked@.take(i as int) =~= asked@);
    answers
}

/// Whether every answer is yes.
fn are_all_reached(answers: &Vec<bool>) -> (r: bool)
    ensures
        r == all_reached(answers@),
{
    let mut i: usize = 0;
    while i < answers.len()
        invariant
            i <= answers.len(),
            forall|k: int| 0 <= k < i ==> answers@[k],
        decreases answers.len() - i,
    {
        if !answers[i] {
            return false;
        }
        i += 1;
    }
    true
}

impl Session {
    /// An empty conversation with the default limits.
    pub fn new() -> (r: Session)
        ensures
            r.deep_view() == default_session(),
    {
        let r = Session {
            history: Vec::new(),
            pending: Vec::new(),
            max_turns: 1_000_000,
            turn_timeout: None,
            loop_timeout: None,
            io_timeout: 30_000_000_000,
            capacity: 256,
        };
        proof {
            assert(r.history.deep_view() =~= Seq::empty());
            assert(r.pending.deep_view() =~= Seq::empty());
        }
        r
    }

    /// The journal, as the caller loaded it. It must match what the store holds. Only a trailing
    /// assistant message with open calls is repaired.
    pub fn history(self, history: Vec<Message>) -> (r: Session)
        ensures
            r.deep_view() == (SessionView { history: history.deep_view(), ..self.deep_view() }),
    {
        Session { history, ..self }
    }

    /// The pending entries, as the caller loaded them, with their identity, kind and order. The
    /// store has them already; they are not submitted again.
    pub fn pending(self, pending: Vec<InboxEntry>) -> (r: Session)
        ensures
            r.deep_view() == (SessionView { pending: pending.deep_view(), ..self.deep_view() }),
    {
        Session { pending, ..self }
    }

    /// The number of model calls that a turn may make.
    pub fn max_turns(self, max_turns: usize) -> (r: Session)
        ensures
            r.deep_view() == (SessionView { max_turns, ..self.deep_view() }),
    {
        Session { max_turns, ..self }
    }

    /// How long a turn may take.
    pub fn turn_timeout(self, timeout: u128) -> (r: Session)
        ensures
            r.deep_view() == (SessionView { turn_timeout: Some(timeout), ..self.deep_view() }),
    {
        Session { turn_timeout: Some(timeout), ..self }
    }

    /// How long the session may take, with idle time and startup recovery.
    pub fn loop_timeout(self, timeout: u128) -> (r: Session)
        ensures
            r.deep_view() == (SessionView { loop_timeout: Some(timeout), ..self.deep_view() }),
    {
        Session { loop_timeout: Some(timeout), ..self }
    }

    /// How long storage may take, and how long winding up a turn may take. A write that is cut
    /// off is reported as uncertain, never as made.
    pub fn io_timeout(self, timeout: u128) -> (r: Session)
        ensures
            r.deep_view() == (SessionView { io_timeout: timeout, ..self.deep_view() }),
    {
        Session { io_timeout: timeout, ..self }
    }

    /// How much may wait at once.
    pub fn queue_capacity(self, capacity: usize) -> (r: Session)
        ensures
            r.deep_view() == (SessionView { capacity, ..self.deep_view() }),
    {
        Session { capacity, ..self }
    }

    fn check_pending(&self) -> (r: Result<(), Error>)
        ensures
            match first_pending_fault(self.deep_view().pending, 0) {
                None => r is Ok,
                Some(error) => r matches Err(e) && e.deep_view() == error,
            },
    {
        let ghost all = self.pending.deep_view();
        let mut k: usize = 0;
        while k < self.pending.len()
            invariant
                k <= self.pending.len(),
                all == self.pending.deep_view(),
                first_pending_fault(all, 0) == first_pending_fault(all, k as int),
            decreases self.pending.len() - k,
        {
            let entry = &self.pending[k];
            assert(all[k as int] == entry.deep_view());
            validate_signal(&entry.message)?;
            let mut refused = entry.id.as_str().is_empty();
            let mut j: usize = 0;
            while j < k
                invariant
                    j <= k < self.pending.len(),
                    all == self.pending.deep_view(),
                    entry == self.pending[k as int],
                    refused == (entry.id@.len() == 0 || exists|i: int|
                        0 <= i < j && entry_ids(all)[i] == entry.id@),
                decreases k - j,
            {
                if self.pending[j].id.deep_eq(&entry.id) {
                    assert(entry_ids(all)[j as int] == entry.id@);
                    refused = true;
                }
                j += 1;
            }
            proof {
                let earlier = entry_ids(all).take(k as int);
                if earlier.contains(entry.id@) {
                    let i = choose|i: int| 0 <= i < earlier.len() && earlier[i] == entry.id@;
                    assert(entry_ids(all)[i] == entry.id@);
                }
                if exists|i: int| 0 <= i < k && entry_ids(all)[i] == entry.id@ {
                    let i = choose|i: int| 0 <= i < k && entry_ids(all)[i] == entry.id@;
                    assert(earlier[i] == entry.id@);
                }
            }
            if refused {
                return Err(
                    Error::Configuration("pending inbox IDs must be nonempty and unique".to_owned()),
                );
            }
            k += 1;
        }
        Ok(())
    }

    /// The timeouts that the clock has to reach, in the order in which it is asked.
    pub fn asked_timeouts(&self) -> (r: Vec<u128>)
        ensures
            r@ == asked_timeouts(self.deep_view()),
    {
        let mut asked: Vec<u128> = Vec::new();
        asked.push(self.io_timeout);
        if let Some(timeout) = self.turn_timeout {
            asked.push(timeout);
        }
        if let Some(timeout) = self.loop_timeout {
            asked.push(timeout);
        }
        assert(asked@ =~= asked_timeouts(self.deep_view()));
        asked
    }

    /// Start the session at a time on the driver's clock. Whether the clock reaches as far as each
    /// of the timeouts is asked of the machine.
    pub fn start(self, now: u128) -> (r: Result<Actor, Error>)
        ensures
            exists|answers: Seq<bool>| #[trigger]
                may_answer(asked_timeouts(self.deep_view()), answers) && match start_fault(
                    self.deep_view(),
                    all_reached(answers),
                ) {
                    Some(error) => r matches Err(e) && e.deep_view() == error,
                    None => r matches Ok(actor) && actor.deep_view() == started(self.deep_view(), now),
                },
            r matches Ok(actor) ==> is_consistent(actor.deep_view()),
    {
        let answers = ask_clock(&self.asked_timeouts());
        let in_range = are_all_reached(&answers);
        assert(may_answer(asked_timeouts(self.deep_view()), answers@));
        self.start_within(in_range, now)
    }

    /// Start the session at a time on the driver's clock, which reaches as far as the timeouts or
    /// does not.
    pub fn start_within(self, in_range: bool, now: u128) -> (r: Result<Actor, Error>)
        ensures
            match start_fault(self.deep_view(), in_range) {
                Some(error) => r matches Err(e) && e.deep_view() == error,
                None => r matches Ok(actor) && actor.deep_view() == started(self.deep_view(), now)
                    && is_consistent(actor.deep_view()),
            },
    {
        let ghost s = self.deep_view();
        if self.capacity == 0 || self.max_turns == 0 || self.max_turns == usize::MAX
            || self.io_timeout == 0 {
            return Err(
                Error::Configuration(
                    "capacity, max_turns and io_timeout must be positive; max_turns must be finite".to_owned(),
                ),
            );
        }
        if !in_range {
            return Err(Error::Configuration("timeout exceeds the clock range".to_owned()));
        }
        validate_journal(&self.history)?;
        assert(self.pending.deep_view().len() == self.pending.len());
        if self.pending.len() > self.capacity {
            return Err(Error::QueueFull);
        }
        self.check_pending()?;
        let loop_deadline: Option<u128> = match self.loop_timeout {
            Some(timeout) => Some(now.saturating_add(timeout)),
            None => None,
        };
        let mut queue = Queue::new();
        assert(s.pending.take(0) =~= Seq::empty());
        let mut i: usize = 0;
        while i < self.pending.len()
            invariant
                i <= self.pending.len(),
                s.pending == self.pending.deep_view(),
                queue.deep_view() == restored(s.pending.take(i as int)),
            decreases self.pending.len() - i,
        {
            assert(s.pending.take(i + 1).drop_last() =~= s.pending.take(i as int));
            assert(s.pending.take(i + 1).last() == self.pending[i as int].deep_view());
            queue.restore(self.pending[i].clone());
            i += 1;
        }
        assert(s.pending.take(s.pending.len() as int) =~= s.pending);
        let actor = Actor {
            capacity: self.capacity,
            max_turns: self.max_turns,
            turn_timeout: self.turn_timeout,
            io_timeout: self.io_timeout,
            history: self.history,
            queue,
            waiters: Vec::new(),
            paused: false,
            idle: false,
            loop_deadline,
            receipts: Vec::new(),
            turn: Turn {
                deadline: None,
                timeout_reason: EndReason::TurnTimedOut,
                usage: Usage::new(),
                usage_known: true,
                any_call: false,
                finish_reason: None,
                reason: None,
                finalization: 0,
            },
            phase: Phase::Stopped,
        };
        proof {
            law_restored_entries_keep_their_order(s.pending);
            law_journals_are_not_refused(s.history);
            assert(actor.waiters.deep_view() =~= Seq::empty());
            assert(actor.receipts.deep_view() =~= Seq::empty());
        }
        Ok(actor)
    }
}

/// Why an entry cannot be submitted, if it cannot.
pub open spec fn submission_fault(entry: InboxEntryView) -> Option<ErrorView> {
    if !is_signal(entry.message) {
        Some(
            ErrorView::InvalidHistory(
                "signals must be nonempty user messages without tool results"@,
            ),
        )
    } else if entry.id.len() == 0 {
        Some(ErrorView::Configuration("inbox ID must not be empty"@))
    } else {
        None
    }
}

/// Hold an entry against what may be submitted.
pub fn check_submission(entry: &InboxEntry) -> (r: Result<(), Error>)
    ensures
        match submission_fault(entry.deep_view()) {
            Some(error) => r matches Err(e) && e.deep_view() == error,
            None => r is Ok,
        },
{
    validate_signal(&entry.message)?;
    if entry.id.as_str().is_empty() {
        return Err(Error::Configuration("inbox ID must not be empty".to_owned()));
    }
    Ok(())
}

/// Why a question to a session stays without a reply: the error that the session stopped with,
/// or that it is closed.
pub fn lost_reply(stopped: Result<EndReason, Error>) -> (r: Error)
    ensures
        r.deep_view() == (match stopped {
            Ok(_) => ErrorView::Closed,
            Err(error) => error.deep_view(),
        }),
{
    match stopped {
        Ok(_) => Error::Closed,
        Err(error) => error,
    }
}

/// An entry that may be submitted can also be waiting when a session starts.
pub proof fn law_submitted_entries_can_be_restored(entry: InboxEntryView)
    requires
        submission_fault(entry) is None,
    ensures
        first_pending_fault(seq![entry], 0) is None,
{
    let one = seq![entry];
    assert(pending_fault(one, 0) is None);
    assert(first_pending_fault(one, 1) is None);
}

} // verus!
