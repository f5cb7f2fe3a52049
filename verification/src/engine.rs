//! A running agent loop, step by step.
use crate::api::{
    AgentLoopError, AgentLoopErrorInfo, AgentLoopErrorView, AgentLoopEvent, AgentLoopResult,
    ApiErrorInfo, AssistantMessageContext, Command, EndReason, InvalidMessageHistoryError,
    InvalidMessageHistoryErrorView, ToolResultKey, TurnHookAction, TurnHookContext,
    TurnOutcomeKind,
};
use crate::deep::DeepEq;
use crate::history::{
    first_order_fault, law_ordered_histories_have_no_fault, validate_message_history,
    validate_resume_history,
};
use crate::loop_laws::{is_in_order, law_committed_histories_are_valid};
use crate::loop_rules::{
    any_occurs, await_hook, await_open, await_turn, begin_commit, commit_end, commit_kind,
    commit_report, commit_usage, completion_reason, conclude, content_filter_signs,
    context_full_signs, deadline_after, deadline_reason, earlier_deadline, elapsed, expects, fail,
    fail_invalid, fault_history, fault_reason, finish, finish_commit, first_step, has_pending,
    length_signs, lowered, messages_up_to, next_pending, next_round, occurs, on_boundary,
    on_deadline, on_drained, on_draining, on_ended, on_fault, on_final, on_hook_answer,
    on_hook_done, on_hooked, on_idle, on_item, on_loaded, on_opening, on_persisted, on_repaired,
    on_running, partial_append, prepared_turn, projected_end, queued, reported, run_turn,
    snapshot, step, stop_turn, time_of, time_out, turn_append, turn_fault, turn_on, without_next,
    ActiveTurn, AfterCommit, AfterCommitView, CommitEvent, CommitEventView, FinalResponse,
    LoopEffect, LoopEffectView, LoopInput, LoopItem, LoopPhase, LoopRequest, LoopStepView,
    PendingTurn, PreparedTurn, Runner, StreamFault, Then, TimeoutDeadline, TimeoutKind,
};
use crate::message::Message;
use crate::partial::{PartialTurn, StreamedAssistantContent, StreamedUserContent};
use crate::repair::{
    lemma_nothing_failed, missing_from, missing_result_keys,
    repair_unanswered_tool_calls_with_persistence, Loaded,
};
use crate::session::Usage;
use crate::text::joined;
use std::collections::VecDeque;
use vstd::prelude::*;

verus! {

/// Whether a loop, the effects of a step and its request are what a step leads to.
pub open spec fn leads_to(
    runner: &Runner,
    fx: &Vec<LoopEffect>,
    request: LoopRequest,
    step: LoopStepView,
) -> bool {
    &&& runner.deep_view() == step.runner
    &&& fx.deep_view() == step.effects
    &&& request.deep_view() == step.request
}

impl TimeoutDeadline {
    /// A deadline for something that starts now.
    pub fn new(kind: TimeoutKind, now: u128, timeout: u128) -> (r: TimeoutDeadline)
        ensures
            Some(r) == deadline_after(kind, now, Some(timeout)),
    {
        TimeoutDeadline { kind, at: now.saturating_add(timeout), timeout }
    }

    /// Why a loop ends at the deadline.
    pub fn end_reason(self) -> (r: EndReason)
        ensures
            r.deep_view() == deadline_reason(self),
    {
        match self.kind {
            TimeoutKind::Turn => EndReason::TurnTimedOut { timeout: self.timeout },
            TimeoutKind::Loop => EndReason::LoopTimedOut { timeout: self.timeout },
        }
    }
}

/// The earlier of two deadlines; the loop's where they are at the same time.
pub fn next_timeout(turn: Option<TimeoutDeadline>, loop_deadline: Option<TimeoutDeadline>) -> (r: Option<
    TimeoutDeadline,
>)
    ensures
        r == earlier_deadline(turn, loop_deadline),
{
    match (turn, loop_deadline) {
        (Some(x), Some(y)) => if y.at <= x.at {
            Some(y)
        } else {
            Some(x)
        },
        (Some(x), None) => Some(x),
        (None, y) => y,
    }
}

/// The deadline, if it has come.
pub fn elapsed_timeout(deadline: Option<TimeoutDeadline>, now: u128) -> (r: Option<TimeoutDeadline>)
    ensures
        r == elapsed(deadline, now),
{
    match deadline {
        Some(d) => if now >= d.at {
            Some(d)
        } else {
            None
        },
        None => None,
    }
}

fn start_deadline(kind: TimeoutKind, now: u128, timeout: Option<u128>) -> (r: Option<TimeoutDeadline>)
    ensures
        r == deadline_after(kind, now, timeout),
{
    match timeout {
        Some(timeout) => Some(TimeoutDeadline::new(kind, now, timeout)),
        None => None,
    }
}

fn deadline_time(deadline: Option<TimeoutDeadline>) -> (r: Option<u128>)
    ensures
        r == time_of(deadline),
{
    match deadline {
        Some(d) => Some(d.at),
        None => None,
    }
}

impl PendingTurn {
    /// Some messages as a turn: the last one is the prompt.
    pub fn new(messages: Vec<Message>) -> (r: Option<PendingTurn>)
        ensures
            messages.len() == 0 ==> r is None,
            messages.len() > 0 ==> r.deep_view() == Some(turn_on(messages.deep_view())),
    {
        let ghost all = messages.deep_view();
        let mut prelude = messages;
        match prelude.pop() {
            Some(prompt) => {
                assert(prelude.deep_view() =~= all.drop_last());
                Some(PendingTurn::Prompt { prelude, prompt })
            },
            None => None,
        }
    }

    /// A turn on one message.
    pub fn single(prompt: Message) -> (r: PendingTurn)
        ensures
            r.deep_view() == turn_on(seq![prompt.deep_view()]),
    {
        let prelude: Vec<Message> = Vec::new();
        assert(prelude.deep_view() =~= seq![prompt.deep_view()].drop_last());
        PendingTurn::Prompt { prelude, prompt }
    }
}

fn concat(first: &Vec<Message>, second: &Vec<Message>) -> (r: Vec<Message>)
    ensures
        r.deep_view() == first.deep_view() + second.deep_view(),
{
    let mut all = first.clone();
    let mut rest = second.clone();
    all.append(&mut rest);
    assert(all.deep_view() =~= first.deep_view() + second.deep_view());
    all
}

impl PreparedTurn {
    /// Prepare a turn on a history, if the history admits it.
    pub fn from_pending(turn: PendingTurn, committed_base_history: Vec<Message>) -> (r: Result<
        PreparedTurn,
        AgentLoopError,
    >)
        ensures
            match turn_fault(turn.deep_view(), committed_base_history.deep_view()) {
                None => r matches Ok(p) && p.deep_view() == prepared_turn(
                    turn.deep_view(),
                    committed_base_history.deep_view(),
                ),
                Some(text) => r matches Err(e) && e.deep_view()
                    == AgentLoopErrorView::InvalidMessageHistory(
                    InvalidMessageHistoryErrorView { message: text },
                ),
            },
    {
        let ghost base = committed_base_history.deep_view();
        match turn {
            PendingTurn::Prompt { prelude, prompt } => {
                let request_history = concat(&committed_base_history, &prelude);
                let mut full = request_history.clone();
                full.push(prompt.clone());
                assert(full.deep_view() =~= (base + prelude.deep_view()).push(prompt.deep_view()));
                if let Err(error) = validate_message_history(&full) {
                    return Err(AgentLoopError::InvalidMessageHistory(error));
                }
                Ok(
                    PreparedTurn {
                        committed_base_history,
                        request_history,
                        prelude,
                        prompt,
                        commit_prompt: true,
                    },
                )
            },
            PendingTurn::Resume => {
                if let Err(error) = validate_resume_history(&committed_base_history) {
                    return Err(AgentLoopError::InvalidMessageHistory(error));
                }
                assert(base.len() == committed_base_history.len());
                let last = committed_base_history.len() - 1;
                assert(base.last() == committed_base_history[last as int].deep_view());
                let prompt = committed_base_history[last].clone();
                let mut request_history = committed_base_history.clone();
                let _ = request_history.pop();
                assert(request_history.deep_view() =~= base.drop_last());
                let prelude: Vec<Message> = Vec::new();
                assert(prelude.deep_view() =~= Seq::empty());
                Ok(
                    PreparedTurn {
                        committed_base_history,
                        request_history,
                        prelude,
                        prompt,
                        commit_prompt: false,
                    },
                )
            },
        }
    }

    /// What the turn adds to the history, given its messages from the prompt on.
    pub fn append_messages(&self, messages: Vec<Message>) -> (r: Vec<Message>)
        ensures
            r.deep_view() == turn_append(self.deep_view(), messages.deep_view()),
    {
        let ghost all = messages.deep_view();
        assert(all.len() == messages.len());
        let mut messages = messages;
        if !self.commit_prompt && !messages.is_empty() {
            let _ = messages.remove(0);
            assert(messages.deep_view() =~= all.skip(1));
        }
        let mut append = self.prelude.clone();
        let ghost rest = messages.deep_view();
        append.append(&mut messages);
        assert(append.deep_view() =~= self.prelude.deep_view() + rest);
        append
    }

    /// What the turn adds that is stopped before its end: its complete roundtrips.
    pub fn partial_messages(&self, partial_turn: &PartialTurn) -> (r: Vec<Message>)
        ensures
            r.deep_view() == partial_append(self.deep_view(), partial_turn.deep_view()),
    {
        match partial_turn.append_messages(&self.prompt) {
            Some(messages) => self.append_messages(messages),
            None => {
                let none: Vec<Message> = Vec::new();
                assert(none.deep_view() =~= Seq::empty());
                none
            },
        }
    }

    /// The messages of the turn so far, up to a message of the assistant.
    pub fn assistant_messages(&self, partial_turn: &PartialTurn, message: Message) -> (r: Vec<Message>)
        ensures
            r.deep_view() == messages_up_to(
                self.deep_view(),
                partial_turn.deep_view(),
                message.deep_view(),
            ),
    {
        let ghost m = message.deep_view();
        let mut messages = self.prelude.clone();
        if self.commit_prompt {
            messages.push(self.prompt.clone());
        }
        let mut completed = partial_turn.completed_messages.clone();
        messages.append(&mut completed);
        messages.push(message);
        assert(messages.deep_view() =~= messages_up_to(self.deep_view(), partial_turn.deep_view(), m));
        messages
    }
}

impl CommitEvent {
    /// Why the loop is about to end at the commit, if it is.
    pub fn end_reason(&self) -> (r: Option<EndReason>)
        ensures
            r.deep_view() == commit_end(self.deep_view()),
    {
        match self {
            CommitEvent::Committed { end_reason, .. } => end_reason.clone(),
            CommitEvent::Interrupted => None,
            CommitEvent::Aborted => Some(EndReason::Aborted),
            CommitEvent::TimedOut { end_reason } => Some(end_reason.clone()),
        }
    }

    /// What became of the turn.
    pub fn kind(&self) -> (r: TurnOutcomeKind)
        ensures
            r == commit_kind(self.deep_view()),
    {
        match self {
            CommitEvent::Committed { .. } => TurnOutcomeKind::Committed,
            CommitEvent::Interrupted => TurnOutcomeKind::Interrupted,
            CommitEvent::Aborted => TurnOutcomeKind::Aborted,
            CommitEvent::TimedOut { .. } => TurnOutcomeKind::TimedOut,
        }
    }

    /// The usage that the commit tells of.
    pub fn usage(&self) -> (r: Option<Usage>)
        ensures
            r.deep_view() == commit_usage(self.deep_view()),
    {
        match self {
            CommitEvent::Committed { usage, .. } => *usage,
            _ => None,
        }
    }

    /// What is reported of the commit.
    pub fn into_agent_event(self, messages: Vec<Message>) -> (r: AgentLoopEvent)
        ensures
            r.deep_view() == commit_report(self.deep_view(), messages.deep_view()),
    {
        match self {
            CommitEvent::Committed { .. } => AgentLoopEvent::TurnCommitted { messages },
            CommitEvent::Interrupted => AgentLoopEvent::TurnInterrupted { messages },
            CommitEvent::Aborted => AgentLoopEvent::TurnAborted { messages },
            CommitEvent::TimedOut { .. } => AgentLoopEvent::TurnTimedOut { messages },
        }
    }
}

/// A text in lower case, by `str::to_ascii_lowercase`: the letters of ASCII are mapped, and
/// everything else is kept.
#[verifier::external_body]
fn to_lower(text: &str) -> (r: String)
    ensures
        r@ == lowered(text@),
{
    text.to_ascii_lowercase()
}

/// Whether a text occurs in another one, by `str::contains`.
#[verifier::external_body]
fn text_contains(text: &str, needle: &str) -> (r: bool)
    ensures
        r == occurs(text@, needle@),
{
    text.contains(needle)
}

/// Whether one of some texts occurs in a message.
pub fn contains_any(message: &str, needles: &[&str]) -> (r: bool)
    ensures
        r == any_occurs(message@, needles.deep_view()),
{
    let mut k: usize = 0;
    while k < needles.len()
        invariant
            k <= needles.len(),
            forall|j: int| 0 <= j < k ==> !occurs(message@, #[trigger] needles.deep_view()[j]),
        decreases needles.len() - k,
    {
        if text_contains(message, needles[k]) {
            assert(occurs(message@, needles.deep_view()[k as int]));
            return true;
        }
        k += 1;
    }
    false
}

/// Whether an error tells that a provider filtered the content.
pub fn is_content_filter_error(message: &str) -> (r: bool)
    ensures
        r == any_occurs(lowered(message@), content_filter_signs()),
{
    let signs = [
        "content_filter",
        "content filter",
        "safety filter",
        "policy violation",
        "responsible_ai_policy",
        "unsafe prompt",
        "blocked by policy",
    ];
    assert(signs.deep_view() =~= content_filter_signs());
    contains_any(to_lower(message).as_str(), &signs)
}

/// Whether an error tells that the context was too large.
pub fn is_context_full_error(message: &str) -> (r: bool)
    ensures
        r == any_occurs(lowered(message@), context_full_signs()),
{
    let signs = [
        "context_length_exceeded",
        "context length",
        "context window",
        "maximum context",
        "prompt is too long",
        "too many input tokens",
    ];
    assert(signs.deep_view() =~= context_full_signs());
    contains_any(to_lower(message).as_str(), &signs)
}

/// Whether an error tells that the output reached its limit.
pub fn is_length_error(message: &str) -> (r: bool)
    ensures
        r == any_occurs(lowered(message@), length_signs()),
{
    let signs = [
        "max_output_tokens",
        "max output tokens",
        "output token limit",
        "finish_reason: length",
        "finish reason length",
    ];
    assert(signs.deep_view() =~= length_signs());
    contains_any(to_lower(message).as_str(), &signs)
}

/// Why a loop ends at a failed model call.
pub fn end_reason_from_completion_error(error: ApiErrorInfo) -> (r: EndReason)
    ensures
        r.deep_view() == completion_reason(error.deep_view()),
{
    if is_content_filter_error(error.message.as_str()) {
        EndReason::ContentFilter { error }
    } else if is_context_full_error(error.message.as_str()) {
        EndReason::ContextFull { error }
    } else if is_length_error(error.message.as_str()) {
        EndReason::Length { error }
    } else {
        EndReason::ApiError { error }
    }
}

/// Why a loop ends at a failed stream.
pub fn end_reason_from_streaming_error(fault: &StreamFault) -> (r: EndReason)
    ensures
        r.deep_view() == fault_reason(fault.deep_view()),
{
    match fault {
        StreamFault::Completion(error) => end_reason_from_completion_error(error.clone()),
        StreamFault::Tool(message) => EndReason::ToolError { message: message.clone() },
        StreamFault::MaxTurns { max_turns, .. } => EndReason::MaxTurns { max_turns: *max_turns },
        StreamFault::Cancelled { reason, .. } => EndReason::Other { message: reason.clone() },
        StreamFault::UnknownTool { name, .. } => EndReason::ToolError {
            message: joined("unknown tool call: ", name.as_str()),
        },
        StreamFault::Other(message) => EndReason::Other { message: message.clone() },
    }
}

/// The history that a failed stream leaves, if it tells one.
pub fn history_from_error(fault: StreamFault) -> (r: Option<Vec<Message>>)
    ensures
        r.deep_view() == fault_history(fault.deep_view()),
{
    match fault {
        StreamFault::MaxTurns { history, .. } => Some(history),
        StreamFault::Cancelled { history, .. } => Some(history),
        StreamFault::UnknownTool { history, .. } => Some(history),
        _ => None,
    }
}

/// Whether a history goes on from another one.
pub fn starts_with(history: &Vec<Message>, base: &Vec<Message>) -> (r: bool)
    ensures
        r == base.deep_view().is_prefix_of(history.deep_view()),
{
    let ghost (h, b) = (history.deep_view(), base.deep_view());
    assert(h.len() == history.len() && b.len() == base.len());
    if base.len() > history.len() {
        return false;
    }
    let mut i: usize = 0;
    while i < base.len()
        invariant
            i <= base.len() <= history.len(),
            h == history.deep_view(),
            b == base.deep_view(),
            h.len() == history.len(),
            b.len() == base.len(),
            forall|k: int| 0 <= k < i ==> h[k] == b[k],
        decreases base.len() - i,
    {
        if !history[i].deep_eq(&base[i]) {
            assert(h[i as int] != b[i as int]);
            assert(h.subrange(0, b.len() as int)[i as int] == h[i as int]);
            return false;
        }
        i += 1;
    }
    assert(h.subrange(0, b.len() as int) =~= b);
    true
}

fn add_effect(fx: &mut Vec<LoopEffect>, effect: LoopEffect)
    ensures
        final(fx).deep_view() == old(fx).deep_view().push(effect.deep_view()),
{
    let ghost before = fx.deep_view();
    let ghost e = effect.deep_view();
    fx.push(effect);
    assert(fx.deep_view() =~= before.push(e));
}

impl Runner {
    /// Whether a turn is to be run.
    pub fn has_pending_turn(&self) -> (r: bool)
        ensures
            r == has_pending(self.deep_view()),
    {
        self.immediate.len() > 0 || self.steering.len() > 0 || self.resumes > 0
            || self.follow_ups.len() > 0
    }

    /// Take the next turn.
    pub fn next_turn(&mut self) -> (r: Option<PendingTurn>)
        ensures
            !has_pending(old(self).deep_view()) ==> r is None,
            has_pending(old(self).deep_view()) ==> r.deep_view() == Some(
                next_pending(old(self).deep_view()),
            ),
            final(self).deep_view() == without_next(old(self).deep_view()),
    {
        let ghost q = self.deep_view();
        if let Some(message) = self.immediate.pop_front() {
            assert(self.immediate.deep_view() =~= q.immediate.skip(1));
            return Some(PendingTurn::single(message));
        }
        assert(self.immediate.deep_view() =~= q.immediate);
        if self.steering.len() > 0 {
            let mut taken: Vec<Message> = Vec::new();
            let mut rest: VecDeque<Message> = VecDeque::new();
            std::mem::swap(&mut rest, &mut self.steering);
            assert(self.steering.deep_view() =~= Seq::empty());
            while rest.len() > 0
                invariant
                    taken.deep_view() + rest.deep_view() == q.steering,
                decreases rest.len(),
            {
                let ghost (t, s) = (taken.deep_view(), rest.deep_view());
                if let Some(message) = rest.pop_front() {
                    taken.push(message);
                    assert(taken.deep_view() =~= t.push(s[0]));
                    assert(rest.deep_view() =~= s.skip(1));
                    assert(taken.deep_view() + rest.deep_view() =~= t + s);
                }
            }
            assert(taken.deep_view() =~= q.steering);
            assert(taken.deep_view().len() == taken.len());
            return PendingTurn::new(taken);
        }
        if self.resumes > 0 {
            self.resumes = self.resumes - 1;
            return Some(PendingTurn::Resume);
        }
        match self.follow_ups.pop_front() {
            Some(message) => {
                assert(self.follow_ups.deep_view() =~= q.follow_ups.skip(1));
                Some(PendingTurn::single(message))
            },
            None => None,
        }
    }

    /// Queue what a command asks for; an abort is not queued.
    fn queue_command(&mut self, command: Command)
        ensures
            final(self).deep_view() == queued(old(self).deep_view(), command.deep_view()),
    {
        let ghost q = self.deep_view();
        let ghost c = command.deep_view();
        match command {
            Command::Steer(message) => {
                self.steering.push_back(message);
                assert(self.steering.deep_view() =~= q.steering.push(c->Steer_0));
            },
            Command::FollowUp(message) => {
                self.follow_ups.push_back(message);
                assert(self.follow_ups.deep_view() =~= q.follow_ups.push(c->FollowUp_0));
            },
            Command::Resume => {
                self.resumes = if self.resumes < usize::MAX {
                    self.resumes + 1
                } else {
                    self.resumes
                };
            },
            Command::Interrupt(message) => {
                self.immediate.push_front(message);
                assert(self.immediate.deep_view() =~= seq![c->Interrupt_0] + q.immediate);
            },
            Command::Abort => {},
            Command::FinishWhenIdle => {
                self.finish_when_idle = true;
            },
        }
    }

    fn fail(&mut self, fx: &mut Vec<LoopEffect>, error: AgentLoopError) -> (r: LoopRequest)
        ensures
            leads_to(final(self), final(fx), r, fail(
                old(self).deep_view(),
                old(fx).deep_view(),
                error.deep_view(),
            )),
    {
        add_effect(
            fx,
            LoopEffect::Emit(
                AgentLoopEvent::LoopFailed { error: AgentLoopErrorInfo::from_error(&error) },
            ),
        );
        self.turn_running = false;
        self.phase = LoopPhase::Done;
        LoopRequest::Fail(error)
    }

    fn fail_invalid(&mut self, fx: &mut Vec<LoopEffect>, error: InvalidMessageHistoryError) -> (r:
        LoopRequest)
        ensures
            leads_to(final(self), final(fx), r, fail_invalid(
                old(self).deep_view(),
                old(fx).deep_view(),
                error.message@,
            )),
    {
        self.fail(fx, AgentLoopError::InvalidMessageHistory(error))
    }

    fn finish(&mut self, fx: &mut Vec<LoopEffect>, end_reason: EndReason) -> (r: LoopRequest)
        ensures
            leads_to(final(self), final(fx), r, finish(
                old(self).deep_view(),
                old(fx).deep_view(),
                end_reason.deep_view(),
            )),
    {
        add_effect(
            fx,
            LoopEffect::Emit(AgentLoopEvent::LoopEnded { end_reason: end_reason.clone() }),
        );
        let last_response = self.last_response.take();
        self.phase = LoopPhase::Done;
        LoopRequest::Finish(
            AgentLoopResult { end_reason, history: self.history.clone(), last_response },
        )
    }

    fn next_round(&mut self, fx: &mut Vec<LoopEffect>, now: u128) -> (r: LoopRequest)
        ensures
            leads_to(final(self), final(fx), r, next_round(
                old(self).deep_view(),
                old(fx).deep_view(),
                now,
            )),
    {
        if let Some(deadline) = elapsed_timeout(self.loop_deadline, now) {
            return self.finish(fx, deadline.end_reason());
        }
        self.phase = LoopPhase::Draining { again: false };
        LoopRequest::TryCommand
    }

    fn time_out(
        &mut self,
        fx: &mut Vec<LoopEffect>,
        turn: ActiveTurn,
        deadline: TimeoutDeadline,
        now: u128,
    ) -> (r: LoopRequest)
        ensures
            leads_to(final(self), final(fx), r, time_out(
                old(self).deep_view(),
                old(fx).deep_view(),
                turn.deep_view(),
                deadline,
                now,
            )),
    {
        let reason = deadline.end_reason();
        let messages = turn.prepared.partial_messages(&turn.partial);
        let next = concat(&self.history, &messages);
        if let Err(error) = validate_message_history(&next) {
            return self.fail_invalid(fx, error);
        }
        proof {
            law_ordered_histories_have_no_fault(next.deep_view());
        }
        if self.has_turn_hook {
            let context = TurnHookContext {
                history: next,
                new_messages: messages.clone(),
                outcome_kind: TurnOutcomeKind::TimedOut,
                end_reason: Some(reason.clone()),
                usage: None,
            };
            self.phase = LoopPhase::Committing {
                turn,
                messages,
                event: CommitEvent::TimedOut { end_reason: reason.clone() },
                after: AfterCommit::TimedOut(reason),
            };
            return LoopRequest::CallTurnHook(context);
        }
        self.history = next;
        self.turn_running = false;
        add_effect(fx, LoopEffect::Emit(AgentLoopEvent::TurnTimedOut { messages }));
        self.finish(fx, reason)
    }

    fn await_turn(&mut self, fx: &mut Vec<LoopEffect>, turn: ActiveTurn, now: u128) -> (r: LoopRequest)
        ensures
            leads_to(final(self), final(fx), r, await_turn(
                old(self).deep_view(),
                old(fx).deep_view(),
                turn.deep_view(),
                now,
            )),
    {
        let deadline = next_timeout(turn.deadline, self.loop_deadline);
        if let Some(d) = elapsed_timeout(deadline, now) {
            return self.time_out(fx, turn, d, now);
        }
        let (commands, hook) = (!turn.commands_closed, turn.hook_running);
        self.phase = LoopPhase::Running { turn };
        LoopRequest::AwaitTurn { deadline: deadline_time(deadline), commands, hook }
    }

    fn await_open(&mut self, fx: &mut Vec<LoopEffect>, turn: ActiveTurn, now: u128) -> (r: LoopRequest)
        ensures
            leads_to(final(self), final(fx), r, await_open(
                old(self).deep_view(),
                old(fx).deep_view(),
                turn.deep_view(),
                now,
            )),
    {
        let deadline = next_timeout(turn.deadline, self.loop_deadline);
        if let Some(d) = elapsed_timeout(deadline, now) {
            return self.time_out(fx, turn, d, now);
        }
        let commands = !turn.commands_closed;
        self.phase = LoopPhase::Opening { turn };
        LoopRequest::AwaitOpen { deadline: deadline_time(deadline), commands }
    }

    fn await_hook(&mut self, fx: &mut Vec<LoopEffect>, turn: ActiveTurn, then: Then) -> (r: LoopRequest)
        ensures
            leads_to(final(self), final(fx), r, await_hook(
                old(self).deep_view(),
                old(fx).deep_view(),
                turn.deep_view(),
                then.deep_view(),
            )),
    {
        let deadline = deadline_time(next_timeout(turn.deadline, self.loop_deadline));
        self.phase = LoopPhase::Hooked { turn, then };
        LoopRequest::AwaitHook { deadline }
    }

    fn finish_commit(
        &mut self,
        fx: &mut Vec<LoopEffect>,
        turn: ActiveTurn,
        messages: Vec<Message>,
        event: CommitEvent,
        after: AfterCommit,
        replaced: Option<Vec<Message>>,
        stopped: Option<String>,
        now: u128,
    ) -> (r: LoopRequest)
        ensures
            leads_to(final(self), final(fx), r, finish_commit(
                old(self).deep_view(),
                old(fx).deep_view(),
                turn.deep_view(),
                messages.deep_view(),
                event.deep_view(),
                after.deep_view(),
                replaced.deep_view(),
                stopped.deep_view(),
                now,
            )),
    {
        let next = match &replaced {
            Some(history) => history.clone(),
            None => concat(&self.history, &messages),
        };
        self.history = next;
        self.turn_running = false;
        add_effect(fx, LoopEffect::Emit(event.into_agent_event(messages)));
        if let Some(messages) = replaced {
            add_effect(fx, LoopEffect::Emit(AgentLoopEvent::HistoryReplaced { messages }));
        }
        match after {
            AfterCommit::Interrupted(message) => match stopped {
                Some(reason) => self.finish(fx, EndReason::AbortedByHook { reason }),
                None => {
                    let ghost q = self.immediate.deep_view();
                    let ghost m = message.deep_view();
                    self.immediate.push_front(message);
                    assert(self.immediate.deep_view() =~= seq![m] + q);
                    add_effect(fx, LoopEffect::CloseTurn);
                    self.next_round(fx, now)
                },
            },
            AfterCommit::Aborted => self.finish(fx, EndReason::Aborted),
            AfterCommit::TimedOut(reason) => match stopped {
                Some(own) => self.finish(fx, EndReason::AbortedByHook { reason: own }),
                None => self.finish(fx, reason),
            },
            AfterCommit::Final => match stopped {
                Some(reason) => self.finish(fx, EndReason::AbortedByHook { reason }),
                None => {
                    let mut turn = turn;
                    turn.partial = PartialTurn::new();
                    self.await_turn(fx, turn, now)
                },
            },
            AfterCommit::Failed(reason) => match stopped {
                Some(own) => self.finish(fx, EndReason::AbortedByHook { reason: own }),
                None => self.finish(fx, reason),
            },
        }
    }

    /// Commit messages of a turn.
    fn commit_append(
        &mut self,
        fx: &mut Vec<LoopEffect>,
        turn: ActiveTurn,
        messages: Vec<Message>,
        event: CommitEvent,
        after: AfterCommit,
        now: u128,
    ) -> (r: LoopRequest)
        ensures
            leads_to(final(self), final(fx), r, begin_commit(
                old(self).deep_view(),
                old(fx).deep_view(),
                turn.deep_view(),
                messages.deep_view(),
                event.deep_view(),
                after.deep_view(),
                now,
            )),
    {
        let next = concat(&self.history, &messages);
        if let Err(error) = validate_message_history(&next) {
            return self.fail_invalid(fx, error);
        }
        proof {
            law_ordered_histories_have_no_fault(next.deep_view());
        }
        if self.has_turn_hook {
            let context = TurnHookContext {
                history: next,
                new_messages: messages.clone(),
                outcome_kind: event.kind(),
                end_reason: event.end_reason(),
                usage: event.usage(),
            };
            self.phase = LoopPhase::Committing { turn, messages, event, after };
            return LoopRequest::CallTurnHook(context);
        }
        self.finish_commit(fx, turn, messages, event, after, None, None, now)
    }

    fn run_turn(&mut self, fx: &mut Vec<LoopEffect>, pending: PendingTurn, now: u128) -> (r: LoopRequest)
        ensures
            leads_to(final(self), final(fx), r, run_turn(
                old(self).deep_view(),
                old(fx).deep_view(),
                pending.deep_view(),
                now,
            )),
    {
        let prepared = match PreparedTurn::from_pending(pending, self.history.clone()) {
            Ok(prepared) => prepared,
            Err(error) => {
                return self.fail(fx, error);
            },
        };
        self.turn_running = true;
        add_effect(
            fx,
            LoopEffect::Emit(AgentLoopEvent::TurnStarted { prompt: prepared.prompt.clone() }),
        );
        let (prompt, history) = (prepared.prompt.clone(), prepared.request_history.clone());
        let turn = ActiveTurn {
            prepared,
            partial: PartialTurn::new(),
            deadline: start_deadline(TimeoutKind::Turn, now, self.turn_timeout),
            commands_closed: false,
            hook_running: false,
        };
        let deadline = next_timeout(turn.deadline, self.loop_deadline);
        if let Some(d) = elapsed_timeout(deadline, now) {
            return self.time_out(fx, turn, d, now);
        }
        self.phase = LoopPhase::Opening { turn };
        LoopRequest::Open { prompt, history, max_turns: self.max_turns, deadline: deadline_time(deadline) }
    }

    fn on_drained(&mut self, fx: &mut Vec<LoopEffect>, again: bool, now: u128) -> (r: LoopRequest)
        requires
            old(fx).deep_view() == Seq::<LoopEffectView>::empty(),
        ensures
            leads_to(final(self), final(fx), r, on_drained(old(self).deep_view(), again, now)),
    {
        if !self.has_pending_turn() {
            if self.finish_when_idle {
                return self.finish(fx, EndReason::Idle);
            }
            self.phase = LoopPhase::Idle;
            return LoopRequest::AwaitCommand { deadline: deadline_time(self.loop_deadline) };
        }
        if !again {
            self.phase = LoopPhase::Draining { again: true };
            return LoopRequest::TryCommand;
        }
        match self.next_turn() {
            Some(pending) => self.run_turn(fx, pending, now),
            None => self.finish(fx, EndReason::Idle),
        }
    }

    fn stop_turn(&mut self, fx: &mut Vec<LoopEffect>, turn: ActiveTurn, command: Command, now: u128) -> (r:
        LoopRequest)
        requires
            old(fx).deep_view() == Seq::<LoopEffectView>::empty(),
        ensures
            leads_to(final(self), final(fx), r, stop_turn(
                old(self).deep_view(),
                turn.deep_view(),
                command.deep_view(),
                now,
            )),
    {
        let messages = turn.prepared.partial_messages(&turn.partial);
        match command {
            Command::Interrupt(message) => self.commit_append(
                fx,
                turn,
                messages,
                CommitEvent::Interrupted,
                AfterCommit::Interrupted(message),
                now,
            ),
            _ => self.commit_append(
                fx,
                turn,
                messages,
                CommitEvent::Aborted,
                AfterCommit::Aborted,
                now,
            ),
        }
    }

    /// Report the message that the assistant is at, and start the hook on it.
    fn start_assistant_message_hook(
        &self,
        fx: &mut Vec<LoopEffect>,
        turn: &mut ActiveTurn,
        end_reason: Option<EndReason>,
        usage: Option<Usage>,
    )
        requires
            old(fx).deep_view() == Seq::<LoopEffectView>::empty(),
        ensures
            (final(turn).deep_view(), final(fx).deep_view()) == snapshot(
                self.deep_view(),
                old(turn).deep_view(),
                end_reason.deep_view(),
                usage,
            ),
    {
        let Some(message) = turn.partial.assistant_message() else {
            return;
        };
        let messages = turn.prepared.assistant_messages(&turn.partial, message.clone());
        turn.partial.mark_assistant_message_finished(message.clone());
        add_effect(
            fx,
            LoopEffect::Emit(
                AgentLoopEvent::AssistantMessageFinished {
                    message: message.clone(),
                    messages: messages.clone(),
                },
            ),
        );
        if self.has_message_hook {
            let history = concat(&self.history, &messages);
            add_effect(
                fx,
                LoopEffect::SpawnHook(
                    AssistantMessageContext {
                        message,
                        history,
                        new_messages: messages,
                        end_reason,
                        usage,
                    },
                ),
            );
            turn.hook_running = true;
        }
    }

    fn on_boundary(&mut self, fx: &mut Vec<LoopEffect>, turn: ActiveTurn, now: u128) -> (r: LoopRequest)
        requires
            old(fx).deep_view() == Seq::<LoopEffectView>::empty(),
        ensures
            leads_to(final(self), final(fx), r, on_boundary(
                old(self).deep_view(),
                turn.deep_view(),
                now,
            )),
    {
        if turn.hook_running && turn.partial.assistant_message().is_some() {
            return self.await_hook(fx, turn, Then::Snapshot);
        }
        let mut turn = turn;
        self.start_assistant_message_hook(fx, &mut turn, None, None);
        self.await_turn(fx, turn, now)
    }

    fn projected_final_response_end_reason(&self, commands_closed: bool) -> (r: Option<EndReason>)
        ensures
            r.deep_view() == projected_end(self.deep_view(), commands_closed),
    {
        if self.has_pending_turn() || !(self.finish_when_idle || commands_closed) {
            return None;
        }
        Some(EndReason::Idle)
    }

    fn on_final(
        &mut self,
        fx: &mut Vec<LoopEffect>,
        turn: ActiveTurn,
        response: FinalResponse,
        now: u128,
    ) -> (r: LoopRequest)
        requires
            old(fx).deep_view() == Seq::<LoopEffectView>::empty(),
        ensures
            leads_to(final(self), final(fx), r, on_final(
                old(self).deep_view(),
                turn.deep_view(),
                response.deep_view(),
                now,
            )),
    {
        if turn.hook_running && turn.partial.assistant_message().is_some() {
            return self.await_hook(fx, turn, Then::Report(response));
        }
        let mut turn = turn;
        let end_reason = self.projected_final_response_end_reason(turn.commands_closed);
        let usage = known_usage(response.usage);
        self.start_assistant_message_hook(fx, &mut turn, end_reason, usage);
        if turn.hook_running {
            return self.await_hook(fx, turn, Then::Conclude(response));
        }
        self.conclude(fx, turn, response, now)
    }

    fn conclude(
        &mut self,
        fx: &mut Vec<LoopEffect>,
        turn: ActiveTurn,
        response: FinalResponse,
        now: u128,
    ) -> (r: LoopRequest)
        ensures
            leads_to(final(self), final(fx), r, conclude(
                old(self).deep_view(),
                old(fx).deep_view(),
                turn.deep_view(),
                response.deep_view(),
                now,
            )),
    {
        let end_reason = self.projected_final_response_end_reason(turn.commands_closed);
        let usage = known_usage(response.usage);
        self.last_response = Some(response.response);
        match response.history {
            None => self.await_turn(fx, turn, now),
            Some(messages) => {
                let append = turn.prepared.append_messages(messages);
                self.commit_append(
                    fx,
                    turn,
                    append,
                    CommitEvent::Committed { end_reason, usage },
                    AfterCommit::Final,
                    now,
                )
            },
        }
    }

    fn on_ended(&mut self, fx: &mut Vec<LoopEffect>, now: u128) -> (r: LoopRequest)
        requires
            old(fx).deep_view() == Seq::<LoopEffectView>::empty(),
        ensures
            leads_to(final(self), final(fx), r, on_ended(old(self).deep_view(), now)),
    {
        self.turn_running = false;
        add_effect(fx, LoopEffect::CloseTurn);
        self.next_round(fx, now)
    }

    /// Commit the history that a failed stream left.
    fn commit_recovered_history(
        &mut self,
        fx: &mut Vec<LoopEffect>,
        turn: ActiveTurn,
        recovered_history: Vec<Message>,
        end_reason: EndReason,
        now: u128,
    ) -> (r: LoopRequest)
        requires
            old(fx).deep_view() == Seq::<LoopEffectView>::empty(),
        ensures
            ({
                let history = recovered_history.deep_view();
                let base = turn.deep_view().prepared.committed_base_history;
                let start = old(self).deep_view();
                let none = Seq::<LoopEffectView>::empty();
                leads_to(
                    final(self),
                    final(fx),
                    r,
                    if first_order_fault(history, 0) is Some {
                        fail_invalid(start, none, first_order_fault(history, 0)->0)
                    } else if !base.is_prefix_of(history) {
                        fail_invalid(
                            start,
                            none,
                            "recovered history does not extend the committed base history"@,
                        )
                    } else {
                        begin_commit(
                            start,
                            none,
                            turn.deep_view(),
                            history.skip(base.len() as int),
                            CommitEventView::Committed {
                                end_reason: Some(end_reason.deep_view()),
                                usage: None,
                            },
                            AfterCommitView::Failed(end_reason.deep_view()),
                            now,
                        )
                    },
                )
            }),
    {
        let ghost h = recovered_history.deep_view();
        if let Err(error) = validate_message_history(&recovered_history) {
            return self.fail_invalid(fx, error);
        }
        proof {
            law_ordered_histories_have_no_fault(h);
        }
        if !starts_with(&recovered_history, &turn.prepared.committed_base_history) {
            return self.fail_invalid(
                fx,
                InvalidMessageHistoryError::new(
                    "recovered history does not extend the committed base history".to_owned(),
                ),
            );
        }
        let mut history = recovered_history;
        let base = turn.prepared.committed_base_history.len();
        assert(turn.prepared.committed_base_history.deep_view().len() == base);
        assert(h.len() == history.len());
        let append = history.split_off(base);
        assert(append.deep_view() =~= h.skip(base as int));
        let event = CommitEvent::Committed { end_reason: Some(end_reason.clone()), usage: None };
        self.commit_append(fx, turn, append, event, AfterCommit::Failed(end_reason), now)
    }

    fn on_fault(&mut self, fx: &mut Vec<LoopEffect>, turn: ActiveTurn, fault: StreamFault, now: u128) -> (r:
        LoopRequest)
        requires
            old(fx).deep_view() == Seq::<LoopEffectView>::empty(),
        ensures
            leads_to(final(self), final(fx), r, on_fault(
                old(self).deep_view(),
                turn.deep_view(),
                fault.deep_view(),
                now,
            )),
    {
        let reason = end_reason_from_streaming_error(&fault);
        if let Some(history) = history_from_error(fault) {
            return self.commit_recovered_history(fx, turn, history, reason, now);
        }
        let messages = turn.prepared.partial_messages(&turn.partial);
        assert(messages.deep_view().len() == messages.len());
        if messages.is_empty() {
            self.turn_running = false;
            return self.finish(fx, reason);
        }
        let event = CommitEvent::Committed { end_reason: Some(reason.clone()), usage: None };
        self.commit_append(fx, turn, messages, event, AfterCommit::Failed(reason), now)
    }

    /// Act on what the running turn reported.
    fn handle_stream_item(
        &mut self,
        fx: &mut Vec<LoopEffect>,
        turn: ActiveTurn,
        item: LoopItem,
        now: u128,
    ) -> (r: LoopRequest)
        requires
            old(fx).deep_view() == Seq::<LoopEffectView>::empty(),
        ensures
            leads_to(final(self), final(fx), r, on_item(
                old(self).deep_view(),
                turn.deep_view(),
                item.deep_view(),
                now,
            )),
    {
        let mut turn = turn;
        match item {
            LoopItem::Assistant(said) => {
                let boundary = match &said {
                    StreamedAssistantContent::ToolCall { more, .. } => !*more,
                    _ => false,
                };
                turn.partial.note_assistant_item(said);
                if boundary {
                    self.on_boundary(fx, turn, now)
                } else {
                    self.await_turn(fx, turn, now)
                }
            },
            LoopItem::User(item) => {
                if self.has_persistence {
                    let key = ToolResultKey::from_tool_result(&item.tool_result);
                    let result = item.tool_result.clone();
                    self.phase = LoopPhase::Persisting { turn, item };
                    return LoopRequest::Persist { key, result };
                }
                turn.partial.note_user_item(item);
                self.await_turn(fx, turn, now)
            },
            LoopItem::Final(response) => self.on_final(fx, turn, response, now),
            LoopItem::Other => self.await_turn(fx, turn, now),
        }
    }

    fn on_hook_done(&mut self, fx: &mut Vec<LoopEffect>, turn: ActiveTurn, then: Then, now: u128) -> (r:
        LoopRequest)
        requires
            old(fx).deep_view() == Seq::<LoopEffectView>::empty(),
        ensures
            leads_to(final(self), final(fx), r, on_hook_done(
                old(self).deep_view(),
                turn.deep_view(),
                then.deep_view(),
                now,
            )),
    {
        match then {
            Then::Command(command) => self.stop_turn(fx, turn, command, now),
            Then::Ended => self.on_ended(fx, now),
            Then::Failed(fault) => self.on_fault(fx, turn, fault, now),
            Then::Snapshot => self.on_boundary(fx, turn, now),
            Then::Report(response) => self.on_final(fx, turn, response, now),
            Then::Conclude(response) => self.conclude(fx, turn, response, now),
        }
    }

    fn on_hook_answer(
        &mut self,
        fx: &mut Vec<LoopEffect>,
        turn: ActiveTurn,
        messages: Vec<Message>,
        event: CommitEvent,
        after: AfterCommit,
        action: TurnHookAction,
        now: u128,
    ) -> (r: LoopRequest)
        requires
            old(fx).deep_view() == Seq::<LoopEffectView>::empty(),
        ensures
            leads_to(final(self), final(fx), r, on_hook_answer(
                old(self).deep_view(),
                turn.deep_view(),
                messages.deep_view(),
                event.deep_view(),
                after.deep_view(),
                action.deep_view(),
                now,
            )),
    {
        proof {
            reveal(on_hook_answer);
        }
        let (replaced, stopped) = match action {
            TurnHookAction::Continue => (None, None),
            TurnHookAction::ReplaceHistory(history) => (Some(history), None),
            TurnHookAction::Abort { reason } => (None, Some(reason)),
            TurnHookAction::ReplaceHistoryAndAbort { history, reason } => (Some(history), Some(reason)),
        };
        if let Some(history) = &replaced {
            if let Err(error) = validate_message_history(history) {
                return self.fail_invalid(fx, error);
            }
            proof {
                law_ordered_histories_have_no_fault(history.deep_view());
            }
        }
        self.finish_commit(fx, turn, messages, event, after, replaced, stopped, now)
    }

    fn on_deadline(&mut self, fx: &mut Vec<LoopEffect>, turn: ActiveTurn, now: u128) -> (r: LoopRequest)
        requires
            old(fx).deep_view() == Seq::<LoopEffectView>::empty(),
        ensures
            leads_to(final(self), final(fx), r, on_deadline(
                old(self).deep_view(),
                turn.deep_view(),
                now,
            )),
    {
        match next_timeout(turn.deadline, self.loop_deadline) {
            Some(deadline) => self.time_out(fx, turn, deadline, now),
            None => self.await_turn(fx, turn, now),
        }
    }

    fn on_repaired(&mut self, fx: &mut Vec<LoopEffect>, now: u128) -> (r: LoopRequest)
        ensures
            leads_to(final(self), final(fx), r, on_repaired(
                old(self).deep_view(),
                old(fx).deep_view(),
                now,
            )),
    {
        self.loop_deadline = start_deadline(TimeoutKind::Loop, now, self.loop_timeout);
        self.next_round(fx, now)
    }

    /// Whether the loop waits for this input.
    pub fn expects(&self, input: &LoopInput) -> (r: bool)
        ensures
            r == expects(self.deep_view().phase, input.deep_view()),
    {
        match (&self.phase, input) {
            (LoopPhase::Loading, LoopInput::Loaded(_)) => true,
            (LoopPhase::Draining { .. }, LoopInput::NoCommand | LoopInput::Command(_)) => true,
            (
                LoopPhase::Idle,
                LoopInput::Command(_) | LoopInput::Closed | LoopInput::DeadlineElapsed,
            ) => true,
            (
                LoopPhase::Opening { .. },
                LoopInput::Opened
                | LoopInput::Command(_)
                | LoopInput::Closed
                | LoopInput::DeadlineElapsed,
            ) => true,
            (
                LoopPhase::Running { .. },
                LoopInput::Command(_)
                | LoopInput::Closed
                | LoopInput::DeadlineElapsed
                | LoopInput::Item(_)
                | LoopInput::Failed(_)
                | LoopInput::Ended,
            ) => true,
            (LoopPhase::Running { turn }, LoopInput::HookDone(_)) => turn.hook_running,
            (LoopPhase::Hooked { .. }, LoopInput::HookDone(_) | LoopInput::DeadlineElapsed) => true,
            (LoopPhase::Persisting { .. }, LoopInput::Persisted(_)) => true,
            (LoopPhase::Committing { .. }, LoopInput::HookAnswered(_)) => true,
            _ => false,
        }
    }

    /// Take the first step: repair the history.
    pub fn begin(&mut self, now: u128) -> (r: (Vec<LoopEffect>, LoopRequest))
        ensures
            leads_to(final(self), &r.0, r.1, first_step(old(self).deep_view(), now)),
            is_in_order(final(self).deep_view()),
    {
        let mut fx: Vec<LoopEffect> = Vec::new();
        assert(fx.deep_view() =~= Seq::empty());
        add_effect(&mut fx, LoopEffect::Emit(AgentLoopEvent::LoopStarted));
        let text = match &self.repair {
            None => {
                let request = self.on_repaired(&mut fx, now);
                return (fx, request);
            },
            Some(text) => text.clone(),
        };
        if self.has_persistence {
            let keys = missing_result_keys(&self.history);
            self.phase = LoopPhase::Loading;
            return (fx, LoopRequest::Load(keys));
        }
        let nothing: Vec<Loaded> = Vec::new();
        assert(nothing.deep_view() =~= Seq::empty());
        proof {
            lemma_nothing_failed(
                nothing.deep_view(),
                0,
                missing_from(self.history.deep_view(), 0).len() as int,
            );
        }
        match repair_unanswered_tool_calls_with_persistence(
            self.history.clone(),
            text.as_str(),
            &nothing,
        ) {
            Ok(history) => {
                self.history = history;
            },
            Err(_) => {},
        }
        let request = self.on_repaired(&mut fx, now);
        (fx, request)
    }

    fn on_loaded(&mut self, fx: &mut Vec<LoopEffect>, loaded: Vec<Loaded>, now: u128) -> (r: LoopRequest)
        requires
            old(fx).deep_view() == Seq::<LoopEffectView>::empty(),
            old(self).repair is Some,
        ensures
            leads_to(final(self), final(fx), r, on_loaded(
                old(self).deep_view(),
                loaded.deep_view(),
                now,
            )),
    {
        proof {
            reveal(on_loaded);
        }
        let text = match &self.repair {
            Some(text) => text.clone(),
            None => String::new(),
        };
        match repair_unanswered_tool_calls_with_persistence(
            self.history.clone(),
            text.as_str(),
            &loaded,
        ) {
            Ok(history) => {
                self.history = history;
                self.on_repaired(fx, now)
            },
            Err(error) => self.fail(fx, error),
        }
    }

    fn on_draining(&mut self, fx: &mut Vec<LoopEffect>, again: bool, input: LoopInput, now: u128) -> (r:
        LoopRequest)
        requires
            old(fx).deep_view() == Seq::<LoopEffectView>::empty(),
        ensures
            leads_to(final(self), final(fx), r, on_draining(
                old(self).deep_view(),
                again,
                input.deep_view(),
                now,
            )),
    {
        proof {
            reveal(on_draining);
        }
        match input {
            LoopInput::Command(command) => {
                if let Command::Abort = command {
                    return self.finish(fx, EndReason::Aborted);
                }
                self.queue_command(command);
                self.phase = LoopPhase::Draining { again };
                LoopRequest::TryCommand
            },
            _ => self.on_drained(fx, again, now),
        }
    }

    fn on_idle(&mut self, fx: &mut Vec<LoopEffect>, input: LoopInput, now: u128) -> (r: LoopRequest)
        requires
            old(fx).deep_view() == Seq::<LoopEffectView>::empty(),
        ensures
            leads_to(final(self), final(fx), r, on_idle(
                old(self).deep_view(),
                input.deep_view(),
                now,
            )),
    {
        proof {
            reveal(on_idle);
        }
        match input {
            LoopInput::Command(command) => {
                if let Command::Abort = command {
                    return self.finish(fx, EndReason::Aborted);
                }
                self.queue_command(command);
                self.next_round(fx, now)
            },
            LoopInput::Closed => self.finish(fx, EndReason::Idle),
            _ => match self.loop_deadline {
                Some(deadline) => self.finish(fx, deadline.end_reason()),
                None => self.next_round(fx, now),
            },
        }
    }

    fn on_opening(&mut self, fx: &mut Vec<LoopEffect>, turn: ActiveTurn, input: LoopInput, now: u128) -> (r:
        LoopRequest)
        requires
            old(fx).deep_view() == Seq::<LoopEffectView>::empty(),
        ensures
            leads_to(final(self), final(fx), r, on_opening(
                old(self).deep_view(),
                turn.deep_view(),
                input.deep_view(),
                now,
            )),
    {
        proof {
            reveal(on_opening);
        }
        let mut turn = turn;
        match input {
            LoopInput::Command(command) => match command {
                Command::Interrupt(_) | Command::Abort => self.stop_turn(fx, turn, command, now),
                _ => {
                    self.queue_command(command);
                    self.await_open(fx, turn, now)
                },
            },
            LoopInput::Closed => {
                turn.commands_closed = true;
                self.await_open(fx, turn, now)
            },
            LoopInput::DeadlineElapsed => self.on_deadline(fx, turn, now),
            _ => self.await_turn(fx, turn, now),
        }
    }

    fn on_running(&mut self, fx: &mut Vec<LoopEffect>, turn: ActiveTurn, input: LoopInput, now: u128) -> (r:
        LoopRequest)
        requires
            old(fx).deep_view() == Seq::<LoopEffectView>::empty(),
        ensures
            leads_to(final(self), final(fx), r, on_running(
                old(self).deep_view(),
                turn.deep_view(),
                input.deep_view(),
                now,
            )),
    {
        proof {
            reveal(on_running);
        }
        let mut turn = turn;
        match input {
            LoopInput::Command(command) => match command {
                Command::Interrupt(_) | Command::Abort => {
                    if turn.hook_running {
                        self.await_hook(fx, turn, Then::Command(command))
                    } else {
                        self.stop_turn(fx, turn, command, now)
                    }
                },
                _ => {
                    self.queue_command(command);
                    self.await_turn(fx, turn, now)
                },
            },
            LoopInput::Closed => {
                turn.commands_closed = true;
                self.await_turn(fx, turn, now)
            },
            LoopInput::DeadlineElapsed => self.on_deadline(fx, turn, now),
            LoopInput::HookDone(failure) => match failure {
                Some(error) => self.fail(fx, error),
                None => {
                    turn.hook_running = false;
                    self.await_turn(fx, turn, now)
                },
            },
            LoopInput::Item(item) => self.handle_stream_item(fx, turn, item, now),
            LoopInput::Failed(fault) => {
                if turn.hook_running {
                    self.await_hook(fx, turn, Then::Failed(fault))
                } else {
                    self.on_fault(fx, turn, fault, now)
                }
            },
            _ => {
                if turn.hook_running {
                    self.await_hook(fx, turn, Then::Ended)
                } else {
                    self.on_ended(fx, now)
                }
            },
        }
    }

    fn on_hooked(
        &mut self,
        fx: &mut Vec<LoopEffect>,
        turn: ActiveTurn,
        then: Then,
        input: LoopInput,
        now: u128,
    ) -> (r: LoopRequest)
        requires
            old(fx).deep_view() == Seq::<LoopEffectView>::empty(),
        ensures
            leads_to(final(self), final(fx), r, on_hooked(
                old(self).deep_view(),
                turn.deep_view(),
                then.deep_view(),
                input.deep_view(),
                now,
            )),
    {
        proof {
            reveal(on_hooked);
        }
        match input {
            LoopInput::HookDone(failure) => match failure {
                Some(error) => self.fail(fx, error),
                None => {
                    let mut turn = turn;
                    turn.hook_running = false;
                    self.on_hook_done(fx, turn, then, now)
                },
            },
            _ => self.on_deadline(fx, turn, now),
        }
    }

    fn on_persisted(
        &mut self,
        fx: &mut Vec<LoopEffect>,
        turn: ActiveTurn,
        item: StreamedUserContent,
        failure: Option<String>,
        now: u128,
    ) -> (r: LoopRequest)
        requires
            old(fx).deep_view() == Seq::<LoopEffectView>::empty(),
        ensures
            leads_to(final(self), final(fx), r, on_persisted(
                old(self).deep_view(),
                turn.deep_view(),
                item.deep_view(),
                failure.deep_view(),
                now,
            )),
    {
        proof {
            reveal(on_persisted);
        }
        match failure {
            Some(reason) => self.fail(fx, AgentLoopError::ToolResultPersistence(reason)),
            None => {
                let mut turn = turn;
                turn.partial.note_user_item(item);
                self.await_turn(fx, turn, now)
            },
        }
    }

    /// Act on what happened.
    pub fn step(&mut self, input: LoopInput, now: u128) -> (r: (Vec<LoopEffect>, LoopRequest))
        requires
            is_in_order(old(self).deep_view()),
            expects(old(self).deep_view().phase, input.deep_view()),
        ensures
            leads_to(final(self), &r.0, r.1, step(old(self).deep_view(), input.deep_view(), now)),
            is_in_order(final(self).deep_view()),
    {
        proof {
            law_committed_histories_are_valid(self.deep_view(), input.deep_view(), now);
        }
        let mut fx: Vec<LoopEffect> = Vec::new();
        assert(fx.deep_view() =~= Seq::empty());
        let mut phase = LoopPhase::Done;
        std::mem::swap(&mut self.phase, &mut phase);
        let request = match (phase, input) {
            (LoopPhase::Loading, LoopInput::Loaded(loaded)) => self.on_loaded(&mut fx, loaded, now),
            (LoopPhase::Draining { again }, input) => self.on_draining(&mut fx, again, input, now),
            (LoopPhase::Idle, input) => self.on_idle(&mut fx, input, now),
            (LoopPhase::Opening { turn }, input) => self.on_opening(&mut fx, turn, input, now),
            (LoopPhase::Running { turn }, input) => self.on_running(&mut fx, turn, input, now),
            (LoopPhase::Hooked { turn, then }, input) => self.on_hooked(
                &mut fx,
                turn,
                then,
                input,
                now,
            ),
            (LoopPhase::Persisting { turn, item }, LoopInput::Persisted(failure)) => self.on_persisted(
                &mut fx,
                turn,
                item,
                failure,
                now,
            ),
            (
                LoopPhase::Committing { turn, messages, event, after },
                LoopInput::HookAnswered(answer),
            ) => match answer {
                Err(reason) => self.fail(&mut fx, AgentLoopError::TurnHook(reason)),
                Ok(action) => self.on_hook_answer(
                    &mut fx,
                    turn,
                    messages,
                    event,
                    after,
                    action,
                    now,
                ),
            },
            _ => self.fail(&mut fx, AgentLoopError::CommandChannelClosed),
        };
        (fx, request)
    }
}

fn known_usage(usage: Usage) -> (r: Option<Usage>)
    ensures
        r == reported(usage),
{
    if usage.has_values() {
        Some(usage)
    } else {
        None
    }
}

} // verus!
