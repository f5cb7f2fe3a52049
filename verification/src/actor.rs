//! A running session, step by step.
use crate::deep::{result_view, DeepEq};
use crate::identity::{fresh_uuid, unix_nanos};
use crate::journal::{calls, check_result, is_journal, tail_calls, validate_append};
use crate::message::{
    call_ids, result_blocks, text_block, Message, MessageView, ToolCall, ToolResult,
    ToolResultContent, UserContent,
};
use crate::protocol::{
    after_drain, begin_commit, begin_turn, call_with, collect, commit_of, end_origin, end_turn,
    expects, failure_reason, failure_text, finish_turn, first_step, fresh_turn, held, held_for,
    hold, idle_replies, io_deadline, is_fresh, later, leads_to, next_round, no_usage, on_checkpoint,
    on_command, on_item, on_saved, on_submitted, open_turn, proceed, record_outcome,
    recovery_result, release, repair, resume_answer, resume_origin, step, still_open, stop,
    stop_invalid, usage_sum, wait_for_turn, Actor, ActorView, After, Checkpoint, Command, Effect,
    EffectView, Failure, FinishReason, Input, InputView, Moment, Origin, Phase, PhaseView, RECOVERY,
    Request, StreamFailure, StreamItem, Turn,
};
use crate::protocol_laws::{
    is_consistent, is_in_order, law_steps_keep_order, lemma_all_held, lemma_collect_ignores_phase,
    lemma_hold, lemma_open_ids, lemma_repair, lemma_submitted_ignores_phase, receipts_fit,
};
use crate::queue::queue_len;
use crate::session::{EndReason, Error, Outcome, Usage};
use crate::store::{
    entry_ids, entry_messages, Commit, InboxEntry, InboxStatus, SignalKind, ToolKey,
};
use vstd::prelude::*;

verus! {

fn add_effect(fx: &mut Vec<Effect>, effect: Effect)
    ensures
        final(fx).deep_view() == old(fx).deep_view().push(effect.deep_view()),
{
    let ghost before = fx.deep_view();
    let ghost e = effect.deep_view();
    fx.push(effect);
    assert(fx.deep_view() =~= before.push(e));
}

fn later_than(now: u128, timeout: u128) -> (r: u128)
    ensures
        r == later(now, timeout),
{
    now.saturating_add(timeout)
}

impl Usage {
    /// The usage that reports nothing.
    pub fn new() -> (r: Usage)
        ensures
            r == no_usage(),
    {
        Usage {
            input_tokens: 0,
            output_tokens: 0,
            total_tokens: 0,
            cached_input_tokens: 0,
            cache_creation_input_tokens: 0,
            tool_use_prompt_tokens: 0,
            reasoning_tokens: 0,
        }
    }

    /// Whether anything is reported.
    pub fn has_values(&self) -> (r: bool)
        ensures
            r == (*self != no_usage()),
    {
        *self != Usage::new()
    }

    /// The sum of two usages, count by count.
    pub fn plus(self, other: Usage) -> (r: Usage)
        ensures
            r == usage_sum(self, other),
    {
        Usage {
            input_tokens: self.input_tokens.saturating_add(other.input_tokens),
            output_tokens: self.output_tokens.saturating_add(other.output_tokens),
            total_tokens: self.total_tokens.saturating_add(other.total_tokens),
            cached_input_tokens: self.cached_input_tokens.saturating_add(other.cached_input_tokens),
            cache_creation_input_tokens: self.cache_creation_input_tokens.saturating_add(
                other.cache_creation_input_tokens,
            ),
            tool_use_prompt_tokens: self.tool_use_prompt_tokens.saturating_add(
                other.tool_use_prompt_tokens,
            ),
            reasoning_tokens: self.reasoning_tokens.saturating_add(other.reasoning_tokens),
        }
    }
}

/// Why a turn is over that failed in this way.
pub fn classify(failure: StreamFailure) -> (r: EndReason)
    ensures
        r.deep_view() == failure_reason(failure.deep_view()),
{
    match failure {
        StreamFailure::MaxTurns => EndReason::MaxTurns,
        StreamFailure::Cancelled(reason) => EndReason::HookStopped(reason),
        StreamFailure::Completion(text) => EndReason::ProviderError(text),
        StreamFailure::Prompt(text) => EndReason::RunError(text),
        StreamFailure::Other(text) => EndReason::ProviderError(text),
    }
}

fn words(failure: Failure) -> (r: String)
    ensures
        r@ == failure_text(failure.deep_view()),
{
    match failure {
        Failure::TimedOut => "storage deadline elapsed".to_owned(),
        Failure::Refused(text) => text,
    }
}

/// The result that stands in for one that was not recorded.
fn recover(call: &ToolCall) -> (r: ToolResult)
    ensures
        r.deep_view() == recovery_result(call.deep_view()),
{
    let mut content: Vec<ToolResultContent> = Vec::new();
    content.push(ToolResultContent::text(RECOVERY));
    assert(content.deep_view() =~= seq![text_block(RECOVERY@)]);
    ToolResult {
        call: call.id.clone(),
        provider: call.provider.clone(),
        name: call.function.name.clone(),
        content,
    }
}

/// A user message of results.
fn batch(results: Vec<ToolResult>) -> (r: Vec<Message>)
    ensures
        r.deep_view() == seq![MessageView::User { content: result_blocks(results.deep_view()) }],
{
    let ghost all = results.deep_view();
    let mut content: Vec<UserContent> = Vec::new();
    let mut i: usize = 0;
    while i < results.len()
        invariant
            i <= results.len(),
            all == results.deep_view(),
            content.deep_view() =~= result_blocks(all).take(i as int),
        decreases results.len() - i,
    {
        let ghost before = content.deep_view();
        content.push(UserContent::ToolResult(results[i].clone()));
        assert(content.deep_view() =~= before.push(result_blocks(all)[i as int]));
        i += 1;
    }
    assert(content.deep_view() =~= result_blocks(all));
    let mut messages: Vec<Message> = Vec::new();
    messages.push(Message::User { content });
    assert(messages.deep_view() =~= seq![MessageView::User { content: result_blocks(all) }]);
    messages
}

/// The saved result of the call with an id.
fn find_held<'a>(receipts: &'a Vec<ToolResult>, id: &String) -> (r: Option<&'a ToolResult>)
    ensures
        r.deep_view() == held(receipts.deep_view(), id@),
{
    let ghost all = receipts.deep_view();
    let mut n: usize = receipts.len();
    assert(all.take(n as int) =~= all);
    while n > 0
        invariant
            n <= receipts.len(),
            all == receipts.deep_view(),
            held(all, id@) == held(all.take(n as int), id@),
        decreases n,
    {
        assert(all.take(n as int).drop_last() =~= all.take(n - 1));
        assert(all.take(n as int).last() == receipts[n - 1].deep_view());
        if receipts[n - 1].call.deep_eq(id) {
            return Some(&receipts[n - 1]);
        }
        n -= 1;
    }
    None
}

/// Keep a saved result; it takes the place of an earlier one for the same call.
fn keep_result(receipts: &mut Vec<ToolResult>, result: ToolResult)
    ensures
        final(receipts).deep_view() == hold(old(receipts).deep_view(), result.deep_view()),
{
    let ghost all = receipts.deep_view();
    let ghost r = result.deep_view();
    let mut n: usize = receipts.len();
    assert(all.take(n as int) =~= all);
    assert(hold(all, r) =~= hold(all.take(n as int), r) + all.skip(n as int));
    while n > 0
        invariant
            n <= receipts.len(),
            all == receipts.deep_view(),
            r == result.deep_view(),
            all == old(receipts).deep_view(),
            hold(all, r) == hold(all.take(n as int), r) + all.skip(n as int),
        decreases n,
    {
        let ghost head = all.take(n as int);
        assert(head.drop_last() =~= all.take(n - 1));
        assert(head.last() == all[n - 1]);
        if receipts[n - 1].call.deep_eq(&result.call) {
            receipts.set(n - 1, result);
            assert(receipts.deep_view() =~= hold(all, r));
            return;
        }
        assert(hold(all, r) =~= hold(all.take(n - 1), r) + all.skip(n - 1));
        n -= 1;
    }
    assert(all.take(0) =~= Seq::empty());
    assert(all.skip(0) =~= all);
    receipts.insert(0, result);
    assert(receipts.deep_view() =~= seq![r] + all);
}

/// The call with an id.
fn find_call<'a>(calls: &Vec<&'a ToolCall>, id: &String) -> (r: Option<&'a ToolCall>)
    ensures
        r.deep_view() == call_with(calls.deep_view(), id@),
{
    let ghost all = calls.deep_view();
    let mut i: usize = 0;
    assert(all.skip(0) =~= all);
    while i < calls.len()
        invariant
            i <= calls.len(),
            all == calls.deep_view(),
            call_with(all, id@) == call_with(all.skip(i as int), id@),
        decreases calls.len() - i,
    {
        assert(all.skip(i as int)[0] == calls[i as int].deep_view());
        assert(all.skip(i as int).skip(1) =~= all.skip(i + 1));
        if calls[i].id.deep_eq(id) {
            return Some(calls[i]);
        }
        i += 1;
    }
    None
}

/// The open calls at the end of a history.
fn open_calls(history: &Vec<Message>) -> (r: Vec<&ToolCall>)
    ensures
        r.deep_view() == tail_calls(history.deep_view()),
        r.deep_view().len() == r.len(),
{
    assert(history.deep_view().len() == history.len());
    if history.len() > 0 {
        let last = &history[history.len() - 1];
        assert(history.deep_view().last() == last.deep_view());
        let found = calls(last);
        assert(found.deep_view().len() == found.len());
        found
    } else {
        let none: Vec<&ToolCall> = Vec::new();
        assert(none.deep_view() =~= Seq::empty());
        none
    }
}

impl Actor {
    fn io_deadline(&self, now: u128, execution: Option<u128>) -> (r: u128)
        ensures
            r == io_deadline(self.deep_view(), now, execution),
    {
        let io: u128 = later_than(now, self.io_timeout);
        match execution {
            Some(t) => if t < io {
                t
            } else {
                io
            },
            None => io,
        }
    }

    fn stop(&mut self, fx: &mut Vec<Effect>, result: Result<EndReason, Error>) -> (r: Request)
        ensures
            leads_to(final(self), final(fx), r, stop(
                old(self).deep_view(),
                old(fx).deep_view(),
                result_view(result),
            )),
    {
        self.phase = Phase::Stopped;
        Request::Stop(result)
    }

    fn stop_invalid(&mut self, fx: &mut Vec<Effect>, text: &str) -> (r: Request)
        ensures
            leads_to(final(self), final(fx), r, stop_invalid(
                old(self).deep_view(),
                old(fx).deep_view(),
                text@,
            )),
    {
        self.stop(fx, Err(Error::InvalidHistory(text.to_owned())))
    }

    fn begin_commit(
        &mut self,
        fx: &mut Vec<Effect>,
        commit: Commit,
        deadline: u128,
        after: After,
    ) -> (r: Request)
        ensures
            leads_to(final(self), final(fx), r, begin_commit(
                old(self).deep_view(),
                old(fx).deep_view(),
                commit.deep_view(),
                deadline,
                after,
            )),
    {
        if let Err(error) = validate_append(&self.history, &commit.messages) {
            return self.stop(fx, Err(error));
        }
        let copy = commit.clone();
        self.phase = Phase::Committing { commit, after };
        Request::Commit { commit: copy, deadline }
    }

    fn commit_of(
        &self,
        id: u128,
        messages: Vec<Message>,
        ack_inbox_ids: Vec<String>,
        outcome: Option<Outcome>,
    ) -> (r: Commit)
        ensures
            r.deep_view() == commit_of(
                self.deep_view(),
                id,
                messages.deep_view(),
                ack_inbox_ids.deep_view(),
                outcome.deep_view(),
            ),
    {
        assert(self.history.deep_view().len() == self.history.len());
        Commit { id, expected_messages: self.history.len(), messages, ack_inbox_ids, outcome }
    }

    fn next_round(&mut self, fx: &mut Vec<Effect>, now: u128) -> (r: Request)
        ensures
            leads_to(final(self), final(fx), r, next_round(
                old(self).deep_view(),
                old(fx).deep_view(),
                now,
            )),
    {
        if let Some(deadline) = self.loop_deadline {
            if now >= deadline {
                return self.stop(fx, Ok(EndReason::LoopTimedOut));
            }
        }
        self.phase = Phase::Draining { left: self.capacity };
        Request::TryCommand
    }

    fn open_turn(&mut self, fx: &mut Vec<Effect>) -> (r: Request)
        ensures
            leads_to(final(self), final(fx), r, open_turn(old(self).deep_view(), old(fx).deep_view())),
    {
        let ghost h = self.history.deep_view();
        assert(h.len() == self.history.len());
        if self.history.is_empty() {
            return self.stop_invalid(fx, "cannot run empty history");
        }
        let mut history = self.history.clone();
        let last = self.history.len() - 1;
        let prompt = self.history[last].clone();
        let _ = history.pop();
        assert(h == self.history.deep_view());
        assert(history.deep_view() =~= h.drop_last());
        self.phase = Phase::Opening;
        Request::Open { prompt, history, max_turns: self.max_turns }
    }

    fn wait_for_turn(&mut self, fx: &mut Vec<Effect>) -> (r: Request)
        ensures
            leads_to(final(self), final(fx), r, wait_for_turn(
                old(self).deep_view(),
                old(fx).deep_view(),
            )),
    {
        if self.turn.reason.is_none() {
            self.phase = Phase::Running;
            Request::AwaitTurn { deadline: self.turn.deadline }
        } else {
            self.phase = Phase::Settling;
            Request::TryCheckpoint
        }
    }

    fn release(&mut self, fx: &mut Vec<Effect>) -> (r: Request)
        ensures
            leads_to(final(self), final(fx), r, release(old(self).deep_view(), old(fx).deep_view())),
    {
        add_effect(fx, Effect::Release);
        self.wait_for_turn(fx)
    }

    fn end_turn(&mut self, fx: &mut Vec<Effect>, reason: EndReason, now: u128) -> (r: Request)
        ensures
            leads_to(final(self), final(fx), r, end_turn(
                old(self).deep_view(),
                old(fx).deep_view(),
                reason.deep_view(),
                now,
            )),
    {
        let finalization: u128 = self.io_deadline(now, None);
        self.turn.finalization = finalization;
        self.turn.reason = Some(reason);
        self.wait_for_turn(fx)
    }

    fn record_outcome(&mut self, fx: &mut Vec<Effect>, moment: Moment) -> (r: Request)
        requires
            old(self).turn.reason is Some,
        ensures
            leads_to(final(self), final(fx), r, record_outcome(
                old(self).deep_view(),
                old(fx).deep_view(),
                moment,
            )),
    {
        let reason = match &self.turn.reason {
            Some(reason) => reason.clone(),
            None => EndReason::Completed,
        };
        let outcome = Outcome {
            run_id: moment.run_id,
            reason,
            usage: if self.turn.usage_known && self.turn.any_call {
                Some(self.turn.usage)
            } else {
                None
            },
            finished_at: moment.wall,
        };
        let messages: Vec<Message> = Vec::new();
        let acks: Vec<String> = Vec::new();
        assert(messages.deep_view() =~= Seq::empty());
        assert(acks.deep_view() =~= Seq::empty());
        let commit = self.commit_of(moment.commit_id, messages, acks, Some(outcome));
        self.begin_commit(fx, commit, self.turn.finalization, After::Finish)
    }

    fn finish_turn(&mut self, fx: &mut Vec<Effect>, now: u128) -> (r: Request)
        requires
            old(self).turn.reason is Some,
        ensures
            leads_to(final(self), final(fx), r, finish_turn(
                old(self).deep_view(),
                old(fx).deep_view(),
                now,
            )),
    {
        match &self.turn.reason {
            Some(EndReason::Completed) | Some(EndReason::Interrupted) | None => self.next_round(fx, now),
            Some(reason) => {
                let reason = reason.clone();
                self.stop(fx, Ok(reason))
            },
        }
    }

    fn proceed(&mut self, fx: &mut Vec<Effect>, after: After, moment: Moment) -> (r: Request)
        requires
            after is Record || after is Finish ==> old(self).turn.reason is Some,
        ensures
            leads_to(final(self), final(fx), r, proceed(
                old(self).deep_view(),
                old(fx).deep_view(),
                after,
                moment,
            )),
    {
        match after {
            After::Start => self.next_round(fx, moment.now),
            After::Open => self.open_turn(fx),
            After::Release => {
                self.receipts = Vec::new();
                assert(self.receipts.deep_view() =~= Seq::empty());
                self.release(fx)
            },
            After::Record => self.record_outcome(fx, moment),
            After::Finish => self.finish_turn(fx, moment.now),
        }
    }

    fn collect(
        &mut self,
        fx: &mut Vec<Effect>,
        collected: Vec<ToolResult>,
        deadline: u128,
        after: After,
        commit_id: u128,
    ) -> (r: Request)
        ensures
            leads_to(final(self), final(fx), r, collect(
                old(self).deep_view(),
                old(fx).deep_view(),
                collected.deep_view(),
                deadline,
                after,
                commit_id,
            )),
    {
        let ghost a = self.deep_view();
        let ghost e = fx.deep_view();
        let ghost whole = collect(a, e, collected.deep_view(), deadline, after, commit_id);
        let mut results = collected;
        let open = open_calls(&self.history);
        while results.len() < open.len()
            invariant
                a == self.deep_view(),
                e == fx.deep_view(),
                a == old(self).deep_view(),
                e == old(fx).deep_view(),
                open.deep_view() == tail_calls(a.history),
                open.deep_view().len() == open.len(),
                whole == collect(a, e, collected.deep_view(), deadline, after, commit_id),
                whole == collect(a, e, results.deep_view(), deadline, after, commit_id),
            decreases open.len() - results.len(),
        {
            let n = results.len();
            let call = open[n];
            assert(results.deep_view().len() == n);
            assert(tail_calls(a.history)[n as int] == call.deep_view());
            match find_held(&self.receipts, &call.id) {
                Some(result) => {
                    if let Err(_) = check_result(call, result) {
                        return self.stop_invalid(
                            fx,
                            "tool result identity/content does not match its call",
                        );
                    }
                    let ghost before = results.deep_view();
                    results.push(result.clone());
                    assert(results.deep_view() =~= before.push(result.deep_view()));
                },
                None => {
                    assert(a.history.len() == self.history.len());
                    let key = ToolKey {
                        assistant_position: self.history.len() - 1,
                        call_id: call.id.clone(),
                    };
                    self.phase = Phase::Repairing { results, deadline, after };
                    return Request::Load { key, deadline };
                },
            }
        }
        assert(results.deep_view().len() == results.len());
        let acks: Vec<String> = Vec::new();
        assert(acks.deep_view() =~= Seq::empty());
        let commit = self.commit_of(commit_id, batch(results), acks, None);
        self.receipts = Vec::new();
        assert(self.receipts.deep_view() =~= Seq::empty());
        self.begin_commit(fx, commit, deadline, after)
    }

    fn repair(
        &mut self,
        fx: &mut Vec<Effect>,
        deadline: u128,
        after: After,
        moment: Moment,
    ) -> (r: Request)
        requires
            after is Record || after is Finish ==> old(self).turn.reason is Some,
        ensures
            leads_to(final(self), final(fx), r, repair(
                old(self).deep_view(),
                old(fx).deep_view(),
                deadline,
                after,
                moment,
            )),
    {
        let nothing_open = open_calls(&self.history).is_empty();
        if nothing_open {
            return self.proceed(fx, after, moment);
        }
        let results: Vec<ToolResult> = Vec::new();
        assert(results.deep_view() =~= Seq::empty());
        self.collect(fx, results, deadline, after, moment.commit_id)
    }
}

fn messages_of(entries: &Vec<InboxEntry>) -> (r: Vec<Message>)
    ensures
        r.deep_view() == entry_messages(entries.deep_view()),
{
    let ghost all = entry_messages(entries.deep_view());
    let mut messages: Vec<Message> = Vec::new();
    let mut i: usize = 0;
    while i < entries.len()
        invariant
            i <= entries.len(),
            all == entry_messages(entries.deep_view()),
            messages.deep_view() =~= all.take(i as int),
        decreases entries.len() - i,
    {
        let ghost before = messages.deep_view();
        messages.push(entries[i].message.clone());
        assert(messages.deep_view() =~= before.push(all[i as int]));
        i += 1;
    }
    assert(messages.deep_view() =~= all);
    messages
}

fn ids_of(entries: &Vec<InboxEntry>) -> (r: Vec<String>)
    ensures
        r.deep_view() == entry_ids(entries.deep_view()),
{
    let ghost all = entry_ids(entries.deep_view());
    let mut ids: Vec<String> = Vec::new();
    let mut i: usize = 0;
    while i < entries.len()
        invariant
            i <= entries.len(),
            all == entry_ids(entries.deep_view()),
            ids.deep_view() =~= all.take(i as int),
        decreases entries.len() - i,
    {
        let ghost before = ids.deep_view();
        ids.push(entries[i].id.clone());
        assert(ids.deep_view() =~= before.push(all[i as int]));
        i += 1;
    }
    assert(ids.deep_view() =~= all);
    ids
}

fn has_number(numbers: &Vec<u64>, number: u64) -> (r: bool)
    ensures
        r == numbers.deep_view().contains(number),
{
    let mut i: usize = 0;
    while i < numbers.len()
        invariant
            i <= numbers.len(),
            forall|k: int| 0 <= k < i ==> numbers.deep_view()[k] != number,
        decreases numbers.len() - i,
    {
        if numbers[i] == number {
            assert(numbers.deep_view()[i as int] == number);
            return true;
        }
        i += 1;
    }
    false
}

fn keep_open(waiters: &Vec<u64>, closed: &Vec<u64>) -> (r: Vec<u64>)
    ensures
        r.deep_view() == still_open(waiters.deep_view(), closed.deep_view()),
{
    let ghost all = waiters.deep_view();
    let mut kept: Vec<u64> = Vec::new();
    assert(kept.deep_view() =~= still_open(all.take(0), closed.deep_view()));
    let mut i: usize = 0;
    while i < waiters.len()
        invariant
            i <= waiters.len(),
            all == waiters.deep_view(),
            kept.deep_view() == still_open(all.take(i as int), closed.deep_view()),
        decreases waiters.len() - i,
    {
        let ghost before = kept.deep_view();
        assert(all.take(i + 1).drop_last() =~= all.take(i as int));
        assert(all.take(i + 1).last() == waiters[i as int]);
        if !has_number(closed, waiters[i]) {
            kept.push(waiters[i]);
            assert(kept.deep_view() =~= before.push(waiters[i as int]));
        }
        i += 1;
    }
    assert(all.take(all.len() as int) =~= all);
    kept
}

impl Actor {
    fn fresh_turn(&self, now: u128) -> (r: Turn)
        ensures
            r.deep_view() == fresh_turn(self.deep_view(), now),
    {
        let own: Option<u128> = match self.turn_timeout {
            Some(timeout) => Some(later_than(now, timeout)),
            None => None,
        };
        let deadline: Option<u128> = match (own, self.loop_deadline) {
            (Some(x), Some(y)) => Some(
                if y < x {
                    y
                } else {
                    x
                },
            ),
            (Some(x), None) => Some(x),
            (None, y) => y,
        };
        let by_loop = match (self.loop_deadline, deadline) {
            (Some(x), Some(y)) => x == y,
            _ => false,
        };
        Turn {
            deadline,
            timeout_reason: if by_loop {
                EndReason::LoopTimedOut
            } else {
                EndReason::TurnTimedOut
            },
            usage: Usage::new(),
            usage_known: true,
            any_call: false,
            finish_reason: None,
            reason: None,
            finalization: 0,
        }
    }

    fn begin_turn(&mut self, fx: &mut Vec<Effect>, entries: Vec<InboxEntry>, moment: Moment) -> (r:
        Request)
        ensures
            leads_to(final(self), final(fx), r, begin_turn(
                old(self).deep_view(),
                old(fx).deep_view(),
                entries.deep_view(),
                moment,
            )),
    {
        let turn = self.fresh_turn(moment.now);
        self.turn = turn;
        self.idle = false;
        assert(entries.deep_view().len() == entries.len());
        if entries.is_empty() {
            return self.open_turn(fx);
        }
        let commit = self.commit_of(
            moment.commit_id,
            messages_of(&entries),
            ids_of(&entries),
            None,
        );
        let deadline: u128 = self.io_deadline(moment.now, self.turn.deadline);
        self.begin_commit(fx, commit, deadline, After::Open)
    }

    fn after_drain(&mut self, fx: &mut Vec<Effect>, moment: Moment) -> (r: Request)
        ensures
            leads_to(final(self), final(fx), r, after_drain(
                old(self).deep_view(),
                old(fx).deep_view(),
                moment,
            )),
    {
        if self.paused {
            return self.stop(fx, Ok(EndReason::Paused));
        }
        if let Some(entries) = self.queue.next() {
            return self.begin_turn(fx, entries, moment);
        }
        let ghost a = self.deep_view();
        let ghost e = fx.deep_view();
        let ghost replies = idle_replies(a.waiters);
        assert(e + replies.take(0) =~= e);
        let mut i: usize = 0;
        while i < self.waiters.len()
            invariant
                i <= self.waiters.len(),
                a == self.deep_view(),
                replies == idle_replies(a.waiters),
                fx.deep_view() == e + replies.take(i as int),
            decreases self.waiters.len() - i,
        {
            add_effect(
                fx,
                Effect::WaitReply { reply: self.waiters[i], result: Ok(EndReason::Idle) },
            );
            assert(fx.deep_view() =~= e + replies.take(i + 1));
            i += 1;
        }
        assert(e + replies.take(replies.len() as int) =~= e + replies);
        if !self.idle {
            add_effect(fx, Effect::Idle);
        }
        assert(fx.deep_view() =~= e + replies + if a.idle {
            Seq::empty()
        } else {
            seq![EffectView::Idle]
        });
        self.waiters = Vec::new();
        assert(self.waiters.deep_view() =~= Seq::empty());
        self.idle = true;
        self.phase = Phase::Idle;
        Request::AwaitCommand { deadline: self.loop_deadline }
    }

    fn resume_origin(&mut self, fx: &mut Vec<Effect>, origin: Origin, moment: Moment) -> (r: Request)
        ensures
            leads_to(final(self), final(fx), r, resume_origin(
                old(self).deep_view(),
                old(fx).deep_view(),
                origin,
                moment,
            )),
    {
        match origin {
            Origin::Draining { left } => {
                if left == 0 {
                    return self.after_drain(fx, moment);
                }
                self.phase = Phase::Draining { left };
                Request::TryCommand
            },
            Origin::Idle => self.next_round(fx, moment.now),
            Origin::Running => self.wait_for_turn(fx),
        }
    }

    fn end_origin(
        &mut self,
        fx: &mut Vec<Effect>,
        origin: Origin,
        reason: EndReason,
        now: u128,
    ) -> (r: Request)
        ensures
            leads_to(final(self), final(fx), r, end_origin(
                old(self).deep_view(),
                old(fx).deep_view(),
                origin,
                reason.deep_view(),
                now,
            )),
    {
        match origin {
            Origin::Running => self.end_turn(fx, reason, now),
            _ => self.stop(fx, Ok(reason)),
        }
    }

    fn resume_answer(&self) -> (r: Result<(), Error>)
        requires
            queue_len(self.deep_view().queue) <= usize::MAX,
        ensures
            result_view(r) == resume_answer(self.deep_view()),
    {
        assert(self.history.deep_view().len() == self.history.len());
        let conversational = if self.history.len() > 0 {
            let last = &self.history[self.history.len() - 1];
            assert(self.history.deep_view().last() == last.deep_view());
            match last {
                Message::System { .. } => false,
                _ => true,
            }
        } else {
            false
        };
        if !conversational {
            Err(Error::InvalidHistory("resume requires a user or assistant message".to_owned()))
        } else if self.queue.len() >= self.capacity && !self.queue.resume {
            Err(Error::QueueFull)
        } else {
            Ok(())
        }
    }

    fn on_command(
        &mut self,
        fx: &mut Vec<Effect>,
        command: Command,
        origin: Origin,
        moment: Moment,
    ) -> (r: Request)
        requires
            queue_len(old(self).deep_view().queue) <= usize::MAX,
            old(fx).deep_view() == Seq::<EffectView>::empty(),
        ensures
            leads_to(final(self), final(fx), r, on_command(
                old(self).deep_view(),
                command.deep_view(),
                origin,
                moment,
            )),
    {
        match command {
            Command::Submit { entry, reply } => {
                if self.queue.len() >= self.capacity && !self.queue.contains(&entry.id) {
                    add_effect(fx, Effect::SubmitReply { reply, result: Err(Error::QueueFull) });
                    return self.resume_origin(fx, origin, moment);
                }
                let bound: Option<u128> = match origin {
                    Origin::Running => self.turn.deadline,
                    _ => self.loop_deadline,
                };
                let deadline: u128 = self.io_deadline(moment.now, bound);
                let copy = entry.clone();
                self.phase = Phase::Submitting { entry, reply, origin };
                Request::Submit { entry: copy, deadline }
            },
            Command::Resume { reply } => {
                if let Origin::Running = origin {
                    add_effect(fx, Effect::ResumeReply { reply, result: Ok(()) });
                } else {
                    let result = self.resume_answer();
                    if result.is_ok() {
                        self.queue.resume = true;
                    }
                    add_effect(fx, Effect::ResumeReply { reply, result });
                }
                self.resume_origin(fx, origin, moment)
            },
            Command::Pause => {
                self.paused = true;
                self.resume_origin(fx, origin, moment)
            },
            Command::Abort => self.end_origin(fx, origin, EndReason::Aborted, moment.now),
            Command::Wait { reply, closed } => {
                let mut waiters = keep_open(&self.waiters, &closed);
                assert(waiters.deep_view().len() == waiters.len());
                if waiters.len() >= self.capacity {
                    add_effect(fx, Effect::WaitReply { reply, result: Err(Error::QueueFull) });
                } else {
                    let ghost before = waiters.deep_view();
                    waiters.push(reply);
                    assert(waiters.deep_view() =~= before.push(reply));
                }
                self.waiters = waiters;
                self.resume_origin(fx, origin, moment)
            },
            Command::History { reply } => {
                let history = self.history.clone();
                add_effect(fx, Effect::HistoryReply { reply, history });
                self.resume_origin(fx, origin, moment)
            },
        }
    }

    fn on_submitted(
        &mut self,
        fx: &mut Vec<Effect>,
        entry: InboxEntry,
        reply: u64,
        origin: Origin,
        answer: Result<InboxStatus, Failure>,
        moment: Moment,
    ) -> (r: Request)
        requires
            old(fx).deep_view() == Seq::<EffectView>::empty(),
        ensures
            leads_to(final(self), final(fx), r, on_submitted(
                old(self).deep_view(),
                entry.deep_view(),
                reply,
                origin,
                result_view(answer),
                moment,
            )),
    {
        match answer {
            Ok(status) => {
                let new = status == InboxStatus::Pending && !self.queue.contains(&entry.id);
                let interrupts = match origin {
                    Origin::Running => new && entry.kind == SignalKind::Interrupt && !self.paused,
                    _ => false,
                };
                if new {
                    self.queue.push(entry);
                }
                add_effect(fx, Effect::SubmitReply { reply, result: Ok(status) });
                if interrupts {
                    return self.end_origin(fx, origin, EndReason::Interrupted, moment.now);
                }
                self.resume_origin(fx, origin, moment)
            },
            Err(Failure::TimedOut) => self.stop(
                fx,
                Err(
                    Error::Store {
                        operation: "submit inbox (completion unknown; retry the same entry)".to_owned(),
                        message: "storage deadline elapsed".to_owned(),
                    },
                ),
            ),
            Err(Failure::Refused(message)) => {
                add_effect(
                    fx,
                    Effect::SubmitReply {
                        reply,
                        result: Err(
                            Error::Store {
                                operation: "submit inbox (retry the same entry)".to_owned(),
                                message,
                            },
                        ),
                    },
                );
                self.resume_origin(fx, origin, moment)
            },
        }
    }

    fn on_checkpoint(
        &mut self,
        fx: &mut Vec<Effect>,
        checkpoint: Checkpoint,
        deadline: u128,
        moment: Moment,
    ) -> (r: Request)
        requires
            old(fx).deep_view() == Seq::<EffectView>::empty(),
        ensures
            leads_to(final(self), final(fx), r, on_checkpoint(
                old(self).deep_view(),
                checkpoint.deep_view(),
                deadline,
                moment,
            )),
    {
        assert(self.history.deep_view().len() == self.history.len());
        match checkpoint {
            Checkpoint::BeforeRequest(expected) => {
                if expected != self.history.len() {
                    return self.stop_invalid(
                        fx,
                        "Rig changed transcript without a canonical checkpoint; invalid-tool recovery and retry feedback require upstream checkpoint support",
                    );
                }
                let open = !open_calls(&self.history).is_empty();
                if open {
                    return self.stop_invalid(
                        fx,
                        "Rig requested a new model turn before the durable tool batch completed",
                    );
                }
                self.release(fx)
            },
            Checkpoint::BeforeTool(id) => {
                let known = find_call(&open_calls(&self.history), &id).is_some();
                if known {
                    return self.release(fx);
                }
                self.stop_invalid(
                    fx,
                    "tool dispatch without a durable canonical assistant checkpoint; recovered invalid tool calls are not supported",
                )
            },
            Checkpoint::Assistant(message) => {
                let ghost m = message.deep_view();
                let mut messages: Vec<Message> = Vec::new();
                messages.push(message);
                assert(messages.deep_view() =~= seq![m]);
                let acks: Vec<String> = Vec::new();
                assert(acks.deep_view() =~= Seq::empty());
                let commit = self.commit_of(moment.commit_id, messages, acks, None);
                self.receipts = Vec::new();
                assert(self.receipts.deep_view() =~= Seq::empty());
                self.begin_commit(fx, commit, deadline, After::Release)
            },
            Checkpoint::Result { id, name, content } => {
                if self.history.is_empty() {
                    return self.stop_invalid(fx, "tool result before assistant checkpoint");
                }
                let result = match find_call(&open_calls(&self.history), &id) {
                    Some(call) => Some(
                        ToolResult {
                            call: call.id.clone(),
                            provider: call.provider.clone(),
                            name,
                            content,
                        },
                    ),
                    None => None,
                };
                let Some(result) = result else {
                    return self.stop_invalid(fx, "tool result outside its pending assistant batch");
                };
                let key = ToolKey { assistant_position: self.history.len() - 1, call_id: id };
                let (saved_key, saved) = (key.clone(), result.clone());
                self.phase = Phase::Saving { key, result, deadline };
                Request::Save { key: saved_key, result: saved, deadline }
            },
        }
    }
}

impl Actor {
    fn on_saved(
        &mut self,
        fx: &mut Vec<Effect>,
        result: ToolResult,
        deadline: u128,
        moment: Moment,
    ) -> (r: Request)
        requires
            old(fx).deep_view() == Seq::<EffectView>::empty(),
            is_journal(old(self).deep_view().history),
            receipts_fit(old(self).deep_view().receipts, tail_calls(old(self).deep_view().history)),
            call_ids(tail_calls(old(self).deep_view().history)).contains(result.deep_view().call),
        ensures
            leads_to(final(self), final(fx), r, on_saved(
                old(self).deep_view(),
                result.deep_view(),
                deadline,
                moment,
            )),
    {
        let ghost a = self.deep_view();
        proof {
            lemma_open_ids(a.history);
            lemma_hold(a.receipts, result.deep_view(), tail_calls(a.history));
        }
        keep_result(&mut self.receipts, result);
        let ghost receipts = self.receipts.deep_view();
        assert(receipts.len() == self.receipts.len());
        let open = open_calls(&self.history);
        if self.receipts.len() == open.len() {
            let ghost whole = held_for(receipts, tail_calls(a.history));
            let mut results: Vec<ToolResult> = Vec::new();
            while results.len() < open.len()
                invariant
                    results.len() <= open.len(),
                    receipts == self.receipts.deep_view(),
                    open.deep_view() == tail_calls(a.history),
                    open.deep_view().len() == open.len(),
                    receipts.len() == open.len(),
                    receipts_fit(receipts, tail_calls(a.history)),
                    call_ids(tail_calls(a.history)).no_duplicates(),
                    whole == held_for(receipts, tail_calls(a.history)),
                    results.deep_view() =~= whole.take(results.len() as int),
                decreases open.len() - results.len(),
            {
                let n = results.len();
                let ghost before = results.deep_view();
                proof {
                    lemma_all_held(receipts, tail_calls(a.history), n as int);
                    assert(tail_calls(a.history)[n as int] == open[n as int].deep_view());
                }
                let found = find_held(&self.receipts, &open[n].id).unwrap();
                results.push(found.clone());
                assert(results.deep_view() =~= before.push(whole[n as int]));
            }
            assert(results.deep_view() =~= whole);
            let acks: Vec<String> = Vec::new();
            assert(acks.deep_view() =~= Seq::empty());
            let commit = self.commit_of(moment.commit_id, batch(results), acks, None);
            return self.begin_commit(fx, commit, deadline, After::Release);
        }
        self.release(fx)
    }

    fn on_item(&mut self, fx: &mut Vec<Effect>, item: StreamItem, moment: Moment) -> (r: Request)
        requires
            old(fx).deep_view() == Seq::<EffectView>::empty(),
        ensures
            leads_to(final(self), final(fx), r, on_item(
                old(self).deep_view(),
                item.deep_view(),
                moment,
            )),
    {
        match item {
            StreamItem::CompletionCall { usage, finish_reason } => {
                self.turn.usage = self.turn.usage.plus(usage);
                self.turn.usage_known = self.turn.usage_known && usage.has_values();
                self.turn.any_call = true;
                self.turn.finish_reason = match finish_reason {
                    Some(FinishReason::Length) => Some(EndReason::Length),
                    Some(FinishReason::ContentFilter) => Some(EndReason::ContentFilter),
                    _ => None,
                };
                self.wait_for_turn(fx)
            },
            StreamItem::FinalResponse => {
                let reason = match &self.turn.finish_reason {
                    Some(reason) => reason.clone(),
                    None => EndReason::Completed,
                };
                self.end_turn(fx, reason, moment.now)
            },
            StreamItem::Other => self.wait_for_turn(fx),
        }
    }
}

impl Actor {
    /// Whether the session waits for this input.
    pub fn expects(&self, input: &Input) -> (r: bool)
        ensures
            r == expects(self.deep_view().phase, input.deep_view()),
    {
        match (&self.phase, input) {
            (Phase::Repairing { .. }, Input::Loaded(_)) => true,
            (Phase::Committing { .. }, Input::Stored(_)) => true,
            (Phase::Draining { .. }, Input::NoCommand | Input::Command(_)) => true,
            (Phase::Idle, Input::Command(_) | Input::Closed | Input::DeadlineElapsed) => true,
            (Phase::Submitting { .. }, Input::Submitted(_)) => true,
            (Phase::Opening, Input::Opened) => true,
            (
                Phase::Running,
                Input::Checkpoint(_)
                | Input::DeadlineElapsed
                | Input::Command(_)
                | Input::Closed
                | Input::Item(_)
                | Input::Failed(_)
                | Input::Ended,
            ) => true,
            (Phase::Saving { .. }, Input::Stored(_)) => true,
            (Phase::Settling, Input::Checkpoint(_) | Input::NoCheckpoint) => true,
            _ => false,
        }
    }

    /// Take the first step.
    pub fn begin(&mut self, moment: Moment) -> (r: (Vec<Effect>, Request))
        requires
            is_consistent(old(self).deep_view()),
        ensures
            leads_to(final(self), &r.0, r.1, first_step(old(self).deep_view(), moment)),
            is_in_order(final(self).deep_view()),
    {
        let mut fx: Vec<Effect> = Vec::new();
        assert(fx.deep_view() =~= Seq::empty());
        proof {
            lemma_repair(
                self.deep_view(),
                Seq::empty(),
                io_deadline(self.deep_view(), moment.now, self.loop_deadline),
                After::Start,
                moment,
            );
        }
        let deadline: u128 = self.io_deadline(moment.now, self.loop_deadline);
        let request = self.repair(&mut fx, deadline, After::Start, moment);
        (fx, request)
    }

    /// Act on what happened.
    pub fn step(&mut self, input: Input, moment: Moment) -> (r: (Vec<Effect>, Request))
        requires
            is_in_order(old(self).deep_view()),
            expects(old(self).deep_view().phase, input.deep_view()),
        ensures
            leads_to(final(self), &r.0, r.1, step(old(self).deep_view(), input.deep_view(), moment)),
            is_in_order(final(self).deep_view()),
    {
        proof {
            law_steps_keep_order(self.deep_view(), input.deep_view(), moment);
        }
        let mut fx: Vec<Effect> = Vec::new();
        assert(fx.deep_view() =~= Seq::empty());
        let mut phase = Phase::Stopped;
        std::mem::swap(&mut self.phase, &mut phase);
        let request = self.act(&mut fx, phase, input, moment);
        (fx, request)
    }

    /// Take the first step, with fresh identities and the time of day.
    pub fn begin_now(&mut self, now: u128) -> (r: (Vec<Effect>, Request))
        requires
            is_consistent(old(self).deep_view()),
        ensures
            exists|moment: Moment|
                is_fresh(moment, now) && leads_to(
                    final(self),
                    &r.0,
                    r.1,
                    #[trigger] first_step(old(self).deep_view(), moment),
                ),
            is_in_order(final(self).deep_view()),
    {
        self.begin(Moment { now, commit_id: fresh_uuid(), run_id: fresh_uuid(), wall: unix_nanos() })
    }

    /// Act on what happened, with fresh identities and the time of day.
    pub fn step_now(&mut self, input: Input, now: u128) -> (r: (Vec<Effect>, Request))
        requires
            is_in_order(old(self).deep_view()),
            expects(old(self).deep_view().phase, input.deep_view()),
        ensures
            exists|moment: Moment|
                is_fresh(moment, now) && leads_to(
                    final(self),
                    &r.0,
                    r.1,
                    #[trigger] step(old(self).deep_view(), input.deep_view(), moment),
                ),
            is_in_order(final(self).deep_view()),
    {
        self.step(
            input,
            Moment { now, commit_id: fresh_uuid(), run_id: fresh_uuid(), wall: unix_nanos() },
        )
    }

    fn on_loaded(
        &mut self,
        fx: &mut Vec<Effect>,
        results: Vec<ToolResult>,
        deadline: u128,
        after: After,
        loaded: Result<Option<ToolResult>, Failure>,
        moment: Moment,
    ) -> (r: Request)
        requires
            results.len() < tail_calls(old(self).deep_view().history).len(),
            old(fx).deep_view() == Seq::<EffectView>::empty(),
        ensures
            leads_to(final(self), final(fx), r, step(
                (ActorView {
                    phase: PhaseView::Repairing { results: results.deep_view(), deadline, after },
                    ..old(self).deep_view()
                }),
                InputView::Loaded(result_view(loaded)),
                moment,
            )),
    {
        match loaded {
            Ok(stored) => {
                let n = results.len();
                assert(results.deep_view().len() == n);
                let open = open_calls(&self.history);
                let call = open[n];
                assert(tail_calls(self.deep_view().history)[n as int] == call.deep_view());
                let result = match stored {
                    Some(result) => result,
                    None => recover(call),
                };
                if let Err(error) = check_result(call, &result) {
                    return self.stop(fx, Err(error));
                }
                let ghost before = results.deep_view();
                let ghost added = result.deep_view();
                let mut results = results;
                results.push(result);
                assert(results.deep_view() =~= before.push(added));
                proof {
                    lemma_collect_ignores_phase(
                        self.deep_view(),
                        PhaseView::Repairing { results: before, deadline, after },
                        fx.deep_view(),
                        results.deep_view(),
                        deadline,
                        after,
                        moment.commit_id,
                    );
                }
                self.collect(fx, results, deadline, after, moment.commit_id)
            },
            Err(failure) => self.stop(
                fx,
                Err(
                    Error::Store {
                        operation: "load tool receipt".to_owned(),
                        message: words(failure),
                    },
                ),
            ),
        }
    }

    fn on_committed(
        &mut self,
        fx: &mut Vec<Effect>,
        commit: Commit,
        after: After,
        stored: Result<(), Failure>,
        moment: Moment,
    ) -> (r: Request)
        requires
            after is Record || after is Finish ==> old(self).turn.reason is Some,
            old(fx).deep_view() == Seq::<EffectView>::empty(),
        ensures
            leads_to(final(self), final(fx), r, step(
                (ActorView {
                    phase: PhaseView::Committing { commit: commit.deep_view(), after },
                    ..old(self).deep_view()
                }),
                InputView::Stored(result_view(stored)),
                moment,
            )),
    {
        match stored {
            Ok(()) => {
                let ghost h = self.history.deep_view();
                let mut messages = commit.messages.clone();
                self.history.append(&mut messages);
                assert(self.history.deep_view() =~= h + commit.messages.deep_view());
                add_effect(fx, Effect::Committed(commit));
                self.proceed(fx, after, moment)
            },
            Err(failure) => self.stop(
                fx,
                Err(Error::CommitUncertain { commit, message: words(failure) }),
            ),
        }
    }

    fn on_turn(&mut self, fx: &mut Vec<Effect>, input: Input, moment: Moment) -> (r: Request)
        requires
            queue_len(old(self).deep_view().queue) <= usize::MAX,
            expects(PhaseView::Running, input.deep_view()),
            old(fx).deep_view() == Seq::<EffectView>::empty(),
        ensures
            leads_to(final(self), final(fx), r, step(
                (ActorView { phase: PhaseView::Running, ..old(self).deep_view() }),
                input.deep_view(),
                moment,
            )),
    {
        self.phase = Phase::Running;
        match input {
            Input::Checkpoint(checkpoint) => {
                let deadline: u128 = self.io_deadline(moment.now, self.turn.deadline);
                self.on_checkpoint(fx, checkpoint, deadline, moment)
            },
            Input::DeadlineElapsed => {
                let reason = self.turn.timeout_reason.clone();
                self.end_turn(fx, reason, moment.now)
            },
            Input::Command(command) => self.on_command(fx, command, Origin::Running, moment),
            Input::Closed => self.end_turn(fx, EndReason::Aborted, moment.now),
            Input::Item(item) => self.on_item(fx, item, moment),
            Input::Failed(failure) => {
                self.turn.usage_known = false;
                self.end_turn(fx, classify(failure), moment.now)
            },
            _ => {
                self.turn.usage_known = false;
                self.end_turn(
                    fx,
                    EndReason::ProviderError("Rig stream ended without a final response".to_owned()),
                    moment.now,
                )
            },
        }
    }

    fn on_settling(&mut self, fx: &mut Vec<Effect>, input: Input, moment: Moment) -> (r: Request)
        requires
            old(self).turn.reason is Some,
            expects(PhaseView::Settling, input.deep_view()),
            old(fx).deep_view() == Seq::<EffectView>::empty(),
        ensures
            leads_to(final(self), final(fx), r, step(
                (ActorView { phase: PhaseView::Settling, ..old(self).deep_view() }),
                input.deep_view(),
                moment,
            )),
    {
        self.phase = Phase::Settling;
        let deadline: u128 = self.turn.finalization;
        match input {
            Input::Checkpoint(checkpoint) => self.on_checkpoint(fx, checkpoint, deadline, moment),
            _ => {
                add_effect(fx, Effect::CloseTurn);
                self.repair(fx, deadline, After::Record, moment)
            },
        }
    }

    fn on_save_answer(
        &mut self,
        fx: &mut Vec<Effect>,
        key: ToolKey,
        result: ToolResult,
        deadline: u128,
        stored: Result<(), Failure>,
        moment: Moment,
    ) -> (r: Request)
        requires
            is_consistent(old(self).deep_view()),
            call_ids(tail_calls(old(self).deep_view().history)).contains(result.deep_view().call),
            old(fx).deep_view() == Seq::<EffectView>::empty(),
        ensures
            leads_to(final(self), final(fx), r, step(
                (ActorView {
                    phase: PhaseView::Saving { key: key.deep_view(), result: result.deep_view(), deadline },
                    ..old(self).deep_view()
                }),
                InputView::Stored(result_view(stored)),
                moment,
            )),
    {
        match stored {
            Ok(()) => self.on_saved(fx, result, deadline, moment),
            Err(failure) => self.stop(
                fx,
                Err(Error::ToolWriteUncertain { key, result, message: words(failure) }),
            ),
        }
    }

    fn on_draining(&mut self, fx: &mut Vec<Effect>, left: usize, input: Input, moment: Moment) -> (r:
        Request)
        requires
            left > 0,
            queue_len(old(self).deep_view().queue) <= usize::MAX,
            expects(PhaseView::Draining { left }, input.deep_view()),
            old(fx).deep_view() == Seq::<EffectView>::empty(),
        ensures
            leads_to(final(self), final(fx), r, step(
                (ActorView { phase: PhaseView::Draining { left }, ..old(self).deep_view() }),
                input.deep_view(),
                moment,
            )),
    {
        self.phase = Phase::Draining { left };
        match input {
            Input::Command(command) => self.on_command(
                fx,
                command,
                Origin::Draining { left: left - 1 },
                moment,
            ),
            _ => self.after_drain(fx, moment),
        }
    }

    fn on_idle(&mut self, fx: &mut Vec<Effect>, input: Input, moment: Moment) -> (r: Request)
        requires
            queue_len(old(self).deep_view().queue) <= usize::MAX,
            expects(PhaseView::Idle, input.deep_view()),
            old(fx).deep_view() == Seq::<EffectView>::empty(),
        ensures
            leads_to(final(self), final(fx), r, step(
                (ActorView { phase: PhaseView::Idle, ..old(self).deep_view() }),
                input.deep_view(),
                moment,
            )),
    {
        self.phase = Phase::Idle;
        match input {
            Input::Command(command) => self.on_command(fx, command, Origin::Idle, moment),
            Input::Closed => self.stop(fx, Ok(EndReason::Aborted)),
            _ => self.stop(fx, Ok(EndReason::LoopTimedOut)),
        }
    }

    fn act(&mut self, fx: &mut Vec<Effect>, phase: Phase, input: Input, moment: Moment) -> (r: Request)
        requires
            is_in_order((ActorView { phase: phase.deep_view(), ..old(self).deep_view() })),
            expects(phase.deep_view(), input.deep_view()),
            old(fx).deep_view() == Seq::<EffectView>::empty(),
        ensures
            leads_to(final(self), final(fx), r, step(
                (ActorView { phase: phase.deep_view(), ..old(self).deep_view() }),
                input.deep_view(),
                moment,
            )),
    {
        match phase {
            Phase::Repairing { results, deadline, after } => {
                assert(results.deep_view().len() == results.len());
                match input {
                    Input::Loaded(loaded) => self.on_loaded(
                        fx,
                        results,
                        deadline,
                        after,
                        loaded,
                        moment,
                    ),
                    _ => self.stop(fx, Err(Error::TaskPanicked)),
                }
            },
            Phase::Committing { commit, after } => match input {
                Input::Stored(stored) => self.on_committed(fx, commit, after, stored, moment),
                _ => self.stop(fx, Err(Error::TaskPanicked)),
            },
            Phase::Draining { left } => self.on_draining(fx, left, input, moment),
            Phase::Idle => self.on_idle(fx, input, moment),
            Phase::Submitting { entry, reply, origin } => match input {
                Input::Submitted(answer) => {
                    let ghost (e, w) = (entry.deep_view(), result_view(answer));
                    proof {
                        let a = (ActorView {
                            phase: PhaseView::Submitting { entry: e, reply, origin },
                            ..self.deep_view()
                        });
                        lemma_submitted_ignores_phase(a, self.deep_view().phase, e, reply, origin, w, moment);
                    }
                    self.on_submitted(fx, entry, reply, origin, answer, moment)
                },
                _ => self.stop(fx, Err(Error::TaskPanicked)),
            },
            Phase::Opening => self.wait_for_turn(fx),
            Phase::Running => self.on_turn(fx, input, moment),
            Phase::Saving { key, result, deadline } => match input {
                Input::Stored(stored) => self.on_save_answer(fx, key, result, deadline, stored, moment),
                _ => self.stop(fx, Err(Error::TaskPanicked)),
            },
            Phase::Settling => self.on_settling(fx, input, moment),
            Phase::Stopped => self.stop(fx, Err(Error::TaskPanicked)),
        }
    }
}

} // verus!
