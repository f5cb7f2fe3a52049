//! What a session keeps, whatever happens.
use crate::journal::{
    answers, fault_at, is_history, is_journal, law_batch_closes_the_tail,
    law_journals_are_not_refused, law_only_the_seam_matters, seam, tail_calls,
};
use crate::message::{call_ids, result_blocks, MessageView, ToolCallView, ToolResultView};
use crate::protocol::{
    accept, after_drain, begin_commit, call_with, collect, commit_of, end_turn, expects,
    failure_text, fresh_turn, held, held_for, hold, idle_replies, io_deadline, is_new, later,
    next_round, on_checkpoint, on_command, on_saved, on_submitted, record_outcome, recovery_result,
    repair, resume_answer, resume_origin, step, still_open, tail_key, turn_outcome, ActorView,
    After, CheckpointView, CommandView, EffectView, FailureView, InputView, Moment, Origin,
    PhaseView, RequestView, StepView,
};
use crate::queue::{
    law_push_adds_one, law_turns_lose_nothing, queue_has, queue_len, queue_next, queue_push,
    queue_rest, QueueView,
};
use crate::session::{EndReasonView, ErrorView};
use crate::store::{
    acks_fault, after_commit, commit_answer, commit_ids, entry_ids, entry_messages, is_sound,
    CommitView, InboxEntryView, InboxStatus, SnapshotView,
};
use vstd::prelude::*;

verus! {

/// The saved results belong to open calls, and no call has two.
pub open spec fn receipts_fit(receipts: Seq<ToolResultView>, open: Seq<ToolCallView>) -> bool {
    &&& forall|k: int| 0 <= k < receipts.len() ==> call_ids(open).contains((#[trigger] receipts[k]).call)
    &&& forall|j: int, k: int|
        0 <= j < k < receipts.len() ==> (#[trigger] receipts[j]).call != (#[trigger] receipts[k]).call
}

/// The saved result of a call is there exactly when some saved result is for that call.
pub(crate) proof fn lemma_held(receipts: Seq<ToolResultView>, id: Seq<char>)
    ensures
        match held(receipts, id) {
            Some(result) => result.call == id && receipts.contains(result),
            None => forall|k: int| 0 <= k < receipts.len() ==> (#[trigger] receipts[k]).call != id,
        },
    decreases receipts.len(),
{
    if receipts.len() > 0 {
        let rest = receipts.drop_last();
        lemma_held(rest, id);
        if receipts.last().call == id {
            assert(receipts[receipts.len() - 1] == receipts.last());
        } else if held(rest, id) is Some {
            let k = choose|k: int| 0 <= k < rest.len() && rest[k] == held(rest, id)->0;
            assert(receipts[k] == rest[k]);
        } else {
            assert forall|k: int| 0 <= k < receipts.len() implies (#[trigger] receipts[k]).call != id by {
                if k < rest.len() {
                    assert(rest[k] == receipts[k]);
                }
            }
        }
    }
}

/// Keeping a result keeps the others, and finds a place for it.
pub(crate) proof fn lemma_hold(receipts: Seq<ToolResultView>, result: ToolResultView, open: Seq<ToolCallView>)
    requires
        receipts_fit(receipts, open),
        call_ids(open).contains(result.call),
    ensures
        receipts_fit(hold(receipts, result), open),
        forall|k: int|
            0 <= k < hold(receipts, result).len() ==> (#[trigger] hold(receipts, result)[k]) == result
                || receipts.contains(hold(receipts, result)[k]),
    decreases receipts.len(),
{
    let next = hold(receipts, result);
    if receipts.len() > 0 {
        let rest = receipts.drop_last();
        assert forall|j: int| 0 <= j < rest.len() implies rest[j] == receipts[j] by {}
        assert(receipts_fit(rest, open)) by {
            assert forall|k: int| 0 <= k < rest.len() implies call_ids(open).contains((#[trigger] rest[k]).call) by {
                assert(receipts[k] == rest[k]);
            }
            assert forall|j: int, k: int| 0 <= j < k < rest.len() implies (#[trigger] rest[j]).call
                != (#[trigger] rest[k]).call by {
                assert(receipts[j].call != receipts[k].call);
            }
        }
        lemma_hold(rest, result, open);
        let n = receipts.len() - 1;
        assert(receipts[n] == receipts.last());
        if receipts.last().call == result.call {
            assert forall|j: int, k: int| 0 <= j < k < next.len() implies (#[trigger] next[j]).call
                != (#[trigger] next[k]).call by {
                assert(receipts[j].call != receipts[k].call);
            }
            assert forall|k: int| 0 <= k < next.len() implies (#[trigger] next[k]) == result
                || receipts.contains(next[k]) by {
                if k < n {
                    assert(next[k] == receipts[k]);
                }
            }
            assert forall|k: int| 0 <= k < next.len() implies call_ids(open).contains(
                (#[trigger] next[k]).call,
            ) by {
                if k < n {
                    assert(next[k] == receipts[k]);
                }
            }
        } else {
            let inner = hold(rest, result);
            assert(next == inner.push(receipts.last()));
            assert forall|k: int| 0 <= k < next.len() implies ((#[trigger] next[k]) == result
                || receipts.contains(next[k])) && call_ids(open).contains(next[k].call) by {
                if k < inner.len() {
                    assert(next[k] == inner[k]);
                    if inner[k] != result {
                        let i = choose|i: int| 0 <= i < rest.len() && rest[i] == inner[k];
                        assert(receipts[i] == inner[k]);
                    }
                } else {
                    assert(next[k] == receipts[n]);
                }
            }
            assert forall|j: int, k: int| 0 <= j < k < next.len() implies (#[trigger] next[j]).call
                != (#[trigger] next[k]).call by {
                assert(next[j] == inner[j]);
                if k < inner.len() {
                    assert(next[k] == inner[k]);
                } else if inner[j] != result {
                    let i = choose|i: int| 0 <= i < rest.len() && rest[i] == inner[j];
                    assert(receipts[i].call != receipts[n].call);
                }
            }
        }
    }
}

/// As many saved results as open calls are a result for each of them.
pub(crate) proof fn lemma_all_held(receipts: Seq<ToolResultView>, open: Seq<ToolCallView>, c: int)
    requires
        receipts_fit(receipts, open),
        receipts.len() == open.len(),
        call_ids(open).no_duplicates(),
        0 <= c < open.len(),
    ensures
        held(receipts, open[c].id) is Some,
{
    let ids = call_ids(open);
    let answered = Seq::new(receipts.len(), |k: int| receipts[k].call);
    assert forall|j: int, k: int| 0 <= j < k < answered.len() implies answered[j] != answered[k] by {
        assert(receipts[j].call != receipts[k].call);
    }
    assert forall|id: Seq<char>| answered.to_set().contains(id) implies ids.to_set().contains(id) by {
        let k = choose|k: int| 0 <= k < answered.len() && answered[k] == id;
        assert(ids.contains(receipts[k].call));
    }
    ids.unique_seq_to_set();
    answered.unique_seq_to_set();
    vstd::seq_lib::seq_to_set_is_finite(ids);
    vstd::seq_lib::seq_to_set_is_finite(answered);
    vstd::set_lib::lemma_subset_equality(answered.to_set(), ids.to_set());
    assert(ids.contains(ids[c]));
    assert(answered.to_set().contains(ids[c]));
    let k = choose|k: int| 0 <= k < answered.len() && answered[k] == ids[c];
    assert(receipts[k].call == open[c].id);
    lemma_held(receipts, open[c].id);
}

/// The open calls of a journal have distinct ids.
pub(crate) proof fn lemma_open_ids(history: Seq<MessageView>)
    requires
        is_journal(history),
    ensures
        call_ids(tail_calls(history)).no_duplicates(),
{
    if history.len() > 0 {
        assert(fault_at(history, history.len() - 1) is None);
    }
}

/// What holds of a session in every phase.
pub open spec fn is_consistent(a: ActorView) -> bool {
    &&& a.capacity > 0
    &&& is_journal(a.history)
    &&& queue_len(a.queue) <= a.capacity
    &&& a.waiters.len() <= a.capacity
    &&& receipts_fit(a.receipts, tail_calls(a.history))
}

/// What holds of a session that waits in this phase.
pub open spec fn fits_phase(a: ActorView) -> bool {
    let open = tail_calls(a.history);
    match a.phase {
        PhaseView::Repairing { results, after, .. } => {
            &&& results.len() < open.len()
            &&& forall|k: int| 0 <= k < results.len() ==> answers(#[trigger] open[k], results[k])
            &&& after is Start || (after is Record && a.turn.reason is Some)
        },
        PhaseView::Committing { commit, after } => {
            &&& commit.expected_messages == a.history.len() as usize
            &&& is_journal(a.history + commit.messages)
            &&& match after {
                After::Start => is_history(a.history + commit.messages) && a.receipts.len() == 0,
                After::Open => is_history(a.history) && a.turn.reason is None,
                After::Release => true,
                After::Record => is_history(a.history + commit.messages) && a.receipts.len() == 0
                    && a.turn.reason is Some,
                After::Finish => commit.messages.len() == 0 && is_history(a.history)
                    && a.turn.reason is Some && commit.outcome is Some && commit.outcome->0.reason
                    == a.turn.reason->0,
            }
        },
        PhaseView::Draining { left } => 0 < left && is_history(a.history),
        PhaseView::Idle => is_history(a.history),
        PhaseView::Submitting { entry, origin, .. } => {
            &&& queue_has(a.queue, entry.id) || queue_len(a.queue) < a.capacity
            &&& if origin is Running {
                a.turn.reason is None
            } else {
                is_history(a.history)
            }
        },
        PhaseView::Opening => a.history.len() > 0 && a.turn.reason is None,
        PhaseView::Running => a.turn.reason is None,
        PhaseView::Saving { key, result, .. } => {
            &&& call_ids(open).contains(result.call)
            &&& key == tail_key(a.history, result.call)
        },
        PhaseView::Settling => a.turn.reason is Some,
        PhaseView::Stopped => true,
    }
}

/// A session that keeps its rules: the journal is one, what waits is within the capacity, saved
/// results belong to open calls, and between two turns no call is open.
pub open spec fn is_in_order(a: ActorView) -> bool {
    is_consistent(a) && fits_phase(a)
}

/// Nothing is saved where no call is open.
proof fn lemma_no_receipts(a: ActorView)
    requires
        receipts_fit(a.receipts, tail_calls(a.history)),
        tail_calls(a.history).len() == 0,
    ensures
        a.receipts.len() == 0,
{
    if a.receipts.len() > 0 {
        assert(call_ids(tail_calls(a.history)).contains(a.receipts[0].call));
    }
}

proof fn lemma_next_round(a: ActorView, fx: Seq<EffectView>, now: u128)
    requires
        is_consistent(a),
        is_history(a.history),
    ensures
        is_in_order(next_round(a, fx, now).actor),
{
}

proof fn lemma_begin_commit(a: ActorView, fx: Seq<EffectView>, commit: CommitView, deadline: u128, after: After)
    requires
        is_consistent(a),
        commit.expected_messages == a.history.len() as usize,
        match after {
            After::Start => is_history(a.history + commit.messages) && a.receipts.len() == 0,
            After::Open => is_history(a.history) && a.turn.reason is None,
            After::Release => true,
            After::Record => is_history(a.history + commit.messages) && a.receipts.len() == 0
                && a.turn.reason is Some,
            After::Finish => commit.messages.len() == 0 && is_history(a.history)
                && a.turn.reason is Some && commit.outcome is Some && commit.outcome->0.reason
                == a.turn.reason->0,
        },
    ensures
        is_in_order(begin_commit(a, fx, commit, deadline, after).actor),
{
    law_journals_are_not_refused(seam(a.history) + commit.messages);
    law_only_the_seam_matters(a.history, commit.messages);
}

proof fn lemma_record_outcome(a: ActorView, fx: Seq<EffectView>, moment: Moment)
    requires
        is_consistent(a),
        is_history(a.history),
        a.turn.reason is Some,
    ensures
        is_in_order(record_outcome(a, fx, moment).actor),
{
    let commit = commit_of(
        a,
        moment.commit_id,
        Seq::empty(),
        Seq::empty(),
        Some(turn_outcome(a.turn, moment)),
    );
    lemma_begin_commit(a, fx, commit, a.turn.finalization, After::Finish);
}

proof fn lemma_collect(
    a: ActorView,
    fx: Seq<EffectView>,
    results: Seq<ToolResultView>,
    deadline: u128,
    after: After,
    commit_id: u128,
)
    requires
        is_consistent(a),
        0 < tail_calls(a.history).len(),
        results.len() <= tail_calls(a.history).len(),
        forall|k: int|
            0 <= k < results.len() ==> answers(#[trigger] tail_calls(a.history)[k], results[k]),
        after is Start || (after is Record && a.turn.reason is Some),
    ensures
        is_in_order(collect(a, fx, results, deadline, after, commit_id).actor),
    decreases tail_calls(a.history).len() - results.len(),
{
    let open = tail_calls(a.history);
    if results.len() >= open.len() {
        let b = ActorView { receipts: Seq::empty(), ..a };
        let message = MessageView::User { content: result_blocks(results) };
        let commit = commit_of(a, commit_id, seq![message], Seq::empty(), None);
        law_batch_closes_the_tail(a.history, results);
        assert(a.history + seq![message] =~= a.history.push(message));
        lemma_begin_commit(b, fx, commit, deadline, after);
    } else {
        let call = open[results.len() as int];
        if let Some(result) = held(a.receipts, call.id) {
            lemma_accept(a, fx, results, result, deadline, after, commit_id);
        }
    }
}

proof fn lemma_accept(
    a: ActorView,
    fx: Seq<EffectView>,
    results: Seq<ToolResultView>,
    result: ToolResultView,
    deadline: u128,
    after: After,
    commit_id: u128,
)
    requires
        is_consistent(a),
        results.len() < tail_calls(a.history).len(),
        forall|k: int|
            0 <= k < results.len() ==> answers(#[trigger] tail_calls(a.history)[k], results[k]),
        after is Start || (after is Record && a.turn.reason is Some),
    ensures
        is_in_order(accept(a, fx, results, result, deadline, after, commit_id).actor),
    decreases tail_calls(a.history).len() - results.len(), 0nat,
{
    if answers(tail_calls(a.history)[results.len() as int], result) {
        lemma_collect(a, fx, results.push(result), deadline, after, commit_id);
    }
}

pub(crate) proof fn lemma_repair(a: ActorView, fx: Seq<EffectView>, deadline: u128, after: After, moment: Moment)
    requires
        is_consistent(a),
        after is Start || (after is Record && a.turn.reason is Some),
    ensures
        is_in_order(repair(a, fx, deadline, after, moment).actor),
{
    if tail_calls(a.history).len() == 0 {
        if after is Record {
            lemma_record_outcome(a, fx, moment);
        }
    } else {
        lemma_collect(a, fx, Seq::empty(), deadline, after, moment.commit_id);
    }
}

proof fn lemma_after_drain(a: ActorView, fx: Seq<EffectView>, moment: Moment)
    requires
        is_consistent(a),
        is_history(a.history),
    ensures
        is_in_order(after_drain(a, fx, moment).actor),
{
    if !a.paused && queue_next(a.queue) is Some {
        law_turns_lose_nothing(a.queue);
        let b = ActorView {
            queue: queue_rest(a.queue),
            turn: fresh_turn(a, moment.now),
            idle: false,
            ..a
        };
        let entries = queue_next(a.queue)->0;
        lemma_begin_commit(
            b,
            fx,
            commit_of(b, moment.commit_id, entry_messages(entries), entry_ids(entries), None),
            io_deadline(b, moment.now, b.turn.deadline),
            After::Open,
        );
    }
}

proof fn lemma_resume_origin(a: ActorView, fx: Seq<EffectView>, origin: Origin, moment: Moment)
    requires
        is_consistent(a),
        if origin is Running {
            a.turn.reason is None
        } else {
            is_history(a.history)
        },
    ensures
        is_in_order(resume_origin(a, fx, origin, moment).actor),
{
    if origin is Draining {
        lemma_after_drain(a, fx, moment);
    }
}

proof fn lemma_still_open(waiters: Seq<u64>, closed: Seq<u64>)
    ensures
        still_open(waiters, closed).len() <= waiters.len(),
    decreases waiters.len(),
{
    if waiters.len() > 0 {
        lemma_still_open(waiters.drop_last(), closed);
    }
}

proof fn lemma_on_command(a: ActorView, command: CommandView, origin: Origin, moment: Moment)
    requires
        is_consistent(a),
        if origin is Running {
            a.turn.reason is None
        } else {
            is_history(a.history)
        },
    ensures
        is_in_order(on_command(a, command, origin, moment).actor),
{
    let none = Seq::<EffectView>::empty();
    match command {
        CommandView::Submit { entry, reply } => {
            lemma_resume_origin(
                a,
                none.push(EffectView::SubmitReply { reply, result: Err(ErrorView::QueueFull) }),
                origin,
                moment,
            );
        },
        CommandView::Resume { reply } => {
            if origin is Running {
                lemma_resume_origin(
                    a,
                    none.push(EffectView::ResumeReply { reply, result: Ok(()) }),
                    origin,
                    moment,
                );
            } else {
                let b = if resume_answer(a) is Ok {
                    ActorView { queue: QueueView { resume: true, ..a.queue }, ..a }
                } else {
                    a
                };
                lemma_resume_origin(
                    b,
                    none.push(EffectView::ResumeReply { reply, result: resume_answer(a) }),
                    origin,
                    moment,
                );
            }
        },
        CommandView::Pause => {
            lemma_resume_origin(ActorView { paused: true, ..a }, none, origin, moment);
        },
        CommandView::Abort => {},
        CommandView::Wait { reply, closed } => {
            let waiters = still_open(a.waiters, closed);
            lemma_still_open(a.waiters, closed);
            if waiters.len() >= a.capacity {
                lemma_resume_origin(
                    ActorView { waiters, ..a },
                    none.push(EffectView::WaitReply { reply, result: Err(ErrorView::QueueFull) }),
                    origin,
                    moment,
                );
            } else {
                lemma_resume_origin(
                    ActorView { waiters: waiters.push(reply), ..a },
                    none,
                    origin,
                    moment,
                );
            }
        },
        CommandView::History { reply } => {
            lemma_resume_origin(
                a,
                none.push(EffectView::HistoryReply { reply, history: a.history }),
                origin,
                moment,
            );
        },
    }
}

proof fn lemma_on_submitted(
    a: ActorView,
    entry: InboxEntryView,
    reply: u64,
    origin: Origin,
    answer: Result<InboxStatus, FailureView>,
    moment: Moment,
)
    requires
        is_consistent(a),
        queue_has(a.queue, entry.id) || queue_len(a.queue) < a.capacity,
        if origin is Running {
            a.turn.reason is None
        } else {
            is_history(a.history)
        },
    ensures
        is_in_order(on_submitted(a, entry, reply, origin, answer, moment).actor),
{
    let none = Seq::<EffectView>::empty();
    match answer {
        Ok(status) => {
            let b = if is_new(a, entry, status) {
                ActorView { queue: queue_push(a.queue, entry), ..a }
            } else {
                a
            };
            law_push_adds_one(a.queue, entry, entry);
            lemma_resume_origin(
                b,
                none.push(EffectView::SubmitReply { reply, result: Ok(status) }),
                origin,
                moment,
            );
        },
        Err(FailureView::TimedOut) => {},
        Err(FailureView::Refused(text)) => {
            lemma_resume_origin(
                a,
                none.push(
                    EffectView::SubmitReply {
                        reply,
                        result: Err(
                            ErrorView::Store {
                                operation: "submit inbox (retry the same entry)"@,
                                message: text,
                            },
                        ),
                    },
                ),
                origin,
                moment,
            );
        },
    }
}

proof fn lemma_call_with(calls: Seq<ToolCallView>, id: Seq<char>)
    ensures
        match call_with(calls, id) {
            Some(call) => call.id == id && calls.contains(call) && call_ids(calls).contains(id),
            None => !call_ids(calls).contains(id),
        },
    decreases calls.len(),
{
    if calls.len() > 0 {
        let rest = calls.skip(1);
        lemma_call_with(rest, id);
        if calls[0].id == id {
            assert(call_ids(calls)[0] == id);
        } else if call_with(rest, id) is Some {
            let k = choose|k: int| 0 <= k < rest.len() && rest[k] == call_with(rest, id)->0;
            assert(calls[k + 1] == rest[k]);
            assert(call_ids(calls)[k + 1] == id);
        } else {
            assert forall|k: int| 0 <= k < calls.len() implies call_ids(calls)[k] != id by {
                if k > 0 {
                    assert(call_ids(rest)[k - 1] == call_ids(calls)[k]);
                }
            }
        }
    }
}

proof fn lemma_on_checkpoint(a: ActorView, checkpoint: CheckpointView, deadline: u128, moment: Moment)
    requires
        is_consistent(a),
    ensures
        is_in_order(on_checkpoint(a, checkpoint, deadline, moment).actor),
{
    let none = Seq::<EffectView>::empty();
    match checkpoint {
        CheckpointView::BeforeRequest(_) => {},
        CheckpointView::BeforeTool(_) => {},
        CheckpointView::Assistant(message) => {
            lemma_begin_commit(
                ActorView { receipts: Seq::empty(), ..a },
                none,
                commit_of(a, moment.commit_id, seq![message], Seq::empty(), None),
                deadline,
                After::Release,
            );
        },
        CheckpointView::Result { id, .. } => {
            lemma_call_with(tail_calls(a.history), id);
        },
    }
}

proof fn lemma_on_saved(a: ActorView, result: ToolResultView, deadline: u128, moment: Moment)
    requires
        is_consistent(a),
        call_ids(tail_calls(a.history)).contains(result.call),
    ensures
        is_in_order(on_saved(a, result, deadline, moment).actor),
{
    let none = Seq::<EffectView>::empty();
    let receipts = hold(a.receipts, result);
    let b = ActorView { receipts, ..a };
    lemma_hold(a.receipts, result, tail_calls(a.history));
    let batch = held_for(receipts, tail_calls(a.history));
    lemma_begin_commit(
        b,
        none,
        commit_of(
            b,
            moment.commit_id,
            seq![MessageView::User { content: result_blocks(batch) }],
            Seq::empty(),
            None,
        ),
        deadline,
        After::Release,
    );
}

proof fn lemma_committed(a: ActorView, commit: CommitView, after: After, moment: Moment)
    requires
        is_in_order(a),
        a.phase == (PhaseView::Committing { commit, after }),
    ensures
        is_in_order(step(a, InputView::Stored(Ok(())), moment).actor),
{
    let b = ActorView { history: a.history + commit.messages, ..a };
    let fx = Seq::<EffectView>::empty().push(EffectView::Committed(commit));
    match after {
        After::Start => {
            lemma_next_round(b, fx, moment.now);
        },
        After::Open => {
            lemma_no_receipts(a);
        },
        After::Release => {},
        After::Record => {
            lemma_record_outcome(b, fx, moment);
        },
        After::Finish => {
            assert(a.history + commit.messages =~= a.history);
        },
    }
}

/// A session that keeps its rules keeps them whatever happens.
pub proof fn law_steps_keep_order(a: ActorView, input: InputView, moment: Moment)
    requires
        is_in_order(a),
        expects(a.phase, input),
    ensures
        is_in_order(step(a, input, moment).actor),
{
    let none = Seq::<EffectView>::empty();
    match (a.phase, input) {
        (PhaseView::Repairing { results, deadline, after }, InputView::Loaded(Ok(stored))) => {
            let call = tail_calls(a.history)[results.len() as int];
            let result = match stored {
                Some(result) => result,
                None => recovery_result(call),
            };
            lemma_accept(a, none, results, result, deadline, after, moment.commit_id);
        },
        (PhaseView::Committing { commit, after }, InputView::Stored(Ok(()))) => {
            lemma_committed(a, commit, after, moment);
        },
        (PhaseView::Draining { left }, InputView::Command(command)) => {
            lemma_on_command(a, command, Origin::Draining { left: (left - 1) as usize }, moment);
        },
        (PhaseView::Draining { .. }, _) => {
            lemma_after_drain(a, none, moment);
        },
        (PhaseView::Idle, InputView::Command(command)) => {
            lemma_on_command(a, command, Origin::Idle, moment);
        },
        (PhaseView::Submitting { entry, reply, origin }, InputView::Submitted(answer)) => {
            lemma_on_submitted(a, entry, reply, origin, answer, moment);
        },
        (PhaseView::Running, InputView::Checkpoint(checkpoint)) => {
            lemma_on_checkpoint(
                a,
                checkpoint,
                io_deadline(a, moment.now, a.turn.deadline),
                moment,
            );
        },
        (PhaseView::Running, InputView::Command(command)) => {
            lemma_on_command(a, command, Origin::Running, moment);
        },
        (PhaseView::Saving { result, deadline, .. }, InputView::Stored(Ok(()))) => {
            lemma_on_saved(a, result, deadline, moment);
        },
        (PhaseView::Settling, InputView::Checkpoint(checkpoint)) => {
            lemma_on_checkpoint(a, checkpoint, a.turn.finalization, moment);
        },
        (PhaseView::Settling, _) => {
            lemma_repair(
                a,
                none.push(EffectView::CloseTurn),
                a.turn.finalization,
                After::Record,
                moment,
            );
        },
        _ => {},
    }
}

/// What is collected does not depend on the phase that the session was in.
pub(crate) proof fn lemma_collect_ignores_phase(
    a: ActorView,
    phase: PhaseView,
    fx: Seq<EffectView>,
    results: Seq<ToolResultView>,
    deadline: u128,
    after: After,
    commit_id: u128,
)
    ensures
        collect(ActorView { phase, ..a }, fx, results, deadline, after, commit_id) == collect(
            a,
            fx,
            results,
            deadline,
            after,
            commit_id,
        ),
    decreases tail_calls(a.history).len() - results.len(),
{
    let open = tail_calls(a.history);
    if results.len() < open.len() {
        if let Some(result) = held(a.receipts, open[results.len() as int].id) {
            if answers(open[results.len() as int], result) {
                lemma_collect_ignores_phase(
                    a,
                    phase,
                    fx,
                    results.push(result),
                    deadline,
                    after,
                    commit_id,
                );
            }
        }
    }
}

pub(crate) proof fn lemma_submitted_ignores_phase(
    a: ActorView,
    phase: PhaseView,
    entry: InboxEntryView,
    reply: u64,
    origin: Origin,
    answer: Result<InboxStatus, FailureView>,
    moment: Moment,
)
    ensures
        on_submitted(ActorView { phase, ..a }, entry, reply, origin, answer, moment) == on_submitted(
            a,
            entry,
            reply,
            origin,
            answer,
            moment,
        ),
{
}

/// Collecting results writes nothing: it asks for a result, for a commit, or stops.
proof fn lemma_collect_writes_nothing(
    a: ActorView,
    fx: Seq<EffectView>,
    results: Seq<ToolResultView>,
    deadline: u128,
    after: After,
    commit_id: u128,
)
    ensures
        ({
            let next = collect(a, fx, results, deadline, after, commit_id);
            &&& next.actor.history == a.history
            &&& next.actor.queue == a.queue
            &&& next.effects == fx
            &&& next.request matches RequestView::Commit { commit, .. } ==> next.actor.phase == (
            PhaseView::Committing { commit, after })
        }),
    decreases tail_calls(a.history).len() - results.len(),
{
    let open = tail_calls(a.history);
    if results.len() < open.len() {
        if let Some(result) = held(a.receipts, open[results.len() as int].id) {
            if answers(open[results.len() as int], result) {
                lemma_collect_writes_nothing(
                    a,
                    fx,
                    results.push(result),
                    deadline,
                    after,
                    commit_id,
                );
            }
        }
    }
}

/// What a commit adds to a history once the store has confirmed it.
pub open spec fn confirmed(a: ActorView, input: InputView) -> Seq<MessageView> {
    match (a.phase, input) {
        (PhaseView::Committing { commit, .. }, InputView::Stored(Ok(_))) => commit.messages,
        _ => Seq::empty(),
    }
}

/// A step that leaves the journal as it is; a commit that it asks for is the one it waits for.
spec fn writes_nothing(a: ActorView, next: StepView) -> bool {
    &&& next.actor.history == a.history
    &&& next.request matches RequestView::Commit { commit, .. } ==> next.actor.phase is Committing
        && next.actor.phase->commit == commit
}

/// A step that lets no checkpoint pass that was not let pass before.
spec fn releases_nothing(fx: Seq<EffectView>, next: StepView) -> bool {
    next.effects.contains(EffectView::Release) ==> fx.contains(EffectView::Release)
}

proof fn lemma_after_drain_writes_nothing(a: ActorView, fx: Seq<EffectView>, moment: Moment)
    ensures
        writes_nothing(a, after_drain(a, fx, moment)),
        releases_nothing(fx, after_drain(a, fx, moment)),
{
    let next = after_drain(a, fx, moment);
    if next.actor.phase is Idle && next.effects.contains(EffectView::Release) {
        let i = choose|i: int| 0 <= i < next.effects.len() && next.effects[i] == EffectView::Release;
        assert(i < fx.len());
        assert(fx[i] == EffectView::Release);
    }
}

proof fn lemma_resume_origin_writes_nothing(a: ActorView, fx: Seq<EffectView>, origin: Origin, moment: Moment)
    ensures
        writes_nothing(a, resume_origin(a, fx, origin, moment)),
        releases_nothing(fx, resume_origin(a, fx, origin, moment)),
{
    lemma_after_drain_writes_nothing(a, fx, moment);
}

proof fn lemma_on_command_writes_nothing(a: ActorView, command: CommandView, origin: Origin, moment: Moment)
    ensures
        writes_nothing(a, on_command(a, command, origin, moment)),
        releases_nothing(Seq::empty(), on_command(a, command, origin, moment)),
{
    let none = Seq::<EffectView>::empty();
    match command {
        CommandView::Submit { reply, .. } => {
            let fx = none.push(
                EffectView::SubmitReply { reply, result: Err(ErrorView::QueueFull) },
            );
            lemma_resume_origin_writes_nothing(a, fx, origin, moment);
        },
        CommandView::Resume { reply } => {
            if origin is Running {
                let fx = none.push(EffectView::ResumeReply { reply, result: Ok(()) });
                lemma_resume_origin_writes_nothing(a, fx, origin, moment);
            } else {
                let b = if resume_answer(a) is Ok {
                    ActorView { queue: QueueView { resume: true, ..a.queue }, ..a }
                } else {
                    a
                };
                let fx = none.push(EffectView::ResumeReply { reply, result: resume_answer(a) });
                lemma_resume_origin_writes_nothing(b, fx, origin, moment);
            }
        },
        CommandView::Pause => {
            lemma_resume_origin_writes_nothing(ActorView { paused: true, ..a }, none, origin, moment);
        },
        CommandView::Abort => {},
        CommandView::Wait { reply, closed } => {
            let waiters = still_open(a.waiters, closed);
            if waiters.len() >= a.capacity {
                let fx = none.push(
                    EffectView::WaitReply { reply, result: Err(ErrorView::QueueFull) },
                );
                lemma_resume_origin_writes_nothing(ActorView { waiters, ..a }, fx, origin, moment);
            } else {
                lemma_resume_origin_writes_nothing(
                    ActorView { waiters: waiters.push(reply), ..a },
                    none,
                    origin,
                    moment,
                );
            }
        },
        CommandView::History { reply } => {
            let fx = none.push(EffectView::HistoryReply { reply, history: a.history });
            lemma_resume_origin_writes_nothing(a, fx, origin, moment);
        },
    }
}

proof fn lemma_on_submitted_writes_nothing(
    a: ActorView,
    entry: InboxEntryView,
    reply: u64,
    origin: Origin,
    answer: Result<InboxStatus, FailureView>,
    moment: Moment,
)
    ensures
        writes_nothing(a, on_submitted(a, entry, reply, origin, answer, moment)),
        releases_nothing(Seq::empty(), on_submitted(a, entry, reply, origin, answer, moment)),
{
    let none = Seq::<EffectView>::empty();
    match answer {
        Ok(status) => {
            let b = if is_new(a, entry, status) {
                ActorView { queue: queue_push(a.queue, entry), ..a }
            } else {
                a
            };
            let fx = none.push(EffectView::SubmitReply { reply, result: Ok(status) });
            lemma_resume_origin_writes_nothing(b, fx, origin, moment);
        },
        Err(FailureView::TimedOut) => {},
        Err(FailureView::Refused(text)) => {
            let error = ErrorView::Store {
                operation: "submit inbox (retry the same entry)"@,
                message: text,
            };
            let fx = none.push(EffectView::SubmitReply { reply, result: Err(error) });
            lemma_resume_origin_writes_nothing(a, fx, origin, moment);
        },
    }
}

proof fn lemma_on_checkpoint_writes_nothing(
    a: ActorView,
    checkpoint: CheckpointView,
    deadline: u128,
    moment: Moment,
)
    ensures
        writes_nothing(a, on_checkpoint(a, checkpoint, deadline, moment)),
        checkpoint is Assistant || checkpoint is Result ==> releases_nothing(
            Seq::empty(),
            on_checkpoint(a, checkpoint, deadline, moment),
        ),
{
}

proof fn lemma_repairing_writes_nothing(a: ActorView, loaded: Result<Option<ToolResultView>, FailureView>, moment: Moment)
    requires
        a.phase is Repairing,
    ensures
        writes_nothing(a, step(a, InputView::Loaded(loaded), moment)),
        releases_nothing(Seq::empty(), step(a, InputView::Loaded(loaded), moment)),
{
    if let PhaseView::Repairing { results, deadline, after } = a.phase {
        if let Ok(stored) = loaded {
            let result = match stored {
                Some(result) => result,
                None => recovery_result(tail_calls(a.history)[results.len() as int]),
            };
            lemma_collect_writes_nothing(
                a,
                Seq::empty(),
                results.push(result),
                deadline,
                after,
                moment.commit_id,
            );
        }
    }
}

proof fn lemma_settling_writes_nothing(a: ActorView, moment: Moment)
    requires
        a.phase is Settling,
    ensures
        writes_nothing(a, step(a, InputView::NoCheckpoint, moment)),
        releases_nothing(Seq::empty(), step(a, InputView::NoCheckpoint, moment)),
{
    let fx = Seq::<EffectView>::empty().push(EffectView::CloseTurn);
    lemma_collect_writes_nothing(
        a,
        fx,
        Seq::empty(),
        a.turn.finalization,
        After::Record,
        moment.commit_id,
    );
}

proof fn lemma_committed_writes(a: ActorView, stored: Result<(), FailureView>, moment: Moment)
    requires
        a.phase is Committing,
    ensures
        ({
            let next = step(a, InputView::Stored(stored), moment);
            &&& next.actor.history == a.history + confirmed(a, InputView::Stored(stored))
            &&& next.request matches RequestView::Commit { commit, .. } ==> next.actor.phase is Committing
                && next.actor.phase->commit == commit
            &&& stored is Err ==> releases_nothing(Seq::empty(), next)
        }),
{
    assert(a.history + Seq::<MessageView>::empty() =~= a.history);
}

proof fn lemma_saved_writes_nothing(a: ActorView, stored: Result<(), FailureView>, moment: Moment)
    requires
        a.phase is Saving,
    ensures
        writes_nothing(a, step(a, InputView::Stored(stored), moment)),
        stored is Err ==> releases_nothing(
            Seq::empty(),
            step(a, InputView::Stored(stored), moment),
        ),
{
}

/// What every step writes, asks to be written, and lets pass.
proof fn lemma_step_writes(a: ActorView, input: InputView, moment: Moment)
    requires
        expects(a.phase, input),
    ensures
        ({
            let next = step(a, input, moment);
            &&& next.actor.history == a.history + confirmed(a, input)
            &&& next.request matches RequestView::Commit { commit, .. } ==> next.actor.phase is Committing
                && next.actor.phase->commit == commit
            &&& next.effects.contains(EffectView::Release) ==> (input matches InputView::Stored(stored)
                && stored is Ok) || (input matches InputView::Checkpoint(checkpoint) && (
            checkpoint is BeforeRequest || checkpoint is BeforeTool))
        }),
{
    let none = Seq::<EffectView>::empty();
    assert(a.history + Seq::<MessageView>::empty() =~= a.history);
    match a.phase {
        PhaseView::Repairing { .. } => {
            lemma_repairing_writes_nothing(a, input->Loaded_0, moment);
        },
        PhaseView::Committing { .. } => {
            lemma_committed_writes(a, input->Stored_0, moment);
        },
        PhaseView::Draining { left } => {
            if let InputView::Command(command) = input {
                let origin = Origin::Draining { left: (left - 1) as usize };
                lemma_on_command_writes_nothing(a, command, origin, moment);
            } else {
                lemma_after_drain_writes_nothing(a, none, moment);
            }
        },
        PhaseView::Idle => {
            if let InputView::Command(command) = input {
                lemma_on_command_writes_nothing(a, command, Origin::Idle, moment);
            }
        },
        PhaseView::Submitting { entry, reply, origin } => {
            lemma_on_submitted_writes_nothing(a, entry, reply, origin, input->Submitted_0, moment);
        },
        PhaseView::Opening => {},
        PhaseView::Running => {
            if let InputView::Command(command) = input {
                lemma_on_command_writes_nothing(a, command, Origin::Running, moment);
            } else if let InputView::Checkpoint(checkpoint) = input {
                let deadline = io_deadline(a, moment.now, a.turn.deadline);
                lemma_on_checkpoint_writes_nothing(a, checkpoint, deadline, moment);
            }
        },
        PhaseView::Saving { .. } => {
            lemma_saved_writes_nothing(a, input->Stored_0, moment);
        },
        PhaseView::Settling => {
            if let InputView::Checkpoint(checkpoint) = input {
                lemma_on_checkpoint_writes_nothing(a, checkpoint, a.turn.finalization, moment);
            } else {
                lemma_settling_writes_nothing(a, moment);
            }
        },
        PhaseView::Stopped => {},
    }
}

/// The journal of a session is append-only, and grows by nothing but the messages of a commit
/// that the store has confirmed.
pub proof fn law_only_confirmed_commits_extend_history(a: ActorView, input: InputView, moment: Moment)
    requires
        expects(a.phase, input),
    ensures
        step(a, input, moment).actor.history == a.history + confirmed(a, input),
{
    lemma_step_writes(a, input, moment);
}

/// Every commit that a session asks for stands at the end of its journal and leaves a journal.
pub proof fn law_requested_commits_fit(a: ActorView, input: InputView, moment: Moment)
    requires
        is_in_order(a),
        expects(a.phase, input),
    ensures
        step(a, input, moment).request matches RequestView::Commit { commit, .. } ==> {
            let next = step(a, input, moment).actor;
            &&& commit.expected_messages == next.history.len() as usize
            &&& is_journal(next.history + commit.messages)
        },
{
    let next = step(a, input, moment);
    lemma_step_writes(a, input, moment);
    law_steps_keep_order(a, input, moment);
    assert(fits_phase(next.actor));
}

/// A tool or a model goes on after a message of the assistant or a result of a tool only once
/// the store has confirmed that it is saved.
pub proof fn law_nothing_passes_an_unsaved_checkpoint(a: ActorView, input: InputView, moment: Moment)
    requires
        expects(a.phase, input),
        step(a, input, moment).effects.contains(EffectView::Release),
    ensures
        (input matches InputView::Stored(stored) && stored is Ok) || (
        input matches InputView::Checkpoint(checkpoint) && (checkpoint is BeforeRequest
            || checkpoint is BeforeTool)),
{
    lemma_step_writes(a, input, moment);
}

/// A write whose success is unknown or that failed stops the session, and hands back what was to
/// be written.
pub proof fn law_uncertain_writes_stop_the_session(a: ActorView, failure: FailureView, moment: Moment)
    ensures
        a.phase matches PhaseView::Committing { commit, .. } ==> step(
            a,
            InputView::Stored(Err(failure)),
            moment,
        ).request == RequestView::Stop(
            Err(ErrorView::CommitUncertain { commit, message: failure_text(failure) }),
        ),
        a.phase matches PhaseView::Saving { key, result, .. } ==> step(
            a,
            InputView::Stored(Err(failure)),
            moment,
        ).request == RequestView::Stop(
            Err(ErrorView::ToolWriteUncertain { key, result, message: failure_text(failure) }),
        ),
{
}

/// A paused session stops before the next turn, and leaves everything that waits where it is.
pub proof fn law_pause_leaves_the_queue(a: ActorView, moment: Moment)
    requires
        a.paused,
        a.phase is Draining,
    ensures
        step(a, InputView::NoCommand, moment).request == RequestView::Stop(Ok(EndReasonView::Paused)),
        step(a, InputView::NoCommand, moment).actor.queue == a.queue,
        step(a, InputView::NoCommand, moment).actor.history == a.history,
{
}

/// A pause during a turn lets the turn go on; so does an interrupt that arrives after it.
pub proof fn law_pause_lets_the_turn_finish(
    a: ActorView,
    entry: InboxEntryView,
    reply: u64,
    status: InboxStatus,
    moment: Moment,
)
    requires
        a.paused,
        a.turn.reason is None,
        a.phase == (PhaseView::Submitting { entry, reply, origin: Origin::Running }),
    ensures
        step(a, InputView::Submitted(Ok(status)), moment).actor.phase is Running,
        step(
            ActorView { phase: PhaseView::Running, ..a },
            InputView::Command(CommandView::Pause),
            moment,
        ).actor.phase is Running,
{
}

/// A new interrupt ends the running turn and is what the next turn takes up.
pub proof fn law_interrupts_go_first(
    a: ActorView,
    entry: InboxEntryView,
    reply: u64,
    moment: Moment,
)
    requires
        !a.paused,
        entry.kind is Interrupt,
        !queue_has(a.queue, entry.id),
        a.phase == (PhaseView::Submitting { entry, reply, origin: Origin::Running }),
    ensures
        ({
            let next = step(a, InputView::Submitted(Ok(InboxStatus::Pending)), moment).actor;
            &&& next.turn.reason == Some(EndReasonView::Interrupted)
            &&& next.phase is Settling
            &&& queue_next(next.queue) == Some(seq![entry])
        }),
{
}

/// A full session refuses further signals before they reach the store, and says so.
pub proof fn law_overload_is_explicit(
    a: ActorView,
    entry: InboxEntryView,
    reply: u64,
    origin: Origin,
    moment: Moment,
)
    requires
        queue_len(a.queue) >= a.capacity,
        !queue_has(a.queue, entry.id),
    ensures
        ({
            let next = on_command(a, CommandView::Submit { entry, reply }, origin, moment);
            let refused = EffectView::SubmitReply { reply, result: Err(ErrorView::QueueFull) };
            &&& next == resume_origin(a, seq![refused], origin, moment)
            &&& next.effects.len() > 0
            &&& next.effects[0] == refused
            &&& next.request !is Submit
            &&& next.actor.history == a.history
            &&& origin is Running ==> next.effects == seq![refused]
            &&& origin != (Origin::Draining { left: 0 }) ==> next.actor.queue == a.queue
        }),
{
    let refused = EffectView::SubmitReply { reply, result: Err(ErrorView::QueueFull) };
    assert(Seq::<EffectView>::empty().push(refused) =~= seq![refused]);
}

/// A resume runs the last message of the journal again without appending anything.
pub proof fn law_resume_appends_nothing(a: ActorView, moment: Moment)
    requires
        a.phase is Draining,
        !a.paused,
        a.history.len() > 0,
        a.queue.resume,
        a.queue.immediate.len() == 0,
        a.queue.steers.len() == 0,
    ensures
        ({
            let next = step(a, InputView::NoCommand, moment);
            &&& next.request == (RequestView::Open {
                prompt: a.history.last(),
                history: a.history.drop_last(),
                max_turns: a.max_turns,
            })
            &&& next.actor.history == a.history
            &&& !next.actor.queue.resume
        }),
{
}

/// Repeated resumes are one: where one waits already, between two turns or while nothing is to be
/// done, another one leaves what waits as it is. The last command that is taken before a turn is
/// answered, and the turn takes what would have been taken without it.
pub proof fn law_resumes_coalesce(a: ActorView, reply: u64, moment: Moment)
    requires
        a.phase is Idle || (a.phase matches PhaseView::Draining { left } && left > 0),
        a.queue.resume,
    ensures
        ({
            let next = step(a, InputView::Command(CommandView::Resume { reply }), moment);
            let answer = EffectView::ResumeReply { reply, result: resume_answer(a) };
            if a.phase == (PhaseView::Draining { left: 1 }) {
                next == after_drain(a, seq![answer], moment)
            } else {
                next.actor.queue == a.queue && next.effects[0] == answer
            }
        }),
{
    let answer = EffectView::ResumeReply { reply, result: resume_answer(a) };
    assert((QueueView { resume: true, ..a.queue }) == a.queue);
    assert(Seq::<EffectView>::empty().push(answer) =~= seq![answer]);
}

/// The outcome of a turn is durable before the session goes on or stops for its reason.
pub proof fn law_outcomes_are_recorded(a: ActorView, commit: CommitView, moment: Moment)
    requires
        is_in_order(a),
        a.phase == (PhaseView::Committing { commit, after: After::Finish }),
    ensures
        commit.outcome is Some,
        step(a, InputView::Stored(Ok(())), moment).request matches RequestView::Stop(Ok(reason)) ==> {
            reason == commit.outcome->0.reason || reason is LoopTimedOut
        },
{
}

/// Whoever waits is told that nothing is left to do only when nothing is.
pub proof fn law_idle_means_nothing_waits(a: ActorView, moment: Moment)
    requires
        a.phase is Draining,
        step(a, InputView::NoCommand, moment).actor.phase is Idle,
    ensures
        queue_len(a.queue) == 0,
        step(a, InputView::NoCommand, moment).effects == idle_replies(a.waiters) + (if a.idle {
            Seq::empty()
        } else {
            seq![EffectView::Idle]
        }),
{
    let replies = idle_replies(a.waiters);
    assert(Seq::<EffectView>::empty() + replies =~= replies);
}

/// A store that holds the journal of a session accepts every commit that the session asks for,
/// provided that the id is new and the acknowledged entries are pending; afterwards the two hold
/// the same journal again.
pub proof fn law_store_and_session_agree(
    s: SnapshotView,
    a: ActorView,
    commit: CommitView,
    after: After,
    moment: Moment,
)
    requires
        is_sound(s),
        is_in_order(a),
        a.history.len() <= usize::MAX,
        s.history == a.history,
        a.phase == (PhaseView::Committing { commit, after }),
        !commit_ids(s.commits).contains(commit.id),
        acks_fault(s, commit, 0) is None,
    ensures
        commit_answer(s, commit) is Ok,
        after_commit(s, commit).history == step(a, InputView::Stored(Ok(())), moment).actor.history,
{
    law_only_the_seam_matters(a.history, commit.messages);
    law_journals_are_not_refused(seam(a.history) + commit.messages);
    law_only_confirmed_commits_extend_history(a, InputView::Stored(Ok(())), moment);
}

/// By when the store has to answer a request, if it is one to the store.
pub open spec fn storage_deadline(request: RequestView) -> Option<u128> {
    match request {
        RequestView::Load { deadline, .. } => Some(deadline),
        RequestView::Commit { deadline, .. } => Some(deadline),
        RequestView::Submit { deadline, .. } => Some(deadline),
        RequestView::Save { deadline, .. } => Some(deadline),
        _ => None,
    }
}

/// A session that winds up a turn.
pub open spec fn is_winding_up(a: ActorView) -> bool {
    a.turn.reason is Some && match a.phase {
        PhaseView::Settling => true,
        PhaseView::Saving { deadline, .. } => deadline == a.turn.finalization,
        PhaseView::Repairing { deadline, after, .. } => deadline == a.turn.finalization && after is Record,
        PhaseView::Committing { after, .. } => after is Release || after is Record,
        _ => false,
    }
}

/// The commit that ends a turn.
pub open spec fn is_last_commit(phase: PhaseView) -> bool {
    match phase {
        PhaseView::Committing { after, .. } => after is Finish,
        _ => false,
    }
}

/// Whether a step leaves the time for winding up as it is, and asks the store within it.
spec fn stays_within(next: StepView, by: u128) -> bool {
    &&& next.actor.turn.finalization == by
    &&& storage_deadline(next.request) matches Some(deadline) ==> deadline == by
    &&& is_winding_up(next.actor) || next.request is Stop || is_last_commit(next.actor.phase)
}

proof fn lemma_collects_within(a: ActorView, fx: Seq<EffectView>, results: Seq<ToolResultView>, commit_id: u128)
    requires
        a.turn.reason is Some,
    ensures
        stays_within(
            collect(a, fx, results, a.turn.finalization, After::Record, commit_id),
            a.turn.finalization,
        ),
    decreases tail_calls(a.history).len() - results.len(),
{
    let calls = tail_calls(a.history);
    if results.len() < calls.len() {
        let call = calls[results.len() as int];
        if let Some(result) = held(a.receipts, call.id) {
            if answers(call, result) {
                lemma_collects_within(a, fx, results.push(result), commit_id);
            }
        }
    }
}

/// Winding up a turn is bounded by the time that storage may take: the time is set when the turn
/// ends, no step of winding up moves it, and every question to the store is to be answered by it.
pub proof fn law_winding_up_is_bounded(a: ActorView, input: InputView, moment: Moment, reason: EndReasonView)
    requires
        is_in_order(a),
        expects(a.phase, input),
    ensures
        end_turn(a, Seq::empty(), reason, moment.now).actor.turn.finalization == later(
            moment.now,
            a.io_timeout,
        ),
        is_winding_up(a) ==> {
            let next = step(a, input, moment);
            &&& next.actor.turn.finalization == a.turn.finalization
            &&& storage_deadline(next.request) matches Some(deadline) ==> deadline
                == a.turn.finalization
            &&& is_winding_up(next.actor) || next.request is Stop || is_last_commit(
                next.actor.phase,
            )
        },
{
    if is_winding_up(a) {
        let none = Seq::<EffectView>::empty();
        match a.phase {
            PhaseView::Settling => {
                lemma_collects_within(
                    a,
                    none.push(EffectView::CloseTurn),
                    Seq::empty(),
                    moment.commit_id,
                );
            },
            PhaseView::Repairing { results, .. } => {
                if let InputView::Loaded(Ok(stored)) = input {
                    let call = tail_calls(a.history)[results.len() as int];
                    let result = match stored {
                        Some(result) => result,
                        None => recovery_result(call),
                    };
                    lemma_collects_within(a, none, results.push(result), moment.commit_id);
                }
            },
            _ => {},
        }
    }
}

/// The number of those who wait is bounded: a further one is told at once that the session is full.
pub proof fn law_waits_are_bounded(
    a: ActorView,
    reply: u64,
    closed: Seq<u64>,
    origin: Origin,
    moment: Moment,
)
    requires
        is_consistent(a),
    ensures
        still_open(a.waiters, closed).len() >= a.capacity ==> on_command(
            a,
            CommandView::Wait { reply, closed },
            origin,
            moment,
        ) == resume_origin(
            ActorView { waiters: still_open(a.waiters, closed), ..a },
            seq![EffectView::WaitReply { reply, result: Err(ErrorView::QueueFull) }],
            origin,
            moment,
        ),
        still_open(a.waiters, closed).len() < a.capacity ==> on_command(
            a,
            CommandView::Wait { reply, closed },
            origin,
            moment,
        ) == resume_origin(
            ActorView { waiters: still_open(a.waiters, closed).push(reply), ..a },
            Seq::empty(),
            origin,
            moment,
        ),
{
    assert(Seq::<EffectView>::empty().push(
        EffectView::WaitReply { reply, result: Err(ErrorView::QueueFull) },
    ) =~= seq![EffectView::WaitReply { reply, result: Err(ErrorView::QueueFull) }]);
}

} // verus!
