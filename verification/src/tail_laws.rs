//! The repair of a journal's end as a whole, from its first question to the store to its commit.
use crate::journal::{
    answers, is_history, is_journal, law_batch_closes_the_tail, law_journals_are_not_refused,
    law_only_the_seam_matters, seam, tail_calls,
};
use crate::message::{result_blocks, MessageView, ToolResultView};
use crate::protocol::{
    collect, commit_of, first_step, held, proceed, recovery_result, repair, step, tail_key,
    ActorView, After, EffectView, InputView, Moment, PhaseView, RequestView, StepView,
};
use crate::protocol_laws::lemma_held;
use crate::session::ErrorView;
use crate::store::ToolKeyView;
use vstd::prelude::*;

verus! {

/// The result that a repair finds for the `k`th open call: the saved one, else the stored one,
/// else the text that tells that none was recorded, under the identity of the call.
pub open spec fn found_for(
    a: ActorView,
    stored: spec_fn(ToolKeyView) -> Option<ToolResultView>,
    k: int,
) -> ToolResultView {
    let call = tail_calls(a.history)[k];
    match held(a.receipts, call.id) {
        Some(result) => result,
        None => match stored(tail_key(a.history, call.id)) {
            Some(result) => result,
            None => recovery_result(call),
        },
    }
}

/// The results that a repair finds for the open calls, in the order of the calls.
pub open spec fn found_for_all(
    a: ActorView,
    stored: spec_fn(ToolKeyView) -> Option<ToolResultView>,
) -> Seq<ToolResultView> {
    Seq::new(tail_calls(a.history).len(), |k: int| found_for(a, stored, k))
}

/// Whether what is saved and what is stored for the open calls answers them.
pub open spec fn found_results_answer(
    a: ActorView,
    stored: spec_fn(ToolKeyView) -> Option<ToolResultView>,
) -> bool {
    forall|k: int|
        0 <= k < tail_calls(a.history).len() ==> answers(
            #[trigger] tail_calls(a.history)[k],
            found_for(a, stored, k),
        )
}

/// A session once a store has answered its next questions for results, at most `n` of them.
pub open spec fn carried_on(
    next: StepView,
    stored: spec_fn(ToolKeyView) -> Option<ToolResultView>,
    moments: spec_fn(nat) -> Moment,
    n: nat,
) -> StepView
    decreases n,
{
    match next.request {
        RequestView::Load { key, .. } => if n == 0 {
            next
        } else {
            carried_on(
                step(next.actor, InputView::Loaded(Ok(stored(key))), moments(n)),
                stored,
                moments,
                (n - 1) as nat,
            )
        },
        _ => next,
    }
}

/// Whether a repair is at its commit: one message with these results, behind the journal.
spec fn commits_results(
    a: ActorView,
    next: StepView,
    results: Seq<ToolResultView>,
    deadline: u128,
    after: After,
) -> bool {
    next.request matches RequestView::Commit { commit, deadline: by } && by == deadline && commit
        == commit_of(
        a,
        commit.id,
        seq![MessageView::User { content: result_blocks(results) }],
        Seq::empty(),
        None,
    ) && next.actor == (ActorView {
        receipts: Seq::empty(),
        phase: PhaseView::Committing { commit, after },
        ..a
    })
}

proof fn lemma_carried_on(
    a: ActorView,
    fx: Seq<EffectView>,
    results: Seq<ToolResultView>,
    deadline: u128,
    after: After,
    commit_id: u128,
    stored: spec_fn(ToolKeyView) -> Option<ToolResultView>,
    moments: spec_fn(nat) -> Moment,
    n: nat,
)
    requires
        is_journal(a.history),
        tail_calls(a.history).len() > 0,
        found_results_answer(a, stored),
        results.len() <= tail_calls(a.history).len(),
        results == found_for_all(a, stored).take(results.len() as int),
        results.len() + n >= tail_calls(a.history).len(),
    ensures
        commits_results(
            a,
            carried_on(collect(a, fx, results, deadline, after, commit_id), stored, moments, n),
            found_for_all(a, stored),
            deadline,
            after,
        ),
    decreases tail_calls(a.history).len() - results.len(),
{
    let calls = tail_calls(a.history);
    let all = found_for_all(a, stored);
    if results.len() == calls.len() {
        assert(results =~= all);
        assert forall|k: int| 0 <= k < all.len() implies answers(#[trigger] calls[k], all[k]) by {}
        let batch = seq![MessageView::User { content: result_blocks(all) }];
        law_batch_closes_the_tail(a.history, all);
        assert(a.history + batch =~= a.history.push(batch[0]));
        law_only_the_seam_matters(a.history, batch);
        law_journals_are_not_refused(seam(a.history) + batch);
    } else {
        let k = results.len() as int;
        let call = calls[k];
        let result = found_for(a, stored, k);
        assert(answers(call, result));
        assert(results.push(result) =~= all.take(k + 1));
        if held(a.receipts, call.id) is Some {
            lemma_carried_on(
                a,
                fx,
                results.push(result),
                deadline,
                after,
                commit_id,
                stored,
                moments,
                n,
            );
        } else {
            let asking = collect(a, fx, results, deadline, after, commit_id);
            let b = asking.actor;
            let none = Seq::<EffectView>::empty();
            let moment = moments(n);
            assert(found_for_all(b, stored) =~= all);
            assert forall|j: int| 0 <= j < calls.len() implies answers(
                #[trigger] tail_calls(b.history)[j],
                found_for(b, stored, j),
            ) by {
                assert(answers(calls[j], found_for(a, stored, j)));
            }
            lemma_carried_on(
                b,
                none,
                results.push(result),
                deadline,
                after,
                moment.commit_id,
                stored,
                moments,
                (n - 1) as nat,
            );
            let answered = step(
                b,
                InputView::Loaded(Ok(stored(tail_key(a.history, call.id)))),
                moment,
            );
            assert(answered == collect(
                b,
                none,
                results.push(result),
                deadline,
                after,
                moment.commit_id,
            ));
        }
    }
}

/// A journal without open calls is left alone: nothing is asked of the store, and the session goes
/// on. Where calls are open, the store answers and what is found answers the calls, exactly one
/// message is appended: one result for each open call, in the order of the calls, the saved one,
/// else the stored one under the place of the message and the id of the call, else the text that
/// tells that none was recorded. The journal is then valid, so that a second repair does nothing.
pub proof fn law_repair_closes_the_tail(
    a: ActorView,
    fx: Seq<EffectView>,
    deadline: u128,
    after: After,
    moment: Moment,
    stored: spec_fn(ToolKeyView) -> Option<ToolResultView>,
    moments: spec_fn(nat) -> Moment,
    later: Moment,
)
    requires
        is_journal(a.history),
        found_results_answer(a, stored),
    ensures
        tail_calls(a.history).len() == 0 ==> repair(a, fx, deadline, after, moment) == proceed(
            a,
            fx,
            after,
            moment,
        ),
        tail_calls(a.history).len() > 0 ==> {
            let asked = repair(a, fx, deadline, after, moment);
            let next = carried_on(asked, stored, moments, tail_calls(a.history).len());
            let batch = MessageView::User { content: result_blocks(found_for_all(a, stored)) };
            let mended = ActorView {
                history: a.history.push(batch),
                receipts: Seq::empty(),
                phase: next.actor.phase,
                ..a
            };
            &&& next.request matches RequestView::Commit { commit, deadline: by } && by == deadline
                && commit == commit_of(a, commit.id, seq![batch], Seq::empty(), None)
                && next.actor.phase == (PhaseView::Committing { commit, after }) && step(
                next.actor,
                InputView::Stored(Ok(())),
                later,
            ) == proceed(
                mended,
                Seq::<EffectView>::empty().push(EffectView::Committed(commit)),
                after,
                later,
            )
            &&& is_history(mended.history)
            &&& repair(mended, fx, deadline, after, later) == proceed(mended, fx, after, later)
        },
{
    let calls = tail_calls(a.history);
    if calls.len() > 0 {
        let all = found_for_all(a, stored);
        let batch = MessageView::User { content: result_blocks(all) };
        assert(Seq::<ToolResultView>::empty() =~= all.take(0));
        lemma_carried_on(
            a,
            fx,
            Seq::empty(),
            deadline,
            after,
            moment.commit_id,
            stored,
            moments,
            calls.len(),
        );
        assert forall|k: int| 0 <= k < all.len() implies answers(#[trigger] calls[k], all[k]) by {}
        law_batch_closes_the_tail(a.history, all);
        assert(a.history + seq![batch] =~= a.history.push(batch));
    }
}

/// The text that tells that no result was recorded answers its call, so that what is found answers
/// the open calls wherever the saved and the stored results do.
pub proof fn law_recovery_texts_answer(
    a: ActorView,
    stored: spec_fn(ToolKeyView) -> Option<ToolResultView>,
)
    requires
        forall|k: int|
            0 <= k < tail_calls(a.history).len() ==> {
                let call = #[trigger] tail_calls(a.history)[k];
                &&& held(a.receipts, call.id) matches Some(result) ==> answers(call, result)
                &&& stored(tail_key(a.history, call.id)) matches Some(result) ==> answers(call, result)
            },
    ensures
        found_results_answer(a, stored),
{
    assert forall|k: int| 0 <= k < tail_calls(a.history).len() implies answers(
        #[trigger] tail_calls(a.history)[k],
        found_for(a, stored, k),
    ) by {
        let call = tail_calls(a.history)[k];
    }
}

/// Where calls are open, a session asks the store for the result of the first one that it does not
/// hold itself, under the place of the message and the id of the call, before it does anything else:
/// at its start, and once a turn is over and closed.
pub proof fn law_open_calls_are_looked_up_first(a: ActorView, moment: Moment)
    requires
        tail_calls(a.history).len() > 0,
        forall|k: int|
            0 <= k < a.receipts.len() ==> (#[trigger] a.receipts[k]).call != tail_calls(a.history)[0].id,
        a.history.len() <= usize::MAX,
    ensures
        ({
            let next = first_step(a, moment);
            &&& next.request matches RequestView::Load { key, deadline }
            &&& key.call_id == tail_calls(a.history)[0].id
            &&& key.assistant_position + 1 == a.history.len()
            &&& deadline <= moment.now + a.io_timeout
            &&& a.loop_deadline matches Some(d) ==> deadline <= d
            &&& next.effects.len() == 0
            &&& next.actor == (ActorView { phase: next.actor.phase, ..a })
        }),
        a.phase is Settling ==> {
            let next = step(a, InputView::NoCheckpoint, moment);
            &&& next.request matches RequestView::Load { key, deadline }
            &&& key.call_id == tail_calls(a.history)[0].id
            &&& key.assistant_position + 1 == a.history.len()
            &&& deadline == a.turn.finalization
            &&& next.effects == seq![EffectView::CloseTurn]
            &&& next.actor == (ActorView { phase: next.actor.phase, ..a })
        },
{
    lemma_held(a.receipts, tail_calls(a.history)[0].id);
    assert(Seq::<EffectView>::empty().push(EffectView::CloseTurn) =~= seq![EffectView::CloseTurn]);
}

/// A stored result that does not have the identity of its call, or says nothing, stops the session
/// before anything is appended.
pub proof fn law_conflicting_results_stop_the_session(
    a: ActorView,
    results: Seq<ToolResultView>,
    deadline: u128,
    after: After,
    found: ToolResultView,
    moment: Moment,
)
    requires
        a.phase == (PhaseView::Repairing { results, deadline, after }),
        results.len() < tail_calls(a.history).len(),
        ({
            let call = tail_calls(a.history)[results.len() as int];
            found.call != call.id || found.provider != call.provider || found.content.len() == 0
        }),
    ensures
        ({
            let next = step(a, InputView::Loaded(Ok(Some(found))), moment);
            &&& next.request matches RequestView::Stop(Err(ErrorView::InvalidHistory(_)))
            &&& next.actor.history == a.history
            &&& next.effects.len() == 0
        }),
{
}

} // verus!
