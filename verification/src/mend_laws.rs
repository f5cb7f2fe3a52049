//! What a repair puts where: which calls lack results, what stands in for them and in which order.
use crate::api::{call_key, result_key};
use crate::history::is_open_ordered;
use crate::journal::{answers, tail_calls};
use crate::message::{
    answered_ids, call_ids, calls_of, result_blocks, results_of, text_block, MessageView,
    ToolCallView, ToolResultView, UserContentView,
};
use crate::repair::{
    arranged_batch, batch_content, batch_results, calls_without, filled_batch, first_failure,
    first_result, identified, keys_of, leftovers, loaded_at, missing_at, missing_before,
    missing_from, other_blocks, rebuilt, repaired, restored_history, stand_in, stand_ins, supplied,
    supply, LoadedView,
};
use crate::repair_laws::{lemma_answered_inside, lemma_open_rebuilt};
use crate::store_laws::lemma_filtered_is_there;
use vstd::prelude::*;

verus! {

/// The calls without results are, in order, those with an id that no result has.
pub proof fn law_calls_without_results(calls: Seq<ToolCallView>, ids: Seq<Seq<char>>)
    ensures
        calls_without(calls, ids) == calls.filter(|c: ToolCallView| !ids.contains(c.id)),
    decreases calls.len(),
{
    reveal(Seq::filter);
    if calls.len() > 0 {
        law_calls_without_results(calls.drop_last(), ids);
    }
}

/// A call of a message lacks its result exactly where the next message holds no result under its
/// id.
pub proof fn law_missing_results(history: Seq<MessageView>, i: int, call: ToolCallView)
    requires
        0 <= i < history.len(),
    ensures
        missing_at(history, i).contains(call) <==> calls_of(history[i]).contains(call) && !(i + 1
            < history.len() && (exists|k: int|
            0 <= k < results_of(history[i + 1]).len() && (#[trigger] results_of(history[i + 1])[k]).call
                == call.id)),
{
    let calls = calls_of(history[i]);
    let there = batch_results(history, i);
    let ids = answered_ids(there);
    let keep = |c: ToolCallView| !ids.contains(c.id);
    law_calls_without_results(calls, ids);
    let found = calls.filter(keep);
    if found.contains(call) {
        let k = choose|k: int| 0 <= k < found.len() && found[k] == call;
        calls.lemma_filter_pred(keep, k);
        lemma_filtered_is_there(calls, keep, k);
    }
    if calls.contains(call) && keep(call) {
        let k = choose|k: int| 0 <= k < calls.len() && calls[k] == call;
        calls.lemma_filter_contains(keep, k);
    }
    if ids.contains(call.id) {
        let k = choose|k: int| 0 <= k < ids.len() && ids[k] == call.id;
        assert(results_of(history[i + 1])[k].call == call.id);
    } else if i + 1 < history.len() {
        assert forall|k: int| 0 <= k < results_of(history[i + 1]).len() implies (
        #[trigger] results_of(history[i + 1])[k]).call != call.id by {
            assert(ids[k] == results_of(history[i + 1])[k].call);
        }
    }
}

/// What stands in for a result answers its call: under its id and the provider's identity, with the
/// name of its tool and the text alone.
pub proof fn law_stand_ins_answer_their_calls(calls: Seq<ToolCallView>, text: Seq<char>)
    ensures
        stand_ins(calls, text).len() == calls.len(),
        forall|k: int|
            0 <= k < calls.len() ==> {
                let result = #[trigger] stand_ins(calls, text)[k];
                &&& answers(calls[k], result)
                &&& result.name == calls[k].function.name
                &&& result.content == seq![text_block(text)]
            },
{
}

/// A batch is filled by putting what stands in for the missing results behind what is there.
pub proof fn law_batches_are_filled(history: Seq<MessageView>, i: int, text: Seq<char>)
    requires
        0 <= i < history.len(),
    ensures
        ({
            let there = if i + 1 < history.len() && results_of(history[i + 1]).len() > 0 {
                history[i + 1]->User_content
            } else {
                Seq::empty()
            };
            let missing = missing_at(history, i);
            let content = filled_batch(history, i, text);
            &&& content.take(there.len() as int) == there
            &&& content.len() == there.len() + missing.len()
            &&& forall|k: int|
                0 <= k < missing.len() ==> content[there.len() + k] == UserContentView::ToolResult(
                    stand_in(#[trigger] missing[k], text),
                )
        }),
{
    assert(filled_batch(history, i, text).take(batch_content(history, i).len() as int)
        =~= batch_content(history, i));
}

/// The first result for a call is the first one under its id.
pub proof fn law_the_first_result_counts(results: Seq<ToolResultView>, id: Seq<char>)
    ensures
        match first_result(results, id) {
            Some(result) => exists|k: int|
                0 <= k < results.len() && #[trigger] results[k] == result && result.call == id && (
                forall|j: int| 0 <= j < k ==> (#[trigger] results[j]).call != id),
            None => forall|k: int| 0 <= k < results.len() ==> (#[trigger] results[k]).call != id,
        },
    decreases results.len(),
{
    if results.len() > 0 {
        let rest = results.skip(1);
        law_the_first_result_counts(rest, id);
        if results[0].call == id {
            assert(results[0] == first_result(results, id)->0);
        } else if let Some(result) = first_result(rest, id) {
            let k = choose|k: int|
                0 <= k < rest.len() && #[trigger] rest[k] == result && result.call == id && (forall|j: int|
                    0 <= j < k ==> (#[trigger] rest[j]).call != id);
            assert(results[k + 1] == result);
            assert forall|j: int| 0 <= j < k + 1 implies (#[trigger] results[j]).call != id by {
                if j > 0 {
                    assert(rest[j - 1] == results[j]);
                }
            }
        } else {
            assert forall|k: int| 0 <= k < results.len() implies (#[trigger] results[k]).call != id by {
                if k > 0 {
                    assert(rest[k - 1] == results[k]);
                }
            }
        }
    }
}

/// The result for a call is the one that is there; else the stored one; else what stands in. It has
/// the id of the call, and the provider's identity of the call where it has none itself; what it
/// says is not changed.
pub proof fn law_results_are_supplied(
    results: Seq<ToolResultView>,
    call: ToolCallView,
    loaded: LoadedView,
    text: Seq<char>,
)
    ensures
        ({
            let result = supplied(results, call, loaded, text);
            let source = match first_result(results, call.id) {
                Some(there) => Some(there),
                None => match loaded {
                    LoadedView::Found(stored) => Some(stored),
                    _ => None,
                },
            };
            &&& result.call == call.id
            &&& source matches Some(given) ==> {
                &&& result.content == given.content && result.name == given.name
                &&& given.provider is Some ==> result.provider == given.provider
                &&& given.provider is None ==> result.provider == call.provider
            }
            &&& source is None ==> result == stand_in(call, text)
        }),
{
}

/// One result is supplied for each call, in the order of the calls; what was loaded is used in
/// order, for the calls without results.
pub proof fn law_results_come_in_the_order_of_the_calls(
    results: Seq<ToolResultView>,
    calls: Seq<ToolCallView>,
    loaded: Seq<LoadedView>,
    from: int,
    text: Seq<char>,
    k: int,
)
    requires
        0 <= k < calls.len(),
    ensures
        supply(results, calls, loaded, from, text).len() == calls.len(),
        supply(results, calls, loaded, from, text)[k] == supplied(
            results,
            calls[k],
            loaded_at(loaded, from + calls_without(calls.take(k), answered_ids(results)).len()),
            text,
        ),
        supply(results, calls, loaded, from, text)[k].call == calls[k].id,
    decreases calls.len(),
{
    let rest = calls.drop_last();
    lemma_supply_len(results, calls, loaded, from, text);
    lemma_supply_len(results, rest, loaded, from, text);
    if k < rest.len() {
        law_results_come_in_the_order_of_the_calls(results, rest, loaded, from, text, k);
        assert(rest.take(k) =~= calls.take(k));
    } else {
        assert(calls.take(k) =~= rest);
    }
}

/// What holds no result is kept, in order.
pub proof fn law_other_content_is_kept(content: Seq<UserContentView>)
    ensures
        other_blocks(content) == content.filter(|b: UserContentView| b !is ToolResult),
    decreases content.len(),
{
    reveal(Seq::filter);
    if content.len() > 0 {
        law_other_content_is_kept(content.drop_last());
    }
}

/// Results that answer none of the calls are left over, and so are all but the first under an id:
/// nothing is hidden.
pub proof fn law_unrelated_results_are_left_over(
    results: Seq<ToolResultView>,
    ids: Seq<Seq<char>>,
    more: ToolResultView,
)
    ensures
        !ids.contains(more.call) || answered_ids(results).contains(more.call) ==> leftovers(
            results.push(more),
            ids,
        ) == leftovers(results, ids).push(more),
        ids.contains(more.call) && !answered_ids(results).contains(more.call) ==> leftovers(
            results.push(more),
            ids,
        ) == leftovers(results, ids),
        results.len() == 0 ==> leftovers(results, ids).len() == 0,
{
    assert(results.push(more).drop_last() =~= results);
}

/// Where the results are in order, a batch holds, behind what is no result, one result for each
/// call in the order of the calls, and behind those the results that answer no call.
pub proof fn law_batches_are_arranged(
    history: Seq<MessageView>,
    i: int,
    loaded: Seq<LoadedView>,
    text: Seq<char>,
)
    requires
        0 <= i < history.len(),
    ensures
        ({
            let content = arranged_batch(history, i, loaded, text);
            let there = batch_content(history, i);
            let others = there.filter(|b: UserContentView| b !is ToolResult);
            let calls = calls_of(history[i]);
            &&& content.take(others.len() as int) == others
            &&& content.len() >= others.len() + calls.len()
            &&& forall|k: int|
                0 <= k < calls.len() ==> (#[trigger] content[others.len() + k] matches
                    UserContentView::ToolResult(result) && result.call == calls[k].id)
            &&& forall|k: int|
                others.len() + calls.len() <= k < content.len() ==> (#[trigger] content[k]) is ToolResult
        }),
{
    let content = arranged_batch(history, i, loaded, text);
    let there = batch_content(history, i);
    let results = batch_results(history, i);
    let calls = calls_of(history[i]);
    let from = missing_before(history, i) as int;
    law_other_content_is_kept(there);
    let others = other_blocks(there);
    assert(content.take(others.len() as int) =~= others);
    let given = supply(results, calls, loaded, from, text);
    lemma_supply_len(results, calls, loaded, from, text);
    assert forall|k: int| 0 <= k < calls.len() implies (#[trigger] content[others.len() + k] matches
        UserContentView::ToolResult(result) && result.call == calls[k].id) by {
        law_results_come_in_the_order_of_the_calls(results, calls, loaded, from, text, k);
        assert(content[others.len() + k] == result_blocks(given)[k]);
    }
}

proof fn lemma_supply_len(
    results: Seq<ToolResultView>,
    calls: Seq<ToolCallView>,
    loaded: Seq<LoadedView>,
    from: int,
    text: Seq<char>,
)
    ensures
        supply(results, calls, loaded, from, text).len() == calls.len(),
    decreases calls.len(),
{
    if calls.len() > 0 {
        lemma_supply_len(results, calls.drop_last(), loaded, from, text);
    }
}

/// What is looked up is looked up under the keys of the calls without results, message by message
/// and in the order of the calls, and what was found is used for the same calls.
pub proof fn law_lookups_belong_to_the_missing_calls(history: Seq<MessageView>, i: int, k: int)
    requires
        0 <= i < history.len(),
        0 <= k < missing_at(history, i).len(),
    ensures
        ({
            let place = missing_before(history, i) + k;
            &&& place < missing_from(history, 0).len()
            &&& missing_from(history, 0)[place] == missing_at(history, i)[k]
            &&& keys_of(missing_from(history, 0)).len() == missing_from(history, 0).len()
            &&& keys_of(missing_from(history, 0))[place] == call_key(missing_at(history, i)[k])
        }),
{
    lemma_missing_splits(history, i);
    let n = missing_before(history, i) as int;
    let all = missing_from(history, 0);
    assert(missing_from(history, i) == missing_at(history, i) + missing_from(history, i + 1));
    assert(all.skip(n)[k] == all[n + k]);
}

proof fn lemma_missing_splits(history: Seq<MessageView>, i: int)
    requires
        0 <= i <= history.len(),
    ensures
        missing_from(history, 0).len() == missing_before(history, i) + missing_from(history, i).len(),
        missing_from(history, 0).skip(missing_before(history, i) as int) == missing_from(history, i),
    decreases i,
{
    if i > 0 {
        lemma_missing_splits(history, i - 1);
        let (all, n) = (missing_from(history, 0), missing_before(history, i - 1) as int);
        let here = missing_at(history, i - 1);
        assert(missing_from(history, i - 1) == here + missing_from(history, i));
        assert(all.skip(n + here.len()) =~= all.skip(n).skip(here.len() as int));
        assert((here + missing_from(history, i)).skip(here.len() as int) =~= missing_from(history, i));
    } else {
        assert(missing_from(history, 0).skip(0) =~= missing_from(history, 0));
    }
}

/// A repair fails with the first lookup that failed, and only where one did.
pub proof fn law_failed_lookups_are_told(loaded: Seq<LoadedView>, k: int, needed: int)
    requires
        0 <= k,
    ensures
        match first_failure(loaded, k, needed) {
            Some(text) => exists|j: int|
                k <= j < needed && j < loaded.len() && #[trigger] loaded[j] == LoadedView::Failed(text)
                    && (forall|i: int| k <= i < j ==> (#[trigger] loaded[i]) !is Failed),
            None => forall|j: int|
                k <= j < needed && j < loaded.len() ==> (#[trigger] loaded[j]) !is Failed,
        },
    decreases needed - k,
{
    if k < needed {
        law_failed_lookups_are_told(loaded, k + 1, needed);
        if let LoadedView::Failed(text) = loaded_at(loaded, k) {
            assert(loaded[k] == LoadedView::Failed(text));
        } else if let Some(text) = first_failure(loaded, k + 1, needed) {
            let j = choose|j: int|
                k + 1 <= j < needed && j < loaded.len() && #[trigger] loaded[j] == LoadedView::Failed(text)
                    && (forall|i: int| k + 1 <= i < j ==> (#[trigger] loaded[i]) !is Failed);
            assert forall|i: int| k <= i < j implies (#[trigger] loaded[i]) !is Failed by {}
            assert(loaded[j] == LoadedView::Failed(text));
        }
    }
}

/// Open calls at the end of a history without a fault are answered by one message: without lookups
/// by what stands in for each; with them by what was found for each, in the order of the calls.
pub proof fn law_open_calls_are_answered_by_one_message(
    history: Seq<MessageView>,
    loaded: Seq<LoadedView>,
    text: Seq<char>,
)
    requires
        is_open_ordered(history),
        tail_calls(history).len() > 0,
    ensures
        ({
            let open = tail_calls(history);
            &&& repaired(history, text) == history.push(
                MessageView::User { content: result_blocks(stand_ins(open, text)) },
            )
            &&& restored_history(history, loaded, text).len() == history.len() + 1
            &&& restored_history(history, loaded, text).drop_last() == history
            &&& restored_history(history, loaded, text).last() matches MessageView::User { content }
                && content.len() == open.len() && (forall|k: int|
                0 <= k < open.len() ==> #[trigger] content[k] == UserContentView::ToolResult(
                    match loaded_at(loaded, k) {
                        LoadedView::Found(result) => identified(result, open[k]),
                        _ => stand_in(open[k], text),
                    },
                ))
        }),
{
    let open = tail_calls(history);
    let n = history.len() - 1;
    let none = Seq::<ToolResultView>::empty();
    let filled = |i: int| filled_batch(history, i, text);
    let stored = |i: int| arranged_batch(history, i, loaded, text);
    lemma_open_rebuilt(history, 0, filled);
    lemma_open_rebuilt(history, 0, stored);
    lemma_open_end_grows(history, 0, filled);
    lemma_open_end_grows(history, 0, stored);
    assert(history.skip(0) =~= history);
    assert(batch_results(history, n) =~= none);
    lemma_all_missing(open, answered_ids(none));
    assert(missing_at(history, n) == open);
    assert(filled_batch(history, n, text) =~= result_blocks(stand_ins(open, text)));
    lemma_nothing_missing_before(history, n);
    let given = supply(none, open, loaded, 0, text);
    lemma_supply_len(none, open, loaded, 0, text);
    assert(other_blocks(batch_content(history, n)) =~= Seq::empty());
    assert(result_blocks(leftovers(none, call_ids(open))) =~= Seq::empty());
    assert(arranged_batch(history, n, loaded, text) =~= result_blocks(given));
    assert forall|k: int| 0 <= k < open.len() implies #[trigger] result_blocks(given)[k]
        == UserContentView::ToolResult(
        match loaded_at(loaded, k) {
            LoadedView::Found(result) => identified(result, open[k]),
            _ => stand_in(open[k], text),
        },
    ) by {
        law_results_come_in_the_order_of_the_calls(none, open, loaded, 0, text, k);
        lemma_all_missing(open.take(k), answered_ids(none));
    }
    let restored = restored_history(history, loaded, text);
    assert(restored == history.push(MessageView::User { content: stored(n) }));
    assert(restored.drop_last() =~= history);
}

proof fn lemma_nothing_missing_before(history: Seq<MessageView>, i: int)
    requires
        is_open_ordered(history),
        i < history.len(),
    ensures
        missing_before(history, i) == 0,
    decreases i,
{
    if i > 0 {
        lemma_nothing_missing_before(history, i - 1);
        lemma_answered_inside(history, i - 1);
    }
}

proof fn lemma_all_missing(calls: Seq<ToolCallView>, ids: Seq<Seq<char>>)
    requires
        ids.len() == 0,
    ensures
        calls_without(calls, ids) == calls,
    decreases calls.len(),
{
    if calls.len() > 0 {
        lemma_all_missing(calls.drop_last(), ids);
        assert(calls.drop_last().push(calls.last()) =~= calls);
    } else {
        assert(calls_without(calls, ids) =~= calls);
    }
}

proof fn lemma_open_end_grows(
    history: Seq<MessageView>,
    i: int,
    batches: spec_fn(int) -> Seq<UserContentView>,
)
    requires
        0 <= i < history.len(),
        is_open_ordered(history),
        tail_calls(history).len() > 0,
    ensures
        rebuilt(history, i, batches).len() > history.len() - i,
    decreases history.len() - i,
{
    if calls_of(history[i]).len() == 0 {
        lemma_open_end_grows(history, i + 1, batches);
    } else if i + 1 < history.len() {
        lemma_answered_inside(history, i);
        if i + 2 < history.len() {
            lemma_open_end_grows(history, i + 2, batches);
        } else {
            assert(history[i + 1] is User);
        }
    }
}

/// A call and a result are kept under the same key exactly where their ids and the provider's ids
/// of them are the same.
pub proof fn law_keys_are_made_of_ids(call: ToolCallView, result: ToolResultView)
    ensures
        call_key(call).id == call.id && result_key(result).id == result.call,
        call_key(call).call_id is Some <==> call.provider is Some,
        call.provider is Some ==> call_key(call).call_id == Some(call.provider->0.call_id),
        result_key(result).call_id is Some <==> result.provider is Some,
        result.provider is Some ==> result_key(result).call_id == Some(result.provider->0.call_id),
{
}

} // verus!
