//! What repairs of a history keep and what they mend.
use crate::history::{
    is_complete, is_open_ordered, is_ordered, lemma_batch_fault, lemma_first_repeat, order_fault,
};
use crate::journal::{
    answers, fault_at, is_history, law_each_call_answered_once, lemma_sound_results, pending_before,
    tail_calls,
};
use crate::message::{
    answered_ids, call_ids, calls_of, lemma_results_in_concat, lemma_results_of_blocks,
    result_blocks, results_in, results_of, MessageView, ToolCallView, ToolResultView,
    UserContentView,
};
use crate::repair::{
    arranged_batch, batch_content, batch_results, calls_without, filled_batch, has_batch, leftovers,
    missing_at, missing_before, missing_from, other_blocks, rebuilt, repaired, restored_history,
    stand_ins, supply, LoadedView,
};
use vstd::prelude::*;
use vstd::seq_lib::lemma_seq_concat_contains_all_elements;

verus! {

/// Whether a message may follow some calls.
spec fn follows(pending: Seq<ToolCallView>, message: MessageView) -> bool {
    if pending.len() > 0 {
        message is User && is_complete(call_ids(pending), answered_ids(results_of(message)))
    } else {
        call_ids(calls_of(message)).no_duplicates() && results_of(message).len() == 0
    }
}

/// Whether messages may follow some calls, with nothing open at their end.
spec fn ordered_behind(pending: Seq<ToolCallView>, messages: Seq<MessageView>) -> bool {
    &&& forall|i: int|
        0 <= i < messages.len() ==> follows(
            if i == 0 {
                pending
            } else {
                calls_of(messages[i - 1])
            },
            #[trigger] messages[i],
        )
    &&& (if messages.len() == 0 {
        pending
    } else {
        calls_of(messages.last())
    }).len() == 0
}

proof fn lemma_ordered_behind_nothing(history: Seq<MessageView>)
    ensures
        is_ordered(history) <==> ordered_behind(Seq::empty(), history),
{
    assert forall|i: int| 0 <= i < history.len() implies ((#[trigger] order_fault(history, i)) is None
        <==> follows(
        if i == 0 {
            Seq::empty()
        } else {
            calls_of(history[i - 1])
        },
        history[i],
    )) by {
        let pending = pending_before(history, i);
        let found = answered_ids(results_of(history[i]));
        lemma_batch_fault(call_ids(pending), found, i);
        lemma_first_repeat(call_ids(calls_of(history[i])), 0);
        assert(call_ids(pending).len() == pending.len());
        assert(found.len() == results_of(history[i]).len());
    }
    if is_ordered(history) {
        assert forall|i: int| 0 <= i < history.len() implies follows(
            if i == 0 {
                Seq::empty()
            } else {
                calls_of(history[i - 1])
            },
            #[trigger] history[i],
        ) by {
            assert(order_fault(history, i) is None);
        }
    }
    if ordered_behind(Seq::empty(), history) {
        assert forall|i: int| 0 <= i < history.len() implies (#[trigger] order_fault(history, i)) is None by {
            let message = history[i];
        }
    }
}

proof fn lemma_ordered_cons(pending: Seq<ToolCallView>, message: MessageView, rest: Seq<MessageView>)
    ensures
        ordered_behind(pending, seq![message] + rest) <==> follows(pending, message)
            && ordered_behind(calls_of(message), rest),
{
    let whole = seq![message] + rest;
    assert(whole[0] == message);
    assert forall|i: int| 0 <= i < rest.len() implies #[trigger] rest[i] == whole[i + 1] by {}
    if ordered_behind(pending, whole) {
        assert forall|i: int| 0 <= i < rest.len() implies follows(
            if i == 0 {
                calls_of(message)
            } else {
                calls_of(rest[i - 1])
            },
            #[trigger] rest[i],
        ) by {
            assert(whole[i + 1] == rest[i]);
            if i > 0 {
                assert(whole[i] == rest[i - 1]);
            }
        }
        if rest.len() > 0 {
            assert(whole.last() == rest.last());
        }
    }
    if follows(pending, message) && ordered_behind(calls_of(message), rest) {
        assert forall|i: int| 0 <= i < whole.len() implies follows(
            if i == 0 {
                pending
            } else {
                calls_of(whole[i - 1])
            },
            #[trigger] whole[i],
        ) by {
            if i > 0 {
                assert(whole[i] == rest[i - 1]);
                if i > 1 {
                    assert(whole[i - 1] == rest[i - 2]);
                }
            }
        }
        if rest.len() > 0 {
            assert(whole.last() == rest.last());
        }
    }
}

proof fn lemma_ordered_cons_batch(message: MessageView, batch: MessageView, rest: Seq<MessageView>)
    requires
        calls_of(message).len() > 0,
        batch is User,
    ensures
        ordered_behind(Seq::empty(), seq![message, batch] + rest) <==> call_ids(
            calls_of(message),
        ).no_duplicates() && is_complete(
            call_ids(calls_of(message)),
            answered_ids(results_of(batch)),
        ) && ordered_behind(Seq::empty(), rest),
{
    assert(seq![message, batch] + rest =~= seq![message] + (seq![batch] + rest));
    lemma_ordered_cons(Seq::empty(), message, seq![batch] + rest);
    lemma_ordered_cons(calls_of(message), batch, rest);
    assert(calls_of(batch) =~= Seq::empty());
}

/// What may be repaired at the message at `j`: its calls are distinct, and its results, if it has
/// any, are distinct and answer calls of the message before it.
pub open spec fn is_repairable_at(history: Seq<MessageView>, j: int) -> bool {
    let found = answered_ids(results_of(history[j]));
    &&& call_ids(calls_of(history[j])).no_duplicates()
    &&& found.len() > 0 ==> {
        let expected = call_ids(pending_before(history, j));
        &&& found.no_duplicates()
        &&& forall|k: int| 0 <= k < found.len() ==> expected.contains(#[trigger] found[k])
    }
}

/// A history that lacks nothing but results.
pub open spec fn is_repairable(history: Seq<MessageView>) -> bool {
    forall|j: int| 0 <= j < history.len() ==> #[trigger] is_repairable_at(history, j)
}

/// Whether content for the message behind the one at `i` has the results that are there and one
/// for each call, and none twice that was not there twice.
spec fn fills(history: Seq<MessageView>, i: int, content: Seq<UserContentView>) -> bool {
    let ids = answered_ids(results_in(content));
    let there = answered_ids(batch_results(history, i));
    let wanted = call_ids(calls_of(history[i]));
    &&& forall|id: Seq<char>| #[trigger] ids.contains(id) <==> there.contains(id) || wanted.contains(id)
    &&& wanted.no_duplicates() ==> (ids.no_duplicates() <==> there.no_duplicates())
}

proof fn lemma_calls_without(calls: Seq<ToolCallView>, ids: Seq<Seq<char>>)
    ensures
        forall|id: Seq<char>| #[trigger]
            call_ids(calls_without(calls, ids)).contains(id) <==> call_ids(calls).contains(id)
                && !ids.contains(id),
        call_ids(calls).no_duplicates() ==> call_ids(calls_without(calls, ids)).no_duplicates(),
    decreases calls.len(),
{
    let kept = calls_without(calls, ids);
    if calls.len() > 0 {
        let rest = calls.drop_last();
        let last = calls.last();
        let kept_rest = calls_without(rest, ids);
        lemma_calls_without(rest, ids);
        assert(call_ids(calls) =~= call_ids(rest).push(last.id));
        assert forall|id: Seq<char>| #[trigger] call_ids(kept).contains(id) <==> call_ids(calls).contains(
            id,
        ) && !ids.contains(id) by {
            lemma_push_contains(call_ids(rest), last.id, id);
            if !ids.contains(last.id) {
                assert(call_ids(kept) =~= call_ids(kept_rest).push(last.id));
                lemma_push_contains(call_ids(kept_rest), last.id, id);
            }
            assert(call_ids(kept_rest).contains(id) <==> call_ids(rest).contains(id) && !ids.contains(id));
        }
        if call_ids(calls).no_duplicates() {
            assert(call_ids(rest).no_duplicates()) by {
                assert forall|i: int, j: int|
                    0 <= i < rest.len() && 0 <= j < rest.len() && i != j implies call_ids(rest)[i]
                    != call_ids(rest)[j] by {
                    assert(call_ids(calls)[i] != call_ids(calls)[j]);
                }
            }
            if !ids.contains(last.id) {
                assert(call_ids(kept) =~= call_ids(kept_rest).push(last.id));
                assert(!call_ids(kept_rest).contains(last.id)) by {
                    if call_ids(kept_rest).contains(last.id) {
                        assert(call_ids(rest).contains(last.id));
                        let i = choose|i: int| 0 <= i < rest.len() && call_ids(rest)[i] == last.id;
                        assert(call_ids(calls)[i] == call_ids(calls)[calls.len() - 1]);
                    }
                }
            }
        }
    } else {
        assert(call_ids(kept) =~= Seq::empty());
        assert(call_ids(calls) =~= Seq::empty());
    }
}

proof fn lemma_push_contains<A>(s: Seq<A>, x: A, y: A)
    ensures
        s.push(x).contains(y) <==> s.contains(y) || x == y,
{
    if s.contains(y) {
        let i = choose|i: int| 0 <= i < s.len() && s[i] == y;
        assert(s.push(x)[i] == y);
    }
    if x == y {
        assert(s.push(x)[s.len() as int] == y);
    }
}

/// Two sequences without duplicates, one behind the other, have one exactly where they share it.
proof fn lemma_concat_no_duplicates<A>(a: Seq<A>, b: Seq<A>)
    ensures
        (a + b).no_duplicates() <==> a.no_duplicates() && b.no_duplicates() && (forall|x: A|
            a.contains(x) ==> !#[trigger] b.contains(x)),
{
    let s = a + b;
    if s.no_duplicates() {
        assert forall|i: int, j: int| 0 <= i < a.len() && 0 <= j < a.len() && i != j implies a[i] != a[j] by {
            assert(s[i] != s[j]);
        }
        assert forall|i: int, j: int| 0 <= i < b.len() && 0 <= j < b.len() && i != j implies b[i] != b[j] by {
            assert(s[a.len() + i] != s[a.len() + j]);
        }
        assert forall|x: A| a.contains(x) implies !#[trigger] b.contains(x) by {
            if b.contains(x) {
                let i = choose|i: int| 0 <= i < a.len() && a[i] == x;
                let j = choose|j: int| 0 <= j < b.len() && b[j] == x;
                assert(s[i] != s[a.len() + j]);
            }
        }
    }
    if a.no_duplicates() && b.no_duplicates() && (forall|x: A| a.contains(x) ==> !#[trigger] b.contains(x)) {
        assert forall|i: int, j: int| 0 <= i < s.len() && 0 <= j < s.len() && i != j implies s[i] != s[j] by {
            if i < a.len() && j >= a.len() {
                assert(a.contains(s[i]));
                assert(b[j - a.len()] == s[j]);
                assert(s[i] == s[j] ==> b.contains(s[i]));
            } else if i >= a.len() && j < a.len() {
                assert(a.contains(s[j]));
                assert(b[i - a.len()] == s[i]);
                assert(s[i] == s[j] ==> b.contains(s[j]));
            }
        }
    }
}

proof fn lemma_filled_batch(history: Seq<MessageView>, i: int, text: Seq<char>)
    requires
        0 <= i < history.len(),
    ensures
        fills(history, i, filled_batch(history, i, text)),
{
    let calls = calls_of(history[i]);
    let there = answered_ids(batch_results(history, i));
    let missing = missing_at(history, i);
    let added = stand_ins(missing, text);
    let content = filled_batch(history, i, text);
    lemma_results_in_concat(batch_content(history, i), result_blocks(added));
    lemma_results_of_blocks(added);
    assert(results_in(batch_content(history, i)) =~= batch_results(history, i));
    let ids = answered_ids(results_in(content));
    assert(ids =~= there + call_ids(missing));
    lemma_calls_without(calls, there);
    assert forall|id: Seq<char>| #[trigger] ids.contains(id) <==> there.contains(id) || call_ids(
        calls,
    ).contains(id) by {
        lemma_seq_concat_contains_all_elements(there, call_ids(missing), id);
        assert(call_ids(missing).contains(id) <==> call_ids(calls).contains(id) && !there.contains(id));
    }
    lemma_concat_no_duplicates(there, call_ids(missing));
    assert forall|id: Seq<char>| there.contains(id) implies !#[trigger] call_ids(missing).contains(id) by {}
}

proof fn lemma_other_blocks(content: Seq<UserContentView>)
    ensures
        results_in(other_blocks(content)) == Seq::<ToolResultView>::empty(),
    decreases content.len(),
{
    if content.len() > 0 {
        lemma_other_blocks(content.drop_last());
        if content.last() !is ToolResult {
            let kept = other_blocks(content.drop_last()).push(content.last());
            assert(kept.drop_last() =~= other_blocks(content.drop_last()));
        }
    }
}

proof fn lemma_supply_ids(
    results: Seq<ToolResultView>,
    calls: Seq<ToolCallView>,
    loaded: Seq<LoadedView>,
    from: int,
    text: Seq<char>,
)
    ensures
        answered_ids(supply(results, calls, loaded, from, text)) == call_ids(calls),
    decreases calls.len(),
{
    let all = supply(results, calls, loaded, from, text);
    if calls.len() > 0 {
        let rest = calls.drop_last();
        lemma_supply_ids(results, rest, loaded, from, text);
        let before = supply(results, rest, loaded, from, text);
        assert(all == before.push(all.last()));
        assert(answered_ids(all) =~= answered_ids(before).push(all.last().call));
        assert(call_ids(calls) =~= call_ids(rest).push(calls.last().id));
    } else {
        assert(answered_ids(all) =~= call_ids(calls));
    }
}

proof fn lemma_leftovers(results: Seq<ToolResultView>, ids: Seq<Seq<char>>)
    ensures
        ({
            let found = answered_ids(results);
            let left = answered_ids(leftovers(results, ids));
            &&& forall|id: Seq<char>| #[trigger] left.contains(id) ==> found.contains(id)
            &&& forall|id: Seq<char>| #[trigger] found.contains(id) && !ids.contains(id) ==> left.contains(id)
            &&& found.no_duplicates() <==> left.no_duplicates() && (forall|id: Seq<char>|
                ids.contains(id) ==> !#[trigger] left.contains(id))
        }),
    decreases results.len(),
{
    let found = answered_ids(results);
    let left = answered_ids(leftovers(results, ids));
    if results.len() > 0 {
        let rest = results.drop_last();
        let last = results.last();
        let found_rest = answered_ids(rest);
        let left_rest = answered_ids(leftovers(rest, ids));
        lemma_leftovers(rest, ids);
        assert(found =~= found_rest.push(last.call));
        let dropped = ids.contains(last.call) && !found_rest.contains(last.call);
        if !dropped {
            assert(left =~= left_rest.push(last.call));
        }
        assert forall|id: Seq<char>| #[trigger] left.contains(id) implies found.contains(id) by {
            lemma_push_contains(left_rest, last.call, id);
            lemma_push_contains(found_rest, last.call, id);
        }
        assert forall|id: Seq<char>| #[trigger] found.contains(id) && !ids.contains(id) implies left.contains(
            id,
        ) by {
            lemma_push_contains(found_rest, last.call, id);
            lemma_push_contains(left_rest, last.call, id);
        }
        assert(found =~= found_rest + seq![last.call]);
        lemma_concat_no_duplicates(found_rest, seq![last.call]);
        assert forall|x: Seq<char>| #[trigger] seq![last.call].contains(x) <==> x == last.call by {
            assert(seq![last.call][0] == last.call);
        }
        assert(seq![last.call].no_duplicates());
        assert(found.no_duplicates() <==> found_rest.no_duplicates() && !found_rest.contains(last.call)) by {
            if found_rest.contains(last.call) {
                assert(seq![last.call].contains(last.call));
            }
        }
        if dropped {
            assert(left == left_rest);
        } else {
            assert(left =~= left_rest + seq![last.call]);
            lemma_concat_no_duplicates(left_rest, seq![last.call]);
            lemma_push_contains(left_rest, last.call, last.call);
            if found_rest.contains(last.call) {
                // The last result repeats an earlier one.
                if ids.contains(last.call) {
                    assert(left.contains(last.call));
                } else {
                    assert(left_rest.contains(last.call));
                    assert(seq![last.call].contains(last.call));
                    assert(!left.no_duplicates());
                }
            } else {
                assert(!ids.contains(last.call));
                assert(!left_rest.contains(last.call));
                assert forall|id: Seq<char>| ids.contains(id) implies (left.contains(id)
                    <==> left_rest.contains(id)) by {
                    lemma_push_contains(left_rest, last.call, id);
                }
                if left_rest.no_duplicates() {
                    assert(left.no_duplicates());
                }
                if forall|id: Seq<char>| ids.contains(id) ==> !#[trigger] left_rest.contains(id) {
                    assert forall|id: Seq<char>| ids.contains(id) implies !#[trigger] left.contains(id) by {
                        assert(!left_rest.contains(id));
                    }
                }
                if forall|id: Seq<char>| ids.contains(id) ==> !#[trigger] left.contains(id) {
                    assert forall|id: Seq<char>| ids.contains(id) implies !#[trigger] left_rest.contains(id) by {
                        assert(!left.contains(id));
                    }
                }
            }
        }
    } else {
        assert(found =~= Seq::empty());
        assert(left =~= Seq::empty());
    }
}

proof fn lemma_arranged_batch(
    history: Seq<MessageView>,
    i: int,
    loaded: Seq<LoadedView>,
    text: Seq<char>,
)
    requires
        0 <= i < history.len(),
    ensures
        fills(history, i, arranged_batch(history, i, loaded, text)),
{
    let results = batch_results(history, i);
    let calls = calls_of(history[i]);
    let there = answered_ids(results);
    let wanted = call_ids(calls);
    let others = other_blocks(batch_content(history, i));
    let given = supply(results, calls, loaded, missing_before(history, i) as int, text);
    let left = leftovers(results, wanted);
    lemma_results_in_concat(others + result_blocks(given), result_blocks(left));
    lemma_results_in_concat(others, result_blocks(given));
    lemma_results_of_blocks(given);
    lemma_results_of_blocks(left);
    lemma_other_blocks(batch_content(history, i));
    lemma_supply_ids(results, calls, loaded, missing_before(history, i) as int, text);
    lemma_leftovers(results, wanted);
    let ids = answered_ids(results_in(arranged_batch(history, i, loaded, text)));
    assert(results_in(arranged_batch(history, i, loaded, text)) =~= given + left);
    assert(ids =~= answered_ids(given) + answered_ids(left));
    assert(ids =~= wanted + answered_ids(left));
    assert forall|id: Seq<char>| #[trigger] ids.contains(id) <==> there.contains(id) || wanted.contains(id) by {
        lemma_seq_concat_contains_all_elements(wanted, answered_ids(left), id);
        assert(answered_ids(left).contains(id) ==> there.contains(id));
        assert(there.contains(id) && !wanted.contains(id) ==> answered_ids(left).contains(id));
    }
    lemma_concat_no_duplicates(wanted, answered_ids(left));
}

/// A batch that fills what is missing is complete exactly where what was there could be repaired.
proof fn lemma_filled_is_complete(history: Seq<MessageView>, i: int, content: Seq<UserContentView>)
    requires
        0 <= i < history.len(),
        calls_of(history[i]).len() > 0,
        fills(history, i, content),
        call_ids(calls_of(history[i])).no_duplicates(),
    ensures
        is_complete(call_ids(calls_of(history[i])), answered_ids(results_in(content))) <==> answered_ids(
            batch_results(history, i),
        ).no_duplicates() && (forall|k: int|
            0 <= k < batch_results(history, i).len() ==> call_ids(calls_of(history[i])).contains(
                #[trigger] answered_ids(batch_results(history, i))[k],
            )),
{
    let ids = answered_ids(results_in(content));
    let there = answered_ids(batch_results(history, i));
    let wanted = call_ids(calls_of(history[i]));
    assert(wanted.contains(wanted[0]));
    assert(ids.contains(wanted[0]));
    assert forall|k: int| 0 <= k < wanted.len() implies ids.contains(#[trigger] wanted[k]) by {
        assert(wanted.contains(wanted[k]));
    }
    if forall|k: int| 0 <= k < there.len() ==> wanted.contains(#[trigger] there[k]) {
        assert forall|k: int| 0 <= k < ids.len() implies wanted.contains(#[trigger] ids[k]) by {
            assert(ids.contains(ids[k]));
            if there.contains(ids[k]) {
                let j = choose|j: int| 0 <= j < there.len() && there[j] == ids[k];
                assert(wanted.contains(there[j]));
            }
        }
    }
    if forall|k: int| 0 <= k < ids.len() ==> wanted.contains(#[trigger] ids[k]) {
        assert forall|k: int| 0 <= k < there.len() implies wanted.contains(#[trigger] there[k]) by {
            assert(there.contains(there[k]));
            assert(ids.contains(there[k]));
            let j = choose|j: int| 0 <= j < ids.len() && ids[j] == there[k];
            assert(wanted.contains(ids[j]));
        }
    }
}

/// Where no call lacks a result, what is there fills what is missing.
proof fn lemma_nothing_missing_fills(history: Seq<MessageView>, i: int)
    requires
        0 <= i < history.len(),
        has_batch(history, i),
        missing_at(history, i).len() == 0,
    ensures
        fills(history, i, history[i + 1]->User_content),
{
    let there = answered_ids(batch_results(history, i));
    let wanted = call_ids(calls_of(history[i]));
    lemma_calls_without(calls_of(history[i]), there);
    assert(call_ids(missing_at(history, i)) =~= Seq::empty());
    assert forall|id: Seq<char>| wanted.contains(id) implies #[trigger] there.contains(id) by {
        assert(call_ids(missing_at(history, i)).contains(id) <==> wanted.contains(id) && !there.contains(id));
    }
}

/// Whether everything from the message at `i` on may be repaired.
spec fn is_repairable_from(history: Seq<MessageView>, i: int) -> bool {
    forall|j: int| i <= j < history.len() ==> #[trigger] is_repairable_at(history, j)
}

proof fn lemma_repairable_step(history: Seq<MessageView>, i: int)
    requires
        i < history.len(),
    ensures
        is_repairable_from(history, i) <==> is_repairable_at(history, i) && is_repairable_from(
            history,
            i + 1,
        ),
{
    if is_repairable_at(history, i) && is_repairable_from(history, i + 1) {
        assert forall|j: int| i <= j < history.len() implies #[trigger] is_repairable_at(history, j) by {
            if j > i {
                assert(is_repairable_from(history, i + 1));
            }
        }
    }
    if is_repairable_from(history, i) {
        assert forall|j: int| i + 1 <= j < history.len() implies #[trigger] is_repairable_at(history, j) by {}
    }
}

/// A message without calls that does not stand behind calls may have no results.
proof fn lemma_plain_message(history: Seq<MessageView>, i: int)
    requires
        0 <= i < history.len(),
        calls_of(history[i]).len() == 0,
        i == 0 || calls_of(history[i - 1]).len() == 0 || results_of(history[i]).len() == 0,
    ensures
        is_repairable_at(history, i) <==> follows(Seq::empty(), history[i]),
{
    let found = answered_ids(results_of(history[i]));
    assert(found.len() == results_of(history[i]).len());
    if found.len() > 0 {
        assert(call_ids(pending_before(history, i)).len() == 0);
        assert(!call_ids(pending_before(history, i)).contains(found[0]));
    }
}

/// A batch behind calls may be repaired exactly where it becomes complete.
proof fn lemma_batch_message(history: Seq<MessageView>, i: int, content: Seq<UserContentView>)
    requires
        0 <= i < history.len(),
        calls_of(history[i]).len() > 0,
        has_batch(history, i),
        fills(history, i, content),
    ensures
        is_repairable_at(history, i) && is_repairable_at(history, i + 1) <==> call_ids(
            calls_of(history[i]),
        ).no_duplicates() && is_complete(
            call_ids(calls_of(history[i])),
            answered_ids(results_in(content)),
        ),
{
    let found = answered_ids(results_of(history[i + 1]));
    assert(found.len() == results_of(history[i + 1]).len());
    assert(pending_before(history, i + 1) == calls_of(history[i]));
    assert(calls_of(history[i + 1]).len() == 0);
    assert(results_of(history[i]).len() == 0);
    if call_ids(calls_of(history[i])).no_duplicates() {
        lemma_filled_is_complete(history, i, content);
    }
}

/// Calls without a batch may be repaired where they are distinct.
proof fn lemma_bare_calls(history: Seq<MessageView>, i: int, content: Seq<UserContentView>)
    requires
        0 <= i < history.len(),
        calls_of(history[i]).len() > 0,
        !has_batch(history, i),
        fills(history, i, content),
    ensures
        is_repairable_at(history, i) <==> call_ids(calls_of(history[i])).no_duplicates()
            && is_complete(call_ids(calls_of(history[i])), answered_ids(results_in(content))),
{
    assert(results_of(history[i]).len() == 0);
    if call_ids(calls_of(history[i])).no_duplicates() {
        lemma_filled_is_complete(history, i, content);
    }
}

proof fn lemma_rebuilt_is_ordered(
    history: Seq<MessageView>,
    i: int,
    batches: spec_fn(int) -> Seq<UserContentView>,
)
    requires
        0 <= i <= history.len(),
        forall|k: int| 0 <= k < history.len() ==> fills(history, k, #[trigger] batches(k)),
        i == 0 || i == history.len() || calls_of(history[i - 1]).len() == 0 || results_of(
            history[i],
        ).len() == 0,
    ensures
        ordered_behind(Seq::empty(), rebuilt(history, i, batches)) <==> is_repairable_from(history, i),
    decreases history.len() - i,
{
    if i < history.len() {
        let message = history[i];
        lemma_repairable_step(history, i);
        assert(fills(history, i, batches(i)));
        if calls_of(message).len() == 0 {
            lemma_rebuilt_is_ordered(history, i + 1, batches);
            lemma_ordered_cons(Seq::empty(), message, rebuilt(history, i + 1, batches));
            assert(calls_of(message) =~= Seq::empty());
            lemma_plain_message(history, i);
        } else if has_batch(history, i) {
            let content = if missing_at(history, i).len() > 0 {
                batches(i)
            } else {
                history[i + 1]->User_content
            };
            if missing_at(history, i).len() == 0 {
                lemma_nothing_missing_fills(history, i);
            }
            lemma_repairable_step(history, i + 1);
            lemma_rebuilt_is_ordered(history, i + 2, batches);
            lemma_ordered_cons_batch(
                message,
                MessageView::User { content },
                rebuilt(history, i + 2, batches),
            );
            lemma_batch_message(history, i, content);
        } else {
            lemma_rebuilt_is_ordered(history, i + 1, batches);
            lemma_ordered_cons_batch(
                message,
                MessageView::User { content: batches(i) },
                rebuilt(history, i + 1, batches),
            );
            lemma_bare_calls(history, i, batches(i));
        }
    }
}

/// Repairing a history makes it valid exactly where nothing but results was missing. What is
/// wrong for another reason stays wrong.
pub proof fn law_repair_mends_missing_results_only(history: Seq<MessageView>, text: Seq<char>)
    ensures
        is_ordered(repaired(history, text)) <==> is_repairable(history),
{
    let batches = |i: int| filled_batch(history, i, text);
    assert forall|k: int| 0 <= k < history.len() implies fills(history, k, #[trigger] batches(k)) by {
        lemma_filled_batch(history, k, text);
    }
    lemma_rebuilt_is_ordered(history, 0, batches);
    lemma_ordered_behind_nothing(repaired(history, text));
}

/// The same holds where stored results are used: no other fault of a history is hidden.
pub proof fn law_stored_results_mend_missing_results_only(
    history: Seq<MessageView>,
    loaded: Seq<LoadedView>,
    text: Seq<char>,
)
    ensures
        is_ordered(restored_history(history, loaded, text)) <==> is_repairable(history),
{
    let batches = |i: int| arranged_batch(history, i, loaded, text);
    assert forall|k: int| 0 <= k < history.len() implies fills(history, k, #[trigger] batches(k)) by {
        lemma_arranged_batch(history, k, loaded, text);
    }
    lemma_rebuilt_is_ordered(history, 0, batches);
    lemma_ordered_behind_nothing(restored_history(history, loaded, text));
}

proof fn lemma_valid_stays(
    history: Seq<MessageView>,
    i: int,
    batches: spec_fn(int) -> Seq<UserContentView>,
)
    requires
        0 <= i <= history.len(),
        is_ordered(history),
    ensures
        rebuilt(history, i, batches) == history.skip(i),
    decreases history.len() - i,
{
    if i < history.len() {
        let message = history[i];
        if calls_of(message).len() == 0 {
            lemma_valid_stays(history, i + 1, batches);
            assert(seq![message] + history.skip(i + 1) =~= history.skip(i));
        } else {
            lemma_answered_at(history, i);
            lemma_valid_stays(history, i + 2, batches);
            assert(seq![message, history[i + 1]] + history.skip(i + 2) =~= history.skip(i));
        }
    } else {
        assert(history.skip(i) =~= Seq::empty());
    }
}

/// Within a history every call has a result behind it.
pub(crate) proof fn lemma_answered_inside(history: Seq<MessageView>, i: int)
    requires
        is_open_ordered(history),
        0 <= i < history.len() - 1,
    ensures
        calls_of(history[i]).len() > 0 ==> has_batch(history, i),
        missing_at(history, i).len() == 0,
{
    let calls = calls_of(history[i]);
    if calls.len() > 0 {
        assert(order_fault(history, i + 1) is None);
        assert(call_ids(calls).len() == calls.len());
        let there = answered_ids(results_of(history[i + 1]));
        lemma_batch_fault(call_ids(calls), there, i + 1);
        assert(has_batch(history, i));
        lemma_calls_without(calls, there);
        if missing_at(history, i).len() > 0 {
            let id = missing_at(history, i)[0].id;
            assert(call_ids(missing_at(history, i))[0] == id);
            assert(call_ids(missing_at(history, i)).contains(id));
            let k = choose|k: int| 0 <= k < calls.len() && call_ids(calls)[k] == id;
            assert(there.contains(call_ids(calls)[k]));
        }
    }
}

/// In a valid history every call has a result behind it.
proof fn lemma_answered_at(history: Seq<MessageView>, i: int)
    requires
        is_ordered(history),
        0 <= i < history.len(),
    ensures
        calls_of(history[i]).len() > 0 ==> has_batch(history, i),
        missing_at(history, i).len() == 0,
{
    if i < history.len() - 1 {
        lemma_answered_inside(history, i);
    } else {
        assert(tail_calls(history) == calls_of(history[i]));
    }
}

/// A valid history is left as it is, by either repair; nothing is looked up for it.
pub proof fn law_valid_histories_are_left_alone(
    history: Seq<MessageView>,
    loaded: Seq<LoadedView>,
    text: Seq<char>,
)
    requires
        is_ordered(history),
    ensures
        repaired(history, text) == history,
        restored_history(history, loaded, text) == history,
        missing_from(history, 0).len() == 0,
{
    lemma_valid_stays(history, 0, |i: int| filled_batch(history, i, text));
    lemma_valid_stays(history, 0, |i: int| arranged_batch(history, i, loaded, text));
    assert(history.skip(0) =~= history);
    lemma_nothing_missing(history, 0);
}

proof fn lemma_nothing_missing(history: Seq<MessageView>, i: int)
    requires
        is_ordered(history),
        0 <= i <= history.len(),
    ensures
        missing_from(history, i).len() == 0,
    decreases history.len() - i,
{
    if i < history.len() {
        lemma_answered_at(history, i);
        lemma_nothing_missing(history, i + 1);
    }
}

/// Whether the calls of the message at `j`, if it has any, have their results behind it.
spec fn is_answered_at(history: Seq<MessageView>, j: int) -> bool {
    calls_of(history[j]).len() > 0 ==> has_batch(history, j) && missing_at(history, j).len() == 0
}

/// Content that fills what is missing behind calls leaves nothing missing.
proof fn lemma_filled_lacks_nothing(
    history: Seq<MessageView>,
    i: int,
    content: Seq<UserContentView>,
    whole: Seq<MessageView>,
)
    requires
        0 <= i < history.len(),
        calls_of(history[i]).len() > 0,
        fills(history, i, content),
        whole.len() > 1,
        whole[0] == history[i],
        whole[1] == (MessageView::User { content }),
    ensures
        is_answered_at(whole, 0),
{
    let wanted = call_ids(calls_of(history[i]));
    let ids = answered_ids(results_in(content));
    assert(wanted.contains(wanted[0]));
    assert(ids.contains(wanted[0]));
    assert(has_batch(whole, 0));
    lemma_calls_without(calls_of(whole[0]), ids);
    if missing_at(whole, 0).len() > 0 {
        let id = missing_at(whole, 0)[0].id;
        assert(call_ids(missing_at(whole, 0))[0] == id);
        assert(call_ids(missing_at(whole, 0)).contains(id));
        assert(ids.contains(id));
    }
}

proof fn lemma_rebuilt_is_answered(
    history: Seq<MessageView>,
    i: int,
    batches: spec_fn(int) -> Seq<UserContentView>,
)
    requires
        0 <= i <= history.len(),
        forall|k: int| 0 <= k < history.len() ==> fills(history, k, #[trigger] batches(k)),
    ensures
        forall|j: int|
            0 <= j < rebuilt(history, i, batches).len() ==> #[trigger] is_answered_at(
                rebuilt(history, i, batches),
                j,
            ),
    decreases history.len() - i,
{
    let whole = rebuilt(history, i, batches);
    if i < history.len() {
        assert(fills(history, i, batches(i)));
        if calls_of(history[i]).len() == 0 {
            let rest = rebuilt(history, i + 1, batches);
            lemma_rebuilt_is_answered(history, i + 1, batches);
            assert forall|j: int| 0 <= j < whole.len() implies #[trigger] is_answered_at(whole, j) by {
                if j > 0 {
                    assert(is_answered_at(rest, j - 1));
                    assert(whole[j] == rest[j - 1]);
                }
            }
        } else {
            let (content, next) = if has_batch(history, i) {
                (
                    if missing_at(history, i).len() > 0 {
                        batches(i)
                    } else {
                        history[i + 1]->User_content
                    },
                    i + 2,
                )
            } else {
                (batches(i), i + 1)
            };
            if has_batch(history, i) && missing_at(history, i).len() == 0 {
                lemma_nothing_missing_fills(history, i);
            }
            let rest = rebuilt(history, next, batches);
            lemma_rebuilt_is_answered(history, next, batches);
            assert(whole =~= seq![history[i], MessageView::User { content }] + rest);
            lemma_filled_lacks_nothing(history, i, content, whole);
            assert forall|j: int| 0 <= j < whole.len() implies #[trigger] is_answered_at(whole, j) by {
                if j > 1 {
                    assert(is_answered_at(rest, j - 2));
                    assert(whole[j] == rest[j - 2]);
                }
            }
        }
    }
}

proof fn lemma_answered_stays(
    history: Seq<MessageView>,
    i: int,
    batches: spec_fn(int) -> Seq<UserContentView>,
)
    requires
        0 <= i <= history.len(),
        forall|j: int| 0 <= j < history.len() ==> #[trigger] is_answered_at(history, j),
    ensures
        rebuilt(history, i, batches) == history.skip(i),
    decreases history.len() - i,
{
    if i < history.len() {
        assert(is_answered_at(history, i));
        if calls_of(history[i]).len() == 0 {
            lemma_answered_stays(history, i + 1, batches);
            assert(seq![history[i]] + history.skip(i + 1) =~= history.skip(i));
        } else {
            lemma_answered_stays(history, i + 2, batches);
            assert(seq![history[i], history[i + 1]] + history.skip(i + 2) =~= history.skip(i));
        }
    } else {
        assert(history.skip(i) =~= Seq::empty());
    }
}

/// Repairing a repaired history changes nothing, whatever was wrong with it, and by either repair.
pub proof fn law_repair_is_idempotent(
    history: Seq<MessageView>,
    text: Seq<char>,
    loaded: Seq<LoadedView>,
    other: Seq<char>,
    other_loaded: Seq<LoadedView>,
)
    ensures
        repaired(repaired(history, text), other) == repaired(history, text),
        restored_history(restored_history(history, loaded, text), other_loaded, other)
            == restored_history(history, loaded, text),
{
    let batches = |i: int| filled_batch(history, i, text);
    assert forall|k: int| 0 <= k < history.len() implies fills(history, k, #[trigger] batches(k)) by {
        lemma_filled_batch(history, k, text);
    }
    lemma_rebuilt_is_answered(history, 0, batches);
    let once = repaired(history, text);
    lemma_answered_stays(once, 0, |i: int| filled_batch(once, i, other));
    assert(once.skip(0) =~= once);
    let stored = |i: int| arranged_batch(history, i, loaded, text);
    assert forall|k: int| 0 <= k < history.len() implies fills(history, k, #[trigger] stored(k)) by {
        lemma_arranged_batch(history, k, loaded, text);
    }
    lemma_rebuilt_is_answered(history, 0, stored);
    let restored = restored_history(history, loaded, text);
    lemma_answered_stays(restored, 0, |i: int| arranged_batch(restored, i, other_loaded, other));
    assert(restored.skip(0) =~= restored);
}

pub(crate) proof fn lemma_open_rebuilt(
    history: Seq<MessageView>,
    i: int,
    batches: spec_fn(int) -> Seq<UserContentView>,
)
    requires
        0 <= i <= history.len(),
        is_open_ordered(history),
    ensures
        rebuilt(history, i, batches) == history.skip(i) || rebuilt(history, i, batches) == history.skip(
            i,
        ).push(MessageView::User { content: batches(history.len() - 1) }),
    decreases history.len() - i,
{
    let last = MessageView::User { content: batches(history.len() - 1) };
    if i < history.len() {
        let message = history[i];
        if calls_of(message).len() == 0 {
            lemma_open_rebuilt(history, i + 1, batches);
            assert(seq![message] + history.skip(i + 1) =~= history.skip(i));
            assert(seq![message] + history.skip(i + 1).push(last) =~= history.skip(i).push(last));
        } else if i + 1 < history.len() {
            lemma_answered_inside(history, i);
            lemma_open_rebuilt(history, i + 2, batches);
            assert(seq![message, history[i + 1]] + history.skip(i + 2) =~= history.skip(i));
            assert(seq![message, history[i + 1]] + history.skip(i + 2).push(last) =~= history.skip(
                i,
            ).push(last));
        } else {
            assert(rebuilt(history, i + 1, batches) =~= Seq::empty());
            assert(rebuilt(history, i, batches) =~= history.skip(i).push(last));
        }
    } else {
        assert(history.skip(i) =~= Seq::empty());
    }
}

/// In a history without a fault, whose end may be open, a repair adds at most one message at the
/// end, and changes nothing that is there.
pub proof fn law_open_histories_are_repaired_at_the_end(
    history: Seq<MessageView>,
    loaded: Seq<LoadedView>,
    text: Seq<char>,
)
    requires
        is_open_ordered(history),
    ensures
        history.is_prefix_of(repaired(history, text)),
        repaired(history, text).len() <= history.len() + 1,
        history.is_prefix_of(restored_history(history, loaded, text)),
        restored_history(history, loaded, text).len() <= history.len() + 1,
{
    lemma_open_rebuilt(history, 0, |i: int| filled_batch(history, i, text));
    lemma_open_rebuilt(history, 0, |i: int| arranged_batch(history, i, loaded, text));
    assert(history.skip(0) =~= history);
}

/// Whether a message is another one, perhaps with further content behind its own.
pub open spec fn grew_from(old_message: MessageView, new_message: MessageView) -> bool {
    old_message == new_message || (old_message is User && new_message is User
        && old_message->User_content.is_prefix_of(new_message->User_content))
}

/// Whether messages hold others, in order, each perhaps with further content behind its own.
pub open spec fn hold_all(messages: Seq<MessageView>, others: Seq<MessageView>) -> bool
    decreases messages.len(),
{
    if others.len() == 0 {
        true
    } else if messages.len() == 0 {
        false
    } else {
        (grew_from(others[0], messages[0]) && hold_all(messages.skip(1), others.skip(1))) || hold_all(
            messages.skip(1),
            others,
        )
    }
}

/// A repair keeps every message that is there, in order; it adds messages, and content to the
/// end of messages, and nothing else.
pub proof fn law_repair_keeps_what_is_there(history: Seq<MessageView>, text: Seq<char>)
    ensures
        hold_all(repaired(history, text), history),
{
    lemma_repair_keeps(history, 0, text);
    assert(history.skip(0) =~= history);
}

proof fn lemma_repair_keeps(history: Seq<MessageView>, i: int, text: Seq<char>)
    requires
        0 <= i <= history.len(),
    ensures
        hold_all(
            rebuilt(history, i, |k: int| filled_batch(history, k, text)),
            history.skip(i),
        ),
    decreases history.len() - i,
{
    let batches = |k: int| filled_batch(history, k, text);
    let whole = rebuilt(history, i, batches);
    let wanted = history.skip(i);
    if i < history.len() {
        assert(wanted[0] == history[i]);
        assert(wanted.skip(1) =~= history.skip(i + 1));
        if calls_of(history[i]).len() == 0 {
            lemma_repair_keeps(history, i + 1, text);
            assert(whole.skip(1) =~= rebuilt(history, i + 1, batches));
        } else if has_batch(history, i) {
            lemma_repair_keeps(history, i + 2, text);
            let rest = whole.skip(1);
            assert(rest.skip(1) =~= rebuilt(history, i + 2, batches));
            assert(wanted.skip(1)[0] == history[i + 1]);
            assert(wanted.skip(1).skip(1) =~= history.skip(i + 2));
            assert(batch_content(history, i).is_prefix_of(filled_batch(history, i, text)));
            assert(grew_from(history[i + 1], rest[0]));
            assert(hold_all(rest, wanted.skip(1)));
        } else {
            lemma_repair_keeps(history, i + 1, text);
            let rest = whole.skip(1);
            assert(rest.skip(1) =~= rebuilt(history, i + 1, batches));
            assert(hold_all(rest, wanted.skip(1)));
        }
    }
}

/// What the stricter rules of a journal admit as a history is valid here, too.
pub proof fn law_provider_histories_are_ordered(history: Seq<MessageView>)
    requires
        is_history(history),
    ensures
        is_ordered(history),
{
    assert forall|i: int| 0 <= i < history.len() implies (#[trigger] order_fault(history, i)) is None by {
        assert(fault_at(history, i) is None);
        let pending = pending_before(history, i);
        let found = results_of(history[i]);
        let (expected, ids) = (call_ids(pending), answered_ids(found));
        assert(expected.len() == pending.len());
        lemma_first_repeat(call_ids(calls_of(history[i])), 0);
        if pending.len() > 0 {
            assert forall|k: int| 0 <= k < expected.len() implies ids.contains(#[trigger] expected[k]) by {
                law_each_call_answered_once(history, i - 1, k);
                let r = choose|r: int| 0 <= r < found.len() && answers(pending[k], #[trigger] found[r]);
                assert(ids[r] == expected[k]);
            }
            lemma_sound_results(pending, found);
            lemma_batch_fault(expected, ids, i);
        }
    }
}

} // verus!
