//! What checkpoints and the durable store are for: what is written, acknowledged, pending and kept.
use crate::api::{call_key, result_key, AgentLoopErrorView, ToolResultKeyView, TurnHookActionView};
use crate::checkpoint::{
    checkpoint_keys, checkpoint_plan, common_len, durable_repair, hook_action,
    DurableCheckpointerView,
};
use crate::durable::{
    all_results, block_id, content_id, durable_ids, entries_without, entry_with, json_text_field,
    json_with_text, keep_all, kept, law_kept_results_are_loaded, message_id, message_ids, persisted,
    shown, tagged, text_place, with_acks, DurableAgentErrorView, DurableInboxEntryView,
    DurableInboxStatus, DurableTurnOutcomeView, INBOX_ENTRY_ID_PARAM, InMemoryDurableAgentStoreView,
    KeptResultView, PersistMessagesArgsView,
};
use crate::history::{is_ordered, law_ordered_histories_have_no_fault};
use crate::message::{results_of, MessageView, ToolResultView, UserContentView};
use crate::repair::{first_failure, missing_from, restored_history, LoadedView};
use crate::store_laws::lemma_filtered_is_there;
use vstd::prelude::*;

verus! {

/// Two histories have in common what they begin with, and no more: behind it they differ or one of
/// them ends.
pub proof fn law_histories_have_their_beginning_in_common(left: Seq<MessageView>, right: Seq<MessageView>)
    ensures
        ({
            let n = common_len(left, right) as int;
            &&& n <= left.len() && n <= right.len()
            &&& left.take(n) == right.take(n)
            &&& n < left.len() && n < right.len() ==> left[n] != right[n]
        }),
    decreases left.len(),
{
    let n = common_len(left, right) as int;
    if left.len() > 0 && right.len() > 0 && left[0] == right[0] {
        let (l, r) = (left.skip(1), right.skip(1));
        law_histories_have_their_beginning_in_common(l, r);
        let m = common_len(l, r) as int;
        assert(left.take(n) =~= seq![left[0]] + l.take(m));
        assert(right.take(n) =~= seq![right[0]] + r.take(m));
        if n < left.len() && n < right.len() {
            assert(l[m] == left[n]);
            assert(r[m] == right[n]);
        }
    } else {
        assert(left.take(n) =~= right.take(n));
    }
}

/// A history that goes on from what is durable is written as far as it is new, with the outcome,
/// and is durable then; nothing is put in its place. Nothing is written exactly where nothing is
/// new and there is no outcome.
pub proof fn law_checkpoints_write_what_is_new(
    c: DurableCheckpointerView,
    more: Seq<MessageView>,
    outcome: Option<DurableTurnOutcomeView>,
    loaded: Seq<LoadedView>,
)
    ensures
        ({
            let history = c.persisted_history + more;
            let plan = checkpoint_plan(c, history, outcome, loaded);
            &&& plan is Ok
            &&& plan->Ok_0.persisted_history == history
            &&& plan->Ok_0.replacement_history is None
            &&& plan->Ok_0.args is None <==> more.len() == 0 && outcome is None
            &&& plan->Ok_0.args matches Some(args) ==> args.messages == more && args.turn_outcome
                == outcome
        }),
{
    let history = c.persisted_history + more;
    assert(c.persisted_history.is_prefix_of(history));
    assert(history.skip(c.persisted_history.len() as int) =~= more);
}

/// A history that does not go on from what is durable is put behind it, as far as the two differ,
/// once what is durable is repaired; the result is what the loop goes on with.
pub proof fn law_checkpoints_mend_what_is_durable(
    c: DurableCheckpointerView,
    history: Seq<MessageView>,
    outcome: Option<DurableTurnOutcomeView>,
    loaded: Seq<LoadedView>,
    mended: Seq<MessageView>,
)
    requires
        !c.persisted_history.is_prefix_of(history),
        durable_repair(c, loaded) == Ok::<Seq<MessageView>, DurableAgentErrorView>(
            mended,
        ),
    ensures
        ({
            let rest = history.skip(common_len(c.persisted_history, history) as int);
            let plan = checkpoint_plan(c, history, outcome, loaded);
            &&& plan is Ok <==> is_ordered(mended + rest)
            &&& plan is Ok ==> plan->Ok_0.persisted_history == mended + rest
                && plan->Ok_0.replacement_history == Some(mended + rest)
            &&& plan is Ok ==> (plan->Ok_0.args matches Some(args) ==> args.turn_outcome == outcome)
        }),
        c.repair_message is None ==> mended == c.persisted_history,
{
    let rest = history.skip(common_len(c.persisted_history, history) as int);
    law_ordered_histories_have_no_fault(mended + rest);
}

/// A loop is asked to stop exactly where there is a reason to, and to go on with another history
/// exactly where there is one.
pub proof fn law_hooks_ask_for_what_there_is(replaced: Option<Seq<MessageView>>, stopped: Option<Seq<char>>)
    ensures
        ({
            let action = hook_action(replaced, stopped);
            &&& action is Continue <==> replaced is None && stopped is None
            &&& replaced is Some && stopped is None ==> action == TurnHookActionView::ReplaceHistory(
                replaced->0,
            )
            &&& replaced is None && stopped is Some ==> action == (TurnHookActionView::Abort {
                reason: stopped->0,
            })
            &&& replaced is Some && stopped is Some ==> action == (
            TurnHookActionView::ReplaceHistoryAndAbort { history: replaced->0, reason: stopped->0 })
        }),
{
}

/// The id of a message is the first that a text of it carries; only user messages carry one.
pub proof fn law_messages_carry_their_first_id(message: MessageView)
    ensures
        message !is User ==> message_id(message) is None,
        message matches MessageView::User { content } ==> (match message_id(message) {
            Some(id) => exists|k: int|
                0 <= k < content.len() && carries(#[trigger] content[k], id) && (forall|j: int|
                    0 <= j < k ==> carries_none(#[trigger] content[j])),
            None => forall|k: int| 0 <= k < content.len() ==> carries_none(#[trigger] content[k]),
        }),
{
    if let MessageView::User { content } = message {
        lemma_first_id(content, 0);
    }
}

/// Whether a block is a text with an id among its parameters.
pub open spec fn carries(block: UserContentView, id: Seq<char>) -> bool {
    block matches UserContentView::Text(text) && text.additional_params is Some && json_text_field(
        text.additional_params->0,
        INBOX_ENTRY_ID_PARAM@,
    ) == Some(id)
}

/// Whether a block carries no id.
pub open spec fn carries_none(block: UserContentView) -> bool {
    forall|id: Seq<char>| !carries(block, id)
}

proof fn lemma_block_id(block: UserContentView)
    ensures
        block_id(block) is None <==> carries_none(block),
        block_id(block) matches Some(id) ==> carries(block, id),
{
    if block_id(block) is Some {
        assert(carries(block, block_id(block)->0));
    }
}

proof fn lemma_first_id(content: Seq<UserContentView>, from: int)
    requires
        0 <= from,
    ensures
        match content_id(content, from) {
            Some(id) => exists|k: int|
                from <= k < content.len() && carries(#[trigger] content[k], id) && (forall|j: int|
                    from <= j < k ==> carries_none(#[trigger] content[j])),
            None => forall|k: int| from <= k < content.len() ==> carries_none(#[trigger] content[k]),
        },
    decreases content.len() - from,
{
    if from < content.len() {
        lemma_block_id(content[from]);
        lemma_first_id(content, from + 1);
        if block_id(content[from]) is Some {
            assert(carries(content[from], content_id(content, from)->0));
        } else if let Some(id) = content_id(content, from) {
            let k = choose|k: int|
                from + 1 <= k < content.len() && carries(#[trigger] content[k], id) && (forall|j: int|
                    from + 1 <= j < k ==> carries_none(#[trigger] content[j]));
            assert(carries(content[k], id));
            assert forall|j: int| from <= j < k implies carries_none(#[trigger] content[j]) by {}
        }
    }
}

/// The ids of messages are those that they carry, one behind the other.
pub proof fn law_ids_of_messages_come_in_order(
    messages: Seq<MessageView>,
    more: Seq<MessageView>,
    message: MessageView,
)
    ensures
        message_ids(Seq::<MessageView>::empty()) == Seq::<Seq<char>>::empty(),
        message_ids(seq![message]) == (match message_id(message) {
            Some(id) => seq![id],
            None => Seq::empty(),
        }),
        message_ids(messages + more) == message_ids(messages) + message_ids(more),
    decreases more.len(),
{
    let one = seq![message];
    assert(one.drop_last() =~= Seq::empty());
    assert(message_ids(one.drop_last()) =~= Seq::empty());
    assert(message_ids(one) =~= (match message_id(message) {
        Some(id) => seq![id],
        None => Seq::empty(),
    }));
    if more.len() == 0 {
        assert(messages + more =~= messages);
        assert(message_ids(messages) + message_ids(more) =~= message_ids(messages));
    } else {
        law_ids_of_messages_come_in_order(messages, more.drop_last(), message);
        assert((messages + more).drop_last() =~= messages + more.drop_last());
        assert(message_ids(messages + more) =~= message_ids(messages) + message_ids(more));
    }
}

/// A message can be put under an id only where it is a user message with a text.
pub proof fn law_signals_need_a_text(message: MessageView, id: Seq<char>)
    ensures
        message !is User ==> tagged(message, id) is Err,
        message matches MessageView::User { content } ==> ((forall|k: int|
            0 <= k < content.len() ==> (#[trigger] content[k]) !is Text) ==> tagged(message, id) is Err),
{
    if let MessageView::User { content } = message {
        if forall|k: int| 0 <= k < content.len() ==> (#[trigger] content[k]) !is Text {
            lemma_no_text(content, 0);
        }
    }
}

proof fn lemma_no_text(content: Seq<UserContentView>, from: int)
    requires
        0 <= from,
        forall|k: int| 0 <= k < content.len() ==> (#[trigger] content[k]) !is Text,
    ensures
        text_place(content, from) is None,
    decreases content.len() - from,
{
    if from < content.len() {
        lemma_no_text(content, from + 1);
    }
}

proof fn lemma_entries_without(entries: Seq<DurableInboxEntryView>, ids: Seq<Seq<char>>)
    ensures
        entries_without(entries, ids) == entries.filter(
            |e: DurableInboxEntryView| !ids.contains(e.id),
        ),
    decreases entries.len(),
{
    reveal(Seq::filter);
    if entries.len() > 0 {
        lemma_entries_without(entries.drop_last(), ids);
    }
}

/// The pending entries are those that were submitted and are not among the acknowledged ones, of
/// any kind and in the order of submission.
pub proof fn law_submitted_signals_are_pending(s: InMemoryDurableAgentStoreView, entry: DurableInboxEntryView)
    ensures
        ({
            let view = shown(s);
            let acked = durable_ids(s.acked_inbox_entries);
            &&& view.pending_inbox_entries == s.submitted_inbox_entries.filter(
                |e: DurableInboxEntryView| !acked.contains(e.id),
            )
            &&& view.pending_inbox_entries.contains(entry) <==> s.submitted_inbox_entries.contains(
                entry,
            ) && !(exists|k: int|
                0 <= k < s.acked_inbox_entries.len() && (#[trigger] s.acked_inbox_entries[k]).id
                    == entry.id)
            &&& view.submitted_inbox_entries == s.submitted_inbox_entries
            &&& view.acked_inbox_entries == s.acked_inbox_entries
            &&& view.acked_inbox_ids == s.acked_inbox_ids
            &&& view.persisted_messages == s.persisted_messages
            &&& view.transactions == s.transactions
            &&& view.turn_outcomes == s.turn_outcomes
            &&& view.tool_results == s.tool_results
        }),
{
    let all = s.submitted_inbox_entries;
    let acked = durable_ids(s.acked_inbox_entries);
    let open = |e: DurableInboxEntryView| !acked.contains(e.id);
    lemma_entries_without(all, acked);
    let found = all.filter(open);
    if found.contains(entry) {
        let k = choose|k: int| 0 <= k < found.len() && found[k] == entry;
        all.lemma_filter_pred(open, k);
        lemma_filtered_is_there(all, open, k);
    }
    if all.contains(entry) && open(entry) {
        let k = choose|k: int| 0 <= k < all.len() && all[k] == entry;
        all.lemma_filter_contains(open, k);
    }
    if acked.contains(entry.id) {
        let k = choose|k: int| 0 <= k < acked.len() && acked[k] == entry.id;
        assert(s.acked_inbox_entries[k].id == entry.id);
    } else {
        assert forall|k: int| 0 <= k < s.acked_inbox_entries.len() implies (
        #[trigger] s.acked_inbox_entries[k]).id != entry.id by {
            assert(acked[k] == s.acked_inbox_entries[k].id);
        }
    }
}

proof fn lemma_entry_with_id(entries: Seq<DurableInboxEntryView>, id: Seq<char>)
    ensures
        match entry_with(entries, id) {
            Some(entry) => entry.id == id && entries.contains(entry),
            None => !durable_ids(entries).contains(id),
        },
    decreases entries.len(),
{
    if entries.len() > 0 {
        let rest = entries.skip(1);
        lemma_entry_with_id(rest, id);
        if entries[0].id == id {
            assert(entries.contains(entries[0]));
        } else if let Some(entry) = entry_with(rest, id) {
            let k = choose|k: int| 0 <= k < rest.len() && rest[k] == entry;
            assert(entries[k + 1] == entry);
        } else if durable_ids(entries).contains(id) {
            let k = choose|k: int| 0 <= k < entries.len() && durable_ids(entries)[k] == id;
            assert(durable_ids(rest)[k - 1] == id);
        }
    }
}

/// Whether the acknowledged entries are submitted ones, marked so and each once, behind others.
spec fn marks(
    acked: Seq<DurableInboxEntryView>,
    submitted: Seq<DurableInboxEntryView>,
    next: Seq<DurableInboxEntryView>,
) -> bool {
    &&& acked.is_prefix_of(next)
    &&& forall|k: int|
        acked.len() <= k < next.len() ==> (#[trigger] next[k]).status is Acked && durable_ids(
            submitted,
        ).contains(next[k].id)
}

proof fn lemma_with_acks(
    acked: Seq<DurableInboxEntryView>,
    submitted: Seq<DurableInboxEntryView>,
    ids: Seq<Seq<char>>,
    id: Seq<char>,
)
    ensures
        marks(acked, submitted, with_acks(acked, submitted, ids)),
        durable_ids(with_acks(acked, submitted, ids)).contains(id) <==> durable_ids(acked).contains(id)
            || (ids.contains(id) && durable_ids(submitted).contains(id)),
        durable_ids(acked).no_duplicates() ==> durable_ids(
            with_acks(acked, submitted, ids),
        ).no_duplicates(),
    decreases ids.len(),
{
    if ids.len() > 0 {
        let rest = ids.drop_last();
        let before = with_acks(acked, submitted, rest);
        let after = with_acks(acked, submitted, ids);
        let last = ids.last();
        lemma_with_acks(acked, submitted, rest, id);
        lemma_entry_with_id(submitted, last);
        assert(ids.contains(id) <==> rest.contains(id) || id == last) by {
            assert(rest.push(last) =~= ids);
            if rest.contains(id) {
                let k = choose|k: int| 0 <= k < rest.len() && rest[k] == id;
                assert(ids[k] == id);
            }
            if id == last {
                assert(ids[ids.len() - 1] == id);
            }
            if ids.contains(id) && id != last {
                let k = choose|k: int| 0 <= k < ids.len() && ids[k] == id;
                assert(rest[k] == id);
            }
        }
        if after != before {
            let entry = entry_with(submitted, last)->0;
            let new = DurableInboxEntryView { status: DurableInboxStatus::Acked, ..entry };
            assert(after == before.push(new));
            assert(durable_ids(after) =~= durable_ids(before).push(last));
            let s = choose|s: int| 0 <= s < submitted.len() && submitted[s] == entry;
            assert(durable_ids(submitted)[s] == last);
            if durable_ids(before).contains(id) {
                let k = choose|k: int| 0 <= k < before.len() && durable_ids(before)[k] == id;
                assert(durable_ids(after)[k] == id);
            }
            if id == last {
                assert(durable_ids(after)[before.len() as int] == id);
            }
            if durable_ids(after).contains(id) && id != last {
                let k = choose|k: int| 0 <= k < after.len() && durable_ids(after)[k] == id;
                assert(durable_ids(before)[k] == id);
            }
        }
    }
}

/// A transaction appends its messages and is noted with its outcome. It acknowledges exactly the
/// submitted entries that it names, each at most once, and takes nothing back.
pub proof fn law_transactions_take_effect(
    s: InMemoryDurableAgentStoreView,
    args: PersistMessagesArgsView,
    id: Seq<char>,
)
    ensures
        ({
            let next = persisted(s, args);
            let before = durable_ids(s.acked_inbox_entries);
            let after = durable_ids(next.acked_inbox_entries);
            &&& next.persisted_messages == s.persisted_messages + args.messages
            &&& next.transactions == s.transactions.push(args)
            &&& next.acked_inbox_ids == s.acked_inbox_ids + args.ack_inbox_entry_ids
            &&& next.submitted_inbox_entries == s.submitted_inbox_entries
            &&& args.turn_outcome is None ==> next.turn_outcomes == s.turn_outcomes
            &&& args.turn_outcome is Some ==> next.turn_outcomes == s.turn_outcomes.push(
                args.turn_outcome->0,
            )
            &&& after.contains(id) <==> before.contains(id) || (args.ack_inbox_entry_ids.contains(id)
                && durable_ids(s.submitted_inbox_entries).contains(id))
            &&& before.no_duplicates() ==> after.no_duplicates()
            &&& s.acked_inbox_entries.is_prefix_of(next.acked_inbox_entries)
            &&& forall|k: int|
                s.acked_inbox_entries.len() <= k < next.acked_inbox_entries.len() ==> (
                #[trigger] next.acked_inbox_entries[k]).status is Acked
        }),
{
    lemma_with_acks(s.acked_inbox_entries, s.submitted_inbox_entries, args.ack_inbox_entry_ids, id);
}

/// The results that messages carry are kept, each under its key; under a key the last one counts.
/// What is kept under other keys stays.
pub proof fn law_results_of_messages_are_kept(
    stored: Seq<KeptResultView>,
    found: Seq<ToolResultView>,
    key: ToolResultKeyView,
)
    ensures
        match last_under(found, key) {
            Some(result) => kept(keep_all(stored, found), key) == Some(result),
            None => kept(keep_all(stored, found), key) == kept(stored, key),
        },
    decreases found.len(),
{
    if found.len() > 0 {
        let rest = found.drop_last();
        law_results_of_messages_are_kept(stored, rest, key);
        let other = result_key(found.last());
        let before = keep_all(stored, rest);
        if other == key {
            let different = ToolResultKeyView { id: key.id.push('a'), ..key };
            assert(different.id.len() != key.id.len());
            law_kept_results_are_loaded(before, key, found.last(), different);
        } else {
            law_kept_results_are_loaded(before, other, found.last(), key);
        }
    }
}

/// The last of some results under a key.
pub open spec fn last_under(found: Seq<ToolResultView>, key: ToolResultKeyView) -> Option<ToolResultView>
    decreases found.len(),
{
    if found.len() == 0 {
        None
    } else if result_key(found.last()) == key {
        Some(found.last())
    } else {
        last_under(found.drop_last(), key)
    }
}

/// The results of messages are those of each, one behind the other.
pub proof fn law_results_of_messages_come_in_order(messages: Seq<MessageView>, message: MessageView)
    ensures
        all_results(Seq::<MessageView>::empty()) == Seq::<ToolResultView>::empty(),
        all_results(messages.push(message)) == all_results(messages) + results_of(message),
{
    assert(messages.push(message).drop_last() =~= messages);
}

/// What is durable is repaired before it is gone on from, with what was looked up for each call
/// without a result, and exactly that is looked up. Where nothing is to be repaired, or the history
/// goes on from what is durable, nothing is looked up; a lookup that failed is told.
pub proof fn law_durable_histories_are_repaired(
    c: DurableCheckpointerView,
    history: Seq<MessageView>,
    loaded: Seq<LoadedView>,
    text: Seq<char>,
)
    ensures
        c.repair_message is None ==> checkpoint_keys(c, history).len() == 0 && durable_repair(c, loaded)
            == Ok::<Seq<MessageView>, DurableAgentErrorView>(c.persisted_history),
        c.persisted_history.is_prefix_of(history) ==> checkpoint_keys(c, history).len() == 0,
        c.repair_message == Some(text) && !c.persisted_history.is_prefix_of(history) ==> {
            let missing = missing_from(c.persisted_history, 0);
            let keys = checkpoint_keys(c, history);
            &&& keys.len() == missing.len()
            &&& forall|k: int| 0 <= k < keys.len() ==> #[trigger] keys[k] == call_key(missing[k])
        },
        c.repair_message == Some(text) ==> (match first_failure(
            loaded,
            0,
            missing_from(c.persisted_history, 0).len() as int,
        ) {
            None => durable_repair(c, loaded) == Ok::<Seq<MessageView>, DurableAgentErrorView>(
                restored_history(c.persisted_history, loaded, text),
            ),
            Some(reason) => durable_repair(c, loaded) == Err::<Seq<MessageView>, DurableAgentErrorView>(
                DurableAgentErrorView::AgentLoop(AgentLoopErrorView::ToolResultPersistence(reason)),
            ),
        }),
{
}

/// A message is put under an id at its first text.
pub proof fn law_ids_are_put_at_the_first_text(message: MessageView, id: Seq<char>, k: int)
    requires
        message is User,
        0 <= k < message->User_content.len(),
        message->User_content[k] is Text,
        forall|j: int| 0 <= j < k ==> (#[trigger] message->User_content[j]) !is Text,
    ensures
        tagged(message, id) matches Ok(next) ==> {
            let (old_content, new_content) = (message->User_content, next->User_content);
            &&& next is User
            &&& new_content.len() == old_content.len()
            &&& forall|j: int|
                0 <= j < old_content.len() && j != k ==> #[trigger] new_content[j] == old_content[j]
            &&& new_content[k] is Text
            &&& new_content[k]->Text_0.text == old_content[k]->Text_0.text
            &&& new_content[k]->Text_0.additional_params == json_with_text(
                match old_content[k]->Text_0.additional_params {
                    Some(params) => params,
                    None => "{}"@,
                },
                INBOX_ENTRY_ID_PARAM@,
                id,
            )
        },
{
    lemma_first_text_place(message->User_content, 0, k);
}

proof fn lemma_first_text_place(content: Seq<UserContentView>, from: int, k: int)
    requires
        0 <= from <= k < content.len(),
        content[k] is Text,
        forall|j: int| from <= j < k ==> (#[trigger] content[j]) !is Text,
    ensures
        text_place(content, from) == Some(k),
    decreases k - from,
{
    if from < k {
        lemma_first_text_place(content, from + 1, k);
    }
}

} // verus!
