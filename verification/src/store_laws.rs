//! What a store is for: what it takes, what it gives back, and what a restart finds in it.
use crate::journal::{is_journal, law_journals_are_not_refused, law_only_the_seam_matters, seam};
use crate::message::{MessageView, ToolResultView};
use crate::store::{
    ack_fault, acks_fault, after_commit, after_save, after_submit, commit_answer, commit_ids,
    entry_ids, is_sound, message_for, messages_for, occurrences, pending_entries, receipt_keys,
    save_answer, stored_result, submit_answer, CommitView, InboxEntryView, InboxStatus, ReceiptView,
    SnapshotView, ToolKeyView,
};
use vstd::prelude::*;

verus! {

proof fn lemma_pending(inbox: Seq<InboxEntryView>, acked: Seq<Seq<char>>)
    ensures
        pending_entries(inbox, acked) == inbox.filter(|e: InboxEntryView| !acked.contains(e.id)),
    decreases inbox.len(),
{
    reveal(Seq::filter);
    if inbox.len() > 0 {
        lemma_pending(inbox.drop_last(), acked);
    }
}

/// A restart finds every signal that was submitted and not acknowledged, of any kind, in the order
/// of submission, and no other.
pub proof fn law_unacknowledged_entries_are_pending(inbox: Seq<InboxEntryView>, acked: Seq<Seq<char>>)
    ensures
        pending_entries(inbox, acked) == inbox.filter(|e: InboxEntryView| !acked.contains(e.id)),
        forall|entry: InboxEntryView| #[trigger]
            pending_entries(inbox, acked).contains(entry) <==> inbox.contains(entry)
                && !acked.contains(entry.id),
        acked.len() == 0 ==> pending_entries(inbox, acked) == inbox,
    decreases inbox.len(),
{
    lemma_pending(inbox, acked);
    let keep = |e: InboxEntryView| !acked.contains(e.id);
    let found = inbox.filter(keep);
    assert forall|entry: InboxEntryView| #[trigger]
        pending_entries(inbox, acked).contains(entry) <==> inbox.contains(entry) && !acked.contains(
        entry.id,
    ) by {
        if found.contains(entry) {
            let i = choose|i: int| 0 <= i < found.len() && found[i] == entry;
            inbox.lemma_filter_pred(keep, i);
            lemma_filtered_is_there(inbox, keep, i);
        }
        if inbox.contains(entry) && keep(entry) {
            let i = choose|i: int| 0 <= i < inbox.len() && inbox[i] == entry;
            inbox.lemma_filter_contains(keep, i);
        }
    }
    if acked.len() == 0 && inbox.len() > 0 {
        law_unacknowledged_entries_are_pending(inbox.drop_last(), acked);
        assert(inbox.drop_last().push(inbox.last()) =~= inbox);
    }
}

pub(crate) proof fn lemma_filtered_is_there<A>(s: Seq<A>, keep: spec_fn(A) -> bool, i: int)
    requires
        0 <= i < s.filter(keep).len(),
    ensures
        s.contains(s.filter(keep)[i]),
    decreases s.len(),
{
    reveal(Seq::filter);
    if s.len() > 0 {
        let rest = s.drop_last();
        if i < rest.filter(keep).len() {
            lemma_filtered_is_there(rest, keep, i);
            let k = choose|k: int| 0 <= k < rest.len() && rest[k] == rest.filter(keep)[i];
            assert(s[k] == rest[k]);
        } else {
            assert(s[s.len() - 1] == s.last());
        }
    }
}

/// A submission is refused exactly where its id stands for other contents already. An accepted one
/// is stored, once and behind the others, and is pending until a commit acknowledges it; the answer
/// tells which of the two holds.
pub proof fn law_submissions_are_stored(s: SnapshotView, entry: InboxEntryView)
    requires
        is_sound(s),
    ensures
        submit_answer(s, entry) is Err <==> exists|i: int|
            0 <= i < s.inbox.len() && (#[trigger] s.inbox[i]).id == entry.id && s.inbox[i] != entry,
        submit_answer(s, entry) is Ok ==> after_submit(s, entry).inbox.contains(entry),
        after_submit(s, entry).inbox == s.inbox || after_submit(s, entry).inbox == s.inbox.push(entry),
        s.inbox.contains(entry) ==> after_submit(s, entry).inbox == s.inbox,
        submit_answer(s, entry) == Ok::<InboxStatus, Seq<char>>(InboxStatus::Acked) <==> s.inbox.contains(
            entry,
        ) && s.acked_ids.contains(entry.id),
        submit_answer(s, entry) == Ok::<InboxStatus, Seq<char>>(InboxStatus::Pending) <==> {
            &&& submit_answer(s, entry) is Ok
            &&& pending_entries(
                after_submit(s, entry).inbox,
                after_submit(s, entry).acked_ids,
            ).contains(entry)
        },
{
    let ids = entry_ids(s.inbox);
    let next = after_submit(s, entry);
    law_unacknowledged_entries_are_pending(next.inbox, next.acked_ids);
    if ids.contains(entry.id) {
        let i = choose|i: int| 0 <= i < ids.len() && ids[i] == entry.id;
        assert(s.inbox[i].id == entry.id);
        if s.inbox.contains(entry) {
            let k = choose|k: int| 0 <= k < s.inbox.len() && s.inbox[k] == entry;
            assert(ids[k] == entry.id);
            assert forall|j: int| 0 <= j < s.inbox.len() && (#[trigger] s.inbox[j]).id == entry.id implies s.inbox[j]
                == entry by {
                assert(ids[j] == ids[k]);
            }
        } else {
            assert(s.inbox[i] != entry);
        }
    } else {
        assert(next.inbox[s.inbox.len() as int] == entry);
        assert forall|j: int| 0 <= j < s.inbox.len() implies (#[trigger] s.inbox[j]).id != entry.id by {
            assert(ids[j] == s.inbox[j].id);
        }
        if s.acked_ids.contains(entry.id) {
            let j = choose|j: int| 0 <= j < s.acked_ids.len() && s.acked_ids[j] == entry.id;
            assert(ids.contains(s.acked_ids[j]));
        }
        if s.inbox.contains(entry) {
            let j = choose|j: int| 0 <= j < s.inbox.len() && s.inbox[j] == entry;
            assert(s.inbox[j].id != entry.id);
        }
    }
}

/// How often a message occurs is how often it stands at some place.
proof fn lemma_occurrences(messages: Seq<MessageView>, message: MessageView)
    ensures
        occurrences(messages, message) == messages.to_multiset().count(message),
    decreases messages.len(),
{
    messages.to_multiset_ensures();
    if messages.len() > 0 {
        let rest = messages.drop_last();
        lemma_occurrences(rest, message);
        rest.to_multiset_ensures();
        assert(rest.push(messages.last()) =~= messages);
        assert(messages.to_multiset() =~= rest.to_multiset().insert(messages.last()));
    }
}

proof fn lemma_more_occur(messages: Seq<MessageView>, n: int, message: MessageView)
    requires
        0 <= n <= messages.len(),
    ensures
        occurrences(messages.take(n), message) <= occurrences(messages, message),
    decreases messages.len() - n,
{
    if n < messages.len() {
        lemma_more_occur(messages, n + 1, message);
        assert(messages.take(n + 1).drop_last() =~= messages.take(n));
    } else {
        assert(messages.take(n) =~= messages);
    }
}

proof fn lemma_last_occurrence(messages: Seq<MessageView>, message: MessageView) -> (at: int)
    requires
        occurrences(messages, message) > 0,
    ensures
        0 <= at < messages.len(),
        messages[at] == message,
        occurrences(messages.take(at), message) == occurrences(messages, message) - 1,
    decreases messages.len(),
{
    let n = messages.len() - 1;
    assert(messages.take(n) =~= messages.drop_last());
    if messages.last() == message {
        n
    } else {
        let at = lemma_last_occurrence(messages.drop_last(), message);
        assert(messages.take(at) =~= messages.drop_last().take(at));
        at
    }
}

proof fn lemma_acks(s: SnapshotView, commit: CommitView, from: int)
    requires
        0 <= from <= commit.ack_inbox_ids.len(),
    ensures
        acks_fault(s, commit, from) is None <==> (forall|k: int|
            from <= k < commit.ack_inbox_ids.len() ==> (#[trigger] ack_fault(s, commit, k)) is None),
    decreases commit.ack_inbox_ids.len() - from,
{
    if from < commit.ack_inbox_ids.len() {
        lemma_acks(s, commit, from + 1);
        if acks_fault(s, commit, from) is None {
            assert forall|k: int| from <= k < commit.ack_inbox_ids.len() implies (#[trigger] ack_fault(
                s,
                commit,
                k,
            )) is None by {
                if k > from {
                    assert(acks_fault(s, commit, from + 1) is None);
                }
            }
        }
    }
}

/// Whether a commit may acknowledge what it acknowledges: entries that were submitted and not
/// acknowledged before, each once, and each with its message in the same commit; entries with the
/// same message need that message as often.
pub open spec fn may_acknowledge(s: SnapshotView, commit: CommitView) -> bool {
    let acks = commit.ack_inbox_ids;
    &&& acks.no_duplicates()
    &&& forall|k: int| 0 <= k < acks.len() ==> !s.acked_ids.contains(#[trigger] acks[k])
    &&& forall|k: int|
        0 <= k < acks.len() ==> exists|i: int|
            0 <= i < s.inbox.len() && (#[trigger] s.inbox[i]).id == #[trigger] acks[k]
    &&& forall|message: MessageView|
        Seq::new(acks.len(), |k: int| message_for(s.inbox, acks[k])).to_multiset().count(message)
            <= #[trigger] commit.messages.to_multiset().count(message)
}

/// The message that is acknowledged under an id is that of the entry with this id.
pub proof fn law_acknowledged_messages_are_those_of_the_entries(s: SnapshotView, i: int)
    requires
        is_sound(s),
        0 <= i < s.inbox.len(),
    ensures
        message_for(s.inbox, s.inbox[i].id) == s.inbox[i].message,
{
    let ids = entry_ids(s.inbox);
    assert(ids[i] == s.inbox[i].id);
    let k = ids.index_of(s.inbox[i].id);
    assert(ids[k] == ids[i]);
}

proof fn lemma_may_acknowledge(s: SnapshotView, commit: CommitView)
    ensures
        acks_fault(s, commit, 0) is None <==> may_acknowledge(s, commit),
{
    let acks = commit.ack_inbox_ids;
    let ids = entry_ids(s.inbox);
    let said = messages_for(s.inbox, acks);
    assert(said =~= Seq::new(acks.len(), |k: int| message_for(s.inbox, acks[k])));
    lemma_acks(s, commit, 0);
    assert forall|k: int| 0 <= k <= acks.len() implies #[trigger] messages_for(s.inbox, acks.take(k)) == said.take(k) by {
        assert(messages_for(s.inbox, acks.take(k)) =~= said.take(k));
    }
    if acks_fault(s, commit, 0) is None {
        assert forall|j: int, k: int| 0 <= j < k < acks.len() implies acks[j] != acks[k] by {
            assert(ack_fault(s, commit, k) is None);
            assert(acks.take(k)[j] == acks[j]);
        }
        assert forall|k: int| 0 <= k < acks.len() implies !s.acked_ids.contains(#[trigger] acks[k]) by {
            assert(ack_fault(s, commit, k) is None);
        }
        assert forall|k: int| 0 <= k < acks.len() implies exists|i: int|
            0 <= i < s.inbox.len() && (#[trigger] s.inbox[i]).id == #[trigger] acks[k] by {
            assert(ack_fault(s, commit, k) is None);
            let i = choose|i: int| 0 <= i < ids.len() && ids[i] == acks[k];
            assert(s.inbox[i].id == acks[k]);
        }
        assert forall|message: MessageView|
            said.to_multiset().count(message) <= #[trigger] commit.messages.to_multiset().count(
                message,
            ) by {
            lemma_occurrences(said, message);
            lemma_occurrences(commit.messages, message);
            if occurrences(said, message) > 0 {
                let at = lemma_last_occurrence(said, message);
                assert(ack_fault(s, commit, at) is None);
                assert(messages_for(s.inbox, acks.take(at)) == said.take(at));
            }
        }
    }
    if may_acknowledge(s, commit) {
        assert forall|k: int| 0 <= k < acks.len() implies (#[trigger] ack_fault(s, commit, k)) is None by {
            let message = said[k];
            let i = choose|i: int| 0 <= i < s.inbox.len() && (#[trigger] s.inbox[i]).id == acks[k];
            assert(ids[i] == acks[k]);
            if acks.take(k).contains(acks[k]) {
                let j = choose|j: int| 0 <= j < k && acks.take(k)[j] == acks[k];
                assert(acks[j] == acks[k]);
            }
            assert(!s.acked_ids.contains(acks[k]));
            lemma_occurrences(said, message);
            lemma_occurrences(commit.messages, message);
            assert(said.to_multiset().count(message) <= commit.messages.to_multiset().count(message));
            lemma_more_occur(said, k + 1, message);
            assert(said.take(k + 1).drop_last() =~= said.take(k));
            assert(messages_for(s.inbox, acks.take(k)) == said.take(k));
        }
    }
}

/// A commit is accepted exactly when the very same commit was made before, or when its id is new,
/// it stands at the end of the journal, the journal stays one with its messages, and it may
/// acknowledge what it acknowledges.
pub proof fn law_commits_are_accepted(s: SnapshotView, commit: CommitView)
    requires
        is_sound(s),
    ensures
        commit_answer(s, commit) is Ok <==> s.commits.contains(commit) || {
            &&& forall|i: int| 0 <= i < s.commits.len() ==> (#[trigger] s.commits[i]).id != commit.id
            &&& commit.expected_messages == s.history.len()
            &&& is_journal(s.history + commit.messages)
            &&& may_acknowledge(s, commit)
        },
{
    let ids = commit_ids(s.commits);
    lemma_may_acknowledge(s, commit);
    law_journals_are_not_refused(seam(s.history) + commit.messages);
    law_only_the_seam_matters(s.history, commit.messages);
    if ids.contains(commit.id) {
        let i = choose|i: int| 0 <= i < ids.len() && ids[i] == commit.id;
        assert(s.commits[i].id == commit.id);
    } else {
        assert forall|i: int| 0 <= i < s.commits.len() implies (#[trigger] s.commits[i]).id != commit.id by {
            assert(ids[i] == s.commits[i].id);
        }
        if s.commits.contains(commit) {
            let i = choose|i: int| 0 <= i < s.commits.len() && s.commits[i] == commit;
            assert(s.commits[i].id != commit.id);
        }
    }
}

/// A commit takes effect as a whole and once: an accepted one appends its messages, acknowledges
/// its entries and is noted with its outcome; one that was made before, or is refused, does
/// nothing.
pub proof fn law_commits_are_atomic(s: SnapshotView, commit: CommitView)
    requires
        is_sound(s),
    ensures
        ({
            let next = after_commit(s, commit);
            let done = commit_answer(s, commit) is Ok && !s.commits.contains(commit);
            &&& next.inbox == s.inbox && next.tool_results == s.tool_results
            &&& done ==> next.history == s.history + commit.messages
            &&& done ==> next.acked_ids == s.acked_ids + commit.ack_inbox_ids
            &&& done ==> next.commits == s.commits.push(commit)
            &&& !done ==> next == s
        }),
{
    let ids = commit_ids(s.commits);
    if s.commits.contains(commit) {
        let i = choose|i: int| 0 <= i < s.commits.len() && s.commits[i] == commit;
        assert(ids[i] == commit.id);
    }
}

/// A commit takes off the pending entries exactly those that it acknowledges; the others stay, in
/// their order.
pub proof fn law_commits_take_pending_entries(s: SnapshotView, commit: CommitView, entry: InboxEntryView)
    requires
        is_sound(s),
        commit_answer(s, commit) is Ok,
        !s.commits.contains(commit),
    ensures
        ({
            let before = pending_entries(s.inbox, s.acked_ids);
            let next = after_commit(s, commit);
            let after = pending_entries(next.inbox, next.acked_ids);
            &&& after.contains(entry) <==> before.contains(entry) && !commit.ack_inbox_ids.contains(
                entry.id,
            )
            &&& commit.ack_inbox_ids.len() == 0 ==> after == before
        }),
{
    let next = after_commit(s, commit);
    law_commits_are_atomic(s, commit);
    law_unacknowledged_entries_are_pending(s.inbox, s.acked_ids);
    law_unacknowledged_entries_are_pending(next.inbox, next.acked_ids);
    vstd::seq_lib::lemma_seq_concat_contains_all_elements(
        s.acked_ids,
        commit.ack_inbox_ids,
        entry.id,
    );
    if commit.ack_inbox_ids.len() == 0 {
        assert(s.acked_ids + commit.ack_inbox_ids =~= s.acked_ids);
    }
}

/// A result is saved exactly where its key names the call that it answers and nothing else is
/// saved under the key; then it is what is loaded, and nothing is loaded that was not saved.
pub proof fn law_results_are_saved(s: SnapshotView, key: ToolKeyView, result: ToolResultView)
    requires
        is_sound(s),
    ensures
        save_answer(s, key, result) is Ok <==> key.call_id == result.call && (forall|i: int|
            0 <= i < s.tool_results.len() && (#[trigger] s.tool_results[i]).key == key
                ==> s.tool_results[i].result == result),
        stored_result(s, key) == Some(result) <==> s.tool_results.contains(ReceiptView { key, result }),
        stored_result(s, key) is None <==> (forall|i: int|
            0 <= i < s.tool_results.len() ==> (#[trigger] s.tool_results[i]).key != key),
        save_answer(s, key, result) is Ok ==> stored_result(after_save(s, key, result), key) == Some(
            result,
        ),
        save_answer(s, key, result) is Ok && stored_result(s, key) is None ==> after_save(
            s,
            key,
            result,
        ).tool_results == s.tool_results.push(ReceiptView { key, result }),
{
    let keys = receipt_keys(s.tool_results);
    let receipt = ReceiptView { key, result };
    let next = after_save(s, key, result);
    let later = receipt_keys(next.tool_results);
    if keys.contains(key) {
        let i = keys.index_of(key);
        assert(keys[i] == key);
        assert(s.tool_results[i].key == key);
        assert forall|j: int| 0 <= j < s.tool_results.len() && (#[trigger] s.tool_results[j]).key == key implies j
            == i by {
            assert(keys[j] == keys[i]);
        }
        if s.tool_results.contains(receipt) {
            let j = choose|j: int| 0 <= j < s.tool_results.len() && s.tool_results[j] == receipt;
            assert(s.tool_results[j].key == key);
        }
        if s.tool_results[i].result == result {
            assert(s.tool_results[i] == receipt);
        }
    } else {
        assert forall|i: int| 0 <= i < s.tool_results.len() implies (#[trigger] s.tool_results[i]).key != key by {
            assert(keys[i] == s.tool_results[i].key);
        }
        if s.tool_results.contains(receipt) {
            let j = choose|j: int| 0 <= j < s.tool_results.len() && s.tool_results[j] == receipt;
            assert(s.tool_results[j].key != key);
        }
        if key.call_id == result.call {
            let n = s.tool_results.len() as int;
            assert(later[n] == key);
            let i = later.index_of(key);
            assert(later[i] == key);
            if i < n {
                assert(keys[i] == key);
            }
        }
    }
}

} // verus!
