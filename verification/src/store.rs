//! Storage for one conversation: its journal, its inbox and the receipts of its tools.
use crate::deep::DeepEq;
use crate::identity::{
    fresh_uuid, is_random_uuid, is_wall_time, render_uuid, unix_nanos, uuid_text,
};
use crate::journal::{
    is_journal, law_journals_are_not_refused, law_only_the_seam_matters, refusal, seam,
    validate_append,
};
use crate::message::{Message, MessageView, ToolResult, ToolResultView};
use crate::session::{Outcome, OutcomeView};
use crate::text::has_text;
use vstd::prelude::*;

verus! {

/// How a signal asks to be taken up.
#[derive(Clone, Copy, Debug, PartialEq, Eq, Structural)]
pub enum SignalKind {
    /// Runs as a turn of its own, after everything else.
    FollowUp,
    /// Joins the other steering signals in the next turn.
    Steer,
    /// Stops the running turn and goes first.
    Interrupt,
}

impl DeepView for SignalKind {
    type V = SignalKind;

    open spec fn deep_view(&self) -> SignalKind {
        *self
    }
}

impl DeepEq for SignalKind {
    fn deep_eq(&self, other: &SignalKind) -> (r: bool) {
        *self == *other
    }
}

/// A signal with a stable identity. Keep the same entry when a submission is retried.
#[derive(Debug, PartialEq, Eq)]
pub struct InboxEntry {
    pub id: String,
    pub kind: SignalKind,
    pub message: Message,
    /// Nanoseconds since the Unix epoch.
    pub submitted_at: i128,
}

/// The value of a [`InboxEntry`].
pub struct InboxEntryView {
    pub id: Seq<char>,
    pub kind: SignalKind,
    pub message: MessageView,
    pub submitted_at: i128,
}

impl DeepView for InboxEntry {
    type V = InboxEntryView;

    open spec fn deep_view(&self) -> InboxEntryView {
        InboxEntryView {
            id: self.id.deep_view(),
            kind: self.kind,
            message: self.message.deep_view(),
            submitted_at: self.submitted_at,
        }
    }
}

impl Clone for InboxEntry {
    fn clone(&self) -> (r: InboxEntry)
        ensures
            r.deep_view() == self.deep_view(),
    {
        InboxEntry {
            id: self.id.clone(),
            kind: self.kind,
            message: self.message.clone(),
            submitted_at: self.submitted_at,
        }
    }
}

impl DeepEq for InboxEntry {
    fn deep_eq(&self, other: &InboxEntry) -> (r: bool) {
        self.id.deep_eq(&other.id) && self.kind.deep_eq(&other.kind) && self.message.deep_eq(&other.message) && self.submitted_at.deep_eq(&other.submitted_at)
    }
}

/// Whether a signal was taken up.
#[derive(Clone, Copy, Debug, PartialEq, Eq, Structural)]
pub enum InboxStatus {
    Pending,
    Acked,
}

impl DeepView for InboxStatus {
    type V = InboxStatus;

    open spec fn deep_view(&self) -> InboxStatus {
        *self
    }
}

impl DeepEq for InboxStatus {
    fn deep_eq(&self, other: &InboxStatus) -> (r: bool) {
        *self == *other
    }
}

/// The identity of a receipt. It is scoped to the assistant's position in the journal, so that
/// providers may use call ids again in later turns without overwriting earlier results.
#[derive(Debug, PartialEq, Eq)]
pub struct ToolKey {
    pub assistant_position: usize,
    pub call_id: String,
}

/// The value of a [`ToolKey`].
pub struct ToolKeyView {
    pub assistant_position: usize,
    pub call_id: Seq<char>,
}

impl DeepView for ToolKey {
    type V = ToolKeyView;

    open spec fn deep_view(&self) -> ToolKeyView {
        ToolKeyView {
            assistant_position: self.assistant_position,
            call_id: self.call_id.deep_view(),
        }
    }
}

impl Clone for ToolKey {
    fn clone(&self) -> (r: ToolKey)
        ensures
            r.deep_view() == self.deep_view(),
    {
        ToolKey {
            assistant_position: self.assistant_position,
            call_id: self.call_id.clone(),
        }
    }
}

impl DeepEq for ToolKey {
    fn deep_eq(&self, other: &ToolKey) -> (r: bool) {
        self.assistant_position.deep_eq(&other.assistant_position) && self.call_id.deep_eq(&other.call_id)
    }
}

/// One append-only transaction. Its id and contents must survive uncertain writes.
#[derive(Debug, PartialEq, Eq)]
pub struct Commit {
    /// The bits of a UUID.
    pub id: u128,
    pub expected_messages: usize,
    pub messages: Vec<Message>,
    pub ack_inbox_ids: Vec<String>,
    pub outcome: Option<Outcome>,
}

/// The value of a [`Commit`].
pub struct CommitView {
    pub id: u128,
    pub expected_messages: usize,
    pub messages: Seq<MessageView>,
    pub ack_inbox_ids: Seq<Seq<char>>,
    pub outcome: Option<OutcomeView>,
}

impl DeepView for Commit {
    type V = CommitView;

    open spec fn deep_view(&self) -> CommitView {
        CommitView {
            id: self.id,
            expected_messages: self.expected_messages,
            messages: self.messages.deep_view(),
            ack_inbox_ids: self.ack_inbox_ids.deep_view(),
            outcome: self.outcome.deep_view(),
        }
    }
}

impl Clone for Commit {
    fn clone(&self) -> (r: Commit)
        ensures
            r.deep_view() == self.deep_view(),
    {
        Commit {
            id: self.id,
            expected_messages: self.expected_messages,
            messages: self.messages.clone(),
            ack_inbox_ids: self.ack_inbox_ids.clone(),
            outcome: self.outcome.clone(),
        }
    }
}

impl DeepEq for Commit {
    fn deep_eq(&self, other: &Commit) -> (r: bool) {
        self.id.deep_eq(&other.id) && self.expected_messages.deep_eq(&other.expected_messages) && self.messages.deep_eq(&other.messages) && self.ack_inbox_ids.deep_eq(&other.ack_inbox_ids) && self.outcome.deep_eq(&other.outcome)
    }
}

/// A stored tool result under its key.
#[derive(Debug, PartialEq, Eq)]
pub struct Receipt {
    pub key: ToolKey,
    pub result: ToolResult,
}

/// The value of a [`Receipt`].
pub struct ReceiptView {
    pub key: ToolKeyView,
    pub result: ToolResultView,
}

impl DeepView for Receipt {
    type V = ReceiptView;

    open spec fn deep_view(&self) -> ReceiptView {
        ReceiptView {
            key: self.key.deep_view(),
            result: self.result.deep_view(),
        }
    }
}

impl Clone for Receipt {
    fn clone(&self) -> (r: Receipt)
        ensures
            r.deep_view() == self.deep_view(),
    {
        Receipt {
            key: self.key.clone(),
            result: self.result.clone(),
        }
    }
}

impl DeepEq for Receipt {
    fn deep_eq(&self, other: &Receipt) -> (r: bool) {
        self.key.deep_eq(&other.key) && self.result.deep_eq(&other.result)
    }
}

/// Everything that a conversation has stored.
#[derive(Debug, PartialEq, Eq)]
pub struct Snapshot {
    pub history: Vec<Message>,
    pub inbox: Vec<InboxEntry>,
    pub acked_ids: Vec<String>,
    pub commits: Vec<Commit>,
    pub tool_results: Vec<Receipt>,
}

/// The value of a [`Snapshot`].
pub struct SnapshotView {
    pub history: Seq<MessageView>,
    pub inbox: Seq<InboxEntryView>,
    pub acked_ids: Seq<Seq<char>>,
    pub commits: Seq<CommitView>,
    pub tool_results: Seq<ReceiptView>,
}

impl DeepView for Snapshot {
    type V = SnapshotView;

    open spec fn deep_view(&self) -> SnapshotView {
        SnapshotView {
            history: self.history.deep_view(),
            inbox: self.inbox.deep_view(),
            acked_ids: self.acked_ids.deep_view(),
            commits: self.commits.deep_view(),
            tool_results: self.tool_results.deep_view(),
        }
    }
}

impl Clone for Snapshot {
    fn clone(&self) -> (r: Snapshot)
        ensures
            r.deep_view() == self.deep_view(),
    {
        Snapshot {
            history: self.history.clone(),
            inbox: self.inbox.clone(),
            acked_ids: self.acked_ids.clone(),
            commits: self.commits.clone(),
            tool_results: self.tool_results.clone(),
        }
    }
}

impl DeepEq for Snapshot {
    fn deep_eq(&self, other: &Snapshot) -> (r: bool) {
        self.history.deep_eq(&other.history) && self.inbox.deep_eq(&other.inbox) && self.acked_ids.deep_eq(&other.acked_ids) && self.commits.deep_eq(&other.commits) && self.tool_results.deep_eq(&other.tool_results)
    }
}

/// Why a store refused an operation, in words.
#[derive(Debug, PartialEq, Eq)]
pub struct StoreError {
    pub message: String,
}

/// The value of a [`StoreError`].
pub struct StoreErrorView {
    pub message: Seq<char>,
}

impl DeepView for StoreError {
    type V = StoreErrorView;

    open spec fn deep_view(&self) -> StoreErrorView {
        StoreErrorView {
            message: self.message.deep_view(),
        }
    }
}

impl Clone for StoreError {
    fn clone(&self) -> (r: StoreError)
        ensures
            r.deep_view() == self.deep_view(),
    {
        StoreError {
            message: self.message.clone(),
        }
    }
}

impl DeepEq for StoreError {
    fn deep_eq(&self, other: &StoreError) -> (r: bool) {
        self.message.deep_eq(&other.message)
    }
}

impl InboxEntry {
    /// A signal with a fresh identity, the text of a random UUID, submitted now.
    pub fn new(kind: SignalKind, message: Message) -> (r: InboxEntry)
        ensures
            exists|bits: u128, now: i128|
                is_random_uuid(bits) && is_wall_time(now) && r.deep_view() == #[trigger] new_entry(
                    kind,
                    message.deep_view(),
                    bits,
                    now,
                ),
            r.id@.len() > 0,
    {
        let bits: u128 = fresh_uuid();
        let now: i128 = unix_nanos();
        InboxEntry::with_identity(kind, message, bits, now)
    }

    /// A signal under the text of a given UUID, submitted at a given time.
    pub fn with_identity(kind: SignalKind, message: Message, bits: u128, now: i128) -> (r: InboxEntry)
        ensures
            r.deep_view() == new_entry(kind, message.deep_view(), bits, now),
            r.id@.len() > 0,
    {
        InboxEntry { id: render_uuid(bits), kind, message, submitted_at: now }
    }
}

/// A signal under the text of a UUID.
pub open spec fn new_entry(kind: SignalKind, message: MessageView, bits: u128, now: i128) -> InboxEntryView {
    InboxEntryView { id: uuid_text(bits), kind, message, submitted_at: now }
}

/// The ids of some entries, in order.
pub open spec fn entry_ids(entries: Seq<InboxEntryView>) -> Seq<Seq<char>> {
    Seq::new(entries.len(), |i: int| entries[i].id)
}

/// The messages of some entries, in order.
pub open spec fn entry_messages(entries: Seq<InboxEntryView>) -> Seq<MessageView> {
    Seq::new(entries.len(), |i: int| entries[i].message)
}

/// The ids of some commits, in order.
pub open spec fn commit_ids(commits: Seq<CommitView>) -> Seq<u128> {
    Seq::new(commits.len(), |i: int| commits[i].id)
}

/// The keys of some receipts, in order.
pub open spec fn receipt_keys(receipts: Seq<ReceiptView>) -> Seq<ToolKeyView> {
    Seq::new(receipts.len(), |i: int| receipts[i].key)
}

/// The messages that some commits appended, in order.
pub open spec fn committed_messages(commits: Seq<CommitView>) -> Seq<MessageView>
    decreases commits.len(),
{
    if commits.len() == 0 {
        Seq::empty()
    } else {
        committed_messages(commits.drop_last()) + commits.last().messages
    }
}

/// The ids that some commits acknowledged, in order.
pub open spec fn committed_acks(commits: Seq<CommitView>) -> Seq<Seq<char>>
    decreases commits.len(),
{
    if commits.len() == 0 {
        Seq::empty()
    } else {
        committed_acks(commits.drop_last()) + commits.last().ack_inbox_ids
    }
}

/// What holds of everything a store keeps: the history is a journal and is what the commits
/// appended; no id occurs twice; only known entries are acknowledged, and each at most once; a
/// receipt is filed under the call that it answers.
pub open spec fn is_sound(s: SnapshotView) -> bool {
    &&& is_journal(s.history)
    &&& s.history == committed_messages(s.commits)
    &&& s.acked_ids == committed_acks(s.commits)
    &&& entry_ids(s.inbox).no_duplicates()
    &&& s.acked_ids.no_duplicates()
    &&& forall|i: int| 0 <= i < s.acked_ids.len() ==> entry_ids(s.inbox).contains(#[trigger] s.acked_ids[i])
    &&& commit_ids(s.commits).no_duplicates()
    &&& receipt_keys(s.tool_results).no_duplicates()
    &&& forall|i: int|
        0 <= i < s.tool_results.len() ==> (#[trigger] s.tool_results[i]).key.call_id
            == s.tool_results[i].result.call
}

/// A store in which nothing was stored yet.
pub open spec fn nothing_stored() -> SnapshotView {
    SnapshotView {
        history: Seq::empty(),
        inbox: Seq::empty(),
        acked_ids: Seq::empty(),
        commits: Seq::empty(),
        tool_results: Seq::empty(),
    }
}

/// The entries that are not acknowledged, in the order of their submission.
pub open spec fn pending_entries(inbox: Seq<InboxEntryView>, acked: Seq<Seq<char>>) -> Seq<InboxEntryView>
    decreases inbox.len(),
{
    if inbox.len() == 0 {
        Seq::empty()
    } else if acked.contains(inbox.last().id) {
        pending_entries(inbox.drop_last(), acked)
    } else {
        pending_entries(inbox.drop_last(), acked).push(inbox.last())
    }
}

/// Whether an entry with this id was acknowledged.
pub open spec fn status_of(s: SnapshotView, id: Seq<char>) -> InboxStatus {
    if s.acked_ids.contains(id) {
        InboxStatus::Acked
    } else {
        InboxStatus::Pending
    }
}

/// Whether the id of an entry is taken by an entry with other contents.
pub open spec fn conflicts(s: SnapshotView, entry: InboxEntryView) -> bool {
    entry_ids(s.inbox).contains(entry.id) && !s.inbox.contains(entry)
}

/// What a submission is answered.
pub open spec fn submit_answer(s: SnapshotView, entry: InboxEntryView) -> Result<InboxStatus, Seq<char>> {
    if conflicts(s, entry) {
        Err("inbox ID reused with different contents"@)
    } else {
        Ok(status_of(s, entry.id))
    }
}

/// What a submission leaves behind: a new entry is added, anything else changes nothing.
pub open spec fn after_submit(s: SnapshotView, entry: InboxEntryView) -> SnapshotView {
    if entry_ids(s.inbox).contains(entry.id) {
        s
    } else {
        SnapshotView { inbox: s.inbox.push(entry), ..s }
    }
}

/// How often a message occurs.
pub open spec fn occurrences(messages: Seq<MessageView>, message: MessageView) -> nat
    decreases messages.len(),
{
    if messages.len() == 0 {
        0
    } else {
        occurrences(messages.drop_last(), message) + if messages.last() == message {
            1nat
        } else {
            0
        }
    }
}

/// The message of the entry with an id.
pub open spec fn message_for(inbox: Seq<InboxEntryView>, id: Seq<char>) -> MessageView {
    inbox[entry_ids(inbox).index_of(id)].message
}

/// The messages of the entries with some ids, in the order of the ids.
pub open spec fn messages_for(inbox: Seq<InboxEntryView>, ids: Seq<Seq<char>>) -> Seq<MessageView> {
    Seq::new(ids.len(), |i: int| message_for(inbox, ids[i]))
}

/// What is wrong with the `k`th acknowledgement of a commit, if anything is. An entry can be
/// acknowledged once, and its message has to stand in the same commit; a message that stands
/// there once serves one entry.
pub open spec fn ack_fault(s: SnapshotView, commit: CommitView, k: int) -> Option<Seq<char>> {
    let id = commit.ack_inbox_ids[k];
    let message = message_for(s.inbox, id);
    if !entry_ids(s.inbox).contains(id) {
        Some("ACK refers to unknown inbox entry"@)
    } else if s.acked_ids.contains(id) || commit.ack_inbox_ids.take(k).contains(id) {
        Some("duplicate inbox ACK"@)
    } else if occurrences(messages_for(s.inbox, commit.ack_inbox_ids.take(k)), message)
        >= occurrences(commit.messages, message) {
        Some("ACK requires the inbox message in this transaction"@)
    } else {
        None
    }
}

/// The first fault among the acknowledgements from the `k`th on.
pub open spec fn acks_fault(s: SnapshotView, commit: CommitView, k: int) -> Option<Seq<char>>
    decreases commit.ack_inbox_ids.len() - k,
{
    if k >= commit.ack_inbox_ids.len() {
        None
    } else if ack_fault(s, commit, k) is Some {
        ack_fault(s, commit, k)
    } else {
        acks_fault(s, commit, k + 1)
    }
}

/// What is wrong with a commit whose id is new, if anything is.
pub open spec fn commit_fault(s: SnapshotView, commit: CommitView) -> Option<Seq<char>> {
    if s.history.len() != commit.expected_messages {
        Some("stale journal position"@)
    } else if refusal(seam(s.history) + commit.messages, true) is Some {
        Some("invalid history: "@ + refusal(seam(s.history) + commit.messages, true)->0)
    } else {
        acks_fault(s, commit, 0)
    }
}

/// What a commit is answered. The id is looked up before anything else.
pub open spec fn commit_answer(s: SnapshotView, commit: CommitView) -> Result<(), Seq<char>> {
    if commit_ids(s.commits).contains(commit.id) {
        if s.commits.contains(commit) {
            Ok(())
        } else {
            Err("commit ID reused with different contents"@)
        }
    } else {
        match commit_fault(s, commit) {
            Some(text) => Err(text),
            None => Ok(()),
        }
    }
}

/// What a commit leaves behind: all of it, or nothing where it is refused or was made before.
pub open spec fn after_commit(s: SnapshotView, commit: CommitView) -> SnapshotView {
    if commit_ids(s.commits).contains(commit.id) || commit_fault(s, commit) is Some {
        s
    } else {
        SnapshotView {
            history: s.history + commit.messages,
            acked_ids: s.acked_ids + commit.ack_inbox_ids,
            commits: s.commits.push(commit),
            ..s
        }
    }
}

/// The stored result under a key.
pub open spec fn stored_result(s: SnapshotView, key: ToolKeyView) -> Option<ToolResultView> {
    if receipt_keys(s.tool_results).contains(key) {
        Some(s.tool_results[receipt_keys(s.tool_results).index_of(key)].result)
    } else {
        None
    }
}

/// What saving a result is answered.
pub open spec fn save_answer(s: SnapshotView, key: ToolKeyView, result: ToolResultView) -> Result<
    (),
    Seq<char>,
> {
    if key.call_id != result.call {
        Err("receipt key does not match result"@)
    } else if stored_result(s, key) is Some && stored_result(s, key) != Some(result) {
        Err("conflicting tool receipt"@)
    } else {
        Ok(())
    }
}

/// What saving a result leaves behind.
pub open spec fn after_save(s: SnapshotView, key: ToolKeyView, result: ToolResultView) -> SnapshotView {
    if key.call_id != result.call || stored_result(s, key) is Some {
        s
    } else {
        SnapshotView { tool_results: s.tool_results.push(ReceiptView { key, result }), ..s }
    }
}

/// Whether an answer of the store is the one that was specified.
pub open spec fn answered<T>(answer: Result<T, StoreError>, specified: Result<T, Seq<char>>) -> bool {
    match specified {
        Ok(value) => answer == Ok::<T, StoreError>(value),
        Err(text) => answer matches Err(e) && e.message@ == text,
    }
}

fn refuse<T>(text: &str) -> (r: Result<T, StoreError>)
    ensures
        r matches Err(e) && e.message@ == text@,
{
    Err(StoreError { message: text.to_owned() })
}

impl Snapshot {
    /// The entries that are not acknowledged, in the order of their submission.
    pub fn pending(&self) -> (r: Vec<InboxEntry>)
        ensures
            r.deep_view() == pending_entries(self.inbox.deep_view(), self.acked_ids.deep_view()),
    {
        let mut found: Vec<InboxEntry> = Vec::new();
        let ghost all = self.inbox.deep_view();
        let ghost acked = self.acked_ids.deep_view();
        assert(found.deep_view() =~= pending_entries(all.take(0), acked));
        let mut i: usize = 0;
        while i < self.inbox.len()
            invariant
                i <= self.inbox.len(),
                all == self.inbox.deep_view(),
                acked == self.acked_ids.deep_view(),
                found.deep_view() == pending_entries(all.take(i as int), acked),
            decreases self.inbox.len() - i,
        {
            let ghost before = found.deep_view();
            assert(all.take(i + 1).drop_last() =~= all.take(i as int));
            assert(all.take(i + 1).last() == self.inbox[i as int].deep_view());
            if !has_text(&self.acked_ids, &self.inbox[i].id) {
                found.push(self.inbox[i].clone());
                assert(found.deep_view() =~= before.push(self.inbox[i as int].deep_view()));
            }
            i += 1;
        }
        assert(all.take(all.len() as int) =~= all);
        found
    }
}

/// The storage rules in memory, without durability.
#[derive(Debug)]
pub struct MemoryStore {
    snapshot: Snapshot,
}

impl DeepView for MemoryStore {
    type V = SnapshotView;

    closed spec fn deep_view(&self) -> SnapshotView {
        self.snapshot.deep_view()
    }
}

impl Default for MemoryStore {
    fn default() -> (r: MemoryStore)
        ensures
            r.deep_view() == nothing_stored(),
            is_sound(r.deep_view()),
    {
        MemoryStore::new()
    }
}

impl MemoryStore {
    /// A store in which nothing was stored yet.
    pub fn new() -> (r: MemoryStore)
        ensures
            r.deep_view() == nothing_stored(),
            is_sound(r.deep_view()),
    {
        let r = MemoryStore {
            snapshot: Snapshot {
                history: Vec::new(),
                inbox: Vec::new(),
                acked_ids: Vec::new(),
                commits: Vec::new(),
                tool_results: Vec::new(),
            },
        };
        proof {
            let s = r.deep_view();
            assert(s.history =~= Seq::empty());
            assert(s.inbox =~= Seq::empty());
            assert(s.acked_ids =~= Seq::empty());
            assert(s.commits =~= Seq::empty());
            assert(s.tool_results =~= Seq::empty());
        }
        r
    }

    /// Everything that is stored.
    pub fn snapshot(&self) -> (r: Snapshot)
        ensures
            r.deep_view() == self.deep_view(),
    {
        self.snapshot.clone()
    }

    fn position(&self, id: &String) -> (r: Option<usize>)
        requires
            is_sound(self.deep_view()),
        ensures
            match r {
                Some(i) => i < self.snapshot.inbox.len() && self.deep_view().inbox[i as int].id == id@
                    && entry_ids(self.deep_view().inbox).contains(id@) && entry_ids(
                    self.deep_view().inbox,
                ).index_of(id@) == i,
                None => !entry_ids(self.deep_view().inbox).contains(id@),
            },
    {
        let ghost ids = entry_ids(self.deep_view().inbox);
        let mut i: usize = 0;
        while i < self.snapshot.inbox.len()
            invariant
                i <= self.snapshot.inbox.len(),
                ids == entry_ids(self.deep_view().inbox),
                ids.no_duplicates(),
                forall|k: int| 0 <= k < i ==> ids[k] != id@,
            decreases self.snapshot.inbox.len() - i,
        {
            if self.snapshot.inbox[i].id.deep_eq(id) {
                assert(ids[i as int] == id@);
                assert(ids.contains(id@));
                return Some(i);
            }
            i += 1;
        }
        None
    }

    /// Add a signal to the inbox. The same entry may be submitted again, and is then answered
    /// whether it was taken up; its id cannot be used with other contents.
    pub fn submit(&mut self, entry: InboxEntry) -> (r: Result<InboxStatus, StoreError>)
        requires
            is_sound(old(self).deep_view()),
        ensures
            is_sound(final(self).deep_view()),
            answered(r, submit_answer(old(self).deep_view(), entry.deep_view())),
            final(self).deep_view() == after_submit(old(self).deep_view(), entry.deep_view()),
    {
        let ghost s = self.deep_view();
        let ghost e = entry.deep_view();
        let status = if has_text(&self.snapshot.acked_ids, &entry.id) {
            InboxStatus::Acked
        } else {
            InboxStatus::Pending
        };
        match self.position(&entry.id) {
            Some(i) => {
                if !self.snapshot.inbox[i].deep_eq(&entry) {
                    proof {
                        if s.inbox.contains(e) {
                            let k = choose|k: int| 0 <= k < s.inbox.len() && s.inbox[k] == e;
                            assert(entry_ids(s.inbox)[k] == entry_ids(s.inbox)[i as int]);
                        }
                    }
                    return refuse("inbox ID reused with different contents");
                }
                assert(s.inbox[i as int] == e);
            },
            None => {
                self.snapshot.inbox.push(entry);
                proof {
                    let t = self.deep_view();
                    assert(t.inbox =~= s.inbox.push(e));
                    assert(entry_ids(t.inbox) =~= entry_ids(s.inbox).push(e.id));
                    assert forall|i: int| 0 <= i < t.acked_ids.len() implies entry_ids(
                        t.inbox,
                    ).contains(#[trigger] t.acked_ids[i]) by {
                        let k = choose|k: int|
                            0 <= k < s.inbox.len() && entry_ids(s.inbox)[k] == s.acked_ids[i];
                        assert(entry_ids(t.inbox)[k] == s.acked_ids[i]);
                    }
                }
            },
        }
        Ok(status)
    }
}

impl MemoryStore {
    fn receipt_position(&self, key: &ToolKey) -> (r: Option<usize>)
        requires
            is_sound(self.deep_view()),
        ensures
            match r {
                Some(i) => i < self.snapshot.tool_results.len() && stored_result(
                    self.deep_view(),
                    key.deep_view(),
                ) == Some(self.deep_view().tool_results[i as int].result),
                None => stored_result(self.deep_view(), key.deep_view()) is None,
            },
    {
        let ghost keys = receipt_keys(self.deep_view().tool_results);
        let mut i: usize = 0;
        while i < self.snapshot.tool_results.len()
            invariant
                i <= self.snapshot.tool_results.len(),
                keys == receipt_keys(self.deep_view().tool_results),
                keys.no_duplicates(),
                forall|k: int| 0 <= k < i ==> keys[k] != key.deep_view(),
            decreases self.snapshot.tool_results.len() - i,
        {
            if self.snapshot.tool_results[i].key.deep_eq(key) {
                assert(keys[i as int] == key.deep_view());
                assert(keys.contains(key.deep_view()));
                return Some(i);
            }
            i += 1;
        }
        None
    }

    /// Keep what a tool gave back. The same result may be saved again under its key; another
    /// one is refused.
    pub fn save_tool_result(&mut self, key: ToolKey, result: ToolResult) -> (r: Result<(), StoreError>)
        requires
            is_sound(old(self).deep_view()),
        ensures
            is_sound(final(self).deep_view()),
            answered(r, save_answer(old(self).deep_view(), key.deep_view(), result.deep_view())),
            final(self).deep_view() == after_save(
                old(self).deep_view(),
                key.deep_view(),
                result.deep_view(),
            ),
    {
        let ghost s = self.deep_view();
        let ghost (k, v) = (key.deep_view(), result.deep_view());
        if !key.call_id.deep_eq(&result.call) {
            return refuse("receipt key does not match result");
        }
        match self.receipt_position(&key) {
            Some(i) => {
                if !self.snapshot.tool_results[i].result.deep_eq(&result) {
                    return refuse("conflicting tool receipt");
                }
            },
            None => {
                self.snapshot.tool_results.push(Receipt { key, result });
                proof {
                    let t = self.deep_view();
                    assert(t.tool_results =~= s.tool_results.push(ReceiptView { key: k, result: v }));
                    assert(receipt_keys(t.tool_results) =~= receipt_keys(s.tool_results).push(k));
                }
            },
        }
        Ok(())
    }

    /// The stored result under a key.
    pub fn load_tool_result(&self, key: &ToolKey) -> (r: Option<ToolResult>)
        requires
            is_sound(self.deep_view()),
        ensures
            r.deep_view() == stored_result(self.deep_view(), key.deep_view()),
    {
        match self.receipt_position(key) {
            Some(i) => Some(self.snapshot.tool_results[i].result.clone()),
            None => None,
        }
    }
}

/// How often a message occurs at the places that are marked as used.
spec fn used_occurrences(messages: Seq<MessageView>, used: Seq<bool>, message: MessageView) -> nat
    decreases messages.len(),
{
    if messages.len() == 0 {
        0
    } else {
        used_occurrences(messages.drop_last(), used.drop_last(), message) + if messages.last() == message
            && used.last() {
            1nat
        } else {
            0
        }
    }
}

/// Nothing is used while no place is marked.
proof fn lemma_nothing_used(messages: Seq<MessageView>, used: Seq<bool>, message: MessageView)
    requires
        used.len() == messages.len(),
        forall|i: int| 0 <= i < used.len() ==> !#[trigger] used[i],
    ensures
        used_occurrences(messages, used, message) == 0,
    decreases messages.len(),
{
    if messages.len() > 0 {
        lemma_nothing_used(messages.drop_last(), used.drop_last(), message);
    }
}

/// A message is used up exactly when every place that holds it is marked.
proof fn lemma_used_up(messages: Seq<MessageView>, used: Seq<bool>, message: MessageView)
    requires
        used.len() == messages.len(),
    ensures
        used_occurrences(messages, used, message) <= occurrences(messages, message),
        used_occurrences(messages, used, message) == occurrences(messages, message) <==> (forall|
            i: int,
        |
            0 <= i < messages.len() && messages[i] == message ==> #[trigger] used[i]),
    decreases messages.len(),
{
    if messages.len() > 0 {
        let (m, u) = (messages.drop_last(), used.drop_last());
        lemma_used_up(m, u, message);
        let all = forall|i: int| 0 <= i < messages.len() && messages[i] == message ==> #[trigger] used[i];
        let before = forall|i: int| 0 <= i < m.len() && m[i] == message ==> #[trigger] u[i];
        if all {
            assert forall|i: int| 0 <= i < m.len() && m[i] == message implies #[trigger] u[i] by {
                assert(used[i]);
            }
            if messages.last() == message {
                assert(used[messages.len() - 1]);
            }
        }
        if before && (messages.last() == message ==> used.last()) {
            assert forall|i: int| 0 <= i < messages.len() && messages[i] == message implies #[trigger] used[i] by {
                if i < m.len() {
                    assert(u[i]);
                }
            }
        }
    }
}

/// Marking one more place uses the message there once more, and no other.
proof fn lemma_use_one(messages: Seq<MessageView>, used: Seq<bool>, at: int, message: MessageView)
    requires
        used.len() == messages.len(),
        0 <= at < messages.len(),
        !used[at],
    ensures
        used_occurrences(messages, used.update(at, true), message) == used_occurrences(
            messages,
            used,
            message,
        ) + if messages[at] == message {
            1nat
        } else {
            0
        },
    decreases messages.len(),
{
    let next = used.update(at, true);
    if at == messages.len() - 1 {
        assert(next.drop_last() =~= used.drop_last());
    } else {
        lemma_use_one(messages.drop_last(), used.drop_last(), at, message);
        assert(next.drop_last() =~= used.drop_last().update(at, true));
    }
}

/// What an acknowledged commit leaves behind keeps the rules of the store.
proof fn lemma_commit_is_sound(s: SnapshotView, commit: CommitView)
    requires
        is_sound(s),
        !commit_ids(s.commits).contains(commit.id),
        commit_fault(s, commit) is None,
    ensures
        is_sound(after_commit(s, commit)),
{
    let t = after_commit(s, commit);
    law_journals_are_not_refused(seam(s.history) + commit.messages);
    law_only_the_seam_matters(s.history, commit.messages);
    assert(t.commits.drop_last() =~= s.commits);
    assert(commit_ids(t.commits) =~= commit_ids(s.commits).push(commit.id));
    let acks = commit.ack_inbox_ids;
    assert forall|i: int, j: int|
        0 <= i < t.acked_ids.len() && 0 <= j < t.acked_ids.len() && i != j implies t.acked_ids[i]
        != t.acked_ids[j] by {
        let n = s.acked_ids.len();
        if i >= n {
            lemma_sound_ack(s, commit, 0, i - n);
        }
        if j >= n {
            lemma_sound_ack(s, commit, 0, j - n);
        }
        if i >= n && j >= n {
            if i < j {
                assert(acks.take(j - n)[i - n] == acks[i - n]);
            } else {
                assert(acks.take(i - n)[j - n] == acks[j - n]);
            }
        } else if i >= n {
            assert(s.acked_ids.contains(t.acked_ids[j]));
        } else if j >= n {
            assert(s.acked_ids.contains(t.acked_ids[i]));
        }
    }
    assert forall|i: int| 0 <= i < t.acked_ids.len() implies entry_ids(t.inbox).contains(
        #[trigger] t.acked_ids[i],
    ) by {
        let n = s.acked_ids.len();
        if i >= n {
            lemma_sound_ack(s, commit, 0, i - n);
        } else {
            assert(t.acked_ids[i] == s.acked_ids[i]);
        }
    }
}

proof fn lemma_sound_ack(s: SnapshotView, commit: CommitView, from: int, k: int)
    requires
        0 <= from <= k < commit.ack_inbox_ids.len(),
        acks_fault(s, commit, from) is None,
    ensures
        ack_fault(s, commit, k) is None,
    decreases k - from,
{
    if from < k {
        lemma_sound_ack(s, commit, from + 1, k);
    }
}

impl MemoryStore {
    fn find_commit(&self, commit: &Commit) -> (r: Option<bool>)
        requires
            is_sound(self.deep_view()),
        ensures
            match r {
                Some(same) => commit_ids(self.deep_view().commits).contains(commit.id) && same
                    == self.deep_view().commits.contains(commit.deep_view()),
                None => !commit_ids(self.deep_view().commits).contains(commit.id),
            },
    {
        let ghost s = self.deep_view();
        let ghost ids = commit_ids(s.commits);
        let mut i: usize = 0;
        while i < self.snapshot.commits.len()
            invariant
                i <= self.snapshot.commits.len(),
                s == self.deep_view(),
                ids == commit_ids(s.commits),
                ids.no_duplicates(),
                forall|k: int| 0 <= k < i ==> ids[k] != commit.id,
            decreases self.snapshot.commits.len() - i,
        {
            if self.snapshot.commits[i].id == commit.id {
                let same = self.snapshot.commits[i].deep_eq(commit);
                proof {
                    let c = commit.deep_view();
                    assert(ids[i as int] == c.id);
                    if s.commits.contains(c) {
                        let k = choose|k: int| 0 <= k < s.commits.len() && s.commits[k] == c;
                        assert(ids[k] == ids[i as int]);
                    }
                    assert(s.commits[i as int] == self.snapshot.commits[i as int].deep_view());
                }
                return Some(same);
            }
            i += 1;
        }
        None
    }

    /// Hold the acknowledgements of a commit against the inbox.
    fn check_acks(&self, commit: &Commit) -> (r: Result<(), StoreError>)
        requires
            is_sound(self.deep_view()),
        ensures
            match acks_fault(self.deep_view(), commit.deep_view(), 0) {
                None => r is Ok,
                Some(text) => r matches Err(e) && e.message@ == text,
            },
    {
        let ghost s = self.deep_view();
        let ghost c = commit.deep_view();
        let ghost acks = c.ack_inbox_ids;
        let mut used: Vec<bool> = Vec::new();
        while used.len() < commit.messages.len()
            invariant
                used.len() <= commit.messages.len(),
                forall|i: int| 0 <= i < used.len() ==> !#[trigger] used@[i],
            decreases commit.messages.len() - used.len(),
        {
            used.push(false);
        }
        proof {
            assert forall|m: MessageView| #[trigger] used_occurrences(c.messages, used@, m) == occurrences(
                messages_for(s.inbox, acks.take(0)),
                m,
            ) by {
                lemma_nothing_used(c.messages, used@, m);
            }
        }
        let mut k: usize = 0;
        while k < commit.ack_inbox_ids.len()
            invariant
                k <= commit.ack_inbox_ids.len(),
                is_sound(s),
                s == self.deep_view(),
                c == commit.deep_view(),
                acks == c.ack_inbox_ids,
                used.len() == commit.messages.len(),
                acks_fault(s, c, 0) == acks_fault(s, c, k as int),
                forall|m: MessageView| #[trigger]
                    used_occurrences(c.messages, used@, m) == occurrences(
                        messages_for(s.inbox, acks.take(k as int)),
                        m,
                    ),
            decreases commit.ack_inbox_ids.len() - k,
        {
            let id = &commit.ack_inbox_ids[k];
            assert(acks[k as int] == id@);
            let Some(at) = self.position(id) else {
                return refuse("ACK refers to unknown inbox entry");
            };
            let mut repeated = has_text(&self.snapshot.acked_ids, id);
            let mut j: usize = 0;
            while j < k
                invariant
                    j <= k < commit.ack_inbox_ids.len(),
                    s == self.deep_view(),
                    c == commit.deep_view(),
                    acks == c.ack_inbox_ids,
                    id@ == acks[k as int],
                    repeated == (s.acked_ids.contains(id@) || exists|i: int| 0 <= i < j && acks[i] == id@),
                decreases k - j,
            {
                if commit.ack_inbox_ids[j].deep_eq(id) {
                    assert(acks[j as int] == id@);
                    repeated = true;
                }
                j += 1;
            }
            proof {
                let earlier = acks.take(k as int);
                if earlier.contains(id@) {
                    let i = choose|i: int| 0 <= i < earlier.len() && earlier[i] == id@;
                    assert(acks[i] == id@);
                }
                if exists|i: int| 0 <= i < k && acks[i] == id@ {
                    let i = choose|i: int| 0 <= i < k && acks[i] == id@;
                    assert(earlier[i] == id@);
                }
            }
            if repeated {
                return refuse("duplicate inbox ACK");
            }
            let message = &self.snapshot.inbox[at].message;
            let ghost m = message.deep_view();
            assert(m == message_for(s.inbox, id@));
            let mut i: usize = 0;
            while i < commit.messages.len() && (used[i] || !commit.messages[i].deep_eq(message))
                invariant
                    i <= commit.messages.len() == used.len(),
                    c == commit.deep_view(),
                    m == message.deep_view(),
                    forall|a: int| 0 <= a < i && c.messages[a] == m ==> #[trigger] used@[a],
                decreases commit.messages.len() - i,
            {
                i += 1;
            }
            proof {
                lemma_used_up(c.messages, used@, m);
            }
            if i == commit.messages.len() {
                return refuse("ACK requires the inbox message in this transaction");
            }
            proof {
                assert(c.messages[i as int] == m);
                assert(!used@[i as int]);
                let earlier = messages_for(s.inbox, acks.take(k as int));
                let later = messages_for(s.inbox, acks.take(k + 1));
                assert(later.drop_last() =~= earlier);
                assert(later.last() == m);
                assert forall|x: MessageView| #[trigger]
                    used_occurrences(c.messages, used@.update(i as int, true), x) == occurrences(later, x) by {
                    lemma_use_one(c.messages, used@, i as int, x);
                    assert(used_occurrences(c.messages, used@, x) == occurrences(earlier, x));
                }
            }
            used.set(i, true);
            k += 1;
        }
        Ok(())
    }

    /// Append messages, acknowledge entries and record an outcome, all at once or not at all. The
    /// same commit may be made again; its id cannot be used with other contents.
    pub fn commit(&mut self, commit: Commit) -> (r: Result<(), StoreError>)
        requires
            is_sound(old(self).deep_view()),
        ensures
            is_sound(final(self).deep_view()),
            answered(r, commit_answer(old(self).deep_view(), commit.deep_view())),
            final(self).deep_view() == after_commit(old(self).deep_view(), commit.deep_view()),
    {
        let ghost s = self.deep_view();
        let ghost c = commit.deep_view();
        if let Some(same) = self.find_commit(&commit) {
            if same {
                return Ok(());
            }
            return refuse("commit ID reused with different contents");
        }
        assert(self.snapshot.history.deep_view().len() == self.snapshot.history.len());
        if self.snapshot.history.len() != commit.expected_messages {
            return refuse("stale journal position");
        }
        if let Err(e) = validate_append(&self.snapshot.history, &commit.messages) {
            return Err(StoreError { message: e.message() });
        }
        if let Err(e) = self.check_acks(&commit) {
            return Err(e);
        }
        proof {
            lemma_commit_is_sound(s, c);
        }
        let mut messages = commit.messages.clone();
        let mut acks = commit.ack_inbox_ids.clone();
        self.snapshot.history.append(&mut messages);
        self.snapshot.acked_ids.append(&mut acks);
        self.snapshot.commits.push(commit);
        proof {
            let t = self.deep_view();
            assert(t.history =~= s.history + c.messages);
            assert(t.acked_ids =~= s.acked_ids + c.ack_inbox_ids);
            assert(t.commits =~= s.commits.push(c));
        }
        Ok(())
    }
}

/// Submitting an accepted entry again is answered the same and changes nothing.
pub proof fn law_submit_may_be_repeated(s: SnapshotView, entry: InboxEntryView)
    requires
        is_sound(s),
        submit_answer(s, entry) is Ok,
    ensures
        submit_answer(after_submit(s, entry), entry) == submit_answer(s, entry),
        after_submit(after_submit(s, entry), entry) == after_submit(s, entry),
{
    let t = after_submit(s, entry);
    if !entry_ids(s.inbox).contains(entry.id) {
        assert(t.inbox.last() == entry);
        assert(entry_ids(t.inbox)[s.inbox.len() as int] == entry.id);
    }
}

/// The id of a stored entry cannot be used with other contents, and the attempt changes nothing.
pub proof fn law_inbox_ids_are_not_reused(s: SnapshotView, stored: InboxEntryView, entry: InboxEntryView)
    requires
        is_sound(s),
        s.inbox.contains(stored),
        entry.id == stored.id,
        entry != stored,
    ensures
        submit_answer(s, entry) is Err,
        after_submit(s, entry) == s,
{
    let ids = entry_ids(s.inbox);
    let i = choose|i: int| 0 <= i < s.inbox.len() && s.inbox[i] == stored;
    assert(ids[i] == entry.id);
    if s.inbox.contains(entry) {
        let k = choose|k: int| 0 <= k < s.inbox.len() && s.inbox[k] == entry;
        assert(ids[k] == ids[i]);
    }
}

/// Making an accepted commit again succeeds and changes nothing.
pub proof fn law_commit_may_be_repeated(s: SnapshotView, commit: CommitView)
    requires
        is_sound(s),
        commit_answer(s, commit) is Ok,
    ensures
        commit_answer(after_commit(s, commit), commit) is Ok,
        after_commit(after_commit(s, commit), commit) == after_commit(s, commit),
{
    let t = after_commit(s, commit);
    if !commit_ids(s.commits).contains(commit.id) {
        assert(t.commits.last() == commit);
        assert(commit_ids(t.commits)[s.commits.len() as int] == commit.id);
    }
}

/// A commit that was made may be made again at any later position, since its id is looked up
/// before its position. Under the same id with other contents it is refused.
pub proof fn law_made_commits_are_recognized(s: SnapshotView, made: CommitView, commit: CommitView)
    requires
        is_sound(s),
        s.commits.contains(made),
        commit.id == made.id,
    ensures
        commit_answer(s, commit) is Ok <==> commit == made,
        after_commit(s, commit) == s,
{
    let ids = commit_ids(s.commits);
    let i = choose|i: int| 0 <= i < s.commits.len() && s.commits[i] == made;
    assert(ids[i] == commit.id);
    if s.commits.contains(commit) {
        let k = choose|k: int| 0 <= k < s.commits.len() && s.commits[k] == commit;
        assert(ids[k] == ids[i]);
    }
}

/// A refused operation leaves the store as it was.
pub proof fn law_refusals_change_nothing(
    s: SnapshotView,
    entry: InboxEntryView,
    commit: CommitView,
    key: ToolKeyView,
    result: ToolResultView,
)
    ensures
        submit_answer(s, entry) is Err ==> after_submit(s, entry) == s,
        commit_answer(s, commit) is Err ==> after_commit(s, commit) == s,
        save_answer(s, key, result) is Err ==> after_save(s, key, result) == s,
{
}

/// Nothing that is stored is ever changed or taken out: every operation only adds at the end.
pub proof fn law_stores_only_grow(
    s: SnapshotView,
    entry: InboxEntryView,
    commit: CommitView,
    key: ToolKeyView,
    result: ToolResultView,
)
    ensures
        s.inbox.is_prefix_of(after_submit(s, entry).inbox),
        s.history.is_prefix_of(after_commit(s, commit).history),
        s.acked_ids.is_prefix_of(after_commit(s, commit).acked_ids),
        s.commits.is_prefix_of(after_commit(s, commit).commits),
        s.tool_results.is_prefix_of(after_save(s, key, result).tool_results),
        after_submit(s, entry) == (SnapshotView { inbox: after_submit(s, entry).inbox, ..s }),
        after_commit(s, commit) == (SnapshotView {
            history: after_commit(s, commit).history,
            acked_ids: after_commit(s, commit).acked_ids,
            commits: after_commit(s, commit).commits,
            ..s
        }),
        after_save(s, key, result) == (SnapshotView {
            tool_results: after_save(s, key, result).tool_results,
            ..s
        }),
{
}

/// An accepted commit takes its entries off the pending ones, and leaves the others in order.
pub proof fn law_acked_entries_are_not_pending(
    inbox: Seq<InboxEntryView>,
    acked: Seq<Seq<char>>,
    more: Seq<Seq<char>>,
)
    ensures
        pending_entries(inbox, acked + more) == pending_entries(pending_entries(inbox, acked), more),
    decreases inbox.len(),
{
    if inbox.len() > 0 {
        let rest = inbox.drop_last();
        let id = inbox.last().id;
        law_acked_entries_are_not_pending(rest, acked, more);
        assert((acked + more).contains(id) <==> acked.contains(id) || more.contains(id)) by {
            if acked.contains(id) {
                let i = choose|i: int| 0 <= i < acked.len() && acked[i] == id;
                assert((acked + more)[i] == id);
            }
            if more.contains(id) {
                let i = choose|i: int| 0 <= i < more.len() && more[i] == id;
                assert((acked + more)[acked.len() + i] == id);
            }
        }
        let kept = pending_entries(rest, acked).push(inbox.last());
        assert(kept.drop_last() =~= pending_entries(rest, acked));
    }
}

/// An entry is acknowledged at most once: a later commit that names it again is refused.
pub proof fn law_entries_are_acked_once(s: SnapshotView, first: CommitView, second: CommitView, k: int)
    requires
        is_sound(s),
        commit_answer(s, first) is Ok,
        !commit_ids(s.commits).contains(first.id),
        second.id != first.id,
        !commit_ids(s.commits).contains(second.id),
        0 <= k < second.ack_inbox_ids.len(),
        first.ack_inbox_ids.contains(second.ack_inbox_ids[k]),
    ensures
        commit_answer(after_commit(s, first), second) is Err,
        after_commit(after_commit(s, first), second) == after_commit(s, first),
{
    let t = after_commit(s, first);
    let id = second.ack_inbox_ids[k];
    let i = choose|i: int| 0 <= i < first.ack_inbox_ids.len() && first.ack_inbox_ids[i] == id;
    assert(t.acked_ids[s.acked_ids.len() + i] == id);
    assert(ack_fault(t, second, k) is Some);
    if acks_fault(t, second, 0) is None {
        lemma_sound_ack(t, second, 0, k);
    }
    assert(commit_ids(t.commits) =~= commit_ids(s.commits).push(first.id));
}

/// A saved result is given back under its key, and the results under other keys stay what they
/// were. Keys differ where the position of the assistant differs, also for the same call id.
pub proof fn law_saved_results_are_loaded(
    s: SnapshotView,
    key: ToolKeyView,
    result: ToolResultView,
    other: ToolKeyView,
)
    requires
        is_sound(s),
        save_answer(s, key, result) is Ok,
        other != key,
    ensures
        stored_result(after_save(s, key, result), key) == Some(result),
        stored_result(after_save(s, key, result), other) == stored_result(s, other),
{
    let t = after_save(s, key, result);
    let (old_keys, new_keys) = (receipt_keys(s.tool_results), receipt_keys(t.tool_results));
    if stored_result(s, key) is None {
        let n = s.tool_results.len() as int;
        assert(new_keys =~= old_keys.push(key));
        assert(new_keys[n] == key);
        let i = new_keys.index_of(key);
        assert(new_keys[i] == key);
        if i < n {
            assert(old_keys[i] == key);
        }
        if old_keys.contains(other) {
            let a = old_keys.index_of(other);
            assert(new_keys[a] == other);
            let b = new_keys.index_of(other);
            assert(new_keys[b] == other);
            assert(old_keys[b] == other);
        } else if new_keys.contains(other) {
            let b = new_keys.index_of(other);
            assert(new_keys[b] == other);
            assert(old_keys[b] == other);
        }
    }
}

} // verus!
