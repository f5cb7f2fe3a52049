//! Signals with stable ids, and a store that appends messages and acknowledges signals at once.
use crate::api::{
    loop_error_text, result_key, AgentLoopError, AgentLoopErrorView, EndReason, EndReasonView,
    ToolResultKey, ToolResultKeyView, TurnOutcomeKind,
};
use crate::deep::DeepEq;
use crate::message::{
    results, results_of, Message, MessageView, Text, TextView, ToolResult, ToolResultView,
    UserContent, UserContentView,
};
use crate::session::Usage;
use crate::text::joined;
use vstd::prelude::*;

verus! {

/// The parameter of a text under which the id of its inbox entry is kept.
pub const INBOX_ENTRY_ID_PARAM: &'static str = "rigloop_inbox_entry_id";

/// How a signal asks to be taken up.
#[derive(Clone, Copy, Debug, PartialEq, Eq, Structural)]
pub enum DurableInboxKind {
    Steer,
    FollowUp,
    Interrupt,
}

impl DeepView for DurableInboxKind {
    type V = DurableInboxKind;

    open spec fn deep_view(&self) -> DurableInboxKind {
        *self
    }
}

impl DeepEq for DurableInboxKind {
    fn deep_eq(&self, other: &DurableInboxKind) -> (r: bool) {
        *self == *other
    }
}

/// Whether a signal was taken up.
#[derive(Clone, Copy, Debug, PartialEq, Eq, Structural)]
pub enum DurableInboxStatus {
    Submitted,
    Acked,
}

impl DeepView for DurableInboxStatus {
    type V = DurableInboxStatus;

    open spec fn deep_view(&self) -> DurableInboxStatus {
        *self
    }
}

impl DeepEq for DurableInboxStatus {
    fn deep_eq(&self, other: &DurableInboxStatus) -> (r: bool) {
        *self == *other
    }
}

/// A signal with its identity.
#[derive(Debug, PartialEq, Eq)]
pub struct DurableInboxEntry {
    pub id: String,
    pub kind: DurableInboxKind,
    pub message: Message,
    pub status: DurableInboxStatus,
    /// Nanoseconds on the driver's clock.
    pub submitted_at: u128,
}

/// The value of a [`DurableInboxEntry`].
pub struct DurableInboxEntryView {
    pub id: Seq<char>,
    pub kind: DurableInboxKind,
    pub message: MessageView,
    pub status: DurableInboxStatus,
    pub submitted_at: u128,
}

impl DeepView for DurableInboxEntry {
    type V = DurableInboxEntryView;

    open spec fn deep_view(&self) -> DurableInboxEntryView {
        DurableInboxEntryView {
            id: self.id.deep_view(),
            kind: self.kind,
            message: self.message.deep_view(),
            status: self.status,
            submitted_at: self.submitted_at,
        }
    }
}

impl Clone for DurableInboxEntry {
    fn clone(&self) -> (r: DurableInboxEntry)
        ensures
            r.deep_view() == self.deep_view(),
    {
        DurableInboxEntry {
            id: self.id.clone(),
            kind: self.kind,
            message: self.message.clone(),
            status: self.status,
            submitted_at: self.submitted_at,
        }
    }
}

/// What became of a turn.
#[derive(Debug, PartialEq, Eq)]
pub struct DurableTurnOutcome {
    pub kind: TurnOutcomeKind,
    /// Why the run is about to end, if it is.
    pub end_reason: Option<EndReason>,
    pub usage: Option<Usage>,
}

/// The value of a [`DurableTurnOutcome`].
pub struct DurableTurnOutcomeView {
    pub kind: TurnOutcomeKind,
    pub end_reason: Option<EndReasonView>,
    pub usage: Option<Usage>,
}

impl DeepView for DurableTurnOutcome {
    type V = DurableTurnOutcomeView;

    open spec fn deep_view(&self) -> DurableTurnOutcomeView {
        DurableTurnOutcomeView {
            kind: self.kind,
            end_reason: self.end_reason.deep_view(),
            usage: self.usage.deep_view(),
        }
    }
}

impl Clone for DurableTurnOutcome {
    fn clone(&self) -> (r: DurableTurnOutcome)
        ensures
            r.deep_view() == self.deep_view(),
    {
        DurableTurnOutcome {
            kind: self.kind,
            end_reason: self.end_reason.clone(),
            usage: self.usage.clone(),
        }
    }
}

/// One transaction: messages, the entries that they acknowledge and the outcome of a turn.
#[derive(Debug, PartialEq, Eq)]
pub struct PersistMessagesArgs {
    pub messages: Vec<Message>,
    pub ack_inbox_entry_ids: Vec<String>,
    pub turn_outcome: Option<DurableTurnOutcome>,
}

/// The value of a [`PersistMessagesArgs`].
pub struct PersistMessagesArgsView {
    pub messages: Seq<MessageView>,
    pub ack_inbox_entry_ids: Seq<Seq<char>>,
    pub turn_outcome: Option<DurableTurnOutcomeView>,
}

impl DeepView for PersistMessagesArgs {
    type V = PersistMessagesArgsView;

    open spec fn deep_view(&self) -> PersistMessagesArgsView {
        PersistMessagesArgsView {
            messages: self.messages.deep_view(),
            ack_inbox_entry_ids: self.ack_inbox_entry_ids.deep_view(),
            turn_outcome: self.turn_outcome.deep_view(),
        }
    }
}

impl Clone for PersistMessagesArgs {
    fn clone(&self) -> (r: PersistMessagesArgs)
        ensures
            r.deep_view() == self.deep_view(),
    {
        PersistMessagesArgs {
            messages: self.messages.clone(),
            ack_inbox_entry_ids: self.ack_inbox_entry_ids.clone(),
            turn_outcome: self.turn_outcome.clone(),
        }
    }
}

/// A stored tool result under its key.
#[derive(Debug, PartialEq, Eq)]
pub struct KeptResult {
    pub key: ToolResultKey,
    pub result: ToolResult,
}

/// The value of a [`KeptResult`].
pub struct KeptResultView {
    pub key: ToolResultKeyView,
    pub result: ToolResultView,
}

impl DeepView for KeptResult {
    type V = KeptResultView;

    open spec fn deep_view(&self) -> KeptResultView {
        KeptResultView {
            key: self.key.deep_view(),
            result: self.result.deep_view(),
        }
    }
}

impl Clone for KeptResult {
    fn clone(&self) -> (r: KeptResult)
        ensures
            r.deep_view() == self.deep_view(),
    {
        KeptResult {
            key: self.key.clone(),
            result: self.result.clone(),
        }
    }
}

/// Everything that a store holds.
#[derive(Debug, PartialEq, Eq)]
pub struct InMemoryDurableAgentStoreSnapshot {
    pub submitted_inbox_entries: Vec<DurableInboxEntry>,
    pub pending_inbox_entries: Vec<DurableInboxEntry>,
    pub acked_inbox_entries: Vec<DurableInboxEntry>,
    pub acked_inbox_ids: Vec<String>,
    pub persisted_messages: Vec<Message>,
    pub transactions: Vec<PersistMessagesArgs>,
    pub turn_outcomes: Vec<DurableTurnOutcome>,
    pub tool_results: Vec<KeptResult>,
}

/// The value of an [`InMemoryDurableAgentStoreSnapshot`].
pub struct InMemoryDurableAgentStoreSnapshotView {
    pub submitted_inbox_entries: Seq<DurableInboxEntryView>,
    pub pending_inbox_entries: Seq<DurableInboxEntryView>,
    pub acked_inbox_entries: Seq<DurableInboxEntryView>,
    pub acked_inbox_ids: Seq<Seq<char>>,
    pub persisted_messages: Seq<MessageView>,
    pub transactions: Seq<PersistMessagesArgsView>,
    pub turn_outcomes: Seq<DurableTurnOutcomeView>,
    pub tool_results: Seq<KeptResultView>,
}

impl DeepView for InMemoryDurableAgentStoreSnapshot {
    type V = InMemoryDurableAgentStoreSnapshotView;

    open spec fn deep_view(&self) -> InMemoryDurableAgentStoreSnapshotView {
        InMemoryDurableAgentStoreSnapshotView {
            submitted_inbox_entries: self.submitted_inbox_entries.deep_view(),
            pending_inbox_entries: self.pending_inbox_entries.deep_view(),
            acked_inbox_entries: self.acked_inbox_entries.deep_view(),
            acked_inbox_ids: self.acked_inbox_ids.deep_view(),
            persisted_messages: self.persisted_messages.deep_view(),
            transactions: self.transactions.deep_view(),
            turn_outcomes: self.turn_outcomes.deep_view(),
            tool_results: self.tool_results.deep_view(),
        }
    }
}

/// The storage rules in memory, without durability.
#[derive(Debug, PartialEq, Eq)]
pub struct InMemoryDurableAgentStore {
    pub submitted_inbox_entries: Vec<DurableInboxEntry>,
    pub acked_inbox_entries: Vec<DurableInboxEntry>,
    pub acked_inbox_ids: Vec<String>,
    pub persisted_messages: Vec<Message>,
    pub transactions: Vec<PersistMessagesArgs>,
    pub turn_outcomes: Vec<DurableTurnOutcome>,
    pub tool_results: Vec<KeptResult>,
}

/// The value of an [`InMemoryDurableAgentStore`].
pub struct InMemoryDurableAgentStoreView {
    pub submitted_inbox_entries: Seq<DurableInboxEntryView>,
    pub acked_inbox_entries: Seq<DurableInboxEntryView>,
    pub acked_inbox_ids: Seq<Seq<char>>,
    pub persisted_messages: Seq<MessageView>,
    pub transactions: Seq<PersistMessagesArgsView>,
    pub turn_outcomes: Seq<DurableTurnOutcomeView>,
    pub tool_results: Seq<KeptResultView>,
}

impl DeepView for InMemoryDurableAgentStore {
    type V = InMemoryDurableAgentStoreView;

    open spec fn deep_view(&self) -> InMemoryDurableAgentStoreView {
        InMemoryDurableAgentStoreView {
            submitted_inbox_entries: self.submitted_inbox_entries.deep_view(),
            acked_inbox_entries: self.acked_inbox_entries.deep_view(),
            acked_inbox_ids: self.acked_inbox_ids.deep_view(),
            persisted_messages: self.persisted_messages.deep_view(),
            transactions: self.transactions.deep_view(),
            turn_outcomes: self.turn_outcomes.deep_view(),
            tool_results: self.tool_results.deep_view(),
        }
    }
}

/// How a durable agent failed.
#[derive(Debug, PartialEq, Eq)]
pub enum DurableAgentError {
    InvalidSignalMessage(String),
    CommandChannelClosed,
    AlreadyStarted,
    NotStarted,
    Store(String),
    Callback(String),
    AgentLoop(AgentLoopError),
    TaskJoin(String),
    ManagerFailed(String),
}

/// The value of a [`DurableAgentError`].
pub enum DurableAgentErrorView {
    InvalidSignalMessage(Seq<char>),
    CommandChannelClosed,
    AlreadyStarted,
    NotStarted,
    Store(Seq<char>),
    Callback(Seq<char>),
    AgentLoop(AgentLoopErrorView),
    TaskJoin(Seq<char>),
    ManagerFailed(Seq<char>),
}

impl DeepView for DurableAgentError {
    type V = DurableAgentErrorView;

    open spec fn deep_view(&self) -> DurableAgentErrorView {
        match self {
            DurableAgentError::InvalidSignalMessage(x) => DurableAgentErrorView::InvalidSignalMessage(x.deep_view()),
            DurableAgentError::CommandChannelClosed => DurableAgentErrorView::CommandChannelClosed,
            DurableAgentError::AlreadyStarted => DurableAgentErrorView::AlreadyStarted,
            DurableAgentError::NotStarted => DurableAgentErrorView::NotStarted,
            DurableAgentError::Store(x) => DurableAgentErrorView::Store(x.deep_view()),
            DurableAgentError::Callback(x) => DurableAgentErrorView::Callback(x.deep_view()),
            DurableAgentError::AgentLoop(x) => DurableAgentErrorView::AgentLoop(x.deep_view()),
            DurableAgentError::TaskJoin(x) => DurableAgentErrorView::TaskJoin(x.deep_view()),
            DurableAgentError::ManagerFailed(x) => DurableAgentErrorView::ManagerFailed(x.deep_view()),
        }
    }
}

impl Clone for DurableAgentError {
    fn clone(&self) -> (r: DurableAgentError)
        ensures
            r.deep_view() == self.deep_view(),
    {
        match self {
            DurableAgentError::InvalidSignalMessage(x) => DurableAgentError::InvalidSignalMessage(x.clone()),
            DurableAgentError::CommandChannelClosed => DurableAgentError::CommandChannelClosed,
            DurableAgentError::AlreadyStarted => DurableAgentError::AlreadyStarted,
            DurableAgentError::NotStarted => DurableAgentError::NotStarted,
            DurableAgentError::Store(x) => DurableAgentError::Store(x.clone()),
            DurableAgentError::Callback(x) => DurableAgentError::Callback(x.clone()),
            DurableAgentError::AgentLoop(x) => DurableAgentError::AgentLoop(x.clone()),
            DurableAgentError::TaskJoin(x) => DurableAgentError::TaskJoin(x.clone()),
            DurableAgentError::ManagerFailed(x) => DurableAgentError::ManagerFailed(x.clone()),
        }
    }
}

/// The text of a JSON object with a field that holds a text, as `serde_json` reads and renders it;
/// None where the text that was there is not a JSON object.
pub uninterp spec fn json_with_text(object: Seq<char>, key: Seq<char>, value: Seq<char>) -> Option<
    Seq<char>,
>;

/// The text in a field of a JSON object, as `serde_json::from_str` reads it; None where the text
/// is not a JSON object or where the object has no such field or another kind of value in it.
pub uninterp spec fn json_text_field(object: Seq<char>, key: Seq<char>) -> Option<Seq<char>>;

/// Set a field of a JSON object to a text, by `serde_json::from_str` into raw values, which are
/// not looked into, `serde_json::value::to_raw_value` and `serde_json::to_string`. The contract
/// claims that the field then reads as the text and that every other field reads as before; of the
/// empty object, that the field can be set and that there are no other fields.
#[verifier::external_body]
fn set_json_text(object: &str, key: &str, value: &str) -> (r: Option<String>)
    ensures
        r.deep_view() == json_with_text(object@, key@, value@),
        object@ == "{}"@ ==> r is Some,
        r matches Some(text) ==> json_text_field(text@, key@) == Some(value@),
        r matches Some(text) ==> forall|k: Seq<char>|
            k != key@ ==> #[trigger] json_text_field(text@, k) == json_text_field(object@, k),
        object@ == "{}"@ ==> (r matches Some(text) ==> forall|k: Seq<char>|
            k != key@ ==> (#[trigger] json_text_field(text@, k)) is None),
{
    let mut fields: std::collections::BTreeMap<String, Box<serde_json::value::RawValue>> =
        serde_json::from_str(object).ok()?;
    fields.insert(key.to_owned(), serde_json::value::to_raw_value(value).ok()?);
    serde_json::to_string(&fields).ok()
}

/// The text in a field of a JSON object, by `serde_json::from_str` into raw values, which are not
/// looked into but for the field.
#[verifier::external_body]
pub(crate) fn get_json_text(object: &str, key: &str) -> (r: Option<String>)
    ensures
        r.deep_view() == json_text_field(object@, key@),
{
    let fields: std::collections::BTreeMap<String, Box<serde_json::value::RawValue>> =
        serde_json::from_str(object).ok()?;
    serde_json::from_str(fields.get(key)?.get()).ok()
}

/// The first run of text among some content, from the `i`th block on.
pub open spec fn text_place(content: Seq<UserContentView>, i: int) -> Option<int>
    decreases content.len() - i,
{
    if i >= content.len() {
        None
    } else if content[i] is Text {
        Some(i)
    } else {
        text_place(content, i + 1)
    }
}

/// The parameters of a text: an empty object where there are none.
pub open spec fn params_of(text: TextView) -> Seq<char> {
    match text.additional_params {
        Some(params) => params,
        None => "{}"@,
    }
}

/// A parameter of a text that is a text itself.
pub open spec fn text_param(text: TextView, key: Seq<char>) -> Option<Seq<char>> {
    match text.additional_params {
        Some(params) => json_text_field(params, key),
        None => None,
    }
}

/// Whether two texts have the same parameters, but for the id of an inbox entry.
pub open spec fn keeps_params(before: TextView, after: TextView) -> bool {
    forall|key: Seq<char>|
        key != INBOX_ENTRY_ID_PARAM@ ==> #[trigger] text_param(after, key) == text_param(before, key)
}

/// Whether a message differs from another one at most in the parameters of its first text, and
/// there at most in the id of an inbox entry.
pub open spec fn differs_in_id(before: MessageView, after: MessageView) -> bool {
    match (before, after) {
        (MessageView::User { content: old }, MessageView::User { content: new }) => {
            &&& new.len() == old.len()
            &&& text_place(old, 0) matches Some(i) && {
                &&& forall|k: int| 0 <= k < old.len() && k != i ==> #[trigger] new[k] == old[k]
                &&& new[i] is Text && new[i]->Text_0.text == old[i]->Text_0.text
                &&& keeps_params(old[i]->Text_0, new[i]->Text_0)
            }
        },
        _ => false,
    }
}

/// Whether the first text of a message has no parameters yet.
pub open spec fn has_plain_text(message: MessageView) -> bool {
    message matches MessageView::User { content } && text_place(content, 0) matches Some(i)
        && content[i]->Text_0.additional_params is None
}

/// A text under the id of an inbox entry; None where its parameters are not an object.
pub open spec fn tagged_text(text: TextView, id: Seq<char>) -> Option<TextView> {
    match json_with_text(params_of(text), INBOX_ENTRY_ID_PARAM@, id) {
        Some(params) => Some(TextView { additional_params: Some(params), ..text }),
        None => None,
    }
}

/// A message under the id of an inbox entry, or why it cannot carry one.
pub open spec fn tagged(message: MessageView, id: Seq<char>) -> Result<MessageView, Seq<char>> {
    match message {
        MessageView::User { content } => match text_place(content, 0) {
            None => Err("durable signal user messages must contain text content"@),
            Some(i) => match tagged_text(content[i]->Text_0, id) {
                Some(text) => Ok(
                    MessageView::User { content: content.update(i, UserContentView::Text(text)) },
                ),
                None => Err("text additional_params must be a JSON object to carry an inbox id"@),
            },
        },
        _ => Err("durable signals must be user messages"@),
    }
}

/// The id that a block of content carries.
pub open spec fn block_id(block: UserContentView) -> Option<Seq<char>> {
    match block {
        UserContentView::Text(text) => match text.additional_params {
            Some(params) => json_text_field(params, INBOX_ENTRY_ID_PARAM@),
            None => None,
        },
        _ => None,
    }
}

/// The first id that some content carries, from the `i`th block on.
pub open spec fn content_id(content: Seq<UserContentView>, i: int) -> Option<Seq<char>>
    decreases content.len() - i,
{
    if i >= content.len() {
        None
    } else if block_id(content[i]) is Some {
        block_id(content[i])
    } else {
        content_id(content, i + 1)
    }
}

/// The id of the inbox entry that a message carries.
pub open spec fn message_id(message: MessageView) -> Option<Seq<char>> {
    match message {
        MessageView::User { content } => content_id(content, 0),
        _ => None,
    }
}

/// The ids that some messages carry, in order.
pub open spec fn message_ids(messages: Seq<MessageView>) -> Seq<Seq<char>>
    decreases messages.len(),
{
    if messages.len() == 0 {
        Seq::empty()
    } else {
        match message_id(messages.last()) {
            Some(id) => message_ids(messages.drop_last()).push(id),
            None => message_ids(messages.drop_last()),
        }
    }
}

/// Whether an answer is the one that was specified.
pub open spec fn is_tagged(answer: Result<Message, DurableAgentError>, specified: Result<MessageView, Seq<char>>) -> bool {
    match specified {
        Ok(message) => answer matches Ok(m) && m.deep_view() == message,
        Err(text) => answer matches Err(e) && e.deep_view()
            == DurableAgentErrorView::InvalidSignalMessage(text),
    }
}

fn refuse_signal(text: &str) -> (r: Result<Message, DurableAgentError>)
    ensures
        r matches Err(e) && e.deep_view() == DurableAgentErrorView::InvalidSignalMessage(text@),
{
    Err(DurableAgentError::InvalidSignalMessage(text.to_owned()))
}

/// Put a text under the id of an inbox entry.
fn tag_text_content(text: &Text, inbox_id: &str) -> (r: Option<Text>)
    ensures
        r.deep_view() == tagged_text(text.deep_view(), inbox_id@),
        r matches Some(t) ==> block_id(UserContentView::Text(t.deep_view())) == Some(inbox_id@),
        r matches Some(t) ==> keeps_params(text.deep_view(), t.deep_view()),
        text.additional_params is None ==> r is Some,
{
    let before = match &text.additional_params {
        Some(params) => params.as_str(),
        None => "{}",
    };
    match set_json_text(before, INBOX_ENTRY_ID_PARAM, inbox_id) {
        Some(params) => Some(Text { text: text.text.clone(), additional_params: Some(params) }),
        None => None,
    }
}

/// Put a message under the id of an inbox entry: its first run of text carries the id, the id is
/// what is read off the message again, and nothing else is changed. A text without parameters can
/// always carry an id.
pub fn tag_message_with_inbox_id(message: Message, inbox_id: &str) -> (r: Result<
    Message,
    DurableAgentError,
>)
    ensures
        is_tagged(r, tagged(message.deep_view(), inbox_id@)),
        r matches Ok(m) ==> message_id(m.deep_view()) == Some(inbox_id@),
        r matches Ok(m) ==> differs_in_id(message.deep_view(), m.deep_view()),
        has_plain_text(message.deep_view()) ==> r is Ok,
{
    let Message::User { content } = message else {
        return refuse_signal("durable signals must be user messages");
    };
    let ghost c = content.deep_view();
    let mut i: usize = 0;
    while i < content.len()
        invariant
            i <= content.len(),
            c == content.deep_view(),
            text_place(c, 0) == text_place(c, i as int),
            message.deep_view() == (MessageView::User { content: c }),
        decreases content.len() - i,
    {
        assert(c[i as int] == content[i as int].deep_view());
        if let UserContent::Text(text) = &content[i] {
            return match tag_text_content(text, inbox_id) {
                Some(text) => {
                    let mut items = content;
                    let ghost t = text.deep_view();
                    items.set(i, UserContent::Text(text));
                    proof {
                        assert(items.deep_view() =~= c.update(i as int, UserContentView::Text(t)));
                        lemma_tag_is_read_back(c, i as int, t, inbox_id@);
                        lemma_text_place(c, 0);
                    }
                    Ok(Message::User { content: items })
                },
                None => refuse_signal(
                    "text additional_params must be a JSON object to carry an inbox id",
                ),
            };
        }
        i += 1;
    }
    refuse_signal("durable signal user messages must contain text content")
}

/// The id of the inbox entry that a message carries.
pub fn inbox_id_from_message(message: &Message) -> (r: Option<String>)
    ensures
        r.deep_view() == message_id(message.deep_view()),
{
    let Message::User { content } = message else {
        return None;
    };
    let ghost c = content.deep_view();
    let mut i: usize = 0;
    while i < content.len()
        invariant
            i <= content.len(),
            c == content.deep_view(),
            message.deep_view() == (MessageView::User { content: c }),
            content_id(c, 0) == content_id(c, i as int),
        decreases content.len() - i,
    {
        assert(c[i as int] == content[i as int].deep_view());
        if let UserContent::Text(text) = &content[i] {
            if let Some(params) = &text.additional_params {
                let found = get_json_text(params.as_str(), INBOX_ENTRY_ID_PARAM);
                if found.is_some() {
                    return found;
                }
            }
        }
        i += 1;
    }
    None
}

/// The ids of the inbox entries that some messages carry, in order.
pub fn inbox_ids_from_messages(messages: &Vec<Message>) -> (r: Vec<String>)
    ensures
        r.deep_view() == message_ids(messages.deep_view()),
{
    let ghost all = messages.deep_view();
    let mut ids: Vec<String> = Vec::new();
    assert(ids.deep_view() =~= message_ids(all.take(0)));
    let mut i: usize = 0;
    while i < messages.len()
        invariant
            i <= messages.len(),
            all == messages.deep_view(),
            ids.deep_view() == message_ids(all.take(i as int)),
        decreases messages.len() - i,
    {
        let ghost before = ids.deep_view();
        assert(all.take(i + 1).drop_last() =~= all.take(i as int));
        assert(all.take(i + 1).last() == messages[i as int].deep_view());
        if let Some(id) = inbox_id_from_message(&messages[i]) {
            let ghost v = id@;
            ids.push(id);
            assert(ids.deep_view() =~= before.push(v));
        }
        i += 1;
    }
    assert(all.take(all.len() as int) =~= all);
    ids
}

/// What is read off a message that was put under an id is that id.
proof fn lemma_tag_is_read_back(content: Seq<UserContentView>, i: int, text: TextView, id: Seq<char>)
    requires
        text_place(content, 0) == Some(i),
        block_id(UserContentView::Text(text)) == Some(id),
    ensures
        message_id(MessageView::User { content: content.update(i, UserContentView::Text(text)) }) == Some(
            id,
        ),
{
    lemma_text_place(content, 0);
    lemma_first_tag(content, content.update(i, UserContentView::Text(text)), 0, i, id);
}

proof fn lemma_first_tag(
    content: Seq<UserContentView>,
    next: Seq<UserContentView>,
    from: int,
    i: int,
    id: Seq<char>,
)
    requires
        0 <= from,
        text_place(content, from) == Some(i),
        next.len() == content.len(),
        forall|k: int| 0 <= k < content.len() && k != i ==> next[k] == content[k],
        0 <= i < content.len() ==> block_id(next[i]) == Some(id),
    ensures
        content_id(next, from) == Some(id),
    decreases content.len() - from,
{
    if from < content.len() && content[from] !is Text {
        lemma_text_place(content, from + 1);
        lemma_first_tag(content, next, from + 1, i, id);
    }
}

proof fn lemma_text_place(content: Seq<UserContentView>, from: int)
    ensures
        text_place(content, from) matches Some(i) ==> from <= i < content.len(),
    decreases content.len() - from,
{
    if from < content.len() {
        lemma_text_place(content, from + 1);
    }
}

/// An error in words.
pub open spec fn durable_error_text(error: DurableAgentErrorView) -> Seq<char> {
    match error {
        DurableAgentErrorView::InvalidSignalMessage(text) => "invalid signal message: "@ + text,
        DurableAgentErrorView::CommandChannelClosed => "durable agent command channel is closed"@,
        DurableAgentErrorView::AlreadyStarted => "durable agent is already started"@,
        DurableAgentErrorView::NotStarted => "durable agent has not been started"@,
        DurableAgentErrorView::Store(text) => "durable store failed: "@ + text,
        DurableAgentErrorView::Callback(text) => "durable callback failed: "@ + text,
        DurableAgentErrorView::AgentLoop(error) => loop_error_text(error),
        DurableAgentErrorView::TaskJoin(text) => text,
        DurableAgentErrorView::ManagerFailed(text) => "durable manager failed: "@ + text,
    }
}

impl DurableAgentError {
    /// The error in words.
    pub fn text(&self) -> (r: String)
        ensures
            r@ == durable_error_text(self.deep_view()),
    {
        match self {
            DurableAgentError::InvalidSignalMessage(text) => joined(
                "invalid signal message: ",
                text.as_str(),
            ),
            DurableAgentError::CommandChannelClosed => "durable agent command channel is closed".to_owned(),
            DurableAgentError::AlreadyStarted => "durable agent is already started".to_owned(),
            DurableAgentError::NotStarted => "durable agent has not been started".to_owned(),
            DurableAgentError::Store(text) => joined("durable store failed: ", text.as_str()),
            DurableAgentError::Callback(text) => joined("durable callback failed: ", text.as_str()),
            DurableAgentError::AgentLoop(error) => error.text(),
            DurableAgentError::TaskJoin(text) => text.clone(),
            DurableAgentError::ManagerFailed(text) => joined("durable manager failed: ", text.as_str()),
        }
    }
}

/// The ids of some entries, in order.
pub open spec fn durable_ids(entries: Seq<DurableInboxEntryView>) -> Seq<Seq<char>> {
    Seq::new(entries.len(), |i: int| entries[i].id)
}

/// The entries whose ids are not among some others, in order.
pub open spec fn entries_without(entries: Seq<DurableInboxEntryView>, ids: Seq<Seq<char>>) -> Seq<
    DurableInboxEntryView,
>
    decreases entries.len(),
{
    if entries.len() == 0 {
        Seq::empty()
    } else if ids.contains(entries.last().id) {
        entries_without(entries.drop_last(), ids)
    } else {
        entries_without(entries.drop_last(), ids).push(entries.last())
    }
}

/// The first entry with an id.
pub open spec fn entry_with(entries: Seq<DurableInboxEntryView>, id: Seq<char>) -> Option<DurableInboxEntryView>
    decreases entries.len(),
{
    if entries.len() == 0 {
        None
    } else if entries[0].id == id {
        Some(entries[0])
    } else {
        entry_with(entries.skip(1), id)
    }
}

/// The acknowledged entries once an id is acknowledged: an entry is among them once, and only if
/// it was submitted.
pub open spec fn with_ack(
    acked: Seq<DurableInboxEntryView>,
    submitted: Seq<DurableInboxEntryView>,
    id: Seq<char>,
) -> Seq<DurableInboxEntryView> {
    if durable_ids(acked).contains(id) {
        acked
    } else {
        match entry_with(submitted, id) {
            Some(entry) => acked.push(
                DurableInboxEntryView { status: DurableInboxStatus::Acked, ..entry },
            ),
            None => acked,
        }
    }
}

/// The acknowledged entries once some ids are acknowledged.
pub open spec fn with_acks(
    acked: Seq<DurableInboxEntryView>,
    submitted: Seq<DurableInboxEntryView>,
    ids: Seq<Seq<char>>,
) -> Seq<DurableInboxEntryView>
    decreases ids.len(),
{
    if ids.len() == 0 {
        acked
    } else {
        with_ack(with_acks(acked, submitted, ids.drop_last()), submitted, ids.last())
    }
}

/// The stored result under a key.
pub open spec fn kept(results: Seq<KeptResultView>, key: ToolResultKeyView) -> Option<ToolResultView>
    decreases results.len(),
{
    if results.len() == 0 {
        None
    } else if results.last().key == key {
        Some(results.last().result)
    } else {
        kept(results.drop_last(), key)
    }
}

/// The stored results with one more; it takes the place of an earlier one under the same key.
pub open spec fn keep(
    results: Seq<KeptResultView>,
    key: ToolResultKeyView,
    result: ToolResultView,
) -> Seq<KeptResultView>
    decreases results.len(),
{
    if results.len() == 0 {
        seq![KeptResultView { key, result }]
    } else if results.last().key == key {
        results.drop_last().push(KeptResultView { key, result })
    } else {
        keep(results.drop_last(), key, result).push(results.last())
    }
}

/// The stored results with those among some results.
pub open spec fn keep_all(stored: Seq<KeptResultView>, found: Seq<ToolResultView>) -> Seq<KeptResultView>
    decreases found.len(),
{
    if found.len() == 0 {
        stored
    } else {
        keep(keep_all(stored, found.drop_last()), result_key(found.last()), found.last())
    }
}

/// All results of some messages, in order.
pub open spec fn all_results(messages: Seq<MessageView>) -> Seq<ToolResultView>
    decreases messages.len(),
{
    if messages.len() == 0 {
        Seq::empty()
    } else {
        all_results(messages.drop_last()) + results_of(messages.last())
    }
}

/// The keys of stored results, in order.
pub open spec fn kept_keys(results: Seq<KeptResultView>) -> Seq<ToolResultKeyView> {
    Seq::new(results.len(), |i: int| results[i].key)
}

/// What holds of every store: no two results are stored under the same key.
pub open spec fn is_keyed(s: InMemoryDurableAgentStoreView) -> bool {
    kept_keys(s.tool_results).no_duplicates()
}

proof fn lemma_keep_keeps_keys(results: Seq<KeptResultView>, key: ToolResultKeyView, result: ToolResultView)
    ensures
        kept_keys(results).no_duplicates() ==> kept_keys(keep(results, key, result)).no_duplicates(),
        forall|i: int|
            0 <= i < keep(results, key, result).len() ==> (#[trigger] kept_keys(
                keep(results, key, result),
            )[i]) == key || kept_keys(results).contains(kept_keys(keep(results, key, result))[i]),
    decreases results.len(),
{
    let next = keep(results, key, result);
    let (before, after) = (kept_keys(results), kept_keys(next));
    if results.len() > 0 {
        let rest = results.drop_last();
        lemma_keep_keeps_keys(rest, key, result);
        assert(before.drop_last() =~= kept_keys(rest));
        if results.last().key == key {
            assert(after =~= before);
            assert forall|i: int| 0 <= i < next.len() implies (#[trigger] after[i]) == key || before.contains(
                after[i],
            ) by {
                assert(before[i] == after[i]);
            }
        } else {
            let head = kept_keys(keep(rest, key, result));
            assert(after =~= head.push(results.last().key));
            assert forall|i: int| 0 <= i < next.len() implies (#[trigger] after[i]) == key || before.contains(
                after[i],
            ) by {
                if i < head.len() {
                    assert(head[i] == after[i]);
                    if after[i] != key {
                        let k = choose|k: int| 0 <= k < rest.len() && kept_keys(rest)[k] == after[i];
                        assert(before[k] == after[i]);
                    }
                } else {
                    assert(before[before.len() - 1] == after[i]);
                }
            }
            if before.no_duplicates() {
                assert forall|i: int, j: int| 0 <= i < rest.len() && 0 <= j < rest.len() && i != j implies kept_keys(
                    rest,
                )[i] != kept_keys(rest)[j] by {
                    assert(before[i] != before[j]);
                }
                assert forall|i: int| 0 <= i < head.len() implies head[i] != results.last().key by {
                    if head[i] != key {
                        let k = choose|k: int| 0 <= k < rest.len() && kept_keys(rest)[k] == head[i];
                        assert(before[k] != before[before.len() - 1]);
                    }
                }
            }
        }
    }
}

proof fn lemma_keep_all_keeps_keys(stored: Seq<KeptResultView>, found: Seq<ToolResultView>)
    requires
        kept_keys(stored).no_duplicates(),
    ensures
        kept_keys(keep_all(stored, found)).no_duplicates(),
    decreases found.len(),
{
    if found.len() > 0 {
        lemma_keep_all_keeps_keys(stored, found.drop_last());
        lemma_keep_keeps_keys(
            keep_all(stored, found.drop_last()),
            result_key(found.last()),
            found.last(),
        );
    }
}

/// A store in which nothing was stored yet.
pub open spec fn empty_store() -> InMemoryDurableAgentStoreView {
    InMemoryDurableAgentStoreView {
        submitted_inbox_entries: Seq::empty(),
        acked_inbox_entries: Seq::empty(),
        acked_inbox_ids: Seq::empty(),
        persisted_messages: Seq::empty(),
        transactions: Seq::empty(),
        turn_outcomes: Seq::empty(),
        tool_results: Seq::empty(),
    }
}

/// What a store shows: the pending entries are those submitted and not acknowledged.
pub open spec fn shown(s: InMemoryDurableAgentStoreView) -> InMemoryDurableAgentStoreSnapshotView {
    InMemoryDurableAgentStoreSnapshotView {
        submitted_inbox_entries: s.submitted_inbox_entries,
        pending_inbox_entries: entries_without(
            s.submitted_inbox_entries,
            durable_ids(s.acked_inbox_entries),
        ),
        acked_inbox_entries: s.acked_inbox_entries,
        acked_inbox_ids: s.acked_inbox_ids,
        persisted_messages: s.persisted_messages,
        transactions: s.transactions,
        turn_outcomes: s.turn_outcomes,
        tool_results: s.tool_results,
    }
}

/// A store once a transaction was made.
pub open spec fn persisted(
    s: InMemoryDurableAgentStoreView,
    args: PersistMessagesArgsView,
) -> InMemoryDurableAgentStoreView {
    InMemoryDurableAgentStoreView {
        submitted_inbox_entries: s.submitted_inbox_entries,
        acked_inbox_entries: with_acks(
            s.acked_inbox_entries,
            s.submitted_inbox_entries,
            args.ack_inbox_entry_ids,
        ),
        acked_inbox_ids: s.acked_inbox_ids + args.ack_inbox_entry_ids,
        persisted_messages: s.persisted_messages + args.messages,
        transactions: s.transactions.push(args),
        turn_outcomes: match args.turn_outcome {
            Some(outcome) => s.turn_outcomes.push(outcome),
            None => s.turn_outcomes,
        },
        tool_results: keep_all(s.tool_results, all_results(args.messages)),
    }
}

fn has_id(entries: &Vec<DurableInboxEntry>, id: &String) -> (r: bool)
    ensures
        r == durable_ids(entries.deep_view()).contains(id@),
{
    let ghost ids = durable_ids(entries.deep_view());
    let mut i: usize = 0;
    while i < entries.len()
        invariant
            i <= entries.len(),
            ids == durable_ids(entries.deep_view()),
            forall|k: int| 0 <= k < i ==> ids[k] != id@,
        decreases entries.len() - i,
    {
        if entries[i].id.deep_eq(id) {
            assert(ids[i as int] == id@);
            return true;
        }
        i += 1;
    }
    false
}

fn find_entry<'a>(entries: &'a Vec<DurableInboxEntry>, id: &String) -> (r: Option<&'a DurableInboxEntry>)
    ensures
        r.deep_view() == entry_with(entries.deep_view(), id@),
{
    let ghost all = entries.deep_view();
    let mut i: usize = 0;
    assert(all.skip(0) =~= all);
    while i < entries.len()
        invariant
            i <= entries.len(),
            all == entries.deep_view(),
            entry_with(all, id@) == entry_with(all.skip(i as int), id@),
        decreases entries.len() - i,
    {
        assert(all.skip(i as int)[0] == entries[i as int].deep_view());
        assert(all.skip(i as int).skip(1) =~= all.skip(i + 1));
        if entries[i].id.deep_eq(id) {
            return Some(&entries[i]);
        }
        i += 1;
    }
    None
}

impl InMemoryDurableAgentStore {
    /// A store in which nothing was stored yet.
    pub fn new() -> (r: InMemoryDurableAgentStore)
        ensures
            r.deep_view() == empty_store(),
            is_keyed(r.deep_view()),
    {
        let r = InMemoryDurableAgentStore {
            submitted_inbox_entries: Vec::new(),
            acked_inbox_entries: Vec::new(),
            acked_inbox_ids: Vec::new(),
            persisted_messages: Vec::new(),
            transactions: Vec::new(),
            turn_outcomes: Vec::new(),
            tool_results: Vec::new(),
        };
        proof {
            assert(r.submitted_inbox_entries.deep_view() =~= Seq::empty());
            assert(r.acked_inbox_entries.deep_view() =~= Seq::empty());
            assert(r.acked_inbox_ids.deep_view() =~= Seq::empty());
            assert(r.persisted_messages.deep_view() =~= Seq::empty());
            assert(r.transactions.deep_view() =~= Seq::empty());
            assert(r.turn_outcomes.deep_view() =~= Seq::empty());
            assert(r.tool_results.deep_view() =~= Seq::empty());
        }
        r
    }

    /// Everything that is stored, with the entries that are pending.
    pub fn snapshot(&self) -> (r: InMemoryDurableAgentStoreSnapshot)
        ensures
            r.deep_view() == shown(self.deep_view()),
    {
        let ghost all = self.submitted_inbox_entries.deep_view();
        let ghost acked = durable_ids(self.acked_inbox_entries.deep_view());
        let mut pending: Vec<DurableInboxEntry> = Vec::new();
        assert(pending.deep_view() =~= entries_without(all.take(0), acked));
        let mut i: usize = 0;
        while i < self.submitted_inbox_entries.len()
            invariant
                i <= self.submitted_inbox_entries.len(),
                all == self.submitted_inbox_entries.deep_view(),
                acked == durable_ids(self.acked_inbox_entries.deep_view()),
                pending.deep_view() == entries_without(all.take(i as int), acked),
            decreases self.submitted_inbox_entries.len() - i,
        {
            let entry = &self.submitted_inbox_entries[i];
            let ghost before = pending.deep_view();
            assert(all.take(i + 1).drop_last() =~= all.take(i as int));
            assert(all.take(i + 1).last() == entry.deep_view());
            if !has_id(&self.acked_inbox_entries, &entry.id) {
                pending.push(entry.clone());
                assert(pending.deep_view() =~= before.push(entry.deep_view()));
            }
            i += 1;
        }
        assert(all.take(all.len() as int) =~= all);
        InMemoryDurableAgentStoreSnapshot {
            submitted_inbox_entries: self.submitted_inbox_entries.clone(),
            pending_inbox_entries: pending,
            acked_inbox_entries: self.acked_inbox_entries.clone(),
            acked_inbox_ids: self.acked_inbox_ids.clone(),
            persisted_messages: self.persisted_messages.clone(),
            transactions: self.transactions.clone(),
            turn_outcomes: self.turn_outcomes.clone(),
            tool_results: self.tool_results.clone(),
        }
    }

    /// The stored history.
    pub fn load_history(&self) -> (r: Vec<Message>)
        ensures
            r.deep_view() == self.deep_view().persisted_messages,
    {
        self.persisted_messages.clone()
    }

    /// Put another history in the place of the stored one.
    pub fn replace_history(&mut self, history: Vec<Message>)
        ensures
            final(self).deep_view() == (InMemoryDurableAgentStoreView {
                persisted_messages: history.deep_view(),
                ..old(self).deep_view()
            }),
            is_keyed(old(self).deep_view()) ==> is_keyed(final(self).deep_view()),
    {
        self.persisted_messages = history;
    }

    /// Store a result; what was stored under its key before comes back.
    pub fn insert_tool_result(&mut self, key: ToolResultKey, result: ToolResult) -> (r: Option<ToolResult>)
        ensures
            r.deep_view() == kept(old(self).deep_view().tool_results, key.deep_view()),
            final(self).deep_view() == (InMemoryDurableAgentStoreView {
                tool_results: keep(
                    old(self).deep_view().tool_results,
                    key.deep_view(),
                    result.deep_view(),
                ),
                ..old(self).deep_view()
            }),
            is_keyed(old(self).deep_view()) ==> is_keyed(final(self).deep_view()),
    {
        let before = self.load_tool_result(&key);
        let ghost all = self.tool_results.deep_view();
        let ghost s = self.deep_view();
        let ghost (k, v) = (key.deep_view(), result.deep_view());
        proof {
            lemma_keep_keeps_keys(all, k, v);
        }
        let mut n: usize = self.tool_results.len();
        assert(all.take(n as int) =~= all);
        assert(keep(all, k, v) =~= keep(all.take(n as int), k, v) + all.skip(n as int));
        while n > 0
            invariant
                n <= self.tool_results.len(),
                s == self.deep_view(),
                s == old(self).deep_view(),
                all == s.tool_results,
                k == key.deep_view(),
                v == result.deep_view(),
                before.deep_view() == kept(all, k),
                kept_keys(all).no_duplicates() ==> kept_keys(keep(all, k, v)).no_duplicates(),
                keep(all, k, v) == keep(all.take(n as int), k, v) + all.skip(n as int),
            decreases n,
        {
            let ghost head = all.take(n as int);
            assert(head.drop_last() =~= all.take(n - 1));
            assert(head.last() == all[n - 1]);
            if self.tool_results[n - 1].key.deep_eq(&key) {
                self.tool_results.set(n - 1, KeptResult { key, result });
                assert(self.tool_results.deep_view() =~= keep(all, k, v));
                return before;
            }
            assert(keep(all, k, v) =~= keep(all.take(n - 1), k, v) + all.skip(n - 1));
            n -= 1;
        }
        assert(all.take(0) =~= Seq::empty());
        assert(all.skip(0) =~= all);
        self.tool_results.insert(0, KeptResult { key, result });
        assert(self.tool_results.deep_view() =~= seq![KeptResultView { key: k, result: v }] + all);
        before
    }

    /// Store a result as it comes.
    pub fn persist_tool_result(&mut self, key: ToolResultKey, result: ToolResult)
        ensures
            final(self).deep_view() == (InMemoryDurableAgentStoreView {
                tool_results: keep(
                    old(self).deep_view().tool_results,
                    key.deep_view(),
                    result.deep_view(),
                ),
                ..old(self).deep_view()
            }),
            is_keyed(old(self).deep_view()) ==> is_keyed(final(self).deep_view()),
    {
        let _ = self.insert_tool_result(key, result);
    }

    /// The stored result under a key.
    pub fn load_tool_result(&self, key: &ToolResultKey) -> (r: Option<ToolResult>)
        ensures
            r.deep_view() == kept(self.deep_view().tool_results, key.deep_view()),
    {
        let ghost all = self.tool_results.deep_view();
        let mut n: usize = self.tool_results.len();
        assert(all.take(n as int) =~= all);
        while n > 0
            invariant
                n <= self.tool_results.len(),
                all == self.tool_results.deep_view(),
                kept(all, key.deep_view()) == kept(all.take(n as int), key.deep_view()),
            decreases n,
        {
            assert(all.take(n as int).drop_last() =~= all.take(n - 1));
            assert(all.take(n as int).last() == self.tool_results[n - 1].deep_view());
            if self.tool_results[n - 1].key.deep_eq(key) {
                return Some(self.tool_results[n - 1].result.clone());
            }
            n -= 1;
        }
        None
    }

    /// Add a signal to the inbox.
    pub fn submit_inbox_entry(&mut self, entry: DurableInboxEntry)
        ensures
            final(self).deep_view() == (InMemoryDurableAgentStoreView {
                submitted_inbox_entries: old(self).deep_view().submitted_inbox_entries.push(
                    entry.deep_view(),
                ),
                ..old(self).deep_view()
            }),
            is_keyed(old(self).deep_view()) ==> is_keyed(final(self).deep_view()),
    {
        let ghost before = self.submitted_inbox_entries.deep_view();
        let ghost e = entry.deep_view();
        self.submitted_inbox_entries.push(entry);
        assert(self.submitted_inbox_entries.deep_view() =~= before.push(e));
    }

    fn ack(&mut self, ids: &Vec<String>)
        ensures
            final(self).deep_view() == (InMemoryDurableAgentStoreView {
                acked_inbox_entries: with_acks(
                    old(self).deep_view().acked_inbox_entries,
                    old(self).deep_view().submitted_inbox_entries,
                    ids.deep_view(),
                ),
                ..old(self).deep_view()
            }),
    {
        let ghost s = self.deep_view();
        let ghost all = ids.deep_view();
        let mut i: usize = 0;
        assert(all.take(0) =~= Seq::empty());
        while i < ids.len()
            invariant
                i <= ids.len(),
                all == ids.deep_view(),
                s == old(self).deep_view(),
                self.deep_view() == (InMemoryDurableAgentStoreView {
                    acked_inbox_entries: with_acks(
                        s.acked_inbox_entries,
                        s.submitted_inbox_entries,
                        all.take(i as int),
                    ),
                    ..s
                }),
            decreases ids.len() - i,
        {
            assert(all.take(i + 1).drop_last() =~= all.take(i as int));
            assert(all.take(i + 1).last() == ids[i as int]@);
            let ghost before = self.acked_inbox_entries.deep_view();
            if !has_id(&self.acked_inbox_entries, &ids[i]) {
                if let Some(entry) = find_entry(&self.submitted_inbox_entries, &ids[i]) {
                    let mut entry = entry.clone();
                    entry.status = DurableInboxStatus::Acked;
                    let ghost e = entry.deep_view();
                    self.acked_inbox_entries.push(entry);
                    assert(self.acked_inbox_entries.deep_view() =~= before.push(e));
                }
            }
            i += 1;
        }
        assert(all.take(all.len() as int) =~= all);
    }

    fn keep_results(&mut self, messages: &Vec<Message>)
        ensures
            final(self).deep_view() == (InMemoryDurableAgentStoreView {
                tool_results: keep_all(
                    old(self).deep_view().tool_results,
                    all_results(messages.deep_view()),
                ),
                ..old(self).deep_view()
            }),
    {
        let ghost s = self.deep_view();
        let ghost all = messages.deep_view();
        let mut i: usize = 0;
        assert(all_results(all.take(0)) =~= Seq::empty());
        while i < messages.len()
            invariant
                i <= messages.len(),
                all == messages.deep_view(),
                s == old(self).deep_view(),
                self.deep_view() == (InMemoryDurableAgentStoreView {
                    tool_results: keep_all(s.tool_results, all_results(all.take(i as int))),
                    ..s
                }),
            decreases messages.len() - i,
        {
            let ghost earlier = all_results(all.take(i as int));
            let ghost here = results_of(all[i as int]);
            assert(all.take(i + 1).drop_last() =~= all.take(i as int));
            assert(all.take(i + 1).last() == messages[i as int].deep_view());
            assert(earlier + here.take(0) =~= earlier);
            if let Message::User { content } = &messages[i] {
                let found = results(content);
                let mut j: usize = 0;
                while j < found.len()
                    invariant
                        j <= found.len(),
                        here == found.deep_view(),
                        self.deep_view() == (InMemoryDurableAgentStoreView {
                            tool_results: keep_all(s.tool_results, earlier + here.take(j as int)),
                            ..s
                        }),
                    decreases found.len() - j,
                {
                    let key = ToolResultKey::from_tool_result(found[j]);
                    self.persist_tool_result(key, found[j].clone());
                    proof {
                        let next = earlier + here.take(j + 1);
                        assert(next.drop_last() =~= earlier + here.take(j as int));
                        assert(next.last() == found[j as int].deep_view());
                    }
                    j += 1;
                }
            } else {
                assert(here =~= Seq::empty());
            }
            assert(here.take(here.len() as int) =~= here);
            i += 1;
        }
        assert(all.take(all.len() as int) =~= all);
    }

    /// Append messages, acknowledge the entries that they carry and record the outcome of a turn.
    pub fn persist_messages_and_ack(&mut self, args: PersistMessagesArgs)
        ensures
            final(self).deep_view() == persisted(old(self).deep_view(), args.deep_view()),
            is_keyed(old(self).deep_view()) ==> is_keyed(final(self).deep_view()),
    {
        let ghost s = self.deep_view();
        let ghost a = args.deep_view();
        proof {
            if is_keyed(s) {
                lemma_keep_all_keeps_keys(s.tool_results, all_results(a.messages));
            }
        }
        self.transactions.push(args.clone());
        assert(self.transactions.deep_view() =~= s.transactions.push(a));
        if let Some(outcome) = &args.turn_outcome {
            self.turn_outcomes.push(outcome.clone());
            assert(self.turn_outcomes.deep_view() =~= s.turn_outcomes.push(outcome.deep_view()));
        }
        let mut ids = args.ack_inbox_entry_ids.clone();
        self.acked_inbox_ids.append(&mut ids);
        assert(self.acked_inbox_ids.deep_view() =~= s.acked_inbox_ids + a.ack_inbox_entry_ids);
        self.ack(&args.ack_inbox_entry_ids);
        self.keep_results(&args.messages);
        let mut messages = args.messages;
        self.persisted_messages.append(&mut messages);
        assert(self.persisted_messages.deep_view() =~= s.persisted_messages + a.messages);
    }
}

/// A stored result is given back under its key; the results under other keys stay what they were.
pub proof fn law_kept_results_are_loaded(
    results: Seq<KeptResultView>,
    key: ToolResultKeyView,
    result: ToolResultView,
    other: ToolResultKeyView,
)
    requires
        other != key,
    ensures
        kept(keep(results, key, result), key) == Some(result),
        kept(keep(results, key, result), other) == kept(results, other),
    decreases results.len(),
{
    let next = keep(results, key, result);
    if results.len() > 0 {
        let rest = results.drop_last();
        law_kept_results_are_loaded(rest, key, result, other);
        if results.last().key == key {
            assert(next.drop_last() =~= rest);
        } else {
            assert(next.drop_last() =~= keep(rest, key, result));
        }
    } else {
        assert(next.drop_last() =~= Seq::empty());
        assert(kept(next.drop_last(), other) is None);
    }
}

/// A transaction that acknowledges a submitted entry takes it off the pending ones, and it stays
/// off them.
pub proof fn law_acked_signals_are_not_pending(
    s: InMemoryDurableAgentStoreView,
    args: PersistMessagesArgsView,
    entry: DurableInboxEntryView,
)
    requires
        s.submitted_inbox_entries.contains(entry),
        args.ack_inbox_entry_ids.contains(entry.id) || durable_ids(s.acked_inbox_entries).contains(
            entry.id,
        ),
    ensures
        !shown(persisted(s, args)).pending_inbox_entries.contains(entry),
{
    let ids = args.ack_inbox_entry_ids;
    let acked = with_acks(s.acked_inbox_entries, s.submitted_inbox_entries, ids);
    lemma_acked(s.acked_inbox_entries, s.submitted_inbox_entries, ids, entry);
    lemma_not_pending(s.submitted_inbox_entries, durable_ids(acked), entry);
}

proof fn lemma_entry_with(entries: Seq<DurableInboxEntryView>, entry: DurableInboxEntryView)
    requires
        entries.contains(entry),
    ensures
        entry_with(entries, entry.id) matches Some(found) && found.id == entry.id,
    decreases entries.len(),
{
    if entries[0].id != entry.id {
        let i = choose|i: int| 0 <= i < entries.len() && entries[i] == entry;
        assert(entries.skip(1)[i - 1] == entry);
        lemma_entry_with(entries.skip(1), entry);
    }
}

proof fn lemma_acked(
    acked: Seq<DurableInboxEntryView>,
    submitted: Seq<DurableInboxEntryView>,
    ids: Seq<Seq<char>>,
    entry: DurableInboxEntryView,
)
    requires
        submitted.contains(entry),
        ids.contains(entry.id) || durable_ids(acked).contains(entry.id),
    ensures
        durable_ids(with_acks(acked, submitted, ids)).contains(entry.id),
    decreases ids.len(),
{
    if ids.len() > 0 {
        let rest = ids.drop_last();
        let before = with_acks(acked, submitted, rest);
        let after = with_ack(before, submitted, ids.last());
        if rest.contains(entry.id) || durable_ids(acked).contains(entry.id) {
            lemma_acked(acked, submitted, rest, entry);
            let i = choose|i: int| 0 <= i < before.len() && durable_ids(before)[i] == entry.id;
            assert(durable_ids(after)[i] == entry.id);
        } else {
            assert(ids.last() == entry.id) by {
                let i = choose|i: int| 0 <= i < ids.len() && ids[i] == entry.id;
                if i < ids.len() - 1 {
                    assert(rest[i] == entry.id);
                }
            }
            lemma_entry_with(submitted, entry);
            if !durable_ids(before).contains(entry.id) {
                assert(durable_ids(after)[before.len() as int] == entry.id);
            }
        }
    }
}

proof fn lemma_not_pending(
    entries: Seq<DurableInboxEntryView>,
    ids: Seq<Seq<char>>,
    entry: DurableInboxEntryView,
)
    requires
        ids.contains(entry.id),
    ensures
        !entries_without(entries, ids).contains(entry),
    decreases entries.len(),
{
    if entries.len() > 0 {
        lemma_not_pending(entries.drop_last(), ids, entry);
        let rest = entries_without(entries.drop_last(), ids);
        if !ids.contains(entries.last().id) {
            let all = rest.push(entries.last());
            if all.contains(entry) {
                let i = choose|i: int| 0 <= i < all.len() && all[i] == entry;
                if i < rest.len() {
                    assert(rest[i] == entry);
                }
            }
        }
    }
}

} // verus!
