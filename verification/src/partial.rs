//! A turn while it is streamed: what the assistant has said so far, and which of its calls have
//! their results.
use crate::deep::DeepEq;
use crate::message::{
    AssistantContent, AssistantContentView, Message, MessageView, Text, TextView, ToolCall,
    ToolCallView, ToolResult, ToolResultView, UserContent, UserContentView,
};
use crate::text::joined;
use vstd::prelude::*;

verus! {

/// What the assistant streams.
#[derive(Debug, PartialEq, Eq)]
pub enum StreamedAssistantContent {
    Text(Text),
    Reasoning(String),
    /// A call; `more` tells that further calls of the same message follow.
    ToolCall { internal_call_id: String, tool_call: ToolCall, more: bool },
    /// Parts of calls or of reasoning, and the end.
    Other,
}

/// The value of a [`StreamedAssistantContent`].
pub enum StreamedAssistantContentView {
    Text(TextView),
    Reasoning(Seq<char>),
    ToolCall { internal_call_id: Seq<char>, tool_call: ToolCallView, more: bool },
    Other,
}

impl DeepView for StreamedAssistantContent {
    type V = StreamedAssistantContentView;

    open spec fn deep_view(&self) -> StreamedAssistantContentView {
        match self {
            StreamedAssistantContent::Text(x) => StreamedAssistantContentView::Text(x.deep_view()),
            StreamedAssistantContent::Reasoning(x) => StreamedAssistantContentView::Reasoning(x.deep_view()),
            StreamedAssistantContent::ToolCall { internal_call_id, tool_call, more } => StreamedAssistantContentView::ToolCall { internal_call_id: internal_call_id.deep_view(), tool_call: tool_call.deep_view(), more: *more },
            StreamedAssistantContent::Other => StreamedAssistantContentView::Other,
        }
    }
}

/// A result that is streamed.
#[derive(Debug, PartialEq, Eq)]
pub struct StreamedUserContent {
    /// The id that relates it to its call.
    pub internal_call_id: String,
    pub tool_result: ToolResult,
}

/// The value of a [`StreamedUserContent`].
pub struct StreamedUserContentView {
    pub internal_call_id: Seq<char>,
    pub tool_result: ToolResultView,
}

impl DeepView for StreamedUserContent {
    type V = StreamedUserContentView;

    open spec fn deep_view(&self) -> StreamedUserContentView {
        StreamedUserContentView {
            internal_call_id: self.internal_call_id.deep_view(),
            tool_result: self.tool_result.deep_view(),
        }
    }
}

/// A call without a result.
#[derive(Debug, PartialEq, Eq)]
pub struct PendingToolCall {
    pub internal_call_id: String,
    pub tool_call: ToolCall,
}

/// The value of a [`PendingToolCall`].
pub struct PendingToolCallView {
    pub internal_call_id: Seq<char>,
    pub tool_call: ToolCallView,
}

impl DeepView for PendingToolCall {
    type V = PendingToolCallView;

    open spec fn deep_view(&self) -> PendingToolCallView {
        PendingToolCallView {
            internal_call_id: self.internal_call_id.deep_view(),
            tool_call: self.tool_call.deep_view(),
        }
    }
}

/// A turn while it is streamed.
#[derive(Debug, PartialEq, Eq)]
pub struct PartialTurn {
    pub pending_tool_calls: Vec<PendingToolCall>,
    pub assistant_content: Vec<AssistantContent>,
    /// The current message, once it was reported.
    pub finished_assistant_message: Option<Message>,
    /// The message whose calls are being answered.
    pub open_message: Option<Message>,
    pub active_tool_results: Vec<UserContent>,
    /// Messages with calls, each with the results behind it.
    pub completed_messages: Vec<Message>,
}

/// The value of a [`PartialTurn`].
pub struct PartialTurnView {
    pub pending_tool_calls: Seq<PendingToolCallView>,
    pub assistant_content: Seq<AssistantContentView>,
    pub finished_assistant_message: Option<MessageView>,
    pub open_message: Option<MessageView>,
    pub active_tool_results: Seq<UserContentView>,
    pub completed_messages: Seq<MessageView>,
}

impl DeepView for PartialTurn {
    type V = PartialTurnView;

    open spec fn deep_view(&self) -> PartialTurnView {
        PartialTurnView {
            pending_tool_calls: self.pending_tool_calls.deep_view(),
            assistant_content: self.assistant_content.deep_view(),
            finished_assistant_message: self.finished_assistant_message.deep_view(),
            open_message: self.open_message.deep_view(),
            active_tool_results: self.active_tool_results.deep_view(),
            completed_messages: self.completed_messages.deep_view(),
        }
    }
}

/// A turn in which nothing was streamed yet.
pub open spec fn nothing_streamed() -> PartialTurnView {
    PartialTurnView {
        pending_tool_calls: Seq::empty(),
        assistant_content: Seq::empty(),
        finished_assistant_message: None,
        open_message: None,
        active_tool_results: Seq::empty(),
        completed_messages: Seq::empty(),
    }
}

/// Content with a further run of text: it continues the text at the end, if there is one.
pub open spec fn with_text(content: Seq<AssistantContentView>, text: TextView) -> Seq<AssistantContentView> {
    if content.len() > 0 && content.last() is Text && content.last()->Text_0.additional_params is None
        && text.additional_params is None {
        content.drop_last().push(
            AssistantContentView::Text(
                TextView {
                    text: content.last()->Text_0.text + text.text,
                    additional_params: None,
                },
            ),
        )
    } else {
        content.push(AssistantContentView::Text(text))
    }
}

/// A turn in which the assistant has streamed something more.
pub open spec fn with_assistant(turn: PartialTurnView, item: StreamedAssistantContentView) -> PartialTurnView {
    match item {
        StreamedAssistantContentView::Text(text) => PartialTurnView {
            assistant_content: with_text(turn.assistant_content, text),
            ..turn
        },
        StreamedAssistantContentView::Reasoning(text) => PartialTurnView {
            assistant_content: turn.assistant_content.push(AssistantContentView::Reasoning(text)),
            ..turn
        },
        StreamedAssistantContentView::ToolCall { internal_call_id, tool_call, .. } => PartialTurnView {
            pending_tool_calls: turn.pending_tool_calls.push(
                PendingToolCallView { internal_call_id, tool_call },
            ),
            ..turn
        },
        StreamedAssistantContentView::Other => turn,
    }
}

/// Pending calls as content.
pub open spec fn call_blocks(pending: Seq<PendingToolCallView>) -> Seq<AssistantContentView> {
    Seq::new(pending.len(), |i: int| AssistantContentView::ToolCall(pending[i].tool_call))
}

/// The message that the assistant is at, unless it was reported or is being answered.
pub open spec fn current_message(turn: PartialTurnView) -> Option<MessageView> {
    let content = turn.assistant_content + call_blocks(turn.pending_tool_calls);
    if turn.finished_assistant_message is Some || turn.active_tool_results.len() > 0 || content.len()
        == 0 {
        None
    } else {
        Some(MessageView::Assistant { id: None, content })
    }
}

/// The place of a pending call, from the `i`th on.
pub open spec fn pending_place(pending: Seq<PendingToolCallView>, id: Seq<char>, i: int) -> Option<int>
    decreases pending.len() - i,
{
    if i >= pending.len() {
        None
    } else if pending[i].internal_call_id == id {
        Some(i)
    } else {
        pending_place(pending, id, i + 1)
    }
}

/// A turn in which a result has come. The calls of a message are complete, and the message with
/// its results is, once all of them have come.
pub open spec fn with_result(turn: PartialTurnView, item: StreamedUserContentView) -> PartialTurnView {
    match pending_place(turn.pending_tool_calls, item.internal_call_id, 0) {
        None => turn,
        Some(place) => {
            let first = turn.active_tool_results.len() == 0;
            let message = if !first {
                turn.open_message
            } else if turn.finished_assistant_message is Some {
                turn.finished_assistant_message
            } else {
                current_message(turn)
            };
            let pending = turn.pending_tool_calls.remove(place);
            let results = turn.active_tool_results.push(UserContentView::ToolResult(item.tool_result));
            let content = if first && message is Some {
                Seq::empty()
            } else {
                turn.assistant_content
            };
            let finished = if first {
                None
            } else {
                turn.finished_assistant_message
            };
            if pending.len() > 0 {
                PartialTurnView {
                    pending_tool_calls: pending,
                    assistant_content: content,
                    finished_assistant_message: finished,
                    open_message: message,
                    active_tool_results: results,
                    completed_messages: turn.completed_messages,
                }
            } else {
                PartialTurnView {
                    pending_tool_calls: pending,
                    assistant_content: content,
                    finished_assistant_message: finished,
                    open_message: None,
                    active_tool_results: Seq::empty(),
                    completed_messages: (match message {
                        Some(message) => turn.completed_messages.push(message),
                        None => turn.completed_messages,
                    }).push(MessageView::User { content: results }),
                }
            }
        },
    }
}

impl PartialTurn {
    /// A turn in which nothing was streamed yet.
    pub fn new() -> (r: PartialTurn)
        ensures
            r.deep_view() == nothing_streamed(),
    {
        let r = PartialTurn {
            pending_tool_calls: Vec::new(),
            assistant_content: Vec::new(),
            finished_assistant_message: None,
            open_message: None,
            active_tool_results: Vec::new(),
            completed_messages: Vec::new(),
        };
        proof {
            assert(r.pending_tool_calls.deep_view() =~= Seq::empty());
            assert(r.assistant_content.deep_view() =~= Seq::empty());
            assert(r.active_tool_results.deep_view() =~= Seq::empty());
            assert(r.completed_messages.deep_view() =~= Seq::empty());
        }
        r
    }

    /// Note what the assistant has streamed.
    pub fn note_assistant_item(&mut self, item: StreamedAssistantContent)
        ensures
            final(self).deep_view() == with_assistant(old(self).deep_view(), item.deep_view()),
    {
        let ghost t = self.deep_view();
        match item {
            StreamedAssistantContent::Text(text) => {
                let ghost added = text.deep_view();
                assert(t.assistant_content.len() == self.assistant_content.len());
                let last: Option<AssistantContent> = self.assistant_content.pop();
                match last {
                    Some(AssistantContent::Text(earlier)) => {
                        assert(t.assistant_content.last() == AssistantContentView::Text(
                            earlier.deep_view(),
                        ));
                        if earlier.additional_params.is_none() && text.additional_params.is_none() {
                            let whole = joined(earlier.text.as_str(), text.text.as_str());
                            self.assistant_content.push(
                                AssistantContent::Text(Text { text: whole, additional_params: None }),
                            );
                        } else {
                            self.assistant_content.push(AssistantContent::Text(earlier));
                            self.assistant_content.push(AssistantContent::Text(text));
                        }
                    },
                    Some(other) => {
                        assert(t.assistant_content.last() == other.deep_view());
                        self.assistant_content.push(other);
                        self.assistant_content.push(AssistantContent::Text(text));
                    },
                    None => {
                        self.assistant_content.push(AssistantContent::Text(text));
                    },
                }
                assert(self.assistant_content.deep_view() =~= with_text(t.assistant_content, added));
            },
            StreamedAssistantContent::Reasoning(text) => {
                let ghost added = AssistantContentView::Reasoning(text.deep_view());
                self.assistant_content.push(AssistantContent::Reasoning(text));
                assert(self.assistant_content.deep_view() =~= t.assistant_content.push(added));
            },
            StreamedAssistantContent::ToolCall { internal_call_id, tool_call, .. } => {
                let call = PendingToolCall { internal_call_id, tool_call };
                let ghost added = call.deep_view();
                self.pending_tool_calls.push(call);
                assert(self.pending_tool_calls.deep_view() =~= t.pending_tool_calls.push(added));
            },
            StreamedAssistantContent::Other => {},
        }
    }

    /// The message that the assistant is at, unless it was reported or is being answered.
    pub fn assistant_message(&self) -> (r: Option<Message>)
        ensures
            r.deep_view() == current_message(self.deep_view()),
    {
        let ghost t = self.deep_view();
        assert(t.active_tool_results.len() == self.active_tool_results.len());
        if self.finished_assistant_message.is_some() || !self.active_tool_results.is_empty() {
            return None;
        }
        let mut content = self.assistant_content.clone();
        let ghost start = content.deep_view();
        let ghost blocks = call_blocks(t.pending_tool_calls);
        assert(start + blocks.take(0) =~= start);
        let mut i: usize = 0;
        while i < self.pending_tool_calls.len()
            invariant
                i <= self.pending_tool_calls.len(),
                t == self.deep_view(),
                blocks == call_blocks(t.pending_tool_calls),
                content.deep_view() == start + blocks.take(i as int),
            decreases self.pending_tool_calls.len() - i,
        {
            let ghost before = content.deep_view();
            content.push(AssistantContent::ToolCall(self.pending_tool_calls[i].tool_call.clone()));
            assert(content.deep_view() =~= before.push(blocks[i as int]));
            assert(content.deep_view() =~= start + blocks.take(i + 1));
            i += 1;
        }
        assert(blocks.take(blocks.len() as int) =~= blocks);
        assert(content.deep_view().len() == content.len());
        if content.is_empty() {
            return None;
        }
        Some(Message::Assistant { id: None, content })
    }

    /// Note that the current message was reported.
    pub fn mark_assistant_message_finished(&mut self, message: Message)
        ensures
            final(self).deep_view() == (PartialTurnView {
                finished_assistant_message: Some(message.deep_view()),
                ..old(self).deep_view()
            }),
    {
        self.finished_assistant_message = Some(message);
    }

    fn place_of(&self, id: &String) -> (r: Option<usize>)
        ensures
            match r {
                Some(i) => i < self.pending_tool_calls.len() && pending_place(
                    self.deep_view().pending_tool_calls,
                    id@,
                    0,
                ) == Some(i as int),
                None => pending_place(self.deep_view().pending_tool_calls, id@, 0) is None,
            },
    {
        let ghost all = self.deep_view().pending_tool_calls;
        let mut i: usize = 0;
        while i < self.pending_tool_calls.len()
            invariant
                i <= self.pending_tool_calls.len(),
                all == self.deep_view().pending_tool_calls,
                pending_place(all, id@, 0) == pending_place(all, id@, i as int),
            decreases self.pending_tool_calls.len() - i,
        {
            assert(all[i as int] == self.pending_tool_calls[i as int].deep_view());
            if self.pending_tool_calls[i].internal_call_id.deep_eq(id) {
                return Some(i);
            }
            i += 1;
        }
        None
    }

    /// Note a result that was streamed.
    pub fn note_user_item(&mut self, item: StreamedUserContent)
        ensures
            final(self).deep_view() == with_result(old(self).deep_view(), item.deep_view()),
    {
        let ghost t = self.deep_view();
        let ghost v = item.deep_view();
        let Some(place) = self.place_of(&item.internal_call_id) else {
            return;
        };
        assert(t.active_tool_results.len() == self.active_tool_results.len());
        if self.active_tool_results.is_empty() {
            let message = match self.finished_assistant_message.take() {
                Some(message) => Some(message),
                None => self.assistant_message(),
            };
            if message.is_some() {
                self.assistant_content = Vec::new();
                assert(self.assistant_content.deep_view() =~= Seq::empty());
            }
            self.open_message = message;
        }
        let _ = self.pending_tool_calls.remove(place);
        assert(self.pending_tool_calls.deep_view() =~= t.pending_tool_calls.remove(place as int));
        self.active_tool_results.push(UserContent::ToolResult(item.tool_result));
        assert(self.active_tool_results.deep_view() =~= t.active_tool_results.push(
            UserContentView::ToolResult(v.tool_result),
        ));
        assert(self.pending_tool_calls.deep_view().len() == self.pending_tool_calls.len());
        if self.pending_tool_calls.is_empty() {
            let mut content: Vec<UserContent> = Vec::new();
            std::mem::swap(&mut content, &mut self.active_tool_results);
            assert(self.active_tool_results.deep_view() =~= Seq::empty());
            let ghost answered = t.completed_messages;
            if let Some(message) = self.open_message.take() {
                let ghost m = message.deep_view();
                self.completed_messages.push(message);
                proof {
                    answered = answered.push(m);
                }
                assert(self.completed_messages.deep_view() =~= answered);
            }
            let ghost b = MessageView::User { content: content.deep_view() };
            self.completed_messages.push(Message::User { content });
            assert(self.completed_messages.deep_view() =~= answered.push(b));
        }
    }

    /// The messages that are complete, behind the prompt; nothing where there are none.
    pub fn append_messages(&self, prompt: &Message) -> (r: Option<Vec<Message>>)
        ensures
            r.deep_view() == completed_behind(self.deep_view(), prompt.deep_view()),
    {
        assert(self.completed_messages.deep_view().len() == self.completed_messages.len());
        if self.completed_messages.is_empty() {
            return None;
        }
        let mut messages: Vec<Message> = Vec::new();
        messages.push(prompt.clone());
        let mut completed = self.completed_messages.clone();
        messages.append(&mut completed);
        assert(messages.deep_view() =~= seq![prompt.deep_view()] + self.completed_messages.deep_view());
        Some(messages)
    }
}

/// The messages that are complete, behind the prompt; nothing where there are none.
pub open spec fn completed_behind(turn: PartialTurnView, prompt: MessageView) -> Option<Seq<MessageView>> {
    if turn.completed_messages.len() == 0 {
        None
    } else {
        Some(seq![prompt] + turn.completed_messages)
    }
}

/// Messages that come in pairs, one of the assistant and one with results behind it.
pub open spec fn are_roundtrips(messages: Seq<MessageView>) -> bool {
    &&& messages.len() % 2 == 0
    &&& forall|i: int|
        0 <= i < messages.len() ==> if i % 2 == 0 {
            (#[trigger] messages[i]) is Assistant
        } else {
            messages[i] is User && messages[i]->User_content.len() > 0
        }
}

/// What holds of a turn while it is streamed.
pub open spec fn is_coherent(turn: PartialTurnView) -> bool {
    &&& are_roundtrips(turn.completed_messages)
    &&& turn.finished_assistant_message is Some ==> turn.finished_assistant_message->0 is Assistant
    &&& turn.open_message is Some <==> turn.active_tool_results.len() > 0
    &&& turn.open_message is Some ==> turn.open_message->0 is Assistant
}

/// Whatever is streamed, the messages of a turn come in pairs: a message of the assistant, and the
/// results behind it.
pub proof fn law_messages_of_a_turn_come_in_pairs(
    turn: PartialTurnView,
    said: StreamedAssistantContentView,
    result: StreamedUserContentView,
)
    requires
        is_coherent(turn),
    ensures
        is_coherent(nothing_streamed()),
        is_coherent(with_assistant(turn, said)),
        is_coherent(with_result(turn, result)),
        current_message(turn) matches Some(message) ==> is_coherent(
            PartialTurnView { finished_assistant_message: Some(message), ..turn },
        ),
{
    let next = with_result(turn, result);
    let pending = turn.pending_tool_calls;
    if let Some(place) = pending_place(pending, result.internal_call_id, 0) {
        lemma_place(pending, result.internal_call_id, 0);
        assert(call_blocks(pending).len() > 0);
        let n = turn.completed_messages.len() as int;
        if pending.remove(place).len() == 0 {
            assert(next.completed_messages.len() == n + 2);
            assert forall|i: int| 0 <= i < n + 2 implies if i % 2 == 0 {
                (#[trigger] next.completed_messages[i]) is Assistant
            } else {
                next.completed_messages[i] is User && next.completed_messages[i]->User_content.len() > 0
            } by {
                if i < n {
                    assert(next.completed_messages[i] == turn.completed_messages[i]);
                }
            }
        }
    }
}

pub proof fn lemma_place(pending: Seq<PendingToolCallView>, id: Seq<char>, i: int)
    requires
        0 <= i,
    ensures
        pending_place(pending, id, i) matches Some(place) ==> i <= place < pending.len(),
    decreases pending.len() - i,
{
    if i < pending.len() {
        lemma_place(pending, id, i + 1);
    }
}

} // verus!
