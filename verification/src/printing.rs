//! A conversation in words, and a demonstration that steers a running stream.
use crate::durable::{get_json_text, json_text_field};
use crate::message::{
    user_text, AssistantContent, AssistantContentView, Message, MessageView, ToolCall, ToolCallView,
    ToolResult, ToolResultContent, ToolResultContentView, ToolResultView, UserContent,
    UserContentView,
};
use crate::text::{
    decimal, join_texts, joined, quote, quoted, render_number, render_u64, separated,
};
use std::collections::VecDeque;
use vstd::prelude::*;

verus! {

/// What a user says to steer the stream in the demonstration.
pub const STEER_PROMPT: &'static str = "Steer: stop building that tool input and answer directly.";

/// What an assistant streams.
#[derive(Debug, PartialEq, Eq)]
pub enum AssistantItem {
    /// A part of its text.
    Text(String),
    /// The name of the tool of a call.
    CallName { internal_call_id: String, name: String },
    /// A part of the arguments of a call.
    CallDelta { internal_call_id: String, delta: String },
    /// A call.
    ToolCall { internal_call_id: String, tool_call: ToolCall },
    Other,
}

/// The value of an [`AssistantItem`].
pub enum AssistantItemView {
    Text(Seq<char>),
    CallName { internal_call_id: Seq<char>, name: Seq<char> },
    CallDelta { internal_call_id: Seq<char>, delta: Seq<char> },
    ToolCall { internal_call_id: Seq<char>, tool_call: ToolCallView },
    Other,
}

impl DeepView for AssistantItem {
    type V = AssistantItemView;

    open spec fn deep_view(&self) -> AssistantItemView {
        match self {
            AssistantItem::Text(x) => AssistantItemView::Text(x.deep_view()),
            AssistantItem::CallName { internal_call_id, name } => AssistantItemView::CallName { internal_call_id: internal_call_id.deep_view(), name: name.deep_view() },
            AssistantItem::CallDelta { internal_call_id, delta } => AssistantItemView::CallDelta { internal_call_id: internal_call_id.deep_view(), delta: delta.deep_view() },
            AssistantItem::ToolCall { internal_call_id, tool_call } => AssistantItemView::ToolCall { internal_call_id: internal_call_id.deep_view(), tool_call: tool_call.deep_view() },
            AssistantItem::Other => AssistantItemView::Other,
        }
    }
}

/// What a stream reports.
#[derive(Debug, PartialEq, Eq)]
pub enum StreamStep {
    Assistant(AssistantItem),
    ToolResult { internal_call_id: String, tool_result: ToolResult },
    CompletionCall { call_index: usize, total_tokens: u64 },
    Final { response: String, history: Option<Vec<Message>> },
    Other,
}

/// The value of a [`StreamStep`].
pub enum StreamStepView {
    Assistant(AssistantItemView),
    ToolResult { internal_call_id: Seq<char>, tool_result: ToolResultView },
    CompletionCall { call_index: usize, total_tokens: u64 },
    Final { response: Seq<char>, history: Option<Seq<MessageView>> },
    Other,
}

impl DeepView for StreamStep {
    type V = StreamStepView;

    open spec fn deep_view(&self) -> StreamStepView {
        match self {
            StreamStep::Assistant(x) => StreamStepView::Assistant(x.deep_view()),
            StreamStep::ToolResult { internal_call_id, tool_result } => StreamStepView::ToolResult { internal_call_id: internal_call_id.deep_view(), tool_result: tool_result.deep_view() },
            StreamStep::CompletionCall { call_index, total_tokens } => StreamStepView::CompletionCall { call_index: *call_index, total_tokens: *total_tokens },
            StreamStep::Final { response, history } => StreamStepView::Final { response: response.deep_view(), history: history.deep_view() },
            StreamStep::Other => StreamStepView::Other,
        }
    }
}

/// Messages that wait to steer a stream.
#[derive(Debug)]
pub struct SteerQueue {
    pub queued: VecDeque<Message>,
}

/// The value of a [`SteerQueue`].
pub struct SteerQueueView {
    pub queued: Seq<MessageView>,
}

impl DeepView for SteerQueue {
    type V = SteerQueueView;

    open spec fn deep_view(&self) -> SteerQueueView {
        SteerQueueView {
            queued: self.queued.deep_view(),
        }
    }
}

/// Streams, one after the other, as long as messages steer them.
#[derive(Debug)]
pub struct SteerRun {
    pub history: Vec<Message>,
    pub next_prompt: Message,
    pub steer_sent: bool,
    pub completed: bool,
    pub queue: SteerQueue,
}

/// The value of a [`SteerRun`].
pub struct SteerRunView {
    pub history: Seq<MessageView>,
    pub next_prompt: MessageView,
    pub steer_sent: bool,
    pub completed: bool,
    pub queue: SteerQueueView,
}

impl DeepView for SteerRun {
    type V = SteerRunView;

    open spec fn deep_view(&self) -> SteerRunView {
        SteerRunView {
            history: self.history.deep_view(),
            next_prompt: self.next_prompt.deep_view(),
            steer_sent: self.steer_sent,
            completed: self.completed,
            queue: self.queue.deep_view(),
        }
    }
}

/// What the demonstration tool answers.
pub open spec fn echo_text(arguments: Seq<char>) -> Seq<char> {
    "echo tool saw: "@ + match json_text_field(arguments, "text"@) {
        Some(text) => text,
        None => "<missing text>"@,
    }
}

/// What the demonstration tool answers: the text that it was given.
pub fn echo(arguments: &str) -> (r: String)
    ensures
        r@ == echo_text(arguments@),
{
    match get_json_text(arguments, "text") {
        Some(text) => joined("echo tool saw: ", text.as_str()),
        None => joined("echo tool saw: ", "<missing text>"),
    }
}

/// The text of an image as `Debug` for `rig::message::Image` shows it; None where the text is not
/// one.
pub uninterp spec fn shown_image(json: Seq<char>) -> Option<Seq<char>>;

/// The text of an image, read by `serde_json::from_str`, as `Debug` for `rig::message::Image`
/// shows it. The contract names the result.
#[verifier::external_body]
fn show_image(json: &str) -> (r: Option<String>)
    ensures
        r.deep_view() == shown_image(json@),
{
    let part: rig::message::Image = serde_json::from_str(json).ok()?;
    Some(format!("{part:?}"))
}

/// The text of an audio as `Debug` for `rig::message::Audio` shows it; None where the text is not
/// one.
pub uninterp spec fn shown_audio(json: Seq<char>) -> Option<Seq<char>>;

/// The text of an audio, read by `serde_json::from_str`, as `Debug` for `rig::message::Audio`
/// shows it. The contract names the result.
#[verifier::external_body]
fn show_audio(json: &str) -> (r: Option<String>)
    ensures
        r.deep_view() == shown_audio(json@),
{
    let part: rig::message::Audio = serde_json::from_str(json).ok()?;
    Some(format!("{part:?}"))
}

/// The text of a video as `Debug` for `rig::message::Video` shows it; None where the text is not
/// one.
pub uninterp spec fn shown_video(json: Seq<char>) -> Option<Seq<char>>;

/// The text of a video, read by `serde_json::from_str`, as `Debug` for `rig::message::Video`
/// shows it. The contract names the result.
#[verifier::external_body]
fn show_video(json: &str) -> (r: Option<String>)
    ensures
        r.deep_view() == shown_video(json@),
{
    let part: rig::message::Video = serde_json::from_str(json).ok()?;
    Some(format!("{part:?}"))
}

/// The text of a document as `Debug` for `rig::message::Document` shows it; None where the text is not
/// one.
pub uninterp spec fn shown_document(json: Seq<char>) -> Option<Seq<char>>;

/// The text of a document, read by `serde_json::from_str`, as `Debug` for `rig::message::Document`
/// shows it. The contract names the result.
#[verifier::external_body]
fn show_document(json: &str) -> (r: Option<String>)
    ensures
        r.deep_view() == shown_document(json@),
{
    let part: rig::message::Document = serde_json::from_str(json).ok()?;
    Some(format!("{part:?}"))
}

/// The text of a block of reasoning as `Debug` for `rig::message::Reasoning` shows it; None where the text is not
/// one.
pub uninterp spec fn shown_reasoning(json: Seq<char>) -> Option<Seq<char>>;

/// The text of a block of reasoning, read by `serde_json::from_str`, as `Debug` for `rig::message::Reasoning`
/// shows it. The contract names the result.
#[verifier::external_body]
fn show_reasoning(json: &str) -> (r: Option<String>)
    ensures
        r.deep_view() == shown_reasoning(json@),
{
    let part: rig::message::Reasoning = serde_json::from_str(json).ok()?;
    Some(format!("{part:?}"))
}

/// The text of a JSON value as `Debug` for `serde_json::Value` shows it; None where the text is not
/// one.
pub uninterp spec fn shown_value(json: Seq<char>) -> Option<Seq<char>>;

/// The text of a JSON value, read by `serde_json::from_str`, as `Debug` for `serde_json::Value`
/// shows it. The contract names the result.
#[verifier::external_body]
fn show_value(json: &str) -> (r: Option<String>)
    ensures
        r.deep_view() == shown_value(json@),
{
    let part: serde_json::Value = serde_json::from_str(json).ok()?;
    Some(format!("{part:?}"))
}

/// A part of a message with the name of its kind, as `Debug` shows a variant that holds it; what
/// is no such part is shown as it is.
pub open spec fn variant_text(open: Seq<char>, shown: Option<Seq<char>>, close: Seq<char>, json: Seq<char>) -> Seq<
    char,
> {
    match shown {
        Some(text) => open + text + close,
        None => json,
    }
}

fn show_variant(open: &str, shown: Option<String>, close: &str, json: &str) -> (r: String)
    ensures
        r@ == variant_text(open@, shown.deep_view(), close@, json@),
{
    match shown {
        Some(text) => joined(joined(open, text.as_str()).as_str(), close),
        None => json.to_owned(),
    }
}

/// A block of a result in words.
pub open spec fn result_word(block: ToolResultContentView) -> Seq<char> {
    match block {
        ToolResultContentView::Text(text) => text.text,
        ToolResultContentView::Image(json) => variant_text("Image("@, shown_image(json), ")"@, json),
        ToolResultContentView::Json(json) => variant_text(
            "Json { value: "@,
            shown_value(json),
            " }"@,
            json,
        ),
    }
}

/// The blocks of a result in words.
pub open spec fn result_words(content: Seq<ToolResultContentView>) -> Seq<Seq<char>> {
    Seq::new(content.len(), |i: int| result_word(content[i]))
}

/// The blocks of a result in words.
pub fn render_tool_result_content(content: &Vec<ToolResultContent>) -> (r: Vec<String>)
    ensures
        r.deep_view() == result_words(content.deep_view()),
{
    let ghost all = result_words(content.deep_view());
    let mut words: Vec<String> = Vec::new();
    let mut i: usize = 0;
    while i < content.len()
        invariant
            i <= content.len(),
            all == result_words(content.deep_view()),
            words.deep_view() =~= all.take(i as int),
        decreases content.len() - i,
    {
        let ghost before = words.deep_view();
        let word = match &content[i] {
            ToolResultContent::Text(text) => text.text.clone(),
            ToolResultContent::Image(json) => show_variant(
                "Image(",
                show_image(json.as_str()),
                ")",
                json.as_str(),
            ),
            ToolResultContent::Json(json) => show_variant(
                "Json { value: ",
                show_value(json.as_str()),
                " }",
                json.as_str(),
            ),
        };
        assert(word@ == all[i as int]);
        words.push(word);
        assert(words.deep_view() =~= before.push(all[i as int]));
        i += 1;
    }
    assert(words.deep_view() =~= all);
    words
}

/// Some texts as `Debug` shows a list of them.
pub open spec fn quoted_list(texts: Seq<Seq<char>>) -> Seq<char> {
    "["@ + separated(Seq::new(texts.len(), |i: int| quoted(texts[i])), ", "@) + "]"@
}

fn quote_list(texts: &Vec<String>) -> (r: String)
    ensures
        r@ == quoted_list(texts.deep_view()),
{
    let ghost all = Seq::new(texts.deep_view().len(), |i: int| quoted(texts.deep_view()[i]));
    let mut quotes: Vec<String> = Vec::new();
    let mut i: usize = 0;
    while i < texts.len()
        invariant
            i <= texts.len(),
            all == Seq::new(texts.deep_view().len(), |i: int| quoted(texts.deep_view()[i])),
            quotes.deep_view() =~= all.take(i as int),
        decreases texts.len() - i,
    {
        let ghost before = quotes.deep_view();
        quotes.push(quote(texts[i].as_str()));
        assert(quotes.deep_view() =~= before.push(all[i as int]));
        i += 1;
    }
    assert(quotes.deep_view() =~= all);
    joined(joined("[", join_texts(&quotes, ", ").as_str()).as_str(), "]")
}

/// A block of a user message in words.
pub open spec fn user_word(block: UserContentView) -> Seq<char> {
    match block {
        UserContentView::Text(text) => "user "@ + quoted(text.text),
        UserContentView::ToolResult(result) => "tool result "@ + result.call + " "@ + quoted_list(
            result_words(result.content),
        ),
        UserContentView::Image(json) => "user "@ + variant_text(
            "Image("@,
            shown_image(json),
            ")"@,
            json,
        ),
        UserContentView::Audio(json) => "user "@ + variant_text(
            "Audio("@,
            shown_audio(json),
            ")"@,
            json,
        ),
        UserContentView::Video(json) => "user "@ + variant_text(
            "Video("@,
            shown_video(json),
            ")"@,
            json,
        ),
        UserContentView::Document(json) => "user "@ + variant_text(
            "Document("@,
            shown_document(json),
            ")"@,
            json,
        ),
    }
}

fn user_block_word(block: &UserContent) -> (r: String)
    ensures
        r@ == user_word(block.deep_view()),
{
    match block {
        UserContent::Text(text) => joined("user ", quote(text.text.as_str()).as_str()),
        UserContent::ToolResult(result) => joined(
            joined(joined("tool result ", result.call.as_str()).as_str(), " ").as_str(),
            quote_list(&render_tool_result_content(&result.content)).as_str(),
        ),
        UserContent::Image(json) => joined(
            "user ",
            show_variant("Image(", show_image(json.as_str()), ")", json.as_str()).as_str(),
        ),
        UserContent::Audio(json) => joined(
            "user ",
            show_variant("Audio(", show_audio(json.as_str()), ")", json.as_str()).as_str(),
        ),
        UserContent::Video(json) => joined(
            "user ",
            show_variant("Video(", show_video(json.as_str()), ")", json.as_str()).as_str(),
        ),
        UserContent::Document(json) => joined(
            "user ",
            show_variant("Document(", show_document(json.as_str()), ")", json.as_str()).as_str(),
        ),
    }
}

/// A block of an assistant message in words.
pub open spec fn assistant_word(block: AssistantContentView) -> Seq<char> {
    match block {
        AssistantContentView::Text(text) => "assistant "@ + quoted(text.text),
        AssistantContentView::ToolCall(call) => "assistant tool call "@ + call.function.name + "("@
            + call.function.arguments + ")"@,
        AssistantContentView::Reasoning(json) => "assistant "@ + variant_text(
            "Reasoning("@,
            shown_reasoning(json),
            ")"@,
            json,
        ),
        AssistantContentView::Image(json) => "assistant "@ + variant_text(
            "Image("@,
            shown_image(json),
            ")"@,
            json,
        ),
    }
}

fn assistant_block_word(block: &AssistantContent) -> (r: String)
    ensures
        r@ == assistant_word(block.deep_view()),
{
    match block {
        AssistantContent::Text(text) => joined("assistant ", quote(text.text.as_str()).as_str()),
        AssistantContent::ToolCall(call) => joined(
            joined(
                joined(
                    joined("assistant tool call ", call.function.name.as_str()).as_str(),
                    "(",
                ).as_str(),
                call.function.arguments.as_str(),
            ).as_str(),
            ")",
        ),
        AssistantContent::Reasoning(json) => joined(
            "assistant ",
            show_variant("Reasoning(", show_reasoning(json.as_str()), ")", json.as_str()).as_str(),
        ),
        AssistantContent::Image(json) => joined(
            "assistant ",
            show_variant("Image(", show_image(json.as_str()), ")", json.as_str()).as_str(),
        ),
    }
}

/// A message in words.
pub open spec fn description(message: MessageView) -> Seq<char> {
    match message {
        MessageView::User { content } => separated(
            Seq::new(content.len(), |i: int| user_word(content[i])),
            ", "@,
        ),
        MessageView::Assistant { content, .. } => separated(
            Seq::new(content.len(), |i: int| assistant_word(content[i])),
            ", "@,
        ),
        MessageView::System { content } => "system "@ + quoted(content),
    }
}

/// A message in words.
pub fn describe_message(message: &Message) -> (r: String)
    ensures
        r@ == description(message.deep_view()),
{
    let mut words: Vec<String> = Vec::new();
    match message {
        Message::User { content } => {
            let ghost c = content.deep_view();
            let ghost all = Seq::new(c.len(), |i: int| user_word(c[i]));
            let mut i: usize = 0;
            while i < content.len()
                invariant
                    i <= content.len(),
                    c == content.deep_view(),
                    all == Seq::new(c.len(), |i: int| user_word(c[i])),
                    words.deep_view() =~= all.take(i as int),
                decreases content.len() - i,
            {
                let ghost before = words.deep_view();
                words.push(user_block_word(&content[i]));
                assert(words.deep_view() =~= before.push(all[i as int]));
                i += 1;
            }
            assert(words.deep_view() =~= all);
            join_texts(&words, ", ")
        },
        Message::Assistant { content, .. } => {
            let ghost c = content.deep_view();
            let ghost all = Seq::new(c.len(), |i: int| assistant_word(c[i]));
            let mut i: usize = 0;
            while i < content.len()
                invariant
                    i <= content.len(),
                    c == content.deep_view(),
                    all == Seq::new(c.len(), |i: int| assistant_word(c[i])),
                    words.deep_view() =~= all.take(i as int),
                decreases content.len() - i,
            {
                let ghost before = words.deep_view();
                words.push(assistant_block_word(&content[i]));
                assert(words.deep_view() =~= before.push(all[i as int]));
                i += 1;
            }
            assert(words.deep_view() =~= all);
            join_texts(&words, ", ")
        },
        Message::System { content } => joined("system ", quote(content.as_str()).as_str()),
    }
}

/// The first text among user content, from the `i`th block on.
pub open spec fn first_user_text(content: Seq<UserContentView>, i: int) -> Option<Seq<char>>
    decreases content.len() - i,
{
    if i >= content.len() {
        None
    } else if let UserContentView::Text(text) = content[i] {
        Some(text.text)
    } else {
        first_user_text(content, i + 1)
    }
}

/// The first text among assistant content, from the `i`th block on.
pub open spec fn first_assistant_text(content: Seq<AssistantContentView>, i: int) -> Option<Seq<char>>
    decreases content.len() - i,
{
    if i >= content.len() {
        None
    } else if let AssistantContentView::Text(text) = content[i] {
        Some(text.text)
    } else {
        first_assistant_text(content, i + 1)
    }
}

/// The first text of a message.
pub open spec fn opening_text(message: MessageView) -> Option<Seq<char>> {
    match message {
        MessageView::User { content } => first_user_text(content, 0),
        MessageView::Assistant { content, .. } => first_assistant_text(content, 0),
        MessageView::System { content } => Some(content),
    }
}

/// The first text of a message.
pub fn first_text(message: &Message) -> (r: Option<String>)
    ensures
        r.deep_view() == opening_text(message.deep_view()),
{
    match message {
        Message::User { content } => {
            let ghost c = content.deep_view();
            let mut i: usize = 0;
            while i < content.len()
                invariant
                    i <= content.len(),
                    c == content.deep_view(),
                    message.deep_view() == (MessageView::User { content: c }),
                    first_user_text(c, 0) == first_user_text(c, i as int),
                decreases content.len() - i,
            {
                assert(c[i as int] == content[i as int].deep_view());
                if let UserContent::Text(text) = &content[i] {
                    return Some(text.text.clone());
                }
                i += 1;
            }
            None
        },
        Message::Assistant { id, content } => {
            let ghost c = content.deep_view();
            let mut i: usize = 0;
            while i < content.len()
                invariant
                    i <= content.len(),
                    c == content.deep_view(),
                    message.deep_view() == (MessageView::Assistant { id: id.deep_view(), content: c }),
                    first_assistant_text(c, 0) == first_assistant_text(c, i as int),
                decreases content.len() - i,
            {
                assert(c[i as int] == content[i as int].deep_view());
                if let AssistantContent::Text(text) = &content[i] {
                    return Some(text.text.clone());
                }
                i += 1;
            }
            None
        },
        Message::System { content } => Some(content.clone()),
    }
}

/// A history in lines: a label with the number of messages, and a line for each.
pub open spec fn history_lines(label: Seq<char>, history: Seq<MessageView>) -> Seq<Seq<char>> {
    seq![label + ": "@ + decimal(history.len()) + " message(s)"@] + Seq::new(
        history.len(),
        |i: int| "  "@ + decimal(i as nat) + ": "@ + description(history[i]),
    )
}

/// A history in lines: a label with the number of messages, and a line for each.
pub fn print_history(label: &str, history: &Vec<Message>) -> (r: Vec<String>)
    ensures
        r.deep_view() == history_lines(label@, history.deep_view()),
{
    let ghost h = history.deep_view();
    let ghost all = history_lines(label@, h);
    assert(h.len() == history.len());
    let mut lines: Vec<String> = Vec::new();
    let head = joined(
        joined(joined(label, ": ").as_str(), render_number(history.len()).as_str()).as_str(),
        " message(s)",
    );
    assert(head@ == all[0]);
    lines.push(head);
    assert(lines.deep_view() =~= all.take(1));
    let mut i: usize = 0;
    while i < history.len()
        invariant
            i <= history.len(),
            h == history.deep_view(),
            all == history_lines(label@, h),
            lines.deep_view() =~= all.take(i + 1),
        decreases history.len() - i,
    {
        let ghost before = lines.deep_view();
        let line = joined(
            joined(joined("  ", render_number(i).as_str()).as_str(), ": ").as_str(),
            describe_message(&history[i]).as_str(),
        );
        assert(line@ == all[i + 1]);
        lines.push(line);
        assert(lines.deep_view() =~= before.push(all[i + 1]));
        assert(lines.deep_view() =~= all.take(i + 2));
        i += 1;
    }
    assert(lines.deep_view() =~= all);
    lines
}

/// What is shown of something that an assistant streams.
pub open spec fn item_line(item: AssistantItemView) -> Option<Seq<char>> {
    match item {
        AssistantItemView::Text(text) => Some("assistant delta> "@ + text),
        AssistantItemView::CallName { internal_call_id, name } => Some(
            "tool delta> "@ + internal_call_id + " name="@ + name,
        ),
        AssistantItemView::CallDelta { internal_call_id, delta } => Some(
            "tool delta> "@ + internal_call_id + " args+="@ + quoted(delta),
        ),
        AssistantItemView::ToolCall { internal_call_id, tool_call } => Some(
            "tool complete> "@ + internal_call_id + " "@ + tool_call.function.name + "("@
                + tool_call.function.arguments + ")"@,
        ),
        AssistantItemView::Other => None,
    }
}

/// What is shown of something that an assistant streams, and whether it is a part of the
/// arguments of a call.
pub fn render_assistant_item(item: &AssistantItem) -> (r: (Option<String>, bool))
    ensures
        r.0.deep_view() == item_line(item.deep_view()),
        r.1 == (item.deep_view() is CallDelta),
{
    match item {
        AssistantItem::Text(text) => (Some(joined("assistant delta> ", text.as_str())), false),
        AssistantItem::CallName { internal_call_id, name } => (
            Some(
                joined(
                    joined(joined("tool delta> ", internal_call_id.as_str()).as_str(), " name=").as_str(),
                    name.as_str(),
                ),
            ),
            false,
        ),
        AssistantItem::CallDelta { internal_call_id, delta } => (
            Some(
                joined(
                    joined(joined("tool delta> ", internal_call_id.as_str()).as_str(), " args+=").as_str(),
                    quote(delta.as_str()).as_str(),
                ),
            ),
            true,
        ),
        AssistantItem::ToolCall { internal_call_id, tool_call } => {
            let start = joined(
                joined(joined("tool complete> ", internal_call_id.as_str()).as_str(), " ").as_str(),
                tool_call.function.name.as_str(),
            );
            (
                Some(
                    joined(
                        joined(
                            joined(start.as_str(), "(").as_str(),
                            tool_call.function.arguments.as_str(),
                        ).as_str(),
                        ")",
                    ),
                ),
                false,
            )
        },
        AssistantItem::Other => (None, false),
    }
}

/// What is shown of a result.
pub open spec fn result_line(internal_call_id: Seq<char>, result: ToolResultView) -> Seq<char> {
    "tool result> "@ + internal_call_id + " "@ + separated(result_words(result.content), ", "@)
}

/// What is shown of a result.
pub fn render_user_item(internal_call_id: &String, tool_result: &ToolResult) -> (r: String)
    ensures
        r@ == result_line(internal_call_id@, tool_result.deep_view()),
{
    let words = render_tool_result_content(&tool_result.content);
    joined(
        joined(joined("tool result> ", internal_call_id.as_str()).as_str(), " ").as_str(),
        join_texts(&words, ", ").as_str(),
    )
}

/// What is shown of the usage of a model call.
pub open spec fn usage_line(call_index: nat, total_tokens: nat) -> Seq<char> {
    "usage> call="@ + decimal(call_index) + " total_tokens="@ + decimal(total_tokens)
}

/// What is shown of the usage of a model call.
pub fn record_usage(call_index: usize, total_tokens: u64) -> (r: String)
    ensures
        r@ == usage_line(call_index as nat, total_tokens as nat),
{
    joined(
        joined(
            joined("usage> call=", render_number(call_index).as_str()).as_str(),
            " total_tokens=",
        ).as_str(),
        render_u64(total_tokens).as_str(),
    )
}

/// What is shown of a prompt.
pub open spec fn prompt_line(message: MessageView) -> Option<Seq<char>> {
    match opening_text(message) {
        Some(text) => Some("user> "@ + text),
        None => None,
    }
}

/// What is shown of a prompt.
pub fn print_user_prompt(message: &Message) -> (r: Option<String>)
    ensures
        r.deep_view() == prompt_line(message.deep_view()),
{
    match first_text(message) {
        Some(text) => Some(joined("user> ", text.as_str())),
        None => None,
    }
}

impl SteerQueue {
    /// A queue in which nothing waits.
    pub fn new() -> (r: SteerQueue)
        ensures
            r.deep_view().queued == Seq::<MessageView>::empty(),
    {
        let r = SteerQueue { queued: VecDeque::new() };
        assert(r.queued.deep_view() =~= Seq::empty());
        r
    }

    /// Let a message wait.
    pub fn steer(&mut self, message: Message)
        ensures
            final(self).deep_view().queued == old(self).deep_view().queued.push(message.deep_view()),
    {
        let ghost before = self.queued.deep_view();
        let ghost m = message.deep_view();
        self.queued.push_back(message);
        assert(self.queued.deep_view() =~= before.push(m));
    }

    /// Take the message that has waited longest.
    pub fn pop(&mut self) -> (r: Option<Message>)
        ensures
            old(self).deep_view().queued.len() == 0 ==> r is None && final(self).deep_view() == old(
                self,
            ).deep_view(),
            old(self).deep_view().queued.len() > 0 ==> r.deep_view() == Some(
                old(self).deep_view().queued[0],
            ) && final(self).deep_view().queued == old(self).deep_view().queued.skip(1),
    {
        let ghost before = self.queued.deep_view();
        let r = self.queued.pop_front();
        proof {
            if before.len() > 0 {
                assert(self.queued.deep_view() =~= before.skip(1));
            } else {
                assert(self.queued.deep_view() =~= before);
            }
        }
        r
    }
}

/// A run before its first stream.
pub open spec fn new_run(prompt: MessageView) -> SteerRunView {
    SteerRunView {
        history: Seq::empty(),
        next_prompt: prompt,
        steer_sent: false,
        completed: false,
        queue: SteerQueueView { queued: Seq::empty() },
    }
}

/// The lines at the start of a stream.
pub open spec fn start_lines(run: SteerRunView) -> Seq<Seq<char>> {
    seq!["\n=== starting stream ==="@] + match prompt_line(run.next_prompt) {
        Some(line) => seq![line],
        None => Seq::empty(),
    }
}

/// A run once its stream has reported something. The first part of the arguments of a call lets
/// the user steer, once.
pub open spec fn after_item(run: SteerRunView, item: StreamStepView) -> SteerRunView {
    match item {
        StreamStepView::Assistant(said) => if said is CallDelta && !run.steer_sent {
            SteerRunView {
                steer_sent: true,
                queue: SteerQueueView {
                    queued: run.queue.queued.push(user_text(STEER_PROMPT@)),
                },
                ..run
            }
        } else {
            run
        },
        StreamStepView::Final { history, .. } => SteerRunView {
            history: match history {
                Some(messages) => run.history + messages,
                None => run.history,
            },
            completed: true,
            ..run
        },
        _ => run,
    }
}

/// The lines for something that a stream has reported.
pub open spec fn item_lines(run: SteerRunView, item: StreamStepView) -> Seq<Seq<char>> {
    match item {
        StreamStepView::Assistant(said) => (match item_line(said) {
            Some(line) => seq![line],
            None => Seq::empty(),
        }) + if said is CallDelta && !run.steer_sent {
            seq!["ui> queued steer: "@ + STEER_PROMPT@]
        } else {
            Seq::empty()
        },
        StreamStepView::ToolResult { internal_call_id, tool_result } => seq![
            result_line(internal_call_id, tool_result),
        ],
        StreamStepView::CompletionCall { call_index, total_tokens } => seq![
            usage_line(call_index as nat, total_tokens as nat),
        ],
        StreamStepView::Final { response, .. } => seq!["final> "@ + response],
        StreamStepView::Other => Seq::empty(),
    }
}

/// The lines at the end of a stream.
pub open spec fn end_lines(run: SteerRunView) -> Seq<Seq<char>> {
    if run.completed {
        history_lines("history after completed stream"@, run.history)
    } else {
        Seq::empty()
    }
}

/// A run once its stream has ended: a message that waits is the next prompt.
pub open spec fn after_end(run: SteerRunView) -> SteerRunView {
    if run.queue.queued.len() > 0 {
        SteerRunView {
            next_prompt: run.queue.queued[0],
            completed: false,
            queue: SteerQueueView { queued: run.queue.queued.skip(1) },
            ..run
        }
    } else {
        run
    }
}

impl SteerRun {
    /// A run before its first stream.
    pub fn new(first_prompt: Message) -> (r: SteerRun)
        ensures
            r.deep_view() == new_run(first_prompt.deep_view()),
    {
        let r = SteerRun {
            history: Vec::new(),
            next_prompt: first_prompt,
            steer_sent: false,
            completed: false,
            queue: SteerQueue::new(),
        };
        assert(r.history.deep_view() =~= Seq::empty());
        r
    }

    /// Start a stream: the lines to show.
    pub fn start(&self) -> (r: Vec<String>)
        ensures
            r.deep_view() == start_lines(self.deep_view()),
    {
        let mut lines: Vec<String> = Vec::new();
        lines.push("\n=== starting stream ===".to_owned());
        if let Some(line) = print_user_prompt(&self.next_prompt) {
            lines.push(line);
        }
        assert(lines.deep_view() =~= start_lines(self.deep_view()));
        lines
    }

    /// Note what the stream has reported: the lines to show.
    pub fn note(&mut self, item: StreamStep) -> (r: Vec<String>)
        ensures
            final(self).deep_view() == after_item(old(self).deep_view(), item.deep_view()),
            r.deep_view() == item_lines(old(self).deep_view(), item.deep_view()),
    {
        let ghost run = self.deep_view();
        let ghost v = item.deep_view();
        let mut lines: Vec<String> = Vec::new();
        match item {
            StreamStep::Assistant(said) => {
                let (line, delta) = render_assistant_item(&said);
                if let Some(line) = line {
                    lines.push(line);
                }
                if delta && !self.steer_sent {
                    let steer = Message::user(STEER_PROMPT);
                    lines.push(joined("ui> queued steer: ", STEER_PROMPT));
                    self.queue.steer(steer);
                    self.steer_sent = true;
                }
            },
            StreamStep::ToolResult { internal_call_id, tool_result } => {
                lines.push(render_user_item(&internal_call_id, &tool_result));
            },
            StreamStep::CompletionCall { call_index, total_tokens } => {
                lines.push(record_usage(call_index, total_tokens));
            },
            StreamStep::Final { response, history } => {
                lines.push(joined("final> ", response.as_str()));
                if let Some(messages) = history {
                    let mut messages = messages;
                    let ghost added = messages.deep_view();
                    self.history.append(&mut messages);
                    assert(self.history.deep_view() =~= run.history + added);
                }
                self.completed = true;
            },
            StreamStep::Other => {},
        }
        assert(lines.deep_view() =~= item_lines(run, v));
        lines
    }

    /// End a stream: the lines to show, and whether another stream follows.
    pub fn end(&mut self) -> (r: (Vec<String>, bool))
        ensures
            final(self).deep_view() == after_end(old(self).deep_view()),
            r.0.deep_view() == end_lines(old(self).deep_view()),
            r.1 == (old(self).deep_view().queue.queued.len() > 0),
    {
        let ghost run = self.deep_view();
        let lines = if self.completed {
            print_history("history after completed stream", &self.history)
        } else {
            let none: Vec<String> = Vec::new();
            assert(none.deep_view() =~= Seq::empty());
            none
        };
        match self.queue.pop() {
            Some(message) => {
                self.next_prompt = message;
                self.completed = false;
                (lines, true)
            },
            None => (lines, false),
        }
    }
}

/// The user steers a run at most once, however often calls are streamed.
pub proof fn law_runs_are_steered_once(run: SteerRunView, first: StreamStepView, second: StreamStepView)
    ensures
        after_item(after_item(run, first), second).queue.queued.len() <= run.queue.queued.len() + 1,
        run.steer_sent ==> after_item(run, first).queue == run.queue,
{
}

/// Messages that steer are taken in the order in which they came.
pub proof fn law_steering_keeps_its_order(run: SteerRunView)
    requires
        run.queue.queued.len() > 0,
    ensures
        seq![after_end(run).next_prompt] + after_end(run).queue.queued == run.queue.queued,
{
    assert(seq![after_end(run).next_prompt] + after_end(run).queue.queued =~= run.queue.queued);
}

} // verus!
