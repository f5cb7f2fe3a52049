//! Conversation messages: what a user, an assistant or the system said, with tool calls and
//! tool results as parts of the content.
//!
//! Parts that no rule of this library looks into (tool arguments, images, reasoning and other
//! provider data) are held as their JSON text.
use crate::deep::DeepEq;
use vstd::prelude::*;

verus! {

/// The identity under which a provider issued a tool call.
#[derive(Debug, PartialEq, Eq)]
pub struct ProviderCallId {
    pub call_id: String,
    pub item_id: Option<String>,
}

/// The value of a [`ProviderCallId`].
pub struct ProviderCallIdView {
    pub call_id: Seq<char>,
    pub item_id: Option<Seq<char>>,
}

impl DeepView for ProviderCallId {
    type V = ProviderCallIdView;

    open spec fn deep_view(&self) -> ProviderCallIdView {
        ProviderCallIdView {
            call_id: self.call_id.deep_view(),
            item_id: self.item_id.deep_view(),
        }
    }
}

impl Clone for ProviderCallId {
    fn clone(&self) -> (r: ProviderCallId)
        ensures
            r.deep_view() == self.deep_view(),
    {
        ProviderCallId {
            call_id: self.call_id.clone(),
            item_id: self.item_id.clone(),
        }
    }
}

impl DeepEq for ProviderCallId {
    fn deep_eq(&self, other: &ProviderCallId) -> (r: bool) {
        self.call_id.deep_eq(&other.call_id) && self.item_id.deep_eq(&other.item_id)
    }
}

/// A run of text, with provider parameters as the text of a JSON object.
#[derive(Debug, PartialEq, Eq)]
pub struct Text {
    pub text: String,
    pub additional_params: Option<String>,
}

/// The value of a [`Text`].
pub struct TextView {
    pub text: Seq<char>,
    pub additional_params: Option<Seq<char>>,
}

impl DeepView for Text {
    type V = TextView;

    open spec fn deep_view(&self) -> TextView {
        TextView {
            text: self.text.deep_view(),
            additional_params: self.additional_params.deep_view(),
        }
    }
}

impl Clone for Text {
    fn clone(&self) -> (r: Text)
        ensures
            r.deep_view() == self.deep_view(),
    {
        Text {
            text: self.text.clone(),
            additional_params: self.additional_params.clone(),
        }
    }
}

impl DeepEq for Text {
    fn deep_eq(&self, other: &Text) -> (r: bool) {
        self.text.deep_eq(&other.text) && self.additional_params.deep_eq(&other.additional_params)
    }
}

/// A tool by name, with its arguments as JSON text.
#[derive(Debug, PartialEq, Eq)]
pub struct ToolFunction {
    pub name: String,
    pub arguments: String,
}

/// The value of a [`ToolFunction`].
pub struct ToolFunctionView {
    pub name: Seq<char>,
    pub arguments: Seq<char>,
}

impl DeepView for ToolFunction {
    type V = ToolFunctionView;

    open spec fn deep_view(&self) -> ToolFunctionView {
        ToolFunctionView {
            name: self.name.deep_view(),
            arguments: self.arguments.deep_view(),
        }
    }
}

impl Clone for ToolFunction {
    fn clone(&self) -> (r: ToolFunction)
        ensures
            r.deep_view() == self.deep_view(),
    {
        ToolFunction {
            name: self.name.clone(),
            arguments: self.arguments.clone(),
        }
    }
}

impl DeepEq for ToolFunction {
    fn deep_eq(&self, other: &ToolFunction) -> (r: bool) {
        self.name.deep_eq(&other.name) && self.arguments.deep_eq(&other.arguments)
    }
}

/// A request of the assistant to run a tool.
#[derive(Debug, PartialEq, Eq)]
pub struct ToolCall {
    pub id: String,
    pub provider: Option<ProviderCallId>,
    pub function: ToolFunction,
    pub signature: Option<String>,
    pub additional_params: Option<String>,
}

/// The value of a [`ToolCall`].
pub struct ToolCallView {
    pub id: Seq<char>,
    pub provider: Option<ProviderCallIdView>,
    pub function: ToolFunctionView,
    pub signature: Option<Seq<char>>,
    pub additional_params: Option<Seq<char>>,
}

impl DeepView for ToolCall {
    type V = ToolCallView;

    open spec fn deep_view(&self) -> ToolCallView {
        ToolCallView {
            id: self.id.deep_view(),
            provider: self.provider.deep_view(),
            function: self.function.deep_view(),
            signature: self.signature.deep_view(),
            additional_params: self.additional_params.deep_view(),
        }
    }
}

impl Clone for ToolCall {
    fn clone(&self) -> (r: ToolCall)
        ensures
            r.deep_view() == self.deep_view(),
    {
        ToolCall {
            id: self.id.clone(),
            provider: self.provider.clone(),
            function: self.function.clone(),
            signature: self.signature.clone(),
            additional_params: self.additional_params.clone(),
        }
    }
}

impl DeepEq for ToolCall {
    fn deep_eq(&self, other: &ToolCall) -> (r: bool) {
        self.id.deep_eq(&other.id) && self.provider.deep_eq(&other.provider) && self.function.deep_eq(&other.function) && self.signature.deep_eq(&other.signature) && self.additional_params.deep_eq(&other.additional_params)
    }
}

/// One block of what a tool gave back.
#[derive(Debug, PartialEq, Eq)]
pub enum ToolResultContent {
    Text(Text),
    Image(String),
    Json(String),
}

/// The value of a [`ToolResultContent`].
pub enum ToolResultContentView {
    Text(TextView),
    Image(Seq<char>),
    Json(Seq<char>),
}

impl DeepView for ToolResultContent {
    type V = ToolResultContentView;

    open spec fn deep_view(&self) -> ToolResultContentView {
        match self {
            ToolResultContent::Text(x) => ToolResultContentView::Text(x.deep_view()),
            ToolResultContent::Image(x) => ToolResultContentView::Image(x.deep_view()),
            ToolResultContent::Json(x) => ToolResultContentView::Json(x.deep_view()),
        }
    }
}

impl Clone for ToolResultContent {
    fn clone(&self) -> (r: ToolResultContent)
        ensures
            r.deep_view() == self.deep_view(),
    {
        match self {
            ToolResultContent::Text(x) => ToolResultContent::Text(x.clone()),
            ToolResultContent::Image(x) => ToolResultContent::Image(x.clone()),
            ToolResultContent::Json(x) => ToolResultContent::Json(x.clone()),
        }
    }
}

impl DeepEq for ToolResultContent {
    fn deep_eq(&self, other: &ToolResultContent) -> (r: bool) {
        match (self, other) {
            (ToolResultContent::Text(x), ToolResultContent::Text(a)) => x.deep_eq(a),
            (ToolResultContent::Image(x), ToolResultContent::Image(a)) => x.deep_eq(a),
            (ToolResultContent::Json(x), ToolResultContent::Json(a)) => x.deep_eq(a),
            _ => false,
        }
    }
}

/// What a tool call gave back.
#[derive(Debug, PartialEq, Eq)]
pub struct ToolResult {
    /// The id of the answered call.
    pub call: String,
    pub provider: Option<ProviderCallId>,
    /// The name of the tool that ran.
    pub name: String,
    pub content: Vec<ToolResultContent>,
}

/// The value of a [`ToolResult`].
pub struct ToolResultView {
    pub call: Seq<char>,
    pub provider: Option<ProviderCallIdView>,
    pub name: Seq<char>,
    pub content: Seq<ToolResultContentView>,
}

impl DeepView for ToolResult {
    type V = ToolResultView;

    open spec fn deep_view(&self) -> ToolResultView {
        ToolResultView {
            call: self.call.deep_view(),
            provider: self.provider.deep_view(),
            name: self.name.deep_view(),
            content: self.content.deep_view(),
        }
    }
}

impl Clone for ToolResult {
    fn clone(&self) -> (r: ToolResult)
        ensures
            r.deep_view() == self.deep_view(),
    {
        ToolResult {
            call: self.call.clone(),
            provider: self.provider.clone(),
            name: self.name.clone(),
            content: self.content.clone(),
        }
    }
}

impl DeepEq for ToolResult {
    fn deep_eq(&self, other: &ToolResult) -> (r: bool) {
        self.call.deep_eq(&other.call) && self.provider.deep_eq(&other.provider) && self.name.deep_eq(&other.name) && self.content.deep_eq(&other.content)
    }
}

/// One block of a user message.
#[derive(Debug, PartialEq, Eq)]
pub enum UserContent {
    Text(Text),
    ToolResult(ToolResult),
    Image(String),
    Audio(String),
    Video(String),
    Document(String),
}

/// The value of a [`UserContent`].
pub enum UserContentView {
    Text(TextView),
    ToolResult(ToolResultView),
    Image(Seq<char>),
    Audio(Seq<char>),
    Video(Seq<char>),
    Document(Seq<char>),
}

impl DeepView for UserContent {
    type V = UserContentView;

    open spec fn deep_view(&self) -> UserContentView {
        match self {
            UserContent::Text(x) => UserContentView::Text(x.deep_view()),
            UserContent::ToolResult(x) => UserContentView::ToolResult(x.deep_view()),
            UserContent::Image(x) => UserContentView::Image(x.deep_view()),
            UserContent::Audio(x) => UserContentView::Audio(x.deep_view()),
            UserContent::Video(x) => UserContentView::Video(x.deep_view()),
            UserContent::Document(x) => UserContentView::Document(x.deep_view()),
        }
    }
}

impl Clone for UserContent {
    fn clone(&self) -> (r: UserContent)
        ensures
            r.deep_view() == self.deep_view(),
    {
        match self {
            UserContent::Text(x) => UserContent::Text(x.clone()),
            UserContent::ToolResult(x) => UserContent::ToolResult(x.clone()),
            UserContent::Image(x) => UserContent::Image(x.clone()),
            UserContent::Audio(x) => UserContent::Audio(x.clone()),
            UserContent::Video(x) => UserContent::Video(x.clone()),
            UserContent::Document(x) => UserContent::Document(x.clone()),
        }
    }
}

impl DeepEq for UserContent {
    fn deep_eq(&self, other: &UserContent) -> (r: bool) {
        match (self, other) {
            (UserContent::Text(x), UserContent::Text(a)) => x.deep_eq(a),
            (UserContent::ToolResult(x), UserContent::ToolResult(a)) => x.deep_eq(a),
            (UserContent::Image(x), UserContent::Image(a)) => x.deep_eq(a),
            (UserContent::Audio(x), UserContent::Audio(a)) => x.deep_eq(a),
            (UserContent::Video(x), UserContent::Video(a)) => x.deep_eq(a),
            (UserContent::Document(x), UserContent::Document(a)) => x.deep_eq(a),
            _ => false,
        }
    }
}

/// One block of an assistant message.
#[derive(Debug, PartialEq, Eq)]
pub enum AssistantContent {
    Text(Text),
    ToolCall(ToolCall),
    Reasoning(String),
    Image(String),
}

/// The value of a [`AssistantContent`].
pub enum AssistantContentView {
    Text(TextView),
    ToolCall(ToolCallView),
    Reasoning(Seq<char>),
    Image(Seq<char>),
}

impl DeepView for AssistantContent {
    type V = AssistantContentView;

    open spec fn deep_view(&self) -> AssistantContentView {
        match self {
            AssistantContent::Text(x) => AssistantContentView::Text(x.deep_view()),
            AssistantContent::ToolCall(x) => AssistantContentView::ToolCall(x.deep_view()),
            AssistantContent::Reasoning(x) => AssistantContentView::Reasoning(x.deep_view()),
            AssistantContent::Image(x) => AssistantContentView::Image(x.deep_view()),
        }
    }
}

impl Clone for AssistantContent {
    fn clone(&self) -> (r: AssistantContent)
        ensures
            r.deep_view() == self.deep_view(),
    {
        match self {
            AssistantContent::Text(x) => AssistantContent::Text(x.clone()),
            AssistantContent::ToolCall(x) => AssistantContent::ToolCall(x.clone()),
            AssistantContent::Reasoning(x) => AssistantContent::Reasoning(x.clone()),
            AssistantContent::Image(x) => AssistantContent::Image(x.clone()),
        }
    }
}

impl DeepEq for AssistantContent {
    fn deep_eq(&self, other: &AssistantContent) -> (r: bool) {
        match (self, other) {
            (AssistantContent::Text(x), AssistantContent::Text(a)) => x.deep_eq(a),
            (AssistantContent::ToolCall(x), AssistantContent::ToolCall(a)) => x.deep_eq(a),
            (AssistantContent::Reasoning(x), AssistantContent::Reasoning(a)) => x.deep_eq(a),
            (AssistantContent::Image(x), AssistantContent::Image(a)) => x.deep_eq(a),
            _ => false,
        }
    }
}

/// A message of a conversation.
#[allow(inconsistent_fields)]
#[derive(Debug, PartialEq, Eq)]
pub enum Message {
    System { content: String },
    User { content: Vec<UserContent> },
    Assistant { id: Option<String>, content: Vec<AssistantContent> },
}

/// The value of a [`Message`].
#[allow(inconsistent_fields)]
pub enum MessageView {
    System { content: Seq<char> },
    User { content: Seq<UserContentView> },
    Assistant { id: Option<Seq<char>>, content: Seq<AssistantContentView> },
}

impl DeepView for Message {
    type V = MessageView;

    open spec fn deep_view(&self) -> MessageView {
        match self {
            Message::System { content } => MessageView::System { content: content.deep_view() },
            Message::User { content } => MessageView::User { content: content.deep_view() },
            Message::Assistant { id, content } => MessageView::Assistant { id: id.deep_view(), content: content.deep_view() },
        }
    }
}

impl Clone for Message {
    fn clone(&self) -> (r: Message)
        ensures
            r.deep_view() == self.deep_view(),
    {
        match self {
            Message::System { content } => Message::System { content: content.clone() },
            Message::User { content } => Message::User { content: content.clone() },
            Message::Assistant { id, content } => Message::Assistant { id: id.clone(), content: content.clone() },
        }
    }
}

impl DeepEq for Message {
    fn deep_eq(&self, other: &Message) -> (r: bool) {
        match (self, other) {
            (Message::System { content }, Message::System { content: other_content }) => content.deep_eq(other_content),
            (Message::User { content }, Message::User { content: other_content }) => content.deep_eq(other_content),
            (Message::Assistant { id, content }, Message::Assistant { id: other_id, content: other_content }) => id.deep_eq(other_id) && content.deep_eq(other_content),
            _ => false,
        }
    }
}

/// The tool calls among some assistant content, in order.
pub open spec fn calls_in(content: Seq<AssistantContentView>) -> Seq<ToolCallView>
    decreases content.len(),
{
    if content.len() == 0 {
        Seq::empty()
    } else {
        match content.last() {
            AssistantContentView::ToolCall(call) => calls_in(content.drop_last()).push(call),
            _ => calls_in(content.drop_last()),
        }
    }
}

/// The tool results among some user content, in order.
pub open spec fn results_in(content: Seq<UserContentView>) -> Seq<ToolResultView>
    decreases content.len(),
{
    if content.len() == 0 {
        Seq::empty()
    } else {
        match content.last() {
            UserContentView::ToolResult(result) => results_in(content.drop_last()).push(result),
            _ => results_in(content.drop_last()),
        }
    }
}

/// The tool calls that a message makes, in order. Only an assistant calls tools.
pub open spec fn calls_of(message: MessageView) -> Seq<ToolCallView> {
    match message {
        MessageView::Assistant { content, .. } => calls_in(content),
        _ => Seq::empty(),
    }
}

/// The tool results that a message carries, in order. Only a user message carries results.
pub open spec fn results_of(message: MessageView) -> Seq<ToolResultView> {
    match message {
        MessageView::User { content } => results_in(content),
        _ => Seq::empty(),
    }
}

/// The ids of some calls, in order.
pub open spec fn call_ids(calls: Seq<ToolCallView>) -> Seq<Seq<char>> {
    Seq::new(calls.len(), |i: int| calls[i].id)
}

/// The ids of the calls that some results answer, in order.
pub open spec fn answered_ids(results: Seq<ToolResultView>) -> Seq<Seq<char>> {
    Seq::new(results.len(), |i: int| results[i].call)
}

/// Results, each as a block of user content.
pub open spec fn result_blocks(results: Seq<ToolResultView>) -> Seq<UserContentView> {
    Seq::new(results.len(), |i: int| UserContentView::ToolResult(results[i]))
}

/// A batch of results, as content, holds exactly those results.
pub broadcast proof fn lemma_results_of_blocks(results: Seq<ToolResultView>)
    ensures
        results_in(#[trigger] result_blocks(results)) == results,
    decreases results.len(),
{
    if results.len() > 0 {
        lemma_results_of_blocks(results.drop_last());
        assert(result_blocks(results).drop_last() =~= result_blocks(results.drop_last()));
        assert(results.drop_last().push(results.last()) =~= results);
    } else {
        assert(results_in(result_blocks(results)) =~= results);
    }
}

/// Content that follows other content adds its results behind the earlier ones.
pub proof fn lemma_results_in_concat(a: Seq<UserContentView>, b: Seq<UserContentView>)
    ensures
        results_in(a + b) == results_in(a) + results_in(b),
    decreases b.len(),
{
    if b.len() == 0 {
        assert(a + b =~= a);
        assert(results_in(a) + results_in(b) =~= results_in(a));
    } else {
        assert((a + b).drop_last() =~= a + b.drop_last());
        lemma_results_in_concat(a, b.drop_last());
        assert(results_in(a + b) =~= results_in(a) + results_in(b));
    }
}

/// The tool results among some user content, in order.
pub fn results(content: &Vec<UserContent>) -> (r: Vec<&ToolResult>)
    ensures
        r.deep_view() == results_in(content.deep_view()),
{
    let mut found: Vec<&ToolResult> = Vec::new();
    let ghost all = content.deep_view();
    assert(all.take(0) =~= Seq::empty());
    assert(found.deep_view() =~= results_in(all.take(0)));
    let mut i: usize = 0;
    while i < content.len()
        invariant
            i <= content.len(),
            all == content.deep_view(),
            found.deep_view() == results_in(all.take(i as int)),
        decreases content.len() - i,
    {
        let ghost before = found.deep_view();
        assert(all.take(i + 1).drop_last() =~= all.take(i as int));
        assert(all.take(i + 1).last() == content[i as int].deep_view());
        if let UserContent::ToolResult(result) = &content[i] {
            found.push(result);
            assert(found.deep_view() =~= before.push(result.deep_view()));
        }
        i += 1;
    }
    assert(all.take(all.len() as int) =~= all);
    found
}

impl Message {
    /// A user message that holds one run of text.
    pub fn user(text: &str) -> (r: Message)
        ensures
            r.deep_view() == user_text(text@),
    {
        let mut content: Vec<UserContent> = Vec::new();
        content.push(UserContent::Text(Text { text: text.to_owned(), additional_params: None }));
        let r = Message::User { content };
        assert(r.deep_view()->User_content =~= user_text(text@)->User_content);
        r
    }

    /// An assistant message that holds one run of text.
    pub fn assistant(text: &str) -> (r: Message)
        ensures
            r.deep_view() == assistant_text(text@),
    {
        let mut content: Vec<AssistantContent> = Vec::new();
        content.push(AssistantContent::Text(Text { text: text.to_owned(), additional_params: None }));
        let r = Message::Assistant { id: None, content };
        assert(r.deep_view()->Assistant_content =~= assistant_text(text@)->Assistant_content);
        r
    }

    /// A system message.
    pub fn system(text: &str) -> (r: Message)
        ensures
            r.deep_view() == (MessageView::System { content: text@ }),
    {
        Message::System { content: text.to_owned() }
    }
}

/// A user message that holds one run of text.
pub open spec fn user_text(text: Seq<char>) -> MessageView {
    MessageView::User {
        content: seq![UserContentView::Text(TextView { text, additional_params: None })],
    }
}

/// An assistant message that holds one run of text.
pub open spec fn assistant_text(text: Seq<char>) -> MessageView {
    MessageView::Assistant {
        id: None,
        content: seq![AssistantContentView::Text(TextView { text, additional_params: None })],
    }
}

impl ToolResultContent {
    /// A block of literal text.
    pub fn text(text: &str) -> (r: ToolResultContent)
        ensures
            r.deep_view() == text_block(text@),
    {
        ToolResultContent::Text(Text { text: text.to_owned(), additional_params: None })
    }
}

/// A block of literal text.
pub open spec fn text_block(text: Seq<char>) -> ToolResultContentView {
    ToolResultContentView::Text(TextView { text, additional_params: None })
}

} // verus!
