//! Agent loops, driven step by step, and the histories that they run on.
use rigloop::agent_loop::{check_resume, AgentLoop};
use rigloop::api::{
    AgentLoopError, AgentLoopEvent, ApiErrorInfo, ApiErrorKind, Command, EndReason,
    InvalidMessageHistoryError, ToolResultKey, TurnHookAction, TurnOutcomeKind,
    DEFAULT_MAX_TURNS, DEFAULT_UNANSWERED_TOOL_CALL_REPAIR_MESSAGE,
};
use rigloop::checkpoint::{turn_outcome, DurableCheckpointer};
use rigloop::durable::InMemoryDurableAgentStore;
use rigloop::engine::{
    contains_any, elapsed_timeout, end_reason_from_completion_error,
    end_reason_from_streaming_error, is_content_filter_error, is_context_full_error,
    is_length_error, next_timeout,
};
use rigloop::history::{
    ensure_unique_ids, tool_result_ids, validate_message_history, validate_open_history,
    validate_resume_history,
};
use rigloop::loop_rules::{
    FinalResponse, LoopEffect, LoopInput, LoopItem, LoopRequest, PendingTurn, PreparedTurn, Runner,
    StreamFault, TimeoutDeadline, TimeoutKind,
};
use rigloop::message::{
    AssistantContent, Message, ProviderCallId, Text, ToolCall, ToolFunction, ToolResult,
    ToolResultContent, UserContent,
};
use rigloop::partial::{PartialTurn, StreamedAssistantContent, StreamedUserContent};
use rigloop::repair::{
    missing_result_keys, repair_unanswered_tool_calls,
    repair_unanswered_tool_calls_with_persistence, Loaded,
};
use rigloop::session::Usage;

fn call(id: &str) -> ToolCall {
    ToolCall {
        id: id.to_string(),
        provider: Some(ProviderCallId {
            call_id: format!("call-{id}"),
            item_id: None,
        }),
        function: ToolFunction { name: "echo".to_string(), arguments: "{}".to_string() },
        signature: None,
        additional_params: None,
    }
}

fn result(id: &str, text: &str) -> ToolResult {
    ToolResult {
        call: id.to_string(),
        provider: call(id).provider,
        name: "echo".to_string(),
        content: vec![ToolResultContent::text(text)],
    }
}

fn asks(ids: &[&str]) -> Message {
    Message::Assistant {
        id: None,
        content: ids.iter().map(|id| AssistantContent::ToolCall(call(id))).collect(),
    }
}

fn gives(ids: &[&str]) -> Message {
    Message::User {
        content: ids.iter().map(|id| UserContent::ToolResult(result(id, "real"))).collect(),
    }
}

fn words(answer: Result<(), InvalidMessageHistoryError>) -> String {
    answer.unwrap_err().message
}

#[test]
fn every_rule_of_a_loop_history_has_its_words() {
    let hello = Message::user("hello");
    let check = |messages: Vec<Message>| words(validate_message_history(&messages));
    assert_eq!(
        check(vec![hello.clone(), asks(&["a"]), Message::assistant("x")]),
        "assistant message 1 contains tool calls, but message 2 is not the required user tool-result message"
    );
    assert_eq!(
        check(vec![asks(&["a"]), hello.clone()]),
        "assistant message 0 contains tool calls, but user message 1 contains no tool results"
    );
    assert_eq!(
        check(vec![asks(&["a"]), gives(&["a", "a"])]),
        "duplicate tool result id `a` at message 1"
    );
    assert_eq!(
        check(vec![asks(&["a", "b"]), gives(&["b"])]),
        "assistant tool call `a` at message 0 is missing a matching tool result in message 1"
    );
    assert_eq!(
        check(vec![asks(&["a"]), gives(&["a", "c"])]),
        "tool result `c` at message 1 does not match any tool call from message 0"
    );
    assert_eq!(check(vec![asks(&["a", "a"])]), "duplicate tool call id `a` at message 0");
    assert_eq!(
        check(vec![hello.clone(), gives(&["a"])]),
        "tool result `a` at message 1 has no immediately preceding assistant tool call"
    );
    assert_eq!(
        check(vec![hello.clone(), asks(&["a", "b"])]),
        "assistant message 1 contains unanswered tool calls: a, b"
    );
    assert_eq!(validate_message_history(&vec![hello, asks(&["a", "b"]), gives(&["b", "a"])]), Ok(()));
    assert_eq!(validate_message_history(&vec![]), Ok(()));
    let mut long: Vec<Message> = (0..123).map(|_| Message::user("x")).collect();
    long.push(asks(&["z"]));
    assert_eq!(check(long), "assistant message 123 contains unanswered tool calls: z");
}

#[test]
fn resumes_need_a_message_of_the_conversation() {
    assert_eq!(
        words(validate_resume_history(&vec![])),
        "resume requires at least one committed message"
    );
    assert_eq!(
        words(validate_resume_history(&vec![Message::system("x")])),
        "resume requires the last committed message to be user or assistant content"
    );
    assert!(validate_resume_history(&vec![asks(&["a"])]).is_err());
    assert_eq!(validate_resume_history(&vec![Message::assistant("x")]), Ok(()));
    assert!(matches!(check_resume(true, &vec![]), Ok(false)));
    assert!(matches!(check_resume(false, &vec![Message::user("x")]), Ok(true)));
    assert!(matches!(
        check_resume(false, &vec![]),
        Err(AgentLoopError::InvalidMessageHistory(_))
    ));
}

#[test]
fn ids_occur_once() {
    let ids = vec!["a".to_string(), "b".to_string(), "a".to_string()];
    assert_eq!(
        words(ensure_unique_ids(&ids, 7, "tool call")),
        "duplicate tool call id `a` at message 7"
    );
    assert_eq!(ensure_unique_ids(&ids[..2].to_vec(), 7, "tool call"), Ok(()));
    let content = vec![
        UserContent::Text(Text { text: "x".to_string(), additional_params: None }),
        UserContent::ToolResult(result("b", "x")),
    ];
    assert_eq!(tool_result_ids(&content), vec!["b".to_string()]);
}

#[test]
fn sync_repair_preserves_provider_call_id() {
    let repaired = repair_unanswered_tool_calls(vec![asks(&["a"])], "gone");
    assert_eq!(repaired.len(), 2);
    let Message::User { content } = &repaired[1] else { panic!() };
    let UserContent::ToolResult(found) = &content[0] else { panic!() };
    assert_eq!(found.call, "a");
    assert_eq!(found.provider.as_ref().unwrap().call_id, "call-a");
    assert_eq!(found.name, "echo");
    assert_eq!(found.content, vec![ToolResultContent::text("gone")]);
    assert_eq!(validate_message_history(&repaired), Ok(()));
}

#[test]
fn repairs_fill_batches_and_keep_everything_else() {
    let history = vec![
        Message::user("start"),
        asks(&["a", "b"]),
        Message::User {
            content: vec![
                UserContent::ToolResult(result("b", "real")),
                UserContent::Text(Text { text: "note".to_string(), additional_params: None }),
            ],
        },
        asks(&["c"]),
        Message::user("go on"),
        asks(&["d"]),
    ];
    let repaired = repair_unanswered_tool_calls(history.clone(), "gone");
    assert_eq!(repaired.len(), 8);
    assert_eq!(validate_message_history(&repaired), Ok(()));
    let Message::User { content } = &repaired[2] else { panic!() };
    assert_eq!(content.len(), 3);
    assert_eq!(content[0], UserContent::ToolResult(result("b", "real")));
    assert_eq!(content[2], UserContent::ToolResult(result("a", "gone")));
    assert_eq!(repaired[5], Message::user("go on"));
    assert_eq!(repair_unanswered_tool_calls(repaired.clone(), "other"), repaired);
    let valid = vec![asks(&["a"]), gives(&["a"])];
    assert_eq!(repair_unanswered_tool_calls(valid.clone(), "gone"), valid);
}

#[test]
fn a_second_repair_changes_nothing_whatever_is_wrong() {
    let broken = vec![gives(&["z"]), asks(&["a", "a"]), gives(&["b"]), asks(&["c"]), asks(&["d"])];
    let once = repair_unanswered_tool_calls(broken.clone(), "gone");
    assert!(validate_message_history(&once).is_err());
    assert_eq!(repair_unanswered_tool_calls(once.clone(), "other"), once);
    let stored = repair_unanswered_tool_calls_with_persistence(broken, "gone", &vec![]).unwrap();
    let again =
        repair_unanswered_tool_calls_with_persistence(stored.clone(), "other", &vec![]).unwrap();
    assert_eq!(again, stored);
}

#[test]
fn an_open_end_is_repaired_by_one_message() {
    let open = vec![Message::user("start"), asks(&["a", "b"])];
    assert_eq!(validate_open_history(&open), Ok(()));
    assert!(validate_message_history(&open).is_err());
    let repaired = repair_unanswered_tool_calls(open.clone(), "gone");
    assert_eq!(repaired.len(), 3);
    assert_eq!(repaired[..2].to_vec(), open);
    assert!(validate_open_history(&vec![asks(&["a", "b"]), gives(&["a"])]).is_err());
}

#[test]
fn stored_results_are_preferred_in_the_order_of_their_keys() {
    let history = vec![asks(&["a", "b"]), gives(&["b"]), asks(&["c"]), asks(&["d"])];
    let keys = missing_result_keys(&history);
    assert_eq!(
        keys,
        vec![
            ToolResultKey::from_tool_call(&call("a")),
            ToolResultKey::from_tool_call(&call("c")),
            ToolResultKey::new("d".to_string(), Some("call-d".to_string())),
        ]
    );
    let stored = ToolResult { provider: None, ..result("other id", "stored") };
    let loaded = vec![Loaded::Absent, Loaded::Found(stored)];
    let repaired =
        repair_unanswered_tool_calls_with_persistence(history.clone(), "gone", &loaded).unwrap();
    assert_eq!(validate_message_history(&repaired), Ok(()));
    let Message::User { content } = &repaired[1] else { panic!() };
    assert_eq!(content[0], UserContent::ToolResult(result("a", "gone")));
    assert_eq!(content[1], UserContent::ToolResult(result("b", "real")));
    let Message::User { content } = &repaired[3] else { panic!() };
    assert_eq!(content[0], UserContent::ToolResult(result("c", "stored")));
    let Message::User { content } = &repaired[5] else { panic!() };
    assert_eq!(content[0], UserContent::ToolResult(result("d", "gone")));
    let failed = vec![Loaded::Absent, Loaded::Failed("disk".to_string())];
    assert_eq!(
        repair_unanswered_tool_calls_with_persistence(history, "gone", &failed),
        Err(AgentLoopError::ToolResultPersistence("disk".to_string()))
    );
}

#[test]
fn async_repair_does_not_hide_orphan_result() {
    let history = vec![asks(&["a", "b"]), gives(&["a", "stranger"])];
    let repaired =
        repair_unanswered_tool_calls_with_persistence(history, "gone", &vec![]).unwrap();
    let Message::User { content } = &repaired[1] else { panic!() };
    assert_eq!(content.len(), 3);
    assert!(validate_message_history(&repaired).is_err());
    let twice = vec![asks(&["a", "b"]), gives(&["a", "a"])];
    let repaired = repair_unanswered_tool_calls_with_persistence(twice, "gone", &vec![]).unwrap();
    assert!(validate_message_history(&repaired).is_err());
}

fn streamed(id: &str) -> StreamedAssistantContent {
    StreamedAssistantContent::ToolCall {
        internal_call_id: format!("internal-{id}"),
        tool_call: call(id),
        more: false,
    }
}

fn answered(id: &str) -> StreamedUserContent {
    StreamedUserContent {
        internal_call_id: format!("internal-{id}"),
        tool_result: result(id, "real"),
    }
}

fn said(text: &str) -> StreamedAssistantContent {
    StreamedAssistantContent::Text(Text { text: text.to_string(), additional_params: None })
}

#[test]
fn chunks_of_text_are_one_block() {
    let mut turn = PartialTurn::new();
    assert_eq!(turn.assistant_message(), None);
    turn.note_assistant_item(said("hello "));
    turn.note_assistant_item(said("world"));
    assert_eq!(turn.assistant_message(), Some(Message::assistant("hello world")));
    turn.note_assistant_item(StreamedAssistantContent::Reasoning("\"hm\"".to_string()));
    turn.note_assistant_item(said("again"));
    turn.note_assistant_item(StreamedAssistantContent::Other);
    let Some(Message::Assistant { content, .. }) = turn.assistant_message() else { panic!() };
    assert_eq!(content.len(), 3);
}

#[test]
fn partial_turns_keep_whole_roundtrips() {
    let mut turn = PartialTurn::new();
    turn.note_assistant_item(said("calling"));
    turn.note_assistant_item(streamed("a"));
    turn.note_assistant_item(streamed("b"));
    let message = turn.assistant_message().unwrap();
    turn.note_user_item(answered("stranger"));
    turn.note_user_item(answered("b"));
    assert_eq!(turn.assistant_message(), None);
    assert_eq!(turn.append_messages(&Message::user("start")), None);
    turn.note_user_item(answered("a"));
    let messages = turn.append_messages(&Message::user("start")).unwrap();
    assert_eq!(messages, vec![Message::user("start"), message, gives(&["b", "a"])]);
    assert_eq!(validate_message_history(&messages), Ok(()));
    turn.mark_assistant_message_finished(Message::assistant("reported"));
    assert_eq!(turn.assistant_message(), None);
}

#[test]
fn timeouts_go_to_the_loop_on_a_tie() {
    let turn = TimeoutDeadline::new(TimeoutKind::Turn, 100, 20);
    let whole = TimeoutDeadline::new(TimeoutKind::Loop, 0, 120);
    assert_eq!(turn.at, 120);
    assert_eq!(next_timeout(Some(turn), Some(whole)), Some(whole));
    let early = TimeoutDeadline::new(TimeoutKind::Turn, 100, 19);
    assert_eq!(next_timeout(Some(early), Some(whole)), Some(early));
    assert_eq!(next_timeout(Some(early), None), Some(early));
    assert_eq!(next_timeout(None, Some(whole)), Some(whole));
    assert_eq!(next_timeout(None, None), None);
    assert_eq!(elapsed_timeout(Some(early), 118), None);
    assert_eq!(elapsed_timeout(Some(early), 119), Some(early));
    assert_eq!(elapsed_timeout(None, u128::MAX), None);
    assert_eq!(early.end_reason(), EndReason::TurnTimedOut { timeout: 19 });
    assert_eq!(whole.end_reason(), EndReason::LoopTimedOut { timeout: 120 });
    assert_eq!(TimeoutDeadline::new(TimeoutKind::Turn, 1, u128::MAX).at, u128::MAX);
}

#[test]
fn errors_are_classified_by_their_words() {
    assert!(is_content_filter_error("Blocked by POLICY"));
    assert!(!is_content_filter_error("fine"));
    assert!(is_context_full_error("the maximum context was 8k"));
    assert!(!is_context_full_error("context"));
    assert!(is_length_error("hit max_output_tokens"));
    assert!(!is_length_error("max tokens"));
    assert!(contains_any("abc", &["x", "bc"]));
    assert!(!contains_any("abc", &[]));
    let error = |text: &str| ApiErrorInfo { kind: ApiErrorKind::Provider, message: text.to_string() };
    assert_eq!(
        end_reason_from_completion_error(error("Content Filter and context length")),
        EndReason::ContentFilter { error: error("Content Filter and context length") }
    );
    assert_eq!(
        end_reason_from_completion_error(error("Prompt is too long")),
        EndReason::ContextFull { error: error("Prompt is too long") }
    );
    assert_eq!(
        end_reason_from_completion_error(error("finish reason LENGTH")),
        EndReason::Length { error: error("finish reason LENGTH") }
    );
    assert_eq!(
        end_reason_from_completion_error(error("boom")),
        EndReason::ApiError { error: error("boom") }
    );
    let reason = |fault| end_reason_from_streaming_error(&fault);
    assert_eq!(
        reason(StreamFault::MaxTurns { max_turns: 3, history: vec![] }),
        EndReason::MaxTurns { max_turns: 3 }
    );
    assert_eq!(
        reason(StreamFault::UnknownTool { name: "x".to_string(), history: vec![] }),
        EndReason::ToolError { message: "unknown tool call: x".to_string() }
    );
    assert_eq!(
        reason(StreamFault::Cancelled { reason: "why".to_string(), history: vec![] }),
        EndReason::Other { message: "why".to_string() }
    );
    assert_eq!(
        reason(StreamFault::Tool("t".to_string())),
        EndReason::ToolError { message: "t".to_string() }
    );
    assert_eq!(
        reason(StreamFault::Other("o".to_string())),
        EndReason::Other { message: "o".to_string() }
    );
    assert_eq!(
        reason(StreamFault::Completion(error("boom"))),
        EndReason::ApiError { error: error("boom") }
    );
}

#[test]
fn prepared_turns_add_their_prompt_once() {
    let base = vec![Message::user("one"), Message::assistant("two")];
    let turn = PendingTurn::new(vec![Message::user("x"), Message::user("y")]).unwrap();
    let prepared = PreparedTurn::from_pending(turn, base.clone()).unwrap();
    assert_eq!(prepared.request_history.len(), 3);
    assert_eq!(prepared.prompt, Message::user("y"));
    assert_eq!(
        prepared.append_messages(vec![Message::user("y"), Message::assistant("z")]),
        vec![Message::user("x"), Message::user("y"), Message::assistant("z")]
    );
    let resumed = PreparedTurn::from_pending(PendingTurn::Resume, base).unwrap();
    assert_eq!(resumed.prompt, Message::assistant("two"));
    assert_eq!(
        resumed.append_messages(vec![Message::assistant("two"), Message::assistant("z")]),
        vec![Message::assistant("z")]
    );
    assert!(PendingTurn::new(vec![]).is_none());
    assert!(PreparedTurn::from_pending(PendingTurn::Resume, vec![]).is_err());
    let odd = PendingTurn::single(gives(&["a"]));
    assert!(PreparedTurn::from_pending(odd, vec![]).is_err());
}

/// A loop with what it has asked for.
struct Loop {
    runner: Runner,
    now: u128,
    effects: Vec<LoopEffect>,
    request: LoopRequest,
}

impl Loop {
    fn start(mut runner: Runner) -> Loop {
        let (effects, request) = runner.begin(0);
        Loop { runner, now: 0, effects, request }
    }

    fn feed(&mut self, input: LoopInput) -> &LoopRequest {
        assert!(self.runner.expects(&input), "{input:?}");
        let (effects, request) = self.runner.step(input, self.now);
        self.effects.extend(effects);
        self.request = request;
        &self.request
    }

    /// Take no further commands before the turn, and let it stream.
    fn open(&mut self) {
        while self.request == LoopRequest::TryCommand {
            self.feed(LoopInput::NoCommand);
        }
        assert!(matches!(self.request, LoopRequest::Open { .. }), "{:?}", self.request);
        self.feed(LoopInput::Opened);
    }

    fn events(&self) -> Vec<&AgentLoopEvent> {
        self.effects
            .iter()
            .filter_map(|effect| match effect {
                LoopEffect::Emit(event) => Some(event),
                _ => None,
            })
            .collect()
    }
}

fn final_response(messages: Vec<Message>, total: u64) -> LoopInput {
    LoopInput::Item(LoopItem::Final(FinalResponse {
        response: "done".to_string(),
        history: Some(messages),
        usage: Usage { total_tokens: total, ..Usage::new() },
    }))
}

#[test]
fn loops_start_with_their_defaults() {
    let config = AgentLoop::new();
    assert_eq!(config.max_turns, DEFAULT_MAX_TURNS);
    assert_eq!(
        config.unanswered_tool_call_repair.as_deref(),
        Some(DEFAULT_UNANSWERED_TOOL_CALL_REPAIR_MESSAGE)
    );
    let runner = AgentLoop::new().with_history(vec![asks(&["a"])]).prompt(Message::user("x"));
    assert_eq!(runner.history.len(), 2);
    let runner = AgentLoop::new()
        .with_incremental_tool_result_persistence()
        .with_history(vec![asks(&["a"])])
        .prompt(Message::user("x"));
    assert_eq!(runner.history.len(), 1);
    assert!(AgentLoop::new().resume().is_err());
    assert!(AgentLoop::new().with_history(vec![asks(&["a"])]).resume().is_ok());
}

#[test]
fn a_prompt_runs_and_the_loop_ends_when_idle() {
    let mut run = Loop::start(AgentLoop::new().prompt(Message::user("hi")));
    run.feed(LoopInput::Command(Command::FinishWhenIdle));
    run.open();
    assert!(run.runner.turn_running);
    run.feed(LoopInput::Item(LoopItem::Assistant(said("hel"))));
    run.feed(LoopInput::Item(LoopItem::Assistant(said("lo"))));
    let messages = vec![Message::user("hi"), Message::assistant("hello")];
    run.feed(final_response(messages.clone(), 3));
    assert!(!run.runner.turn_running);
    run.feed(LoopInput::Ended);
    run.feed(LoopInput::NoCommand);
    let LoopRequest::Finish(result) = &run.request else { panic!("{:?}", run.request) };
    assert_eq!(result.end_reason, EndReason::Idle);
    assert_eq!(result.history, messages);
    assert_eq!(result.last_response.as_deref(), Some("done"));
    let events = run.events();
    assert_eq!(events[0], &AgentLoopEvent::LoopStarted);
    assert_eq!(events[1], &AgentLoopEvent::TurnStarted { prompt: Message::user("hi") });
    assert_eq!(
        events[2],
        &AgentLoopEvent::AssistantMessageFinished {
            message: Message::assistant("hello"),
            messages: messages.clone(),
        }
    );
    assert_eq!(events[3], &AgentLoopEvent::TurnCommitted { messages });
    assert_eq!(events[4], &AgentLoopEvent::LoopEnded { end_reason: EndReason::Idle });
}

#[test]
fn interrupts_keep_roundtrips_and_run_first() {
    let mut run = Loop::start(AgentLoop::new().prompt(Message::user("one")));
    run.open();
    run.feed(LoopInput::Command(Command::FollowUp(Message::user("later"))));
    run.feed(LoopInput::Item(LoopItem::Assistant(streamed("a"))));
    run.feed(LoopInput::Item(LoopItem::User(answered("a"))));
    run.feed(LoopInput::Item(LoopItem::Assistant(said("unfinished"))));
    run.feed(LoopInput::Command(Command::Interrupt(Message::user("now"))));
    assert_eq!(run.runner.history, vec![Message::user("one"), asks(&["a"]), gives(&["a"])]);
    while run.request == LoopRequest::TryCommand {
        run.feed(LoopInput::NoCommand);
    }
    let LoopRequest::Open { prompt, history, .. } = &run.request else { panic!() };
    assert_eq!(prompt, &Message::user("now"));
    assert_eq!(history.len(), 3);
    assert!(run.effects.contains(&LoopEffect::CloseTurn));
}

#[test]
fn steering_messages_run_together_before_resumes_and_follow_ups() {
    let mut run = Loop::start(AgentLoop::new().prompt(Message::user("one")));
    run.open();
    for command in [
        Command::FollowUp(Message::user("follow")),
        Command::Steer(Message::user("s1")),
        Command::Resume,
        Command::Steer(Message::user("s2")),
    ] {
        run.feed(LoopInput::Command(command));
    }
    run.feed(final_response(vec![Message::user("one"), Message::assistant("ok")], 0));
    run.feed(LoopInput::Ended);
    let mut prompts = Vec::new();
    for _ in 0..3 {
        while run.request == LoopRequest::TryCommand {
            run.feed(LoopInput::NoCommand);
        }
        let LoopRequest::Open { prompt, history, .. } = &run.request else { panic!() };
        prompts.push((prompt.clone(), history.len()));
        run.feed(LoopInput::Opened);
        run.feed(LoopInput::Ended);
    }
    assert_eq!(
        prompts,
        vec![
            (Message::user("s2"), 3),
            (Message::assistant("ok"), 1),
            (Message::user("follow"), 2),
        ]
    );
}

#[test]
fn provider_error_keeps_completed_tool_results() {
    let mut run = Loop::start(AgentLoop::new().prompt(Message::user("one")));
    run.open();
    run.feed(LoopInput::Item(LoopItem::Assistant(streamed("a"))));
    run.feed(LoopInput::Item(LoopItem::User(answered("a"))));
    let error = ApiErrorInfo { kind: ApiErrorKind::Http, message: "boom".to_string() };
    run.feed(LoopInput::Failed(StreamFault::Completion(error.clone())));
    let LoopRequest::Finish(result) = &run.request else { panic!() };
    assert_eq!(result.end_reason, EndReason::ApiError { error });
    assert_eq!(result.history, vec![Message::user("one"), asks(&["a"]), gives(&["a"])]);
}

#[test]
fn nothing_is_appended_again_behind_the_final_response() {
    let messages =
        vec![Message::user("one"), asks(&["a"]), gives(&["a"]), Message::assistant("ok")];
    let error = ApiErrorInfo { kind: ApiErrorKind::Http, message: "boom".to_string() };
    for hooked in [false, true] {
        for input in [
            LoopInput::Failed(StreamFault::Completion(error.clone())),
            LoopInput::Command(Command::Abort),
            LoopInput::Command(Command::Interrupt(Message::user("now"))),
            LoopInput::DeadlineElapsed,
            LoopInput::Ended,
        ] {
            let config = AgentLoop::new().turn_timeout(10);
            let config = if hooked { config.with_turn_hook() } else { config };
            let mut run = Loop::start(config.prompt(Message::user("one")));
            run.open();
            run.feed(LoopInput::Item(LoopItem::Assistant(streamed("a"))));
            run.feed(LoopInput::Item(LoopItem::User(answered("a"))));
            run.feed(LoopInput::Item(LoopItem::Assistant(said("ok"))));
            run.feed(final_response(messages.clone(), 1));
            if hooked {
                run.feed(LoopInput::HookAnswered(Ok(TurnHookAction::Continue)));
            }
            assert_eq!(run.runner.history, messages);
            run.feed(input);
            if let LoopRequest::CallTurnHook(context) = &run.request {
                assert!(hooked);
                assert_eq!(context.new_messages, vec![]);
                run.feed(LoopInput::HookAnswered(Ok(TurnHookAction::Continue)));
            }
            assert_eq!(run.runner.history, messages);
        }
    }
}

#[test]
fn recovered_histories_have_to_extend_the_base() {
    let base = vec![Message::user("base"), Message::assistant("yes")];
    let start = || {
        let config = AgentLoop::new().with_history(base.clone());
        let mut run = Loop::start(config.prompt(Message::user("one")));
        run.open();
        run
    };
    let mut good = base.clone();
    good.push(Message::user("one"));
    let mut run = start();
    run.feed(LoopInput::Failed(StreamFault::MaxTurns { max_turns: 2, history: good.clone() }));
    let LoopRequest::Finish(result) = &run.request else { panic!() };
    assert_eq!(result.end_reason, EndReason::MaxTurns { max_turns: 2 });
    assert_eq!(result.history, good);
    let mut run = start();
    let other = vec![Message::user("else")];
    run.feed(LoopInput::Failed(StreamFault::MaxTurns { max_turns: 2, history: other }));
    let LoopRequest::Fail(error) = &run.request else { panic!() };
    assert_eq!(
        error.text(),
        "invalid Rig message history: recovered history does not extend the committed base history"
    );
}

#[test]
fn turn_timeout_includes_assistant_hook() {
    let config = AgentLoop::new().turn_timeout(10).on_assistant_message_finished();
    let mut run = Loop::start(config.prompt(Message::user("one")));
    run.open();
    run.feed(LoopInput::Item(LoopItem::Assistant(said("hello"))));
    run.feed(final_response(vec![Message::user("one"), Message::assistant("hello")], 1));
    assert_eq!(run.request, LoopRequest::AwaitHook { deadline: Some(10) });
    run.now = 10;
    run.feed(LoopInput::DeadlineElapsed);
    let LoopRequest::Finish(result) = &run.request else { panic!() };
    assert_eq!(result.end_reason, EndReason::TurnTimedOut { timeout: 10 });
}

#[test]
fn usage_absence_is_not_zero() {
    for (total, known) in [(0, false), (3, true)] {
        let config = AgentLoop::new().with_turn_hook();
        let mut run = Loop::start(config.prompt(Message::user("one")));
        run.open();
        run.feed(final_response(vec![Message::user("one"), Message::assistant("ok")], total));
        let LoopRequest::CallTurnHook(context) = &run.request else { panic!() };
        assert_eq!(context.usage.is_some(), known);
        assert_eq!(context.outcome_kind, TurnOutcomeKind::Committed);
        assert_eq!(context.new_messages.len(), 2);
        assert_eq!(context.end_reason, None);
    }
}

#[test]
fn turn_hooks_may_replace_the_history_and_stop_the_loop() {
    let start = || {
        let config = AgentLoop::new().with_turn_hook();
        let mut run = Loop::start(config.prompt(Message::user("one")));
        run.feed(LoopInput::Command(Command::FinishWhenIdle));
        run.open();
        run.feed(final_response(vec![Message::user("one"), Message::assistant("ok")], 1));
        run
    };
    let mut run = start();
    run.feed(LoopInput::HookAnswered(Ok(TurnHookAction::ReplaceHistoryAndAbort {
        history: vec![Message::user("short")],
        reason: "enough".to_string(),
    })));
    let LoopRequest::Finish(result) = &run.request else { panic!() };
    assert_eq!(result.end_reason, EndReason::AbortedByHook { reason: "enough".to_string() });
    assert_eq!(result.history, vec![Message::user("short")]);
    let mut run = start();
    run.feed(LoopInput::HookAnswered(Ok(TurnHookAction::ReplaceHistory(vec![asks(&["a"])]))));
    assert!(matches!(run.request, LoopRequest::Fail(AgentLoopError::InvalidMessageHistory(_))));
    let mut run = start();
    run.feed(LoopInput::HookAnswered(Err("broken".to_string())));
    let LoopRequest::Fail(error) = &run.request else { panic!() };
    assert_eq!(error.text(), "turn hook failed: broken");
    let mut run = start();
    run.feed(LoopInput::HookAnswered(Ok(TurnHookAction::Continue)));
    run.feed(LoopInput::Ended);
    run.feed(LoopInput::NoCommand);
    assert!(matches!(run.request, LoopRequest::Finish(_)));
    let mut run = start();
    run.feed(LoopInput::HookAnswered(Ok(TurnHookAction::Abort { reason: "no".to_string() })));
    let LoopRequest::Finish(result) = &run.request else { panic!() };
    assert_eq!(result.history.len(), 2);
}

#[test]
fn message_hooks_run_one_at_a_time() {
    let config = AgentLoop::new().on_assistant_message_finished();
    let mut run = Loop::start(config.prompt(Message::user("one")));
    run.open();
    run.feed(LoopInput::Item(LoopItem::Assistant(streamed("a"))));
    assert_eq!(
        run.request,
        LoopRequest::AwaitTurn { deadline: None, commands: true, hook: true }
    );
    run.feed(LoopInput::Item(LoopItem::User(answered("a"))));
    run.feed(LoopInput::Item(LoopItem::Assistant(streamed("b"))));
    assert_eq!(run.request, LoopRequest::AwaitHook { deadline: None });
    run.feed(LoopInput::HookDone(None));
    let spawned = run.effects.iter().filter(|e| matches!(e, LoopEffect::SpawnHook(_))).count();
    assert_eq!(spawned, 2);
    run.feed(LoopInput::Command(Command::Abort));
    assert_eq!(run.request, LoopRequest::AwaitHook { deadline: None });
    run.feed(LoopInput::HookDone(Some(AgentLoopError::AssistantMessageHook("x".to_string()))));
    let LoopRequest::Fail(error) = &run.request else { panic!() };
    assert_eq!(error.text(), "assistant message hook failed: x");
}

/// Make a checkpoint of a history durable.
fn keep(point: &mut DurableCheckpointer, store: &mut InMemoryDurableAgentStore, told: &LoopEffect) {
    let LoopEffect::SpawnHook(context) = told else { return };
    let plan = point.checkpoint_history(&context.history, None, &vec![]).unwrap();
    store.persist_messages_and_ack(plan.args.unwrap());
    point.confirm(plan.persisted_history);
}

fn grouped(id: &str) -> StreamedAssistantContent {
    StreamedAssistantContent::ToolCall {
        internal_call_id: format!("internal-{id}"),
        tool_call: call(id),
        more: true,
    }
}

#[test]
fn two_tool_calls_durable_are_not_duplicated() {
    let config = AgentLoop::new().on_assistant_message_finished().with_turn_hook();
    let mut run = Loop::start(config.prompt(Message::user("start")));
    let mut point = DurableCheckpointer::new(vec![], Some("gone".to_string())).unwrap();
    let mut store = InMemoryDurableAgentStore::new();
    run.open();
    run.feed(LoopInput::Item(LoopItem::Assistant(grouped("a"))));
    assert!(!run.effects.iter().any(|effect| matches!(effect, LoopEffect::SpawnHook(_))));
    run.feed(LoopInput::Item(LoopItem::Assistant(streamed("b"))));
    keep(&mut point, &mut store, run.effects.last().unwrap());
    let asked = vec![Message::user("start"), asks(&["a", "b"])];
    assert_eq!(store.load_history(), asked);
    run.feed(LoopInput::HookDone(None));
    run.feed(LoopInput::Item(LoopItem::User(answered("a"))));
    run.feed(LoopInput::Item(LoopItem::User(answered("b"))));
    run.feed(LoopInput::Item(LoopItem::Assistant(said("done"))));
    let messages =
        vec![asked[0].clone(), asked[1].clone(), gives(&["a", "b"]), Message::assistant("done")];
    run.feed(final_response(messages.clone(), 3));
    keep(&mut point, &mut store, run.effects.last().unwrap());
    run.feed(LoopInput::HookDone(None));
    let LoopRequest::CallTurnHook(turn) = &run.request else { panic!("{:?}", run.request) };
    let plan = point.checkpoint_history(&turn.history, Some(turn_outcome(turn)), &vec![]).unwrap();
    assert_eq!(plan.replacement_history, None);
    store.persist_messages_and_ack(plan.args.unwrap());
    assert_eq!(store.load_history(), messages);
}

#[test]
fn stopped_turns_leave_valid_histories() {
    let mut run = Loop::start(AgentLoop::new().prompt(Message::user("one")));
    run.open();
    run.feed(LoopInput::Item(LoopItem::Assistant(grouped("a"))));
    run.feed(LoopInput::Item(LoopItem::Assistant(streamed("b"))));
    run.feed(LoopInput::Item(LoopItem::User(answered("b"))));
    run.feed(LoopInput::Item(LoopItem::User(answered("a"))));
    run.feed(LoopInput::Item(LoopItem::Assistant(grouped("c"))));
    run.feed(LoopInput::Item(LoopItem::Assistant(streamed("d"))));
    run.feed(LoopInput::Item(LoopItem::User(answered("c"))));
    run.feed(LoopInput::Command(Command::Abort));
    let LoopRequest::Finish(result) = &run.request else { panic!("{:?}", run.request) };
    let kept = vec![Message::user("one"), asks(&["a", "b"]), gives(&["b", "a"])];
    assert_eq!(result.history, kept);
    assert!(validate_message_history(&result.history).is_ok());
}

#[test]
fn results_are_saved_before_they_are_noted() {
    let config = AgentLoop::new().with_incremental_tool_result_persistence();
    let mut run = Loop::start(config.prompt(Message::user("one")));
    assert_eq!(run.request, LoopRequest::Load(vec![]));
    run.feed(LoopInput::Loaded(vec![]));
    run.open();
    run.feed(LoopInput::Item(LoopItem::Assistant(streamed("a"))));
    run.feed(LoopInput::Item(LoopItem::User(answered("a"))));
    let LoopRequest::Persist { key, result: saved } = &run.request else { panic!() };
    assert_eq!(key, &ToolResultKey::from_tool_result(&result("a", "real")));
    assert_eq!(saved, &result("a", "real"));
    run.feed(LoopInput::Persisted(Some("disk".to_string())));
    let LoopRequest::Fail(error) = &run.request else { panic!() };
    assert_eq!(error.text(), "tool result persistence failed: disk");
    assert!(run.events().iter().any(|e| matches!(e, AgentLoopEvent::LoopFailed { .. })));
}

#[test]
fn startup_repair_uses_saved_results() {
    let config = AgentLoop::new()
        .with_incremental_tool_result_persistence()
        .with_unanswered_tool_call_repair_message("gone".to_string())
        .with_history(vec![asks(&["a"])]);
    let mut run = Loop::start(config.resume().unwrap());
    run.feed(LoopInput::Loaded(vec![Loaded::Found(result("a", "saved"))]));
    while run.request == LoopRequest::TryCommand {
        run.feed(LoopInput::NoCommand);
    }
    let LoopRequest::Open { prompt, .. } = &run.request else { panic!() };
    assert_eq!(
        prompt,
        &Message::User { content: vec![UserContent::ToolResult(result("a", "saved"))] }
    );
}

#[test]
fn loops_time_out_while_idle_and_end_when_nobody_commands() {
    let mut run = Loop::start(AgentLoop::new().loop_timeout(50).prompt(Message::user("one")));
    run.open();
    run.feed(final_response(vec![Message::user("one"), Message::assistant("ok")], 1));
    run.feed(LoopInput::Ended);
    run.feed(LoopInput::NoCommand);
    assert_eq!(run.request, LoopRequest::AwaitCommand { deadline: Some(50) });
    run.now = 50;
    run.feed(LoopInput::DeadlineElapsed);
    let LoopRequest::Finish(result) = &run.request else { panic!() };
    assert_eq!(result.end_reason, EndReason::LoopTimedOut { timeout: 50 });

    let mut run = Loop::start(AgentLoop::new().prompt(Message::user("one")));
    run.open();
    run.feed(LoopInput::Closed);
    run.feed(final_response(vec![Message::user("one"), Message::assistant("ok")], 1));
    run.feed(LoopInput::Ended);
    run.feed(LoopInput::NoCommand);
    run.feed(LoopInput::Closed);
    let LoopRequest::Finish(result) = &run.request else { panic!() };
    assert_eq!(result.end_reason, EndReason::Idle);
}

#[test]
fn aborts_end_the_loop_between_and_during_turns() {
    let mut run = Loop::start(AgentLoop::new().prompt(Message::user("one")));
    run.feed(LoopInput::Command(Command::Abort));
    let LoopRequest::Finish(result) = &run.request else { panic!() };
    assert_eq!(result.end_reason, EndReason::Aborted);
    let mut run = Loop::start(AgentLoop::new().prompt(Message::user("one")));
    run.open();
    run.feed(LoopInput::Command(Command::Abort));
    let LoopRequest::Finish(result) = &run.request else { panic!() };
    assert_eq!(result.end_reason, EndReason::Aborted);
    assert!(result.history.is_empty());
}

#[test]
fn loop_errors_have_words() {
    assert_eq!(
        AgentLoopError::CommandChannelClosed.text(),
        "agent loop command channel is closed"
    );
    assert_eq!(AgentLoopError::Rig("r".to_string()).text(), "r");
    assert_eq!(AgentLoopError::TaskJoin("j".to_string()).text(), "j");
    let error = InvalidMessageHistoryError::new("bad".to_string());
    assert_eq!(error.text(), "invalid Rig message history: bad");
}
