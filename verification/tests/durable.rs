//! Durable agents: tags, the store in memory, checkpoints and the manager; and a conversation in
//! words.
use rigloop::api::{
    AgentLoopError, Command, EndReason, ToolResultKey, TurnHookAction, TurnHookContext,
    TurnOutcomeKind,
};
use rigloop::checkpoint::{
    common_prefix_len, turn_outcome, DurableCheckpointAction, DurableCheckpointer,
};
use rigloop::durable::{
    inbox_id_from_message, inbox_ids_from_messages, tag_message_with_inbox_id, DurableAgentError,
    DurableInboxEntry, DurableInboxKind, DurableInboxStatus, DurableTurnOutcome,
    InMemoryDurableAgentStore, PersistMessagesArgs, INBOX_ENTRY_ID_PARAM,
};
use rigloop::manager::{
    default_inbox_id, submit_signal, DurableManager, HarnessState, ManagerCommand, ManagerEffect,
    ManagerInput, ManagerRequest, QueuedSignal,
};
use rigloop::message::{
    AssistantContent, Message, Text, ToolCall, ToolFunction, ToolResult, ToolResultContent,
    UserContent,
};
use rigloop::printing::{
    describe_message, echo, first_text, print_history, print_user_prompt, record_usage,
    render_assistant_item, render_tool_result_content, render_user_item, AssistantItem, SteerQueue,
    SteerRun, StreamStep, STEER_PROMPT,
};
use rigloop::repair::Loaded;

fn tagged_user(text: &str, params: Option<&str>) -> Message {
    Message::User {
        content: vec![UserContent::Text(Text {
            text: text.to_string(),
            additional_params: params.map(str::to_string),
        })],
    }
}

fn call(id: &str) -> ToolCall {
    ToolCall {
        id: id.to_string(),
        provider: None,
        function: ToolFunction { name: "echo".to_string(), arguments: "{\"text\":1}".to_string() },
        signature: None,
        additional_params: None,
    }
}

fn result(id: &str, text: &str) -> ToolResult {
    ToolResult {
        call: id.to_string(),
        provider: None,
        name: "echo".to_string(),
        content: vec![ToolResultContent::text(text)],
    }
}

fn asks(ids: &[&str]) -> Message {
    Message::Assistant {
        id: None,
        content: ids.iter().map(|id| AssistantContent::ToolCall(call(id))).collect(),
    }
}

fn gives(id: &str, text: &str) -> Message {
    Message::User { content: vec![UserContent::ToolResult(result(id, text))] }
}

#[test]
fn tags_are_read_back_and_keep_other_parameters() {
    let tagged = tag_message_with_inbox_id(Message::user("hi"), "in\"box-1").unwrap();
    assert_eq!(inbox_id_from_message(&tagged).as_deref(), Some("in\"box-1"));
    assert_eq!(first_text(&tagged).as_deref(), Some("hi"));
    let params = "{\"cache\": {\"ttl\":5}, \"note\": \"keep\"}";
    let tagged = tag_message_with_inbox_id(tagged_user("hi", Some(params)), "x").unwrap();
    let Message::User { content } = &tagged else { panic!() };
    let UserContent::Text(text) = &content[0] else { panic!() };
    assert_eq!(
        text.additional_params.as_deref(),
        Some("{\"cache\":{\"ttl\":5},\"note\":\"keep\",\"rigloop_inbox_entry_id\":\"x\"}")
    );
    let again = tag_message_with_inbox_id(tagged, "y").unwrap();
    assert_eq!(inbox_id_from_message(&again).as_deref(), Some("y"));
    assert_eq!(INBOX_ENTRY_ID_PARAM, "rigloop_inbox_entry_id");
}

#[test]
fn deeply_nested_parameters_can_be_tagged() {
    let deep = format!("{}1{}", "[".repeat(200), "]".repeat(200));
    let params = format!("{{\"keep\":\"me\",\"deep\":{deep}}}");
    let tagged = tag_message_with_inbox_id(tagged_user("hi", Some(&params)), "id-1").unwrap();
    assert_eq!(inbox_id_from_message(&tagged).as_deref(), Some("id-1"));
    let Message::User { content } = &tagged else { panic!() };
    let UserContent::Text(text) = &content[0] else { panic!() };
    let kept = text.additional_params.as_deref().unwrap();
    assert!(kept.contains("\"keep\":\"me\"") && kept.contains(&deep));
}

#[test]
fn a_later_result_under_a_key_takes_the_place_of_the_earlier_one() {
    let mut store = InMemoryDurableAgentStore::new();
    let key = ToolResultKey::new("a".to_string(), None);
    assert_eq!(store.insert_tool_result(key.clone(), result("a", "one")), None);
    store.persist_tool_result(key.clone(), result("a", "two"));
    store.persist_messages_and_ack(PersistMessagesArgs {
        messages: vec![asks(&["a"]), gives("a", "three")],
        ack_inbox_entry_ids: vec![],
        turn_outcome: None,
    });
    assert_eq!(store.snapshot().tool_results.len(), 1);
    assert_eq!(store.load_tool_result(&key), Some(result("a", "three")));
}

#[test]
fn only_user_messages_with_text_can_be_tagged() {
    let words = |message| tag_message_with_inbox_id(message, "x").unwrap_err().text();
    assert_eq!(
        words(Message::assistant("x")),
        "invalid signal message: durable signals must be user messages"
    );
    assert_eq!(
        words(gives("a", "x")),
        "invalid signal message: durable signal user messages must contain text content"
    );
    for params in ["[1]", "not json", "\"text\""] {
        assert_eq!(
            words(tagged_user("hi", Some(params))),
            "invalid signal message: text additional_params must be a JSON object to carry an inbox id"
        );
    }
}

#[test]
fn ids_are_found_in_order_and_only_where_they_are_texts() {
    let one = tagged_user("a", Some("{\"rigloop_inbox_entry_id\":\"1\"}"));
    let two = Message::User {
        content: vec![
            UserContent::Text(Text { text: "x".to_string(), additional_params: None }),
            UserContent::Text(Text {
                text: "y".to_string(),
                additional_params: Some("{\"rigloop_inbox_entry_id\":\"2\"}".to_string()),
            }),
        ],
    };
    let none = tagged_user("a", Some("{\"rigloop_inbox_entry_id\":3}"));
    assert_eq!(inbox_id_from_message(&none), None);
    assert_eq!(inbox_id_from_message(&Message::assistant("x")), None);
    assert_eq!(inbox_id_from_message(&tagged_user("a", Some("[]"))), None);
    let messages = vec![one, none, Message::system("s"), two];
    assert_eq!(inbox_ids_from_messages(&messages), vec!["1".to_string(), "2".to_string()]);
}

fn entry(id: &str) -> DurableInboxEntry {
    DurableInboxEntry {
        id: id.to_string(),
        kind: DurableInboxKind::FollowUp,
        message: Message::user(id),
        status: DurableInboxStatus::Submitted,
        submitted_at: 1,
    }
}

#[test]
fn transactions_append_and_acknowledge_at_once() {
    let mut store = InMemoryDurableAgentStore::new();
    store.submit_inbox_entry(entry("a"));
    store.submit_inbox_entry(entry("b"));
    let outcome = DurableTurnOutcome {
        kind: TurnOutcomeKind::Committed,
        end_reason: Some(EndReason::Idle),
        usage: None,
    };
    store.persist_messages_and_ack(PersistMessagesArgs {
        messages: vec![Message::user("a"), asks(&["t"]), gives("t", "r")],
        ack_inbox_entry_ids: vec!["a".to_string(), "nobody".to_string(), "a".to_string()],
        turn_outcome: Some(outcome.clone()),
    });
    let shown = store.snapshot();
    assert_eq!(shown.pending_inbox_entries, vec![entry("b")]);
    assert_eq!(shown.acked_inbox_entries.len(), 1);
    assert_eq!(shown.acked_inbox_entries[0].status, DurableInboxStatus::Acked);
    assert_eq!(shown.acked_inbox_ids.len(), 3);
    assert_eq!(shown.turn_outcomes, vec![outcome]);
    assert_eq!(shown.transactions.len(), 1);
    assert_eq!(store.load_history().len(), 3);
    let key = ToolResultKey::from_tool_result(&result("t", "r"));
    assert_eq!(store.load_tool_result(&key), Some(result("t", "r")));
    store.replace_history(vec![Message::system("summary")]);
    assert_eq!(store.load_history(), vec![Message::system("summary")]);
}

#[test]
fn results_are_kept_under_their_keys() {
    let mut store = InMemoryDurableAgentStore::new();
    let key = |id: &str| ToolResultKey::new(id.to_string(), None);
    assert_eq!(store.insert_tool_result(key("a"), result("a", "1")), None);
    assert_eq!(store.insert_tool_result(key("b"), result("b", "2")), None);
    assert_eq!(store.insert_tool_result(key("a"), result("a", "3")), Some(result("a", "1")));
    store.persist_tool_result(key("c"), result("c", "4"));
    assert_eq!(store.load_tool_result(&key("a")), Some(result("a", "3")));
    assert_eq!(store.load_tool_result(&key("b")), Some(result("b", "2")));
    assert_eq!(
        store.load_tool_result(&ToolResultKey::new("a".to_string(), Some("x".to_string()))),
        None
    );
    assert_eq!(store.snapshot().tool_results.len(), 3);
}

#[test]
fn checkpoints_append_to_what_is_durable() {
    let mut point = DurableCheckpointer::new(vec![Message::user("a")], Some("gone".to_string())).unwrap();
    let signal = tag_message_with_inbox_id(Message::user("b"), "id-b").unwrap();
    let history = vec![Message::user("a"), signal.clone()];
    assert!(point.needed_keys(&history).is_empty());
    let plan = point.checkpoint_history(&history, None, &vec![]).unwrap();
    let args = plan.args.unwrap();
    assert_eq!(args.messages, vec![signal]);
    assert_eq!(args.ack_inbox_entry_ids, vec!["id-b".to_string()]);
    assert_eq!(plan.replacement_history, None);
    assert_eq!(plan.persisted_history, history);
    point.confirm(plan.persisted_history);
    let plan = point.checkpoint_history(&history, None, &vec![]).unwrap();
    assert!(plan.args.is_none());
}

#[test]
fn checkpoints_repair_what_is_durable_where_the_history_went_another_way() {
    let durable = vec![Message::user("a"), asks(&["t"])];
    let point = DurableCheckpointer::new(durable.clone(), Some("gone".to_string())).unwrap();
    let history = vec![Message::user("a"), Message::user("b")];
    let keys = point.needed_keys(&history);
    assert_eq!(keys, vec![ToolResultKey::new("t".to_string(), None)]);
    let plan = point
        .checkpoint_history(&history, None, &vec![Loaded::Found(result("t", "saved"))])
        .unwrap();
    let expected = vec![
        Message::user("a"),
        asks(&["t"]),
        gives("t", "saved"),
        Message::user("b"),
    ];
    assert_eq!(plan.replacement_history.as_ref(), Some(&expected));
    assert_eq!(plan.args.unwrap().messages, expected[2..].to_vec());
    let failed = point.checkpoint_history(&history, None, &vec![Loaded::Failed("disk".to_string())]);
    assert_eq!(
        failed.unwrap_err(),
        DurableAgentError::AgentLoop(AgentLoopError::ToolResultPersistence("disk".to_string()))
    );
    let unmended = DurableCheckpointer::new(durable, None).unwrap();
    assert!(unmended.needed_keys(&history).is_empty());
    assert!(matches!(
        unmended.checkpoint_history(&history, None, &vec![]),
        Err(DurableAgentError::AgentLoop(AgentLoopError::InvalidMessageHistory(_)))
    ));
    assert_eq!(common_prefix_len(&vec![Message::user("a")], &history), 1);
    assert_eq!(common_prefix_len(&vec![Message::user("x")], &history), 0);
}

#[test]
fn restarting_partial_tool_batch_is_append_safe() {
    let durable = vec![asks(&["a", "b"]), gives("a", "real")];
    let refused = DurableCheckpointer::new(durable.clone(), Some("gone".to_string())).unwrap_err();
    assert_eq!(
        refused.text(),
        "invalid Rig message history: assistant tool call `b` at message 0 is missing a matching tool result in message 1"
    );
    assert!(DurableCheckpointer::new(durable, None).is_err());
    // Calls in the middle without results, and results without calls, cannot be appended to.
    let skipped = vec![asks(&["a"]), Message::user("x")];
    assert!(DurableCheckpointer::new(skipped, Some("gone".to_string())).is_err());
    assert!(DurableCheckpointer::new(vec![gives("a", "real")], None).is_err());
    // Once the application has completed the batch, the history can be gone on with.
    let whole = vec![
        asks(&["a", "b"]),
        Message::User {
            content: vec![
                UserContent::ToolResult(result("a", "real")),
                UserContent::ToolResult(result("b", "unknown")),
            ],
        },
    ];
    let point = DurableCheckpointer::new(whole.clone(), Some("gone".to_string())).unwrap();
    let mut history = whole;
    history.push(Message::assistant("recovered"));
    let plan = point.checkpoint_history(&history, None, &vec![]).unwrap();
    assert_eq!(plan.args.unwrap().messages, vec![Message::assistant("recovered")]);
    assert_eq!(plan.persisted_history, history);
}

#[test]
fn aborts_at_checkpoints_stop_the_turn() {
    let abort = |reason: &str| DurableCheckpointAction::Abort { reason: reason.to_string() };
    let mut point = DurableCheckpointer::new(vec![], None).unwrap();
    assert!(!point.assistant_finished(DurableCheckpointAction::Continue));
    assert_eq!(
        point.turn_committed(None, DurableCheckpointAction::Continue),
        TurnHookAction::Continue
    );
    assert!(point.assistant_finished(abort("early")));
    assert_eq!(
        point.turn_committed(None, DurableCheckpointAction::Continue),
        TurnHookAction::Abort { reason: "early".to_string() }
    );
    assert_eq!(
        point.turn_committed(Some(vec![]), DurableCheckpointAction::Continue),
        TurnHookAction::ReplaceHistory(vec![])
    );
    assert_eq!(
        point.turn_committed(Some(vec![]), abort("now")),
        TurnHookAction::ReplaceHistoryAndAbort { history: vec![], reason: "now".to_string() }
    );
    let context = TurnHookContext {
        history: vec![],
        new_messages: vec![],
        outcome_kind: TurnOutcomeKind::Interrupted,
        end_reason: None,
        usage: None,
    };
    assert_eq!(turn_outcome(&context).kind, TurnOutcomeKind::Interrupted);
}

fn signal(kind: DurableInboxKind, text: &str) -> QueuedSignal {
    QueuedSignal { kind, message: Message::user(text) }
}

fn feed(manager: &mut DurableManager, input: ManagerInput) -> (Vec<ManagerEffect>, ManagerRequest) {
    assert!(manager.expects(&input), "{input:?}");
    manager.step(input)
}

#[test]
fn signal_at_loop_end_starts_next_run() {
    let mut manager = DurableManager::new(vec![]);
    assert_eq!(manager.begin().1, ManagerRequest::AwaitCommand);
    let first = signal(DurableInboxKind::FollowUp, "first");
    let (_, request) = feed(&mut manager, ManagerInput::Command(ManagerCommand::Signal(first)));
    assert_eq!(request, ManagerRequest::RunPrompt(Message::user("first")));
    assert_eq!(feed(&mut manager, ManagerInput::Started).1, ManagerRequest::AwaitLoop);
    let second = signal(DurableInboxKind::Steer, "second");
    let (_, request) = feed(&mut manager, ManagerInput::Command(ManagerCommand::Signal(second)));
    assert_eq!(request, ManagerRequest::Forward(Command::Steer(Message::user("second"))));
    // The loop has ended meanwhile and does not take the signal.
    assert_eq!(feed(&mut manager, ManagerInput::Forwarded(false)).1, ManagerRequest::AwaitLoop);
    let third = signal(DurableInboxKind::FollowUp, "third");
    let (_, request) = feed(&mut manager, ManagerInput::Command(ManagerCommand::Signal(third)));
    assert_eq!(request, ManagerRequest::AwaitLoop);
    let history = vec![Message::user("first"), Message::assistant("ok")];
    let (_, request) = feed(&mut manager, ManagerInput::Finished(EndReason::Idle, history.clone()));
    assert_eq!(request, ManagerRequest::RunPrompt(Message::user("second")));
    assert_eq!(manager.initial_history, history);
    let (_, request) = feed(&mut manager, ManagerInput::Started);
    assert_eq!(request, ManagerRequest::Forward(Command::FollowUp(Message::user("third"))));
    assert_eq!(feed(&mut manager, ManagerInput::Forwarded(true)).1, ManagerRequest::AwaitLoop);
}

#[test]
fn waits_are_answered_when_nothing_is_left_to_do() {
    let mut manager = DurableManager::new(vec![]);
    manager.begin();
    let (effects, _) = feed(&mut manager, ManagerInput::Command(ManagerCommand::Wait(1)));
    assert_eq!(effects, vec![ManagerEffect::Reply { waiter: 1, result: Ok(EndReason::NoRun) }]);
    let one = signal(DurableInboxKind::Interrupt, "one");
    feed(&mut manager, ManagerInput::Command(ManagerCommand::Signal(one)));
    feed(&mut manager, ManagerInput::Started);
    let (effects, _) = feed(&mut manager, ManagerInput::Command(ManagerCommand::Wait(2)));
    assert!(effects.is_empty());
    let (effects, request) =
        feed(&mut manager, ManagerInput::Finished(EndReason::Idle, vec![Message::assistant("x")]));
    assert_eq!(request, ManagerRequest::AwaitCommand);
    assert_eq!(effects, vec![ManagerEffect::Reply { waiter: 2, result: Ok(EndReason::Idle) }]);
    feed(&mut manager, ManagerInput::Command(ManagerCommand::Abort));
    let (effects, _) = feed(&mut manager, ManagerInput::Command(ManagerCommand::Wait(3)));
    assert_eq!(effects, vec![ManagerEffect::Reply { waiter: 3, result: Ok(EndReason::Aborted) }]);
    assert_eq!(feed(&mut manager, ManagerInput::Closed).1, ManagerRequest::Return);
}

#[test]
fn failures_are_told_to_everyone_and_end_the_runs() {
    let mut manager = DurableManager::new(vec![Message::user("resume me")]);
    assert_eq!(manager.begin().1, ManagerRequest::RunResume);
    feed(&mut manager, ManagerInput::Started);
    feed(&mut manager, ManagerInput::Command(ManagerCommand::Wait(1)));
    feed(&mut manager, ManagerInput::Command(ManagerCommand::Wait(2)));
    let error = DurableAgentError::Callback("observer".to_string());
    let (effects, request) = feed(&mut manager, ManagerInput::Failed(error.clone()));
    assert_eq!(request, ManagerRequest::AwaitCommand);
    let words = "durable callback failed: observer".to_string();
    assert_eq!(
        effects,
        vec![
            ManagerEffect::Reply { waiter: 1, result: Err(error) },
            ManagerEffect::Reply {
                waiter: 2,
                result: Err(DurableAgentError::ManagerFailed(words.clone())),
            },
        ]
    );
    let late = signal(DurableInboxKind::Steer, "late");
    let (_, request) = feed(&mut manager, ManagerInput::Command(ManagerCommand::Signal(late)));
    assert_eq!(request, ManagerRequest::AwaitCommand);
    let (effects, _) = feed(&mut manager, ManagerInput::Command(ManagerCommand::Wait(3)));
    let ManagerEffect::Reply { result, .. } = &effects[0];
    let error = result.clone().unwrap_err();
    assert_eq!(error.text(), format!("durable manager failed: {words}"));
}

#[test]
fn aborts_reach_the_running_loop() {
    let mut manager = DurableManager::new(vec![asks(&["a"])]);
    assert_eq!(manager.begin().1, ManagerRequest::RunResume);
    feed(&mut manager, ManagerInput::Started);
    let (_, request) = feed(&mut manager, ManagerInput::Command(ManagerCommand::Abort));
    assert_eq!(request, ManagerRequest::Forward(Command::Abort));
    assert_eq!(feed(&mut manager, ManagerInput::Forwarded(true)).1, ManagerRequest::AwaitLoop);
    let (_, request) =
        feed(&mut manager, ManagerInput::Finished(EndReason::Aborted, vec![Message::user("x")]));
    // The given history is gone on with once.
    assert_eq!(request, ManagerRequest::AwaitCommand);
    let mut silent = DurableManager::new(vec![Message::assistant("done")]);
    assert_eq!(silent.begin().1, ManagerRequest::AwaitCommand);
}

#[test]
fn harnesses_start_once() {
    let mut state = HarnessState::new();
    assert_eq!(state.start(), Ok(true));
    assert_eq!(state.start(), Ok(false));
    state.running = false;
    assert_eq!(state.start(), Err(DurableAgentError::AlreadyStarted));
    let mut taken = HarnessState { running: false, has_config: true, has_commands: false };
    assert_eq!(taken.start(), Err(DurableAgentError::AlreadyStarted));
    assert!(!taken.has_config);
}

#[test]
fn default_inbox_ids_survive_restart() {
    let (one, two) = (default_inbox_id(), default_inbox_id());
    assert_ne!(one, two);
    assert_eq!(one.len(), 36);
}

#[test]
fn submitted_signals_carry_their_id() {
    let (entry, queued) = submit_signal(
        DurableInboxKind::Steer,
        Message::user("left"),
        "id-1".to_string(),
        42,
    )
    .unwrap();
    assert_eq!(entry.id, "id-1");
    assert_eq!(entry.submitted_at, 42);
    assert_eq!(entry.status, DurableInboxStatus::Submitted);
    assert_eq!(inbox_id_from_message(&entry.message).as_deref(), Some("id-1"));
    assert_eq!(queued.message, entry.message);
    assert!(submit_signal(
        DurableInboxKind::Steer,
        Message::system("no"),
        "id-2".to_string(),
        42
    )
    .is_err());
}

#[test]
fn durable_errors_have_words() {
    let text = |error: DurableAgentError| error.text();
    assert_eq!(
        text(DurableAgentError::CommandChannelClosed),
        "durable agent command channel is closed"
    );
    assert_eq!(text(DurableAgentError::AlreadyStarted), "durable agent is already started");
    assert_eq!(text(DurableAgentError::NotStarted), "durable agent has not been started");
    assert_eq!(text(DurableAgentError::Store("s".to_string())), "durable store failed: s");
    assert_eq!(text(DurableAgentError::TaskJoin("j".to_string())), "j");
    assert_eq!(
        text(DurableAgentError::AgentLoop(AgentLoopError::TurnHook("h".to_string()))),
        "turn hook failed: h"
    );
}

#[test]
fn messages_are_described() {
    assert_eq!(describe_message(&Message::system("be \"kind\"")), "system \"be \\\"kind\\\"\"");
    assert_eq!(describe_message(&Message::user("hi\n")), "user \"hi\\n\"");
    let message = Message::Assistant {
        id: None,
        content: vec![
            AssistantContent::Text(Text { text: "so".to_string(), additional_params: None }),
            AssistantContent::ToolCall(call("a")),
            AssistantContent::Reasoning("{\"r\":1}".to_string()),
        ],
    };
    assert_eq!(
        describe_message(&message),
        "assistant \"so\", assistant tool call echo({\"text\":1}), assistant {\"r\":1}"
    );
    assert_eq!(describe_message(&gives("a", "x")), "tool result a [\"x\"]");
    assert_eq!(first_text(&message).as_deref(), Some("so"));
    assert_eq!(first_text(&gives("a", "x")), None);
    assert_eq!(print_user_prompt(&Message::user("hi")).as_deref(), Some("user> hi"));
    assert_eq!(print_user_prompt(&gives("a", "x")), None);
    assert_eq!(
        print_history("all", &vec![Message::user("a"), Message::system("b")]),
        vec!["all: 2 message(s)", "  0: user \"a\"", "  1: system \"b\""]
    );
}

#[test]
fn parts_that_are_no_text_are_shown_in_full() {
    let image = "{\"data\":{\"type\":\"url\",\"value\":\"x\"}}".to_string();
    let shown = "Image(Image { data: Url(\"x\"), media_type: None, detail: None, \
                 additional_params: None })";
    assert_eq!(
        render_tool_result_content(&vec![
            ToolResultContent::Image(image.clone()),
            ToolResultContent::Json("[1,\"a\"]".to_string()),
        ]),
        vec![shown.to_string(), "Json { value: Array [Number(1), String(\"a\")] }".to_string()]
    );
    let one = |block| describe_message(&Message::User { content: vec![block] });
    assert_eq!(one(UserContent::Image(image.clone())), format!("user {shown}"));
    let part = "Url(\"x\"), media_type: None, additional_params: None })";
    assert_eq!(one(UserContent::Audio(image.clone())), format!("user Audio(Audio {{ data: {part}"));
    assert_eq!(one(UserContent::Video(image.clone())), format!("user Video(Video {{ data: {part}"));
    assert_eq!(
        one(UserContent::Document(image.clone())),
        format!("user Document(Document {{ data: {part}")
    );
    let said = |block| describe_message(&Message::Assistant { id: None, content: vec![block] });
    assert_eq!(said(AssistantContent::Image(image)), format!("assistant {shown}"));
    let reasoning = "{\"id\":null,\"content\":[{\"type\":\"summary\",\"content\":\"hm\"}]}";
    assert_eq!(
        said(AssistantContent::Reasoning(reasoning.to_string())),
        "assistant Reasoning(Reasoning { id: None, content: [Summary(\"hm\")] })"
    );
    assert_eq!(one(UserContent::Audio("noise".to_string())), "user noise");
}

#[test]
fn streams_are_shown_line_by_line() {
    let id = "internal_1".to_string();
    let item = |item| render_assistant_item(&item);
    assert_eq!(
        item(AssistantItem::Text("a".to_string())),
        (Some("assistant delta> a".to_string()), false)
    );
    assert_eq!(
        item(AssistantItem::CallName { internal_call_id: id.clone(), name: "echo".to_string() }),
        (Some("tool delta> internal_1 name=echo".to_string()), false)
    );
    assert_eq!(
        item(AssistantItem::CallDelta { internal_call_id: id.clone(), delta: "{\"".to_string() }),
        (Some("tool delta> internal_1 args+=\"{\\\"\"".to_string()), true)
    );
    assert_eq!(
        item(AssistantItem::ToolCall { internal_call_id: id.clone(), tool_call: call("a") }),
        (Some("tool complete> internal_1 echo({\"text\":1})".to_string()), false)
    );
    assert_eq!(item(AssistantItem::Other), (None, false));
    assert_eq!(render_user_item(&id, &result("a", "x")), "tool result> internal_1 x");
    assert_eq!(record_usage(3, 1234567890), "usage> call=3 total_tokens=1234567890");
    assert_eq!(
        render_tool_result_content(&vec![
            ToolResultContent::text("t"),
            ToolResultContent::Json("{}".to_string()),
            ToolResultContent::Image("img".to_string()),
        ]),
        vec!["t", "Json { value: Object {} }", "img"]
    );
    assert_eq!(echo("{\"text\":\"draft\"}"), "echo tool saw: draft");
    assert_eq!(echo("{\"text\":1}"), "echo tool saw: <missing text>");
    assert_eq!(echo("nonsense"), "echo tool saw: <missing text>");
}

#[test]
fn a_run_is_steered_once_and_then_goes_on() {
    let mut run = SteerRun::new(Message::user("start"));
    assert_eq!(run.start(), vec!["\n=== starting stream ===", "user> start"]);
    let delta = || {
        StreamStep::Assistant(AssistantItem::CallDelta {
            internal_call_id: "i".to_string(),
            delta: "x".to_string(),
        })
    };
    assert_eq!(
        run.note(delta()),
        vec![
            "tool delta> i args+=\"x\"".to_string(),
            format!("ui> queued steer: {STEER_PROMPT}"),
        ]
    );
    assert_eq!(run.note(delta()).len(), 1);
    let lines = run.note(StreamStep::ToolResult {
        internal_call_id: "i".to_string(),
        tool_result: result("a", "x"),
    });
    assert_eq!(lines, vec!["tool result> i x"]);
    let lines = run.note(StreamStep::CompletionCall { call_index: 0, total_tokens: 4 });
    assert_eq!(lines, vec!["usage> call=0 total_tokens=4"]);
    let lines = run.note(StreamStep::Final {
        response: "done".to_string(),
        history: Some(vec![Message::user("start"), Message::assistant("done")]),
    });
    assert_eq!(lines, vec!["final> done"]);
    assert!(run.note(StreamStep::Other).is_empty());
    let (lines, more) = run.end();
    assert!(more);
    assert_eq!(lines[0], "history after completed stream: 2 message(s)");
    assert_eq!(run.next_prompt, Message::user(STEER_PROMPT));
    let (lines, more) = run.end();
    assert!(lines.is_empty());
    assert!(!more);
    let mut queue = SteerQueue::new();
    queue.steer(Message::user("a"));
    queue.steer(Message::user("b"));
    assert_eq!(queue.pop(), Some(Message::user("a")));
    assert_eq!(queue.pop(), Some(Message::user("b")));
    assert_eq!(queue.pop(), None);
}
