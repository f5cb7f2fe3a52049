//! Sessions, driven step by step with a scripted model and a store in memory.
use rigloop::identity::{clock_span, LONGEST_NANOS};
use rigloop::journal::{calls, validate_history};
use rigloop::message::{
    AssistantContent, Message, ProviderCallId, Text, ToolCall, ToolFunction, ToolResult,
    ToolResultContent, UserContent,
};
use rigloop::protocol::{
    Actor, Checkpoint, Command, Effect, Failure, FinishReason, Input, Moment, Request,
    StreamFailure, StreamItem,
};
use rigloop::session::{check_submission, lost_reply, EndReason, Error, Session, Usage};
use rigloop::store::{Commit, InboxEntry, InboxStatus, MemoryStore, SignalKind, ToolKey};
use std::collections::VecDeque;

const MS: u128 = 1_000_000;

fn usage(total: u64) -> Usage {
    Usage { total_tokens: total, ..Usage::new() }
}

fn call(id: &str, item: &str) -> ToolCall {
    ToolCall {
        id: id.to_string(),
        provider: Some(ProviderCallId {
            call_id: id.to_string(),
            item_id: Some(item.to_string()),
        }),
        function: ToolFunction { name: "add".to_string(), arguments: "{}".to_string() },
        signature: None,
        additional_params: None,
    }
}

fn tool_turn() -> Reply {
    Reply::Tools(vec![call("call_a", "fc_a"), call("call_b", "fc_b")])
}

fn text_of(message: &Message) -> String {
    match message {
        Message::User { content } => content
            .iter()
            .filter_map(|c| match c {
                UserContent::Text(t) => Some(t.text.as_str()),
                _ => None,
            })
            .collect(),
        Message::Assistant { content, .. } => content
            .iter()
            .filter_map(|c| match c {
                AssistantContent::Text(t) => Some(t.text.as_str()),
                _ => None,
            })
            .collect(),
        Message::System { content } => content.clone(),
    }
}

fn results_of(history: &[Message]) -> Vec<ToolResult> {
    let mut found = Vec::new();
    for message in history {
        if let Message::User { content } = message {
            for block in content {
                if let UserContent::ToolResult(result) = block {
                    found.push(result.clone());
                }
            }
        }
    }
    found
}

fn is_recovery(result: &ToolResult) -> bool {
    format!("{:?}", result.content).contains("Recovery")
}

/// What the scripted model answers to one request.
#[derive(Clone)]
enum Reply {
    Text(&'static str),
    Message(Message, Usage, Option<&'static str>),
    Tools(Vec<ToolCall>),
    Error(&'static str),
    /// A hook that looks at the answer before the session does, and never ends.
    Hang,
    End,
}

/// One thing that a running turn does.
#[derive(Clone)]
enum Event {
    Ask(Checkpoint0),
    Gate,
    Item(Usage, Option<&'static str>),
    Final,
    Fail(Fail0),
    End,
}

#[derive(Clone)]
enum Checkpoint0 {
    Request(usize),
    Tool(String),
    Assistant(Message),
    Result(String, Vec<ToolResultContent>),
}

#[derive(Clone)]
enum Fail0 {
    MaxTurns,
    Provider(&'static str),
    Hook(&'static str),
}

#[derive(Clone, Copy, PartialEq)]
enum Trouble {
    Nothing,
    /// Fail the commit with this number, before or after it is written, or let it hang.
    Commit(usize, bool, bool),
    /// Lose the answer to every saved result, or let it hang.
    Save(bool),
    /// Let every look-up hang.
    Load,
}

struct Driver {
    actor: Actor,
    store: MemoryStore,
    now: u128,
    next_id: u128,
    request: Option<Request>,
    commands: VecDeque<Command>,
    closed: bool,
    tickets: u64,
    submitted: Vec<(u64, Result<InboxStatus, Error>)>,
    resumed: Vec<(u64, Result<(), Error>)>,
    histories: Vec<(u64, Vec<Message>)>,
    waited: Vec<(u64, Result<EndReason, Error>)>,
    commits: Vec<Commit>,
    idle_events: usize,
    turns_closed: usize,
    script: VecDeque<Reply>,
    requests: Vec<Vec<Message>>,
    events: VecDeque<Event>,
    messages: Vec<Message>,
    calls_left: usize,
    streaming: bool,
    result_text: Option<&'static str>,
    gated: Option<&'static str>,
    gate_open: bool,
    stop_at_gate: bool,
    trouble: Trouble,
    commit_calls: usize,
    stopped: Option<Result<EndReason, Error>>,
}

impl Driver {
    fn new(session: Session, store: MemoryStore, script: Vec<Reply>) -> Driver {
        let actor = session.start(0).unwrap();
        Driver::with_actor(actor, store, script)
    }

    fn with_actor(actor: Actor, store: MemoryStore, script: Vec<Reply>) -> Driver {
        let mut driver = Driver {
            actor,
            store,
            now: 0,
            next_id: 1,
            request: None,
            commands: VecDeque::new(),
            closed: false,
            tickets: 0,
            submitted: Vec::new(),
            resumed: Vec::new(),
            histories: Vec::new(),
            waited: Vec::new(),
            commits: Vec::new(),
            idle_events: 0,
            turns_closed: 0,
            script: script.into_iter().collect(),
            requests: Vec::new(),
            events: VecDeque::new(),
            messages: Vec::new(),
            calls_left: 0,
            streaming: false,
            result_text: None,
            gated: None,
            gate_open: false,
            stop_at_gate: false,
            trouble: Trouble::Nothing,
            commit_calls: 0,
            stopped: None,
        };
        let moment = driver.moment();
        let (effects, request) = driver.actor.begin(moment);
        driver.take(effects, request);
        driver
    }

    fn moment(&mut self) -> Moment {
        self.next_id += 2;
        // Ids of one driver stay apart from those of another one on the same store.
        let base = (self.store.snapshot().commits.len() as u128) << 64;
        Moment {
            now: self.now,
            commit_id: base + self.next_id,
            run_id: base + self.next_id + 1,
            wall: 1_700_000_000_000_000_000,
        }
    }

    fn take(&mut self, effects: Vec<Effect>, request: Request) {
        for effect in effects {
            match effect {
                Effect::Committed(commit) => self.commits.push(commit),
                Effect::Idle => self.idle_events += 1,
                Effect::SubmitReply { reply, result } => self.submitted.push((reply, result)),
                Effect::ResumeReply { reply, result } => self.resumed.push((reply, result)),
                Effect::HistoryReply { reply, history } => self.histories.push((reply, history)),
                Effect::WaitReply { reply, result } => self.waited.push((reply, result)),
                Effect::Release => {
                    assert!(matches!(self.events.pop_front(), Some(Event::Ask(_))));
                }
                Effect::CloseTurn => {
                    self.events.clear();
                    self.streaming = false;
                    self.turns_closed += 1;
                }
            }
        }
        self.request = Some(request);
    }

    fn feed(&mut self, input: Input) {
        assert!(self.actor.expects(&input), "{input:?}");
        let moment = self.moment();
        let (effects, request) = self.actor.step(input, moment);
        self.take(effects, request);
    }

    fn open(&mut self, prompt: Message, history: Vec<Message>, max_turns: usize) {
        self.messages = history;
        self.messages.push(prompt);
        self.calls_left = max_turns;
        self.streaming = true;
        self.model_call();
    }

    /// Let the model answer the next request of the running turn.
    fn model_call(&mut self) {
        if self.calls_left == 0 {
            self.end_stream(Event::Fail(Fail0::MaxTurns));
            return;
        }
        self.calls_left -= 1;
        self.events.push_back(Event::Ask(Checkpoint0::Request(self.messages.len())));
        self.requests.push(self.messages.clone());
        match self.script.pop_front().expect("no further model turn is scripted") {
            Reply::Text(text) => {
                self.events.push_back(Event::Ask(Checkpoint0::Assistant(Message::assistant(text))));
                self.events.push_back(Event::Item(usage(7), None));
                self.end_stream(Event::Final);
            }
            Reply::Message(message, spent, finish) => {
                self.events.push_back(Event::Ask(Checkpoint0::Assistant(message)));
                self.events.push_back(Event::Item(spent, finish));
                self.end_stream(Event::Final);
            }
            Reply::Error(text) => self.end_stream(Event::Fail(Fail0::Provider(text))),
            Reply::Hang => self.events.push_back(Event::Gate),
            Reply::End => self.end_stream(Event::End),
            Reply::Tools(tools) => {
                let message = Message::Assistant {
                    id: None,
                    content: tools.iter().cloned().map(AssistantContent::ToolCall).collect(),
                };
                self.events.push_back(Event::Ask(Checkpoint0::Assistant(message.clone())));
                self.events.push_back(Event::Item(usage(5), None));
                self.messages.push(message);
                let mut blocks = Vec::new();
                for tool in &tools {
                    if self.gated == Some(tool.id.as_str()) && self.stop_at_gate {
                        self.end_stream(Event::Fail(Fail0::Hook("blocked B")));
                        return;
                    }
                    self.events.push_back(Event::Ask(Checkpoint0::Tool(tool.id.clone())));
                    if self.gated == Some(tool.id.as_str()) {
                        self.events.push_back(Event::Gate);
                    }
                    let said = match self.result_text {
                        Some(text) => text.to_string(),
                        None => format!("sum for {}", tool.id),
                    };
                    let content = vec![ToolResultContent::text(&said)];
                    self.events
                        .push_back(Event::Ask(Checkpoint0::Result(tool.id.clone(), content.clone())));
                    blocks.push(UserContent::ToolResult(ToolResult {
                        call: tool.id.clone(),
                        provider: tool.provider.clone(),
                        name: "add".to_string(),
                        content,
                    }));
                }
                self.messages.push(Message::User { content: blocks });
            }
        }
    }

    fn end_stream(&mut self, event: Event) {
        self.events.push_back(event);
        self.streaming = false;
    }

    fn ask(checkpoint: Checkpoint0) -> Checkpoint {
        match checkpoint {
            Checkpoint0::Request(n) => Checkpoint::BeforeRequest(n),
            Checkpoint0::Tool(id) => Checkpoint::BeforeTool(id),
            Checkpoint0::Assistant(message) => Checkpoint::Assistant(message),
            Checkpoint0::Result(id, content) => {
                Checkpoint::Result { id, name: "add".to_string(), content }
            }
        }
    }

    fn finish(name: Option<&'static str>) -> Option<FinishReason> {
        name.map(|n| match n {
            "length" => FinishReason::Length,
            "content_filter" => FinishReason::ContentFilter,
            "stop" => FinishReason::Stop,
            other => FinishReason::Other(other.to_string()),
        })
    }

    /// Carry out requests until the session is over or waits for something that does not come.
    fn run(&mut self) {
        loop {
            let Some(request) = self.request.take() else { return };
            match request {
                Request::Load { key, deadline } => {
                    let answer = if self.trouble == Trouble::Load {
                        self.now = deadline;
                        Err(Failure::TimedOut)
                    } else {
                        Ok(self.store.load_tool_result(&key))
                    };
                    self.feed(Input::Loaded(answer));
                }
                Request::Commit { commit, deadline } => {
                    let call = self.commit_calls;
                    self.commit_calls += 1;
                    let answer = match self.trouble {
                        Trouble::Commit(at, write, hang) if at == call => {
                            if write {
                                self.store.commit(commit).unwrap();
                            }
                            if hang {
                                self.now = deadline;
                                Err(Failure::TimedOut)
                            } else {
                                Err(Failure::Refused("lost acknowledgement".to_string()))
                            }
                        }
                        _ => self.store.commit(commit).map_err(|e| Failure::Refused(e.message)),
                    };
                    self.feed(Input::Stored(answer));
                }
                Request::Submit { entry, .. } => {
                    let answer = self.store.submit(entry).map_err(|e| Failure::Refused(e.message));
                    self.feed(Input::Submitted(answer));
                }
                Request::Save { key, result, deadline } => {
                    let saved = self
                        .store
                        .save_tool_result(key, result)
                        .map_err(|e| Failure::Refused(e.message));
                    let answer = match self.trouble {
                        Trouble::Save(true) => {
                            self.now = deadline;
                            Err(Failure::TimedOut)
                        }
                        Trouble::Save(false) => {
                            Err(Failure::Refused("lost receipt acknowledgement".to_string()))
                        }
                        _ => saved,
                    };
                    self.feed(Input::Stored(answer));
                }
                Request::TryCommand => {
                    let input = match self.commands.pop_front() {
                        Some(command) => Input::Command(command),
                        None => Input::NoCommand,
                    };
                    self.feed(input);
                }
                Request::AwaitCommand { deadline } => {
                    if let Some(command) = self.commands.pop_front() {
                        self.feed(Input::Command(command));
                    } else if self.closed {
                        self.feed(Input::Closed);
                    } else if deadline.map_or(false, |d| self.now >= d) {
                        self.feed(Input::DeadlineElapsed);
                    } else {
                        self.request = Some(Request::AwaitCommand { deadline });
                        return;
                    }
                }
                Request::Open { prompt, history, max_turns } => {
                    self.open(prompt, history, max_turns);
                    self.feed(Input::Opened);
                }
                Request::AwaitTurn { deadline } => {
                    if self.events.is_empty() && self.streaming {
                        self.model_call();
                    }
                    if let Some(Event::Ask(checkpoint)) = self.events.front().cloned() {
                        self.feed(Input::Checkpoint(Driver::ask(checkpoint)));
                    } else if deadline.map_or(false, |d| self.now >= d) {
                        self.feed(Input::DeadlineElapsed);
                    } else if let Some(command) = self.commands.pop_front() {
                        self.feed(Input::Command(command));
                    } else if self.closed {
                        self.feed(Input::Closed);
                    } else {
                        match self.events.front().cloned() {
                            Some(Event::Gate) => {
                                if !self.gate_open {
                                    self.request = Some(Request::AwaitTurn { deadline });
                                    return;
                                }
                                self.events.pop_front();
                                self.request = Some(Request::AwaitTurn { deadline });
                            }
                            Some(Event::Item(usage, finish)) => {
                                self.events.pop_front();
                                self.feed(Input::Item(StreamItem::CompletionCall {
                                    usage,
                                    finish_reason: Driver::finish(finish),
                                }));
                            }
                            Some(Event::Final) => {
                                self.events.pop_front();
                                self.feed(Input::Item(StreamItem::FinalResponse));
                            }
                            Some(Event::Fail(fail)) => {
                                self.events.pop_front();
                                self.feed(Input::Failed(match fail {
                                    Fail0::MaxTurns => StreamFailure::MaxTurns,
                                    Fail0::Provider(text) => {
                                        StreamFailure::Completion(text.to_string())
                                    }
                                    Fail0::Hook(text) => StreamFailure::Cancelled(text.to_string()),
                                }));
                            }
                            Some(Event::End) | None => {
                                self.events.pop_front();
                                self.feed(Input::Ended);
                            }
                            Some(Event::Ask(_)) => unreachable!(),
                        }
                    }
                }
                Request::TryCheckpoint => self.feed(Input::NoCheckpoint),
                Request::Stop(result) => {
                    self.stopped = Some(result);
                    return;
                }
            }
        }
    }

    fn submit(&mut self, entry: InboxEntry) -> Result<InboxStatus, Error> {
        check_submission(&entry)?;
        self.tickets += 1;
        let reply = self.tickets;
        self.commands.push_back(Command::Submit { entry, reply });
        self.run();
        match self.submitted.iter().find(|(ticket, _)| *ticket == reply) {
            Some((_, result)) => result.clone(),
            None => Err(lost_reply(self.stopped.clone().unwrap())),
        }
    }

    fn signal(&mut self, kind: SignalKind, text: &str) -> Result<String, Error> {
        let entry = InboxEntry::new(kind, Message::user(text));
        let id = entry.id.clone();
        self.submit(entry)?;
        Ok(id)
    }

    fn follow_up(&mut self, text: &str) -> Result<String, Error> {
        self.signal(SignalKind::FollowUp, text)
    }

    fn resume(&mut self) -> Result<(), Error> {
        self.tickets += 1;
        let reply = self.tickets;
        self.commands.push_back(Command::Resume { reply });
        self.run();
        self.resumed.iter().find(|(ticket, _)| *ticket == reply).unwrap().1.clone()
    }

    fn command(&mut self, command: Command) {
        self.commands.push_back(command);
        self.run();
    }

    /// Wait for nothing to be left to do.
    fn idle(&mut self) -> Result<EndReason, Error> {
        if let Some(result) = &self.stopped {
            return result.clone();
        }
        self.tickets += 1;
        let reply = self.tickets;
        self.commands.push_back(Command::Wait { reply, closed: Vec::new() });
        self.run();
        match self.waited.iter().find(|(ticket, _)| *ticket == reply) {
            Some((_, result)) => result.clone(),
            None => self.stopped.clone().expect("the session hangs"),
        }
    }

    fn history(&self) -> Vec<Message> {
        self.store.snapshot().history
    }
}

#[test]
fn canonical_chunks_metadata_and_no_duplicate_commits() {
    let message = Message::Assistant {
        id: Some("msg-1".to_string()),
        content: vec![AssistantContent::Text(Text {
            text: "hello world".to_string(),
            additional_params: None,
        })],
    };
    let script = vec![Reply::Message(message, usage(7), None)];
    let mut session = Driver::new(Session::new(), MemoryStore::default(), script);
    session.follow_up("start").unwrap();
    assert_eq!(session.idle().unwrap(), EndReason::Idle);
    let snapshot = session.store.snapshot();
    assert_eq!(snapshot.history.len(), 2);
    let Message::Assistant { id, content } = &snapshot.history[1] else { panic!() };
    assert_eq!(id.as_deref(), Some("msg-1"));
    assert_eq!(content.len(), 1);
    assert_eq!(text_of(&snapshot.history[1]), "hello world");
    assert_eq!(snapshot.acked_ids.len(), 1);
    assert!(snapshot.pending().is_empty());
    session.command(Command::History { reply: 99 });
    assert_eq!(session.histories.last().unwrap().1, snapshot.history);
    assert_eq!(session.commits.len(), 3);
}

#[test]
fn grouped_calls_results_and_provider_identity_round_trip() {
    let script = vec![tool_turn(), Reply::Text("done")];
    let mut session = Driver::new(Session::new(), MemoryStore::default(), script);
    session.follow_up("start").unwrap();
    assert_eq!(session.idle().unwrap(), EndReason::Idle);
    let snapshot = session.store.snapshot();
    assert_eq!(snapshot.history.len(), 4);
    assert_eq!(results_of(&snapshot.history).len(), 2);
    assert_eq!(snapshot.tool_results.len(), 2);
    for (call, result) in calls(&snapshot.history[1]).iter().zip(results_of(&snapshot.history)) {
        assert_eq!(call.id, result.call);
        assert_eq!(call.provider, result.provider);
        assert_eq!(result.name, "add");
    }
    assert_eq!(session.requests[1], snapshot.history[..3]);
    validate_history(&snapshot.history).unwrap();
}

#[test]
fn completed_result_survives_sibling_hook_stop() {
    let mut session = Driver::new(Session::new(), MemoryStore::default(), vec![tool_turn()]);
    session.gated = Some("call_b");
    session.stop_at_gate = true;
    session.follow_up("start").unwrap();
    assert_eq!(session.idle().unwrap(), EndReason::HookStopped("blocked B".to_string()));
    let snapshot = session.store.snapshot();
    let found = results_of(&snapshot.history);
    assert_eq!(found.len(), 2);
    assert!(!is_recovery(&found[0]));
    assert!(is_recovery(&found[1]));
    assert_eq!(snapshot.tool_results.len(), 1);
    validate_history(&snapshot.history).unwrap();
}

#[test]
fn interrupt_preserves_first_result_and_runs_interrupt_before_follow_up() {
    let script = vec![tool_turn(), Reply::Text("interrupt"), Reply::Text("follow")];
    let mut session = Driver::new(Session::new(), MemoryStore::default(), script);
    session.gated = Some("call_b");
    session.follow_up("start").unwrap();
    assert_eq!(session.store.snapshot().tool_results.len(), 1);
    session.follow_up("later").unwrap();
    session.signal(SignalKind::Interrupt, "now").unwrap();
    assert_eq!(session.idle().unwrap(), EndReason::Idle);
    let history = session.history();
    validate_history(&history).unwrap();
    assert_eq!(results_of(&history).len(), 2);
    assert_eq!(text_of(&history[3]), "now");
    assert_eq!(text_of(&history[5]), "later");
    assert_eq!(session.requests.len(), 3);
    assert_eq!(session.turns_closed, 3);
}

#[test]
fn accepting_work_after_idle_never_closes_the_session() {
    let script = vec![Reply::Text("answer"); 60];
    let mut session = Driver::new(Session::new(), MemoryStore::default(), script);
    for i in 0..60 {
        session.follow_up(&format!("work {i}")).unwrap();
        assert_eq!(session.idle().unwrap(), EndReason::Idle);
        assert_eq!(session.idle().unwrap(), EndReason::Idle);
    }
    assert_eq!(session.store.snapshot().history.len(), 120);
    assert_eq!(session.store.snapshot().acked_ids.len(), 60);
    assert!(session.stopped.is_none());
}

#[test]
fn provider_failure_keeps_prior_completed_round_trip() {
    let script = vec![tool_turn(), Reply::Error("provider failed")];
    let mut session = Driver::new(Session::new(), MemoryStore::default(), script);
    session.follow_up("start").unwrap();
    assert!(matches!(session.idle().unwrap(), EndReason::ProviderError(_)));
    let snapshot = session.store.snapshot();
    assert_eq!(results_of(&snapshot.history).len(), 2);
    assert!(snapshot.commits.iter().any(|c| {
        c.outcome.as_ref().map_or(false, |o| matches!(o.reason, EndReason::ProviderError(_)))
    }));
    validate_history(&snapshot.history).unwrap();
}

#[test]
fn drop_and_restart_restores_receipt_and_pending_identity() {
    let mut session = Driver::new(Session::new(), MemoryStore::default(), vec![tool_turn()]);
    session.gated = Some("call_b");
    let old_id = session.follow_up("start").unwrap();
    let pending_id = session.follow_up("queued").unwrap();
    let store = session.store;
    let saved = store.snapshot();
    assert_eq!(saved.pending()[0].id, pending_id);
    assert_eq!(saved.history.len(), 2);
    let config = Session::new().pending(saved.pending()).history(saved.history);
    let script = vec![Reply::Text("answer 0"), Reply::Text("answer 1")];
    let mut resumed = Driver::new(config, store, script);
    assert_eq!(resumed.idle().unwrap(), EndReason::Idle);
    let saved = resumed.store.snapshot();
    assert_eq!(saved.acked_ids, vec![old_id, pending_id]);
    let found = results_of(&saved.history);
    assert_eq!(found.len(), 2);
    assert!(!is_recovery(&found[0]));
    assert!(is_recovery(&found[1]));
    validate_history(&saved.history).unwrap();
    let new_id = resumed.follow_up("fresh ID").unwrap();
    assert!(!saved.acked_ids.contains(&new_id));
    assert_eq!(resumed.idle().unwrap(), EndReason::Idle);
}

#[test]
fn incomplete_or_corrupt_stored_result_batch_is_rejected_without_model_io() {
    let assistant = Message::Assistant {
        id: None,
        content: vec![
            AssistantContent::ToolCall(call("a", "a")),
            AssistantContent::ToolCall(call("b", "b")),
        ],
    };
    let partial = Message::User {
        content: vec![UserContent::ToolResult(ToolResult {
            call: "a".to_string(),
            provider: call("a", "a").provider,
            name: "add".to_string(),
            content: vec![ToolResultContent::text("ok")],
        })],
    };
    assert!(Session::new().history(vec![assistant, partial]).start(0).is_err());
}

#[test]
fn submissions_are_idempotent_and_conflicting_ids_fail() {
    let mut session = Driver::new(Session::new(), MemoryStore::default(), vec![Reply::Text("answer 0")]);
    let entry = InboxEntry::new(SignalKind::FollowUp, Message::user("same"));
    session.submit(entry.clone()).unwrap();
    assert_eq!(session.idle().unwrap(), EndReason::Idle);
    assert_eq!(session.submit(entry.clone()).unwrap(), InboxStatus::Acked);
    let mut conflicting = entry;
    conflicting.message = Message::user("different");
    assert!(session.submit(conflicting).is_err());
    assert_eq!(session.requests.len(), 1);
    assert_eq!(session.idle().unwrap(), EndReason::Idle);
}

#[test]
fn turn_deadline_bounds_a_hung_user_hook() {
    let config = Session::new().turn_timeout(20 * MS);
    let mut session = Driver::new(config, MemoryStore::default(), vec![Reply::Hang]);
    session.follow_up("start").unwrap();
    session.now += 20 * MS;
    assert_eq!(session.idle().unwrap(), EndReason::TurnTimedOut);
    assert_eq!(session.history().len(), 1);
}

#[test]
fn turn_deadline_bounds_a_hung_tool() {
    let config = Session::new().turn_timeout(20 * MS);
    let mut session = Driver::new(config, MemoryStore::default(), vec![tool_turn()]);
    session.gated = Some("call_a");
    session.follow_up("start").unwrap();
    session.now += 20 * MS;
    assert_eq!(session.idle().unwrap(), EndReason::TurnTimedOut);
    assert_eq!(session.history().len(), 3);
}

#[test]
fn winding_up_a_turn_ends_within_the_storage_timeout() {
    // The store hangs while a turn that ran out of time is wound up.
    for trouble in [Trouble::Load, Trouble::Commit(2, false, true)] {
        let config = Session::new().turn_timeout(20 * MS).io_timeout(10 * MS);
        let mut session = Driver::new(config, MemoryStore::default(), vec![tool_turn()]);
        session.gated = Some("call_a");
        session.follow_up("start").unwrap();
        session.now = 25 * MS;
        session.trouble = trouble;
        session.idle().unwrap_err();
        assert_eq!(session.now, 35 * MS);
    }
}

#[test]
fn missing_usage_stays_unknown() {
    let script = vec![Reply::Message(Message::assistant("ok"), Usage::new(), None)];
    let mut session = Driver::new(Session::new(), MemoryStore::default(), script);
    session.follow_up("start").unwrap();
    session.idle().unwrap();
    let snapshot = session.store.snapshot();
    let outcome = snapshot.commits.iter().find_map(|c| c.outcome.as_ref()).unwrap();
    assert_eq!(outcome.usage, None);
}

#[test]
fn known_usage_is_summed_over_the_calls_of_a_turn() {
    let script = vec![tool_turn(), Reply::Text("done")];
    let mut session = Driver::new(Session::new(), MemoryStore::default(), script);
    session.follow_up("start").unwrap();
    session.idle().unwrap();
    let snapshot = session.store.snapshot();
    let outcome = snapshot.commits.iter().find_map(|c| c.outcome.as_ref()).unwrap();
    assert_eq!(outcome.usage, Some(usage(12)));
    assert_eq!(outcome.reason, EndReason::Completed);
    assert_eq!(outcome.finished_at, 1_700_000_000_000_000_000);
}

#[test]
fn token_counts_add_up_and_stop_at_the_limit_of_their_type() {
    let one = Usage { input_tokens: 1, reasoning_tokens: u64::MAX, ..Usage::new() };
    let two = Usage { input_tokens: 2, reasoning_tokens: 3, ..Usage::new() };
    let sum = one.plus(two);
    assert_eq!(sum.input_tokens, 3);
    assert_eq!(sum.reasoning_tokens, u64::MAX);
    assert!(sum.has_values());
    assert!(!Usage::new().has_values());
}

#[test]
fn uncertain_commit_is_retryable_before_or_after_write() {
    for mode in [0, 1, 2] {
        let config = Session::new().io_timeout(20 * MS);
        let mut session = Driver::new(config, MemoryStore::default(), vec![Reply::Text("answer 0")]);
        session.trouble = Trouble::Commit(1, mode == 1, mode == 2);
        session.follow_up("start").unwrap();
        let error = session.idle().unwrap_err();
        let Error::CommitUncertain { commit, message } = error else { panic!() };
        if mode == 2 {
            assert_eq!(message, "storage deadline elapsed");
        } else {
            assert_eq!(message, "lost acknowledgement");
        }
        session.store.commit(commit.clone()).unwrap();
        session.store.commit(commit.clone()).unwrap();
        assert_eq!(session.store.snapshot().history.len(), 2);
        assert_eq!(session.store.snapshot().acked_ids.len(), 1);
        let mut conflict = commit;
        conflict.messages = vec![Message::assistant("wrong")];
        assert!(session.store.commit(conflict).is_err());
    }
}

#[test]
fn pause_latches_at_boundary_and_leaves_pending_inbox() {
    let script = vec![tool_turn(), Reply::Text("done")];
    let mut session = Driver::new(Session::new(), MemoryStore::default(), script);
    session.gated = Some("call_b");
    session.follow_up("start").unwrap();
    let next = session.follow_up("pending").unwrap();
    session.command(Command::Pause);
    session.gate_open = true;
    assert_eq!(session.idle().unwrap(), EndReason::Paused);
    assert_eq!(session.store.snapshot().pending()[0].id, next);
    validate_history(&session.history()).unwrap();
}

#[test]
fn an_interrupt_after_a_pause_does_not_end_the_turn() {
    let script = vec![tool_turn(), Reply::Text("done")];
    let mut session = Driver::new(Session::new(), MemoryStore::default(), script);
    session.gated = Some("call_b");
    session.follow_up("start").unwrap();
    session.command(Command::Pause);
    session.signal(SignalKind::Interrupt, "too late").unwrap();
    session.gate_open = true;
    assert_eq!(session.idle().unwrap(), EndReason::Paused);
    let found = results_of(&session.history());
    assert!(!is_recovery(&found[1]));
    assert_eq!(session.store.snapshot().pending().len(), 1);
}

#[test]
fn durable_receipts_use_accepted_rewritten_presentation() {
    let script = vec![tool_turn(), Reply::Text("done")];
    let mut session = Driver::new(Session::new(), MemoryStore::default(), script);
    session.result_text = Some("redacted");
    session.follow_up("start").unwrap();
    assert_eq!(session.idle().unwrap(), EndReason::Idle);
    let snapshot = session.store.snapshot();
    for result in results_of(&snapshot.history) {
        assert_eq!(result.content, vec![ToolResultContent::text("redacted")]);
    }
    assert_eq!(session.requests[1], snapshot.history[..3]);
}

#[test]
fn queue_capacity_rejects_work_before_persistence_and_steers_batch() {
    let script = vec![tool_turn(), Reply::Text("done"), Reply::Text("steered")];
    let config = Session::new().queue_capacity(2);
    let mut session = Driver::new(config, MemoryStore::default(), script);
    session.gated = Some("call_b");
    session.follow_up("start").unwrap();
    let first = InboxEntry::new(SignalKind::Steer, Message::user("first steer"));
    session.submit(first.clone()).unwrap();
    session.submit(first).unwrap();
    session.signal(SignalKind::Steer, "second steer").unwrap();
    assert!(matches!(session.follow_up("overflow"), Err(Error::QueueFull)));
    assert_eq!(session.store.snapshot().inbox.len(), 3);
    session.gate_open = true;
    session.run();
    assert_eq!(session.idle().unwrap(), EndReason::Idle);
    assert_eq!(session.requests.len(), 3);
    let history = session.history();
    assert_eq!(text_of(&history[4]), "first steer");
    assert_eq!(text_of(&history[5]), "second steer");
}

#[test]
fn a_full_session_refuses_signals_between_turns_too() {
    let waiting = InboxEntry::new(SignalKind::FollowUp, Message::user("waiting"));
    let mut store = MemoryStore::default();
    store.submit(waiting.clone()).unwrap();
    let config = Session::new().queue_capacity(1).pending(vec![waiting]);
    let mut session = Driver::new(config, store, vec![Reply::Text("done")]);
    assert!(matches!(session.request, Some(Request::TryCommand)));
    assert!(matches!(session.follow_up("overflow"), Err(Error::QueueFull)));
    assert_eq!(session.idle().unwrap(), EndReason::Idle);
    assert_eq!(session.store.snapshot().inbox.len(), 1);
    assert_eq!(session.history().len(), 2);
}

#[test]
fn abort_preserves_completed_results_and_leaves_unstarted_inbox() {
    let mut session = Driver::new(Session::new(), MemoryStore::default(), vec![tool_turn()]);
    session.gated = Some("call_b");
    session.follow_up("start").unwrap();
    session.follow_up("pending").unwrap();
    session.command(Command::Abort);
    assert_eq!(session.idle().unwrap(), EndReason::Aborted);
    assert_eq!(results_of(&session.history()).len(), 2);
    assert_eq!(session.store.snapshot().pending().len(), 1);
    validate_history(&session.history()).unwrap();
}

#[test]
fn resume_does_not_duplicate_the_last_message_and_invalid_resume_is_local() {
    let mut session = Driver::new(Session::new(), MemoryStore::default(), vec![Reply::Text("answer 0")]);
    assert!(matches!(session.resume(), Err(Error::InvalidHistory(_))));
    session.follow_up("hello").unwrap();
    session.idle().unwrap();
    session.command(Command::Pause);
    assert_eq!(session.stopped, Some(Ok(EndReason::Paused)));
    let store = session.store;
    let history = store.snapshot().history;
    let config = Session::new().history(history.clone());
    let mut resumed = Driver::new(config, store, vec![Reply::Text("answer 0")]);
    resumed.resume().unwrap();
    assert_eq!(resumed.idle().unwrap(), EndReason::Idle);
    assert_eq!(resumed.history().len(), history.len() + 1);
    assert_eq!(resumed.requests[0], history);
}

#[test]
fn resume_during_a_turn_is_a_no_op_and_repeated_resumes_are_one() {
    let script = vec![tool_turn(), Reply::Text("done"), Reply::Text("again")];
    let mut session = Driver::new(Session::new(), MemoryStore::default(), script);
    session.gated = Some("call_b");
    session.follow_up("start").unwrap();
    session.resume().unwrap();
    session.gate_open = true;
    assert_eq!(session.idle().unwrap(), EndReason::Idle);
    assert_eq!(session.requests.len(), 2);
    session.commands.push_back(Command::Resume { reply: 501 });
    session.commands.push_back(Command::Resume { reply: 502 });
    session.run();
    assert_eq!(session.requests.len(), 3);
    assert!(session.resumed.iter().all(|(_, result)| result.is_ok()));
}

#[test]
fn system_only_history_cannot_be_resumed() {
    let config = Session::new().history(vec![Message::system("be kind")]);
    let mut store = MemoryStore::default();
    store
        .commit(Commit {
            id: 1,
            expected_messages: 0,
            messages: vec![Message::system("be kind")],
            ack_inbox_ids: vec![],
            outcome: None,
        })
        .unwrap();
    let mut session = Driver::new(config, store, vec![]);
    assert_eq!(
        session.resume(),
        Err(Error::InvalidHistory("resume requires a user or assistant message".to_string()))
    );
    assert_eq!(session.idle().unwrap(), EndReason::Idle);
}

#[test]
fn loop_deadline_includes_idle_time() {
    let config = Session::new().loop_timeout(10 * MS);
    let mut session = Driver::new(config, MemoryStore::default(), vec![]);
    session.run();
    assert_eq!(session.stopped, None);
    session.now = 10 * MS;
    session.run();
    assert_eq!(session.stopped, Some(Ok(EndReason::LoopTimedOut)));
}

#[test]
fn loop_deadline_ends_a_turn_under_its_own_name() {
    let config = Session::new().loop_timeout(10 * MS).turn_timeout(10 * MS);
    let mut session = Driver::new(config, MemoryStore::default(), vec![tool_turn()]);
    session.gated = Some("call_a");
    session.follow_up("start").unwrap();
    session.now = 10 * MS;
    session.run();
    assert_eq!(session.stopped, Some(Ok(EndReason::LoopTimedOut)));
    validate_history(&session.history()).unwrap();
}

#[test]
fn uncertain_tool_write_restarts_without_losing_the_real_result() {
    for hang in [false, true] {
        let config = Session::new().io_timeout(10 * MS);
        let mut session = Driver::new(config, MemoryStore::default(), vec![tool_turn()]);
        session.trouble = Trouble::Save(hang);
        session.follow_up("start").unwrap();
        let error = session.idle().unwrap_err();
        let Error::ToolWriteUncertain { key, result, .. } = error else { panic!() };
        let mut store = session.store;
        store.save_tool_result(key, result.clone()).unwrap();
        let history = store.snapshot().history;
        let mut resumed = Driver::new(Session::new().history(history), store, vec![]);
        assert_eq!(resumed.idle().unwrap(), EndReason::Idle);
        let found = results_of(&resumed.history());
        assert_eq!(found[0], result);
        assert!(is_recovery(&found[1]));
        validate_history(&resumed.history()).unwrap();
    }
}

#[test]
fn rejected_assistant_checkpoint_prevents_tool_execution() {
    let mut session = Driver::new(Session::new(), MemoryStore::default(), vec![tool_turn()]);
    session.trouble = Trouble::Commit(1, false, false);
    session.follow_up("start").unwrap();
    assert!(matches!(session.idle(), Err(Error::CommitUncertain { .. })));
    assert_eq!(session.store.snapshot().tool_results.len(), 0);
    assert!(matches!(session.events.front(), Some(Event::Ask(Checkpoint0::Assistant(_)))));
}

#[test]
fn unsupported_invalid_tool_repair_fails_before_execution() {
    // The turn asks for a tool that no durable message calls.
    let mut session = Driver::new(Session::new(), MemoryStore::default(), vec![Reply::End]);
    session.commands.push_back(Command::Submit {
        entry: InboxEntry::new(SignalKind::FollowUp, Message::user("start")),
        reply: 1,
    });
    while !matches!(session.request, Some(Request::Open { .. })) {
        step_once(&mut session);
    }
    session.request = None;
    session.feed(Input::Opened);
    session.feed(Input::Checkpoint(Checkpoint::BeforeTool("a".to_string())));
    assert!(matches!(session.request, Some(Request::Stop(Err(Error::InvalidHistory(_))))));
}

/// Carry out one request of the simple kinds.
fn step_once(session: &mut Driver) {
    match session.request.take().unwrap() {
        Request::TryCommand => {
            let input = match session.commands.pop_front() {
                Some(command) => Input::Command(command),
                None => Input::NoCommand,
            };
            session.feed(input);
        }
        Request::Submit { entry, .. } => {
            let status = session.store.submit(entry).unwrap();
            session.feed(Input::Submitted(Ok(status)));
        }
        Request::Commit { commit, .. } => {
            session.store.commit(commit).unwrap();
            session.feed(Input::Stored(Ok(())));
        }
        other => panic!("{other:?}"),
    }
}

#[test]
fn a_request_that_skips_a_checkpoint_is_refused() {
    let start = |expected: usize| {
        let mut session = Driver::new(Session::new(), MemoryStore::default(), vec![]);
        session.commands.push_back(Command::Submit {
            entry: InboxEntry::new(SignalKind::FollowUp, Message::user("start")),
            reply: 1,
        });
        while !matches!(session.request, Some(Request::Open { .. })) {
            step_once(&mut session);
        }
        session.feed(Input::Opened);
        session.events.push_back(Event::Ask(Checkpoint0::Request(expected)));
        session.feed(Input::Checkpoint(Checkpoint::BeforeRequest(expected)));
        session
    };
    assert!(matches!(start(1).request, Some(Request::AwaitTurn { .. })));
    assert!(matches!(start(2).request, Some(Request::Stop(Err(Error::InvalidHistory(_))))));
}

#[test]
fn a_result_outside_the_open_batch_is_refused() {
    let mut session = Driver::new(Session::new(), MemoryStore::default(), vec![]);
    session.commands.push_back(Command::Submit {
        entry: InboxEntry::new(SignalKind::FollowUp, Message::user("start")),
        reply: 1,
    });
    while !matches!(session.request, Some(Request::Open { .. })) {
        step_once(&mut session);
    }
    session.feed(Input::Opened);
    session.feed(Input::Checkpoint(Checkpoint::Result {
        id: "a".to_string(),
        name: "add".to_string(),
        content: vec![ToolResultContent::text("3")],
    }));
    assert_eq!(
        session.request,
        Some(Request::Stop(Err(Error::InvalidHistory(
            "tool result outside its pending assistant batch".to_string()
        ))))
    );
}

#[test]
fn max_turns_keeps_the_completed_tool_batch() {
    let config = Session::new().max_turns(1);
    let mut session = Driver::new(config, MemoryStore::default(), vec![tool_turn()]);
    session.follow_up("start").unwrap();
    assert_eq!(session.idle().unwrap(), EndReason::MaxTurns);
    assert_eq!(results_of(&session.history()).len(), 2);
    validate_history(&session.history()).unwrap();
}

#[test]
fn repeated_provider_call_ids_have_distinct_receipt_positions() {
    let script = vec![tool_turn(), Reply::Text("one"), tool_turn(), Reply::Text("two")];
    let mut session = Driver::new(Session::new(), MemoryStore::default(), script);
    for _ in 0..2 {
        session.follow_up("start").unwrap();
        assert_eq!(session.idle().unwrap(), EndReason::Idle);
    }
    assert_eq!(session.store.snapshot().tool_results.len(), 4);
    assert_eq!(results_of(&session.history()).len(), 4);
}

#[test]
fn finish_reasons_name_the_end_of_a_turn() {
    for (name, reason) in [
        ("length", EndReason::Length),
        ("content_filter", EndReason::ContentFilter),
    ] {
        let script = vec![Reply::Message(Message::assistant("cut"), usage(1), Some(name))];
        let mut session = Driver::new(Session::new(), MemoryStore::default(), script);
        session.follow_up("start").unwrap();
        assert_eq!(session.idle().unwrap(), reason);
    }
    let script = vec![Reply::Message(Message::assistant("whole"), usage(1), Some("stop"))];
    let mut session = Driver::new(Session::new(), MemoryStore::default(), script);
    session.follow_up("start").unwrap();
    assert_eq!(session.idle().unwrap(), EndReason::Idle);
}

#[test]
fn cancelling_submit_caller_does_not_lose_durable_work() {
    let mut session = Driver::new(Session::new(), MemoryStore::default(), vec![Reply::Text("answer 0")]);
    let entry = InboxEntry::new(SignalKind::FollowUp, Message::user("start"));
    // Nobody reads the reply; the session owns the submission all the same.
    session.command(Command::Submit { entry: entry.clone(), reply: 4711 });
    assert_eq!(session.idle().unwrap(), EndReason::Idle);
    assert_eq!(session.store.snapshot().acked_ids, vec![entry.id]);
    assert_eq!(session.requests.len(), 1);
}

#[test]
fn recovery_reads_are_bounded_before_any_model_request() {
    let history = vec![Message::Assistant {
        id: None,
        content: vec![AssistantContent::ToolCall(call("a", "a"))],
    }];
    for loop_limit in [false, true] {
        let mut store = MemoryStore::default();
        store
            .commit(Commit {
                id: 1,
                expected_messages: 0,
                messages: history.clone(),
                ack_inbox_ids: vec![],
                outcome: None,
            })
            .unwrap();
        let config = Session::new().history(history.clone());
        let config = if loop_limit {
            config.loop_timeout(10 * MS)
        } else {
            config.io_timeout(10 * MS)
        };
        let actor = config.start(0).unwrap();
        let mut session = Driver::with_actor(actor, store, vec![]);
        session.trouble = Trouble::Load;
        session.run();
        assert_eq!(
            session.stopped,
            Some(Err(Error::Store {
                operation: "load tool receipt".to_string(),
                message: "storage deadline elapsed".to_string(),
            }))
        );
        assert_eq!(session.now, 10 * MS);
        assert_eq!(session.requests.len(), 0);
    }
}

#[test]
fn a_stored_result_with_another_identity_stops_the_recovery() {
    let history = vec![Message::Assistant {
        id: None,
        content: vec![AssistantContent::ToolCall(call("a", "a"))],
    }];
    let actor = Session::new().history(history).start(0).unwrap();
    let mut session = Driver::with_actor(actor, MemoryStore::default(), vec![]);
    let Some(Request::Load { key, .. }) = session.request.take() else { panic!() };
    assert_eq!(key, ToolKey { assistant_position: 0, call_id: "a".to_string() });
    session.feed(Input::Loaded(Ok(Some(ToolResult {
        call: "a".to_string(),
        provider: None,
        name: "add".to_string(),
        content: vec![ToolResultContent::text("3")],
    }))));
    assert!(matches!(session.request, Some(Request::Stop(Err(Error::InvalidHistory(_))))));
}

#[test]
fn restored_interrupts_keep_their_order_and_live_ones_go_first() {
    let entry = |kind, text: &str, n| InboxEntry::with_identity(kind, Message::user(text), n, 0);
    let pending = vec![
        entry(SignalKind::FollowUp, "follow", 1),
        entry(SignalKind::Interrupt, "first", 2),
        entry(SignalKind::Interrupt, "second", 3),
        entry(SignalKind::Steer, "steer", 4),
    ];
    let mut store = MemoryStore::default();
    for entry in &pending {
        store.submit(entry.clone()).unwrap();
    }
    let script = vec![Reply::Text("answer"); 4];
    let mut session = Driver::new(Session::new().pending(pending), store, script);
    assert_eq!(session.idle().unwrap(), EndReason::Idle);
    let said: Vec<String> = session.history().iter().map(text_of).collect();
    assert_eq!(said, vec![
        "first", "answer", "second", "answer", "steer", "answer", "follow", "answer",
    ]);
}

#[test]
fn submissions_that_the_store_refuses_leave_the_session_running() {
    let mut session = Driver::new(Session::new(), MemoryStore::default(), vec![Reply::Text("a")]);
    let entry = InboxEntry::new(SignalKind::FollowUp, Message::user("one"));
    session.submit(entry.clone()).unwrap();
    let other = InboxEntry { kind: SignalKind::Steer, ..entry };
    assert_eq!(
        session.submit(other),
        Err(Error::Store {
            operation: "submit inbox (retry the same entry)".to_string(),
            message: "inbox ID reused with different contents".to_string(),
        })
    );
    assert_eq!(session.idle().unwrap(), EndReason::Idle);
}

#[test]
fn a_submission_whose_fate_is_unknown_stops_the_session() {
    let mut session = Driver::new(Session::new(), MemoryStore::default(), vec![]);
    session.commands.push_back(Command::Submit {
        entry: InboxEntry::new(SignalKind::FollowUp, Message::user("one")),
        reply: 1,
    });
    step_once(&mut session);
    assert!(matches!(session.request, Some(Request::Submit { .. })));
    session.feed(Input::Submitted(Err(Failure::TimedOut)));
    assert_eq!(
        session.request,
        Some(Request::Stop(Err(Error::Store {
            operation: "submit inbox (completion unknown; retry the same entry)".to_string(),
            message: "storage deadline elapsed".to_string(),
        })))
    );
}

#[test]
fn waits_are_bounded_and_closed_waits_make_room() {
    let config = Session::new().queue_capacity(1);
    let mut session = Driver::new(config, MemoryStore::default(), vec![tool_turn(), Reply::Text("x")]);
    session.gated = Some("call_a");
    session.follow_up("start").unwrap();
    session.command(Command::Wait { reply: 1001, closed: vec![] });
    session.command(Command::Wait { reply: 1002, closed: vec![] });
    assert_eq!(session.waited, vec![(1002, Err(Error::QueueFull))]);
    session.command(Command::Wait { reply: 1003, closed: vec![1001] });
    session.gate_open = true;
    session.run();
    assert_eq!(session.waited.last().unwrap(), &(1003, Ok(EndReason::Idle)));
    assert_eq!(session.waited.len(), 2);
}

#[test]
fn closing_the_commands_aborts_a_session() {
    let mut session = Driver::new(Session::new(), MemoryStore::default(), vec![]);
    session.run();
    session.closed = true;
    session.run();
    assert_eq!(session.stopped, Some(Ok(EndReason::Aborted)));
    assert_eq!(session.idle_events, 1);
}

#[test]
fn configurations_are_checked_before_anything_runs() {
    let positive = "capacity, max_turns and io_timeout must be positive; max_turns must be finite";
    for config in [
        Session::new().queue_capacity(0),
        Session::new().max_turns(0),
        Session::new().max_turns(usize::MAX),
        Session::new().io_timeout(0),
    ] {
        assert_eq!(config.start(0).unwrap_err(), Error::Configuration(positive.to_string()));
    }
    for config in [
        Session::new().turn_timeout(u128::MAX),
        Session::new().loop_timeout(u128::MAX),
        Session::new().io_timeout(u128::from(u64::MAX) * 1_000_000_000),
    ] {
        assert_eq!(
            config.start(0).unwrap_err(),
            Error::Configuration("timeout exceeds the clock range".to_string())
        );
    }
    assert!(Session::new().turn_timeout(MS).loop_timeout(MS).start(0).is_ok());
    assert_eq!(
        Session::new().start_within(false, 0).unwrap_err(),
        Error::Configuration("timeout exceeds the clock range".to_string())
    );
}

#[test]
fn the_clock_is_asked_for_each_timeout() {
    let config = Session::new().io_timeout(1);
    assert_eq!(config.asked_timeouts(), vec![1]);
    assert_eq!(config.loop_timeout(3).asked_timeouts(), vec![1, 3]);
    let config = Session::new().io_timeout(1).turn_timeout(2).loop_timeout(3);
    assert_eq!(config.asked_timeouts(), vec![1, 2, 3]);
    assert_eq!(clock_span(0), Some((0, 0)));
    assert_eq!(clock_span(1_999_999_999), Some((1, 999_999_999)));
    assert_eq!(clock_span(LONGEST_NANOS), Some((u64::MAX, 999_999_999)));
    assert_eq!(clock_span(LONGEST_NANOS + 1), None);
}

#[test]
fn fresh_moments_have_ids_of_random_uuids() {
    let mut actor = Session::new().start(0).unwrap();
    let (_, request) = actor.begin_now(0);
    assert_eq!(request, Request::TryCommand);
    let entry = InboxEntry::new(SignalKind::FollowUp, Message::user("x"));
    let submit = Input::Command(Command::Submit { entry, reply: 1 });
    let mut request = actor.step_now(submit, 1).1;
    assert!(matches!(request, Request::Submit { .. }));
    request = actor.step_now(Input::Submitted(Ok(InboxStatus::Pending)), 2).1;
    assert_eq!(request, Request::TryCommand);
    request = actor.step_now(Input::NoCommand, 3).1;
    let Request::Commit { commit, .. } = request else { panic!("{request:?}") };
    assert_eq!(commit.id & 0xF000C000000000000000, 0x40008000000000000000);
}

#[test]
fn pending_entries_are_checked_before_anything_runs() {
    let entry = |id: &str| InboxEntry {
        id: id.to_string(),
        kind: SignalKind::FollowUp,
        message: Message::user("x"),
        submitted_at: 0,
    };
    let unique = Error::Configuration("pending inbox IDs must be nonempty and unique".to_string());
    assert_eq!(Session::new().pending(vec![entry("")]).start(0).unwrap_err(), unique);
    assert_eq!(
        Session::new().pending(vec![entry("a"), entry("a")]).start(0).unwrap_err(),
        unique
    );
    let odd = InboxEntry { message: Message::assistant("x"), ..entry("a") };
    assert!(matches!(
        Session::new().pending(vec![odd]).start(0),
        Err(Error::InvalidHistory(_))
    ));
    assert_eq!(
        Session::new().queue_capacity(1).pending(vec![entry("a"), entry("b")]).start(0).unwrap_err(),
        Error::QueueFull
    );
    assert!(Session::new().pending(vec![entry("a"), entry("b")]).start(0).is_ok());
    assert_eq!(
        check_submission(&entry("")),
        Err(Error::Configuration("inbox ID must not be empty".to_string()))
    );
    assert_eq!(check_submission(&entry("a")), Ok(()));
}

#[test]
fn a_lost_reply_tells_why_the_session_stopped() {
    assert_eq!(lost_reply(Ok(EndReason::Paused)), Error::Closed);
    assert_eq!(lost_reply(Err(Error::TaskPanicked)), Error::TaskPanicked);
}

#[test]
fn errors_have_words() {
    assert_eq!(Error::Closed.message(), "session is closed");
    assert_eq!(Error::QueueFull.message(), "session queue is full");
    assert_eq!(Error::TaskPanicked.message(), "session task panicked");
    assert_eq!(Error::InvalidHistory("x".to_string()).message(), "invalid history: x");
    assert_eq!(Error::Configuration("x".to_string()).message(), "invalid configuration: x");
    let error = Error::Store { operation: "op".to_string(), message: "m".to_string() };
    assert_eq!(error.message(), "op: m");
    let commit = Commit {
        id: 0x67e55044_10b1_426f_9247_bb680e5fe0c8,
        expected_messages: 0,
        messages: vec![],
        ack_inbox_ids: vec![],
        outcome: None,
    };
    let error = Error::CommitUncertain { commit, message: "m".to_string() };
    assert_eq!(
        error.message(),
        "commit 67e55044-10b1-426f-9247-bb680e5fe0c8 is uncertain: m"
    );
    let error = Error::ToolWriteUncertain {
        key: ToolKey { assistant_position: 0, call_id: "a".to_string() },
        result: ToolResult {
            call: "a".to_string(),
            provider: None,
            name: "add".to_string(),
            content: vec![],
        },
        message: "m".to_string(),
    };
    assert_eq!(error.message(), "tool receipt write is uncertain: m");
}

#[test]
fn steps_with_fresh_identities_do_not_repeat_them() {
    let mut actor = Session::new().start(0).unwrap();
    let (_, request) = actor.begin_now(0);
    assert_eq!(request, Request::TryCommand);
    let mut ids = Vec::new();
    for reply in 0..2u64 {
        let entry = InboxEntry::new(SignalKind::FollowUp, Message::user("x"));
        actor.step_now(Input::Command(Command::Submit { entry, reply }), 0);
        actor.step_now(Input::Submitted(Ok(InboxStatus::Pending)), 0);
    }
    let (_, request) = actor.step_now(Input::NoCommand, 0);
    if let Request::Commit { commit, .. } = request {
        ids.push(commit.id);
        assert_eq!((commit.id >> 76) & 0xf, 4);
        assert_eq!((commit.id >> 62) & 0x3, 2);
    }
    assert_eq!(ids.len(), 1);
}
