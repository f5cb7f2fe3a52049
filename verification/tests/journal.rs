//! Journals, stores and what may follow what.
use rigloop::context::{accept_compacted, history_patch, request_messages, ContextPolicy};
use rigloop::journal::{
    check_result, validate_append, validate_history, validate_journal, validate_signal,
};
use rigloop::message::{
    AssistantContent, Message, ProviderCallId, ToolCall, ToolFunction, ToolResult,
    ToolResultContent, UserContent,
};
use rigloop::queue::Queue;
use rigloop::session::Error;
use rigloop::store::{Commit, InboxEntry, InboxStatus, MemoryStore, SignalKind, ToolKey};

fn call(id: &str) -> ToolCall {
    ToolCall {
        id: id.to_string(),
        provider: Some(ProviderCallId { call_id: id.to_string(), item_id: None }),
        function: ToolFunction { name: "add".to_string(), arguments: "{}".to_string() },
        signature: None,
        additional_params: None,
    }
}

fn result(call: &ToolCall) -> ToolResult {
    ToolResult {
        call: call.id.clone(),
        provider: call.provider.clone(),
        name: "add".to_string(),
        content: vec![ToolResultContent::text("ok")],
    }
}

fn asks(calls: &[ToolCall]) -> Message {
    Message::Assistant {
        id: None,
        content: calls.iter().cloned().map(AssistantContent::ToolCall).collect(),
    }
}

fn gives(results: &[ToolResult]) -> Message {
    Message::User { content: results.iter().cloned().map(UserContent::ToolResult).collect() }
}

fn invalid(text: &str) -> Result<(), Error> {
    Err(Error::InvalidHistory(text.to_string()))
}

#[test]
fn validator_rejects_orphans_duplicate_results_and_provider_metadata_conflicts() {
    let call = call("a");
    let assistant = asks(&[call.clone()]);
    let result = result(&call);
    let user = |result: ToolResult| Message::User { content: vec![UserContent::ToolResult(result)] };
    assert!(validate_history(&[user(result.clone())]).is_err());
    assert!(validate_history(&[
        assistant.clone(),
        Message::User {
            content: vec![
                UserContent::ToolResult(result.clone()),
                UserContent::ToolResult(result.clone())
            ]
        }
    ])
    .is_err());
    let mut wrong = result.clone();
    wrong.provider = None;
    assert!(validate_history(&[assistant.clone(), user(wrong)]).is_err());
    validate_history(&[assistant, user(result)]).unwrap();
}

#[test]
fn every_rule_of_a_journal_has_its_words() {
    let (a, b) = (call("a"), call("b"));
    let both = asks(&[a.clone(), b.clone()]);
    let hello = Message::user("hello");
    assert_eq!(
        validate_history(&[Message::User { content: vec![] }]),
        invalid("empty message content")
    );
    assert_eq!(validate_history(&[asks(&[])]), invalid("empty message content"));
    assert_eq!(
        validate_history(&[both.clone(), Message::assistant("hm")]),
        invalid("tool calls require an immediately following user result batch")
    );
    assert_eq!(
        validate_history(&[both.clone(), gives(&[result(&a)])]),
        invalid("incomplete or extra tool results; normalize stored history before starting")
    );
    assert_eq!(
        validate_history(&[both.clone(), gives(&[result(&a), result(&a)])]),
        invalid("duplicate tool result")
    );
    assert_eq!(
        validate_history(&[both.clone(), gives(&[result(&a), result(&call("c"))])]),
        invalid("orphan tool result")
    );
    assert_eq!(
        validate_history(&[hello.clone(), gives(&[result(&a)])]),
        invalid("orphan tool result")
    );
    let hollow = ToolResult { content: vec![], ..result(&b) };
    assert_eq!(
        validate_history(&[both.clone(), gives(&[result(&a), hollow])]),
        invalid("tool result identity/content does not match its call")
    );
    assert_eq!(
        validate_history(&[asks(&[a.clone(), a.clone()])]),
        invalid("duplicate tool call")
    );
    assert_eq!(validate_history(&[both.clone()]), invalid("unanswered tool calls"));
    assert_eq!(validate_journal(&[both.clone()]), Ok(()));
    assert_eq!(
        validate_history(&[hello, both, gives(&[result(&b), result(&a)])]),
        Ok(())
    );
    assert_eq!(validate_history(&[]), Ok(()));
}

#[test]
fn the_order_of_results_and_text_beside_them_do_not_matter() {
    let calls = [call("a"), call("b")];
    let (a, b) = (result(&calls[0]), result(&calls[1]));
    let text = |history: &mut Vec<Message>, at: usize| {
        let Message::User { content } = &mut history[1] else { panic!() };
        let Message::User { content: said } = Message::user("note") else { panic!() };
        content.insert(at, said[0].clone());
    };
    let in_order = vec![asks(&calls), gives(&[a.clone(), b.clone()])];
    let reversed = vec![asks(&calls), gives(&[b.clone(), a.clone()])];
    assert!(validate_history(&in_order).is_ok());
    assert!(validate_history(&reversed).is_ok());
    for at in 0..3 {
        let mut noted = in_order.clone();
        text(&mut noted, at);
        assert!(validate_history(&noted).is_ok());
    }
    let mut partial = vec![asks(&calls), gives(&[a])];
    assert!(validate_history(&partial).is_err());
    text(&mut partial, 0);
    assert!(validate_history(&partial).is_err());
}

#[test]
fn appending_checks_the_seam() {
    let a = call("a");
    let open = [Message::user("hello"), asks(&[a.clone()])];
    assert_eq!(validate_append(&open, &[gives(&[result(&a)])]), Ok(()));
    assert!(validate_append(&open, &[Message::user("and?")]).is_err());
    assert_eq!(validate_append(&open, &[]), Ok(()));
    let closed = [Message::user("hello")];
    assert!(validate_append(&closed, &[gives(&[result(&a)])]).is_err());
    assert_eq!(validate_append(&closed, &[Message::assistant("hi"), Message::user("x")]), Ok(()));
}

#[test]
fn signals_are_user_messages_with_content_and_without_results() {
    let refused = invalid("signals must be nonempty user messages without tool results");
    assert_eq!(validate_signal(&Message::user("x")), Ok(()));
    assert_eq!(validate_signal(&Message::assistant("x")), refused);
    assert_eq!(validate_signal(&Message::system("x")), refused);
    assert_eq!(validate_signal(&Message::User { content: vec![] }), refused);
    assert_eq!(validate_signal(&gives(&[result(&call("a"))])), refused);
}

#[test]
fn a_result_is_held_against_its_call() {
    let a = call("a");
    assert_eq!(check_result(&a, &result(&a)), Ok(()));
    let other = ToolResult { provider: None, ..result(&a) };
    assert!(check_result(&a, &other).is_err());
    assert!(check_result(&call("b"), &result(&a)).is_err());
}

fn commit(id: u128, expected: usize, messages: Vec<Message>, acks: Vec<String>) -> Commit {
    Commit { id, expected_messages: expected, messages, ack_inbox_ids: acks, outcome: None }
}

#[test]
fn store_rejects_double_acks_and_stale_or_conflicting_transactions() {
    let mut store = MemoryStore::default();
    let entry = InboxEntry::new(SignalKind::FollowUp, Message::user("one"));
    store.submit(entry.clone()).unwrap();
    let mut first = commit(
        1,
        0,
        vec![entry.message.clone()],
        vec![entry.id.clone(), entry.id.clone()],
    );
    assert!(store.commit(first.clone()).is_err());
    first.ack_inbox_ids.pop();
    store.commit(first.clone()).unwrap();
    store.commit(first.clone()).unwrap();
    first.id = 2;
    assert!(store.commit(first).is_err());
    assert_eq!(store.snapshot().acked_ids.len(), 1);
    assert_eq!(store.snapshot().history.len(), 1);
}

#[test]
fn refusals_of_a_store_have_their_words_and_change_nothing() {
    let mut store = MemoryStore::new();
    let one = InboxEntry::with_identity(SignalKind::Steer, Message::user("same"), 1, 10);
    let two = InboxEntry::with_identity(SignalKind::Steer, Message::user("same"), 2, 20);
    assert_eq!(store.submit(one.clone()), Ok(InboxStatus::Pending));
    assert_eq!(store.submit(two.clone()), Ok(InboxStatus::Pending));
    let mut changed = one.clone();
    changed.submitted_at = 11;
    let words = |answer: Result<InboxStatus, rigloop::store::StoreError>| answer.unwrap_err().message;
    assert_eq!(words(store.submit(changed)), "inbox ID reused with different contents");
    let said = Message::user("same");
    let refused = |store: &mut MemoryStore, commit: Commit| {
        let before = store.snapshot();
        let text = store.commit(commit).unwrap_err().message;
        assert_eq!(store.snapshot(), before);
        text
    };
    assert_eq!(
        refused(&mut store, commit(1, 1, vec![], vec![])),
        "stale journal position"
    );
    assert_eq!(
        refused(&mut store, commit(1, 0, vec![Message::User { content: vec![] }], vec![])),
        "invalid history: empty message content"
    );
    assert_eq!(
        refused(&mut store, commit(1, 0, vec![said.clone()], vec!["nobody".to_string()])),
        "ACK refers to unknown inbox entry"
    );
    assert_eq!(
        refused(&mut store, commit(1, 0, vec![said.clone()], vec![one.id.clone(), one.id.clone()])),
        "duplicate inbox ACK"
    );
    assert_eq!(
        refused(&mut store, commit(1, 0, vec![said.clone()], vec![one.id.clone(), two.id.clone()])),
        "ACK requires the inbox message in this transaction"
    );
    store
        .commit(commit(1, 0, vec![said.clone(), said.clone()], vec![one.id.clone(), two.id.clone()]))
        .unwrap();
    assert_eq!(
        refused(&mut store, commit(1, 0, vec![said], vec![])),
        "commit ID reused with different contents"
    );
    assert_eq!(store.submit(one.clone()), Ok(InboxStatus::Acked));
    assert_eq!(store.snapshot().acked_ids, vec![one.id, two.id]);
    assert!(store.snapshot().pending().is_empty());
}

#[test]
fn pending_entries_keep_their_order() {
    let mut store = MemoryStore::new();
    let entries: Vec<InboxEntry> = (0..3u128)
        .map(|n| InboxEntry::with_identity(SignalKind::FollowUp, Message::user("x"), n, n as i128))
        .collect();
    for entry in &entries {
        store.submit(entry.clone()).unwrap();
    }
    let middle = vec![entries[1].id.clone()];
    store.commit(commit(9, 0, vec![Message::user("x")], middle)).unwrap();
    let pending = store.snapshot().pending();
    assert_eq!(pending, vec![entries[0].clone(), entries[2].clone()]);
}

#[test]
fn receipts_are_kept_by_position_and_call() {
    let mut store = MemoryStore::new();
    let key = |n: usize| ToolKey { assistant_position: n, call_id: "a".to_string() };
    let mut other = result(&call("a"));
    other.content = vec![ToolResultContent::text("other")];
    store.save_tool_result(key(1), result(&call("a"))).unwrap();
    store.save_tool_result(key(1), result(&call("a"))).unwrap();
    store.save_tool_result(key(3), other.clone()).unwrap();
    assert_eq!(store.load_tool_result(&key(1)), Some(result(&call("a"))));
    assert_eq!(store.load_tool_result(&key(3)), Some(other.clone()));
    assert_eq!(store.load_tool_result(&key(2)), None);
    assert_eq!(
        store.save_tool_result(key(1), other).unwrap_err().message,
        "conflicting tool receipt"
    );
    assert_eq!(
        store.save_tool_result(key(4), result(&call("b"))).unwrap_err().message,
        "receipt key does not match result"
    );
}

#[test]
fn entries_carry_the_text_of_their_uuid() {
    let bits = 0x67e55044_10b1_426f_9247_bb680e5fe0c8;
    let entry = InboxEntry::with_identity(SignalKind::Interrupt, Message::user("x"), bits, 5);
    assert_eq!(entry.id, "67e55044-10b1-426f-9247-bb680e5fe0c8");
    assert_eq!(entry.submitted_at, 5);
    let one = InboxEntry::new(SignalKind::Steer, Message::user("x"));
    let two = InboxEntry::new(SignalKind::Steer, Message::user("x"));
    assert_ne!(one.id, two.id);
    assert_eq!(one.id.len(), 36);
    assert_eq!(&one.id[14..15], "4");
    assert!("89ab".contains(&one.id[19..20]));
    assert!(one.submitted_at > 1_600_000_000_000_000_000);
}

#[test]
fn queues_take_interrupts_then_steers_then_resumes_then_follow_ups() {
    let entry = |kind, n| InboxEntry::with_identity(kind, Message::user("x"), n, 0);
    let mut queue = Queue::new();
    queue.push(entry(SignalKind::FollowUp, 1));
    queue.push(entry(SignalKind::Steer, 2));
    queue.push(entry(SignalKind::Interrupt, 3));
    queue.push(entry(SignalKind::Interrupt, 4));
    queue.push(entry(SignalKind::Steer, 5));
    queue.push(entry(SignalKind::FollowUp, 6));
    queue.resume = true;
    assert_eq!(queue.len(), 7);
    assert!(queue.contains(&entry(SignalKind::Steer, 5).id));
    assert!(!queue.contains(&"nobody".to_string()));
    let mut taken = Vec::new();
    while let Some(entries) = queue.next() {
        taken.push(entries.iter().map(|e| e.id[34..].to_string()).collect::<Vec<_>>().join(" "));
    }
    assert_eq!(taken, vec!["04", "03", "02 05", "", "01", "06"]);
    assert_eq!(queue.len(), 0);
}

#[test]
fn restored_queues_keep_the_order_of_interrupts() {
    let entry = |kind, n| InboxEntry::with_identity(kind, Message::user("x"), n, 0);
    let mut queue = Queue::new();
    queue.restore(entry(SignalKind::Interrupt, 1));
    queue.restore(entry(SignalKind::Interrupt, 2));
    queue.restore(entry(SignalKind::Steer, 3));
    assert_eq!(queue.next().unwrap(), vec![entry(SignalKind::Interrupt, 1)]);
    assert_eq!(queue.next().unwrap(), vec![entry(SignalKind::Interrupt, 2)]);
    assert_eq!(queue.next().unwrap(), vec![entry(SignalKind::Steer, 3)]);
    assert_eq!(queue.next(), None);
}

#[test]
fn request_views_keep_the_prompt() {
    let prompt = Message::user("now");
    let history = vec![Message::user("then"), Message::assistant("so")];
    let full = request_messages(&history, &prompt);
    assert_eq!(full.len(), 3);
    assert_eq!(ContextPolicy::<()>::accept(full.clone(), &prompt), Ok(history.clone()));
    assert_eq!(accept_compacted(full.clone(), &prompt), Ok(history.clone()));
    assert_eq!(history_patch(history.clone(), &prompt), Ok(history.clone()));
    assert_eq!(
        ContextPolicy::<()>::accept(history.clone(), &prompt),
        Err("context policy must retain the current prompt unchanged".to_string())
    );
    assert_eq!(
        accept_compacted(vec![], &prompt),
        Err("compaction must retain the current prompt unchanged".to_string())
    );
    let broken = vec![asks(&[call("a")]), prompt.clone()];
    let words = "invalid history: incomplete or extra tool results; normalize stored history before starting";
    assert_eq!(ContextPolicy::<()>::accept(broken.clone(), &prompt), Err(words.to_string()));
    assert_eq!(accept_compacted(broken, &prompt), Err(words.to_string()));
    assert!(history_patch(vec![asks(&[call("a")])], &prompt).is_err());
}

#[test]
fn append_bookkeeping_stays_correct_on_a_long_journal() {
    let mut store = MemoryStore::default();
    let history: Vec<Message> = (0..1000).map(|_| Message::user("x")).collect();
    store.commit(commit(1, 0, history, vec![])).unwrap();
    for i in 0..25usize {
        store
            .commit(commit(2 + i as u128, 1000 + i, vec![Message::assistant("delta")], vec![]))
            .unwrap();
    }
    assert_eq!(store.snapshot().history.len(), 1025);
    assert_eq!(store.snapshot().commits.len(), 26);
}
