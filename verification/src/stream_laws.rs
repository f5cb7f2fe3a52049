//! What is kept of a turn while it streams, and what a conversation looks like in words.
use crate::agent_loop::{default_loop, new_runner, AgentLoopView};
use crate::api::{AgentLoopErrorView, DEFAULT_MAX_TURNS};
use crate::durable::{durable_error_text, json_text_field, DurableAgentErrorView};
use crate::identity::uuid_text;
use crate::loop_rules::{messages_up_to, PreparedTurnView};
use crate::message::{
    assistant_text, user_text, AssistantContentView, MessageView, TextView, ToolResultContentView,
    UserContentView,
};
use crate::partial::{
    current_message, pending_place, with_assistant, with_result, with_text, PartialTurnView,
    PendingToolCallView, StreamedAssistantContentView, StreamedUserContentView,
};
use crate::printing::{
    after_end, after_item, assistant_word, description, echo_text, end_lines, first_assistant_text,
    first_user_text, history_lines, item_lines, new_run, opening_text, quoted_list, result_words,
    start_lines, user_word, AssistantItemView, STEER_PROMPT, SteerRunView, StreamStepView,
};
use crate::repair::repaired;
use crate::session::{default_session, error_text, ErrorView};
use crate::text::{decimal, digit, quoted, separated};
use vstd::prelude::*;

verus! {

/// All text among some content, one piece behind the other.
pub open spec fn all_text(content: Seq<AssistantContentView>) -> Seq<char>
    decreases content.len(),
{
    if content.len() == 0 {
        Seq::empty()
    } else {
        all_text(content.drop_last()) + match content.last() {
            AssistantContentView::Text(text) => text.text,
            _ => Seq::empty(),
        }
    }
}

/// Text that is streamed in pieces is kept whole and in order, and runs on in one block where it
/// has no parameters: it makes no difference in how many pieces it comes.
pub proof fn law_streamed_text_runs_on(content: Seq<AssistantContentView>, a: Seq<char>, b: Seq<char>, text: TextView)
    ensures
        with_text(
            with_text(content, TextView { text: a, additional_params: None }),
            TextView { text: b, additional_params: None },
        ) == with_text(content, TextView { text: a + b, additional_params: None }),
        all_text(with_text(content, text)) == all_text(content) + text.text,
        with_text(content, text).len() <= content.len() + 1,
        text.additional_params is Some ==> with_text(content, text) == content.push(
            AssistantContentView::Text(text),
        ),
        content.len() == 0 ==> with_text(content, text) == seq![AssistantContentView::Text(text)],
        content.len() > 0 && content.last() !is Text ==> with_text(content, text) == content.push(
            AssistantContentView::Text(text),
        ),
        content.len() > 0 ==> with_text(content, text).take(content.len() - 1) == content.drop_last(),
{
    let (ta, tb) = (
        TextView { text: a, additional_params: None::<Seq<char>> },
        TextView { text: b, additional_params: None::<Seq<char>> },
    );
    let tab = TextView { text: a + b, additional_params: None::<Seq<char>> };
    let once = with_text(content, ta);
    assert(once.last() is Text);
    if content.len() > 0 && content.last() is Text && content.last()->Text_0.additional_params is None {
        assert(once.drop_last() =~= content.drop_last());
        assert(content.last()->Text_0.text + a + b =~= content.last()->Text_0.text + (a + b));
    } else {
        assert(once.drop_last() =~= content);
    }
    assert(with_text(once, tb) =~= with_text(content, tab));
    let next = with_text(content, text);
    if content.len() > 0 {
        assert(next.take(content.len() - 1) =~= content.drop_last());
    } else {
        assert(next =~= seq![AssistantContentView::Text(text)]);
    }
    if next.len() == content.len() {
        assert(next.drop_last() =~= content.drop_last());
        assert(all_text(next) =~= all_text(content) + text.text);
    } else {
        assert(next.drop_last() =~= content);
    }
}

/// What the assistant streams is kept: text and reasoning as content, in order; a call behind the
/// calls that wait; nothing else changes.
pub proof fn law_what_is_said_is_kept(turn: PartialTurnView, said: StreamedAssistantContentView)
    ensures
        ({
            let next = with_assistant(turn, said);
            &&& next.completed_messages == turn.completed_messages
            &&& next.active_tool_results == turn.active_tool_results
            &&& next.open_message == turn.open_message
            &&& next.finished_assistant_message == turn.finished_assistant_message
            &&& match said {
                StreamedAssistantContentView::Text(text) => next.pending_tool_calls
                    == turn.pending_tool_calls && all_text(next.assistant_content) == all_text(
                    turn.assistant_content,
                ) + text.text,
                StreamedAssistantContentView::Reasoning(text) => next.pending_tool_calls
                    == turn.pending_tool_calls && next.assistant_content == turn.assistant_content.push(
                    AssistantContentView::Reasoning(text),
                ),
                StreamedAssistantContentView::ToolCall { internal_call_id, tool_call, .. } => next.assistant_content
                    == turn.assistant_content && next.pending_tool_calls == turn.pending_tool_calls.push(
                    PendingToolCallView { internal_call_id, tool_call },
                ),
                StreamedAssistantContentView::Other => next == turn,
            }
        }),
{
    if let StreamedAssistantContentView::Text(text) = said {
        law_streamed_text_runs_on(turn.assistant_content, Seq::empty(), Seq::empty(), text);
    }
}

/// The message that the assistant is at holds what it said and then the calls that wait, in order.
/// There is none where it was reported, is being answered, or holds nothing.
pub proof fn law_the_current_message_holds_what_was_said(turn: PartialTurnView)
    ensures
        ({
            let said = turn.assistant_content;
            let calls = turn.pending_tool_calls;
            &&& current_message(turn) is Some <==> turn.finished_assistant_message is None
                && turn.active_tool_results.len() == 0 && said.len() + calls.len() > 0
            &&& current_message(turn) matches Some(message) ==> {
                &&& message matches MessageView::Assistant { id, content }
                &&& id is None
                &&& content.len() == said.len() + calls.len()
                &&& forall|k: int| 0 <= k < said.len() ==> #[trigger] content[k] == said[k]
                &&& forall|k: int|
                    0 <= k < calls.len() ==> content[said.len() + k] == AssistantContentView::ToolCall(
                        (#[trigger] calls[k]).tool_call,
                    )
            }
        }),
{
}

/// A result for a call that waits takes the call off those that wait and is kept behind the earlier
/// results; once no call waits, the message and its results, as they came, are complete and the next
/// message begins. A result for no such call changes nothing.
pub proof fn law_results_complete_a_message(turn: PartialTurnView, item: StreamedUserContentView)
    ensures
        ({
            let waits = turn.pending_tool_calls;
            let next = with_result(turn, item);
            let known = exists|k: int|
                0 <= k < waits.len() && (#[trigger] waits[k]).internal_call_id == item.internal_call_id;
            let results = turn.active_tool_results.push(UserContentView::ToolResult(item.tool_result));
            &&& !known ==> next == turn
            &&& known ==> {
                &&& next.pending_tool_calls.len() == waits.len() - 1
                &&& exists|k: int|
                    0 <= k < waits.len() && (#[trigger] waits[k]).internal_call_id
                        == item.internal_call_id && next.pending_tool_calls == waits.remove(k) && (
                    forall|j: int|
                        0 <= j < k ==> (#[trigger] waits[j]).internal_call_id != item.internal_call_id)
                &&& waits.len() > 1 ==> next.active_tool_results == results && next.completed_messages
                    == turn.completed_messages
                &&& waits.len() == 1 ==> next.active_tool_results.len() == 0
                    && next.completed_messages.last() == (MessageView::User { content: results })
                    && turn.completed_messages.is_prefix_of(next.completed_messages)
            }
        }),
{
    let waits = turn.pending_tool_calls;
    lemma_first_place(waits, item.internal_call_id, 0);
}

proof fn lemma_first_place(pending: Seq<PendingToolCallView>, id: Seq<char>, i: int)
    requires
        0 <= i,
    ensures
        match pending_place(pending, id, i) {
            Some(place) => i <= place < pending.len() && pending[place].internal_call_id == id && (
            forall|j: int| i <= j < place ==> (#[trigger] pending[j]).internal_call_id != id),
            None => forall|j: int|
                i <= j < pending.len() ==> (#[trigger] pending[j]).internal_call_id != id,
        },
    decreases pending.len() - i,
{
    if i < pending.len() {
        lemma_first_place(pending, id, i + 1);
    }
}

/// What is told with a message of the assistant is what the turn would add up to it: its prelude,
/// its prompt unless it resumes, the complete roundtrips, and the message.
pub proof fn law_messages_are_told_with_what_precedes_them(
    turn: PreparedTurnView,
    partial: PartialTurnView,
    message: MessageView,
)
    ensures
        ({
            let told = messages_up_to(turn, partial, message);
            &&& told.last() == message
            &&& turn.commit_prompt ==> told.drop_last() == turn.prelude.push(turn.prompt)
                + partial.completed_messages
            &&& !turn.commit_prompt ==> told.drop_last() == turn.prelude + partial.completed_messages
        }),
{
    let told = messages_up_to(turn, partial, message);
    if turn.commit_prompt {
        assert(told.drop_last() =~= turn.prelude.push(turn.prompt) + partial.completed_messages);
    } else {
        assert(told.drop_last() =~= turn.prelude + partial.completed_messages);
    }
}

/// A session keeps 256 signals waiting, gives storage thirty seconds and bounds neither a turn nor
/// itself; a loop repairs its history and bounds neither.
pub proof fn law_defaults()
    ensures
        default_session().capacity == 256,
        default_session().io_timeout == 30 * 1_000_000_000,
        default_session().turn_timeout is None && default_session().loop_timeout is None,
        default_session().history.len() == 0 && default_session().pending.len() == 0,
        0 < default_session().max_turns < usize::MAX,
        default_loop().max_turns == DEFAULT_MAX_TURNS,
        default_loop().turn_timeout is None && default_loop().loop_timeout is None,
        default_loop().initial_history.len() == 0,
        default_loop().unanswered_tool_call_repair is Some,
        !default_loop().turn_hook && !default_loop().assistant_message_hook
            && !default_loop().tool_result_persistence,
{
}

/// A loop starts with one turn to run, on its prompt or on its history, and with the history that
/// it was given, repaired where it repairs it and looks nothing up.
pub proof fn law_loops_start_with_one_turn(a: AgentLoopView, prompt: Option<MessageView>)
    ensures
        ({
            let r = new_runner(a, prompt);
            &&& prompt is Some ==> r.immediate == seq![prompt->0] && r.resumes == 0
            &&& prompt is None ==> r.immediate.len() == 0 && r.resumes == 1
            &&& r.steering.len() == 0 && r.follow_ups.len() == 0 && !r.finish_when_idle
            &&& r.max_turns == a.max_turns && r.turn_timeout == a.turn_timeout && r.loop_timeout
                == a.loop_timeout
            &&& r.has_turn_hook == a.turn_hook && r.has_message_hook == a.assistant_message_hook
            &&& r.has_persistence == a.tool_result_persistence && r.repair
                == a.unanswered_tool_call_repair
            &&& a.tool_result_persistence || a.unanswered_tool_call_repair is None ==> r.history
                == a.initial_history
            &&& !a.tool_result_persistence && a.unanswered_tool_call_repair is Some ==> r.history
                == repaired(a.initial_history, a.unanswered_tool_call_repair->0)
            &&& !r.turn_running && r.last_response is None && r.loop_deadline is None
        }),
{
}

/// The digit that a character stands for.
pub open spec fn value_of(c: char) -> int {
    c as int - '0' as int
}

/// The number that digits stand for.
pub open spec fn number_of(digits: Seq<char>) -> int
    decreases digits.len(),
{
    if digits.len() == 0 {
        0
    } else {
        10 * number_of(digits.drop_last()) + value_of(digits.last())
    }
}

proof fn lemma_digit(n: nat)
    requires
        n < 10,
    ensures
        digit(n).len() == 1,
        value_of(digit(n)[0]) == n,
{
    reveal_strlit("0");
    reveal_strlit("1");
    reveal_strlit("2");
    reveal_strlit("3");
    reveal_strlit("4");
    reveal_strlit("5");
    reveal_strlit("6");
    reveal_strlit("7");
    reveal_strlit("8");
    reveal_strlit("9");
}

/// A number in words reads back as the number, and has no leading zero.
pub proof fn law_numbers_read_back(n: nat)
    ensures
        number_of(decimal(n)) == n,
        decimal(n).len() > 0,
        n > 0 ==> value_of(decimal(n)[0]) > 0,
        n == 0 ==> decimal(n).len() == 1,
    decreases n,
{
    if n < 10 {
        lemma_digit(n);
        assert(digit(n).drop_last() =~= Seq::empty());
        assert(number_of(digit(n).drop_last()) == 0);
    } else {
        law_numbers_read_back(n / 10);
        lemma_digit(n % 10);
        let text = decimal(n);
        assert(text.drop_last() =~= decimal(n / 10));
        assert(text.last() == digit(n % 10)[0]);
        assert(text[0] == decimal(n / 10)[0]);
    }
}

/// Texts are put together with the separator between two of them, and nowhere else.
pub proof fn law_texts_are_separated(parts: Seq<Seq<char>>, more: Seq<char>, separator: Seq<char>)
    ensures
        separated(Seq::empty(), separator).len() == 0,
        separated(seq![more], separator) == more,
        parts.len() > 0 ==> separated(parts.push(more), separator) == separated(parts, separator)
            + separator + more,
{
    assert(parts.push(more).drop_last() =~= parts);
}

/// A history is shown with its label and its length, and with one line for each message, in order.
pub proof fn law_histories_are_shown_line_by_line(label: Seq<char>, history: Seq<MessageView>)
    ensures
        ({
            let lines = history_lines(label, history);
            &&& lines.len() == history.len() + 1
            &&& lines[0] == label + ": "@ + decimal(history.len()) + " message(s)"@
            &&& forall|i: int|
                0 <= i < history.len() ==> lines[i + 1] == "  "@ + decimal(i as nat) + ": "@
                    + description(#[trigger] history[i])
        }),
{
}

/// The text that a message opens with is that of its first block of text.
pub proof fn law_messages_open_with_their_first_text(message: MessageView)
    ensures
        message matches MessageView::System { content } ==> opening_text(message) == Some(content),
        message matches MessageView::User { content } ==> (match opening_text(message) {
            Some(text) => exists|k: int|
                0 <= k < content.len() && (#[trigger] content[k] matches UserContentView::Text(t)
                    && t.text == text) && (forall|j: int| 0 <= j < k ==> (#[trigger] content[j]) !is Text),
            None => forall|k: int| 0 <= k < content.len() ==> (#[trigger] content[k]) !is Text,
        }),
        message matches MessageView::Assistant { content, .. } ==> (match opening_text(message) {
            Some(text) => exists|k: int|
                0 <= k < content.len() && (#[trigger] content[k] matches AssistantContentView::Text(t)
                    && t.text == text) && (forall|j: int| 0 <= j < k ==> (#[trigger] content[j]) !is Text),
            None => forall|k: int| 0 <= k < content.len() ==> (#[trigger] content[k]) !is Text,
        }),
{
    match message {
        MessageView::User { content } => {
            lemma_first_user_text(content, 0);
        },
        MessageView::Assistant { content, .. } => {
            lemma_first_assistant_text(content, 0);
        },
        _ => {},
    }
}

proof fn lemma_first_user_text(content: Seq<UserContentView>, from: int)
    requires
        0 <= from,
    ensures
        match first_user_text(content, from) {
            Some(text) => exists|k: int|
                from <= k < content.len() && (#[trigger] content[k] matches UserContentView::Text(t)
                    && t.text == text) && (forall|j: int| from <= j < k ==> (#[trigger] content[j]) !is Text),
            None => forall|k: int| from <= k < content.len() ==> (#[trigger] content[k]) !is Text,
        },
    decreases content.len() - from,
{
    if from < content.len() {
        lemma_first_user_text(content, from + 1);
        if content[from] !is Text {
            if let Some(text) = first_user_text(content, from + 1) {
                let k = choose|k: int|
                    from + 1 <= k < content.len() && (#[trigger] content[k] matches UserContentView::Text(t)
                        && t.text == text) && (forall|j: int|
                        from + 1 <= j < k ==> (#[trigger] content[j]) !is Text);
                assert(content[k] is Text);
            }
        } else {
            assert(content[from] is Text);
        }
    }
}

proof fn lemma_first_assistant_text(content: Seq<AssistantContentView>, from: int)
    requires
        0 <= from,
    ensures
        match first_assistant_text(content, from) {
            Some(text) => exists|k: int|
                from <= k < content.len() && (#[trigger] content[k] matches AssistantContentView::Text(t)
                    && t.text == text) && (forall|j: int| from <= j < k ==> (#[trigger] content[j]) !is Text),
            None => forall|k: int| from <= k < content.len() ==> (#[trigger] content[k]) !is Text,
        },
    decreases content.len() - from,
{
    if from < content.len() {
        lemma_first_assistant_text(content, from + 1);
        if content[from] !is Text {
            if let Some(text) = first_assistant_text(content, from + 1) {
                let k = choose|k: int|
                    from + 1 <= k < content.len() && (#[trigger] content[k] matches
                        AssistantContentView::Text(t) && t.text == text) && (forall|j: int|
                        from + 1 <= j < k ==> (#[trigger] content[j]) !is Text);
                assert(content[k] is Text);
            }
        } else {
            assert(content[from] is Text);
        }
    }
}

/// The first part of the arguments of a call steers a run, once, and nothing else does; a final
/// response ends it with the messages that it adds; the run goes on while messages wait.
pub proof fn law_runs_go_on_while_messages_wait(run: SteerRunView, item: StreamStepView, prompt: MessageView)
    ensures
        ({
            let next = after_item(run, item);
            let steers = !run.steer_sent && (item matches StreamStepView::Assistant(said)
                && said is CallDelta);
            &&& steers ==> next.queue.queued == run.queue.queued.push(
                user_text(STEER_PROMPT@),
            ) && next.steer_sent
            &&& !steers ==> next.queue == run.queue && next.steer_sent == run.steer_sent
            &&& next.next_prompt == run.next_prompt
            &&& item matches StreamStepView::Final { history, .. } ==> next.completed && next.history
                == (match history {
                Some(messages) => run.history + messages,
                None => run.history,
            })
            &&& item !is Final ==> next.completed == run.completed && next.history == run.history
        }),
        after_end(run).history == run.history,
        run.queue.queued.len() == 0 ==> after_end(run) == run,
        run.queue.queued.len() > 0 ==> after_end(run).next_prompt == run.queue.queued.first()
            && after_end(run).queue.queued == run.queue.queued.drop_first() && !after_end(run).completed,
        new_run(prompt).next_prompt == prompt && new_run(prompt).history.len() == 0
            && new_run(prompt).queue.queued.len() == 0 && !new_run(prompt).steer_sent,
{
    if run.queue.queued.len() > 0 {
        assert(run.queue.queued.skip(1) =~= run.queue.queued.drop_first());
    }
}

/// A message of one text holds that text alone.
pub proof fn law_texts_make_messages(text: Seq<char>)
    ensures
        user_text(text) matches MessageView::User { content } && content.len() == 1 && content[0]
            == UserContentView::Text(TextView { text, additional_params: None }),
        assistant_text(text) matches MessageView::Assistant { id, content } && id is None
            && content.len() == 1 && content[0] == AssistantContentView::Text(
            TextView { text, additional_params: None },
        ),
{
}

/// A message is shown block by block, in order, each under who says it; a call with its tool and
/// arguments, a result with the id of its call.
pub proof fn law_messages_are_shown_block_by_block(
    said: Seq<UserContentView>,
    block: UserContentView,
    id: Option<Seq<char>>,
    told: Seq<AssistantContentView>,
    part: AssistantContentView,
)
    ensures
        description(MessageView::User { content: seq![block] }) == user_word(block),
        said.len() > 0 ==> description(MessageView::User { content: said.push(block) }) == description(
            MessageView::User { content: said },
        ) + ", "@ + user_word(block),
        description(MessageView::Assistant { id, content: seq![part] }) == assistant_word(part),
        told.len() > 0 ==> description(MessageView::Assistant { id, content: told.push(part) })
            == description(MessageView::Assistant { id, content: told }) + ", "@ + assistant_word(part),
        block matches UserContentView::Text(text) ==> user_word(block) == "user "@ + quoted(text.text),
        block matches UserContentView::ToolResult(result) ==> user_word(block) == "tool result "@
            + result.call + " "@ + quoted_list(result_words(result.content)),
        part matches AssistantContentView::Text(text) ==> assistant_word(part) == "assistant "@ + quoted(
            text.text,
        ),
        part matches AssistantContentView::ToolCall(call) ==> assistant_word(part)
            == "assistant tool call "@ + call.function.name + "("@ + call.function.arguments + ")"@,
{
    let words = Seq::new(said.len(), |i: int| user_word(said[i]));
    let more = said.push(block);
    assert(Seq::new(more.len(), |i: int| user_word(more[i])) =~= words.push(user_word(block)));
    assert(words.push(user_word(block)).drop_last() =~= words);
    let one = seq![block];
    assert(Seq::new(one.len(), |i: int| user_word(one[i])) =~= seq![user_word(block)]);
    let parts = Seq::new(told.len(), |i: int| assistant_word(told[i]));
    let further = told.push(part);
    assert(Seq::new(further.len(), |i: int| assistant_word(further[i])) =~= parts.push(
        assistant_word(part),
    ));
    assert(parts.push(assistant_word(part)).drop_last() =~= parts);
    let single = seq![part];
    assert(Seq::new(single.len(), |i: int| assistant_word(single[i])) =~= seq![assistant_word(part)]);
}

/// The blocks of a result are shown one by one; a text as it is.
pub proof fn law_results_are_shown_block_by_block(content: Seq<ToolResultContentView>)
    ensures
        result_words(content).len() == content.len(),
        forall|i: int|
            0 <= i < content.len() ==> (#[trigger] content[i] matches ToolResultContentView::Text(text)
                ==> result_words(content)[i] == text.text),
{
}

/// What streams is shown as it comes: a line for text, for the name and the arguments of a call, for
/// a whole call, for a result, for the tokens of a model call and for the final response; the first
/// arguments of a call add the line that tells of the steering, once.
pub proof fn law_streams_are_shown(run: SteerRunView, item: StreamStepView)
    ensures
        ({
            let lines = item_lines(run, item);
            match item {
                StreamStepView::Assistant(AssistantItemView::Text(text)) => lines == seq![
                    "assistant delta> "@ + text,
                ],
                StreamStepView::Assistant(AssistantItemView::CallName { internal_call_id, name }) => lines
                    == seq!["tool delta> "@ + internal_call_id + " name="@ + name],
                StreamStepView::Assistant(AssistantItemView::CallDelta { internal_call_id, delta }) => {
                    &&& lines.len() == (if run.steer_sent {
                        1int
                    } else {
                        2
                    })
                    &&& lines[0] == "tool delta> "@ + internal_call_id + " args+="@ + quoted(delta)
                    &&& !run.steer_sent ==> lines[1] == "ui> queued steer: "@ + STEER_PROMPT@
                },
                StreamStepView::Assistant(AssistantItemView::ToolCall { internal_call_id, tool_call }) => lines
                    == seq![
                    "tool complete> "@ + internal_call_id + " "@ + tool_call.function.name + "("@
                        + tool_call.function.arguments + ")"@,
                ],
                StreamStepView::Assistant(AssistantItemView::Other) => lines.len() == 0,
                StreamStepView::ToolResult { internal_call_id, tool_result } => lines == seq![
                    "tool result> "@ + internal_call_id + " "@ + separated(
                        result_words(tool_result.content),
                        ", "@,
                    ),
                ],
                StreamStepView::CompletionCall { call_index, total_tokens } => lines == seq![
                    "usage> call="@ + decimal(call_index as nat) + " total_tokens="@ + decimal(
                        total_tokens as nat,
                    ),
                ],
                StreamStepView::Final { response, .. } => lines == seq!["final> "@ + response],
                StreamStepView::Other => lines.len() == 0,
            }
        }),
        start_lines(run)[0] == "\n=== starting stream ==="@,
        opening_text(run.next_prompt) matches Some(text) ==> start_lines(run).len() == 2 && start_lines(
            run,
        )[1] == "user> "@ + text,
        opening_text(run.next_prompt) is None ==> start_lines(run).len() == 1,
        run.completed ==> end_lines(run) == history_lines(
            "history after completed stream"@,
            run.history,
        ),
        !run.completed ==> end_lines(run).len() == 0,
{
    let none = Seq::<Seq<char>>::empty();
    assert forall|line: Seq<char>| #[trigger] seq![line] + none =~= seq![line] by {}
}

/// The demonstration tool answers with the text that it is given.
pub proof fn law_the_demonstration_tool_answers(arguments: Seq<char>)
    ensures
        json_text_field(arguments, "text"@) matches Some(text) ==> echo_text(arguments)
            == "echo tool saw: "@ + text,
        json_text_field(arguments, "text"@) is None ==> echo_text(arguments) == "echo tool saw: "@
            + "<missing text>"@,
{
}

/// Errors have words of their own, with those of the cause behind them.
pub proof fn law_errors_have_words(error: ErrorView)
    ensures
        match error {
            ErrorView::InvalidHistory(text) => error_text(error) == "invalid history: "@ + text,
            ErrorView::Closed => error_text(error) == "session is closed"@,
            ErrorView::QueueFull => error_text(error) == "session queue is full"@,
            ErrorView::Configuration(text) => error_text(error) == "invalid configuration: "@ + text,
            ErrorView::Store { operation, message } => error_text(error) == operation + ": "@ + message,
            ErrorView::CommitUncertain { commit, message } => error_text(error) == "commit "@ + uuid_text(
                commit.id,
            ) + " is uncertain: "@ + message,
            ErrorView::ToolWriteUncertain { message, .. } => error_text(error)
                == "tool receipt write is uncertain: "@ + message,
            ErrorView::TaskPanicked => error_text(error) == "session task panicked"@,
        },
{
}

/// The errors of a durable agent and of its loops have words of their own.
pub proof fn law_agent_errors_have_words(error: DurableAgentErrorView)
    ensures
        match error {
            DurableAgentErrorView::InvalidSignalMessage(text) => durable_error_text(error)
                == "invalid signal message: "@ + text,
            DurableAgentErrorView::CommandChannelClosed => durable_error_text(error)
                == "durable agent command channel is closed"@,
            DurableAgentErrorView::AlreadyStarted => durable_error_text(error)
                == "durable agent is already started"@,
            DurableAgentErrorView::NotStarted => durable_error_text(error)
                == "durable agent has not been started"@,
            DurableAgentErrorView::Store(text) => durable_error_text(error) == "durable store failed: "@
                + text,
            DurableAgentErrorView::Callback(text) => durable_error_text(error)
                == "durable callback failed: "@ + text,
            DurableAgentErrorView::AgentLoop(cause) => durable_error_text(error) == (match cause {
                AgentLoopErrorView::CommandChannelClosed => "agent loop command channel is closed"@,
                AgentLoopErrorView::InvalidMessageHistory(e) => "invalid Rig message history: "@
                    + e.message,
                AgentLoopErrorView::TurnHook(text) => "turn hook failed: "@ + text,
                AgentLoopErrorView::AssistantMessageHook(text) => "assistant message hook failed: "@
                    + text,
                AgentLoopErrorView::ToolResultPersistence(text) => "tool result persistence failed: "@
                    + text,
                AgentLoopErrorView::Rig(text) => text,
                AgentLoopErrorView::TaskJoin(text) => text,
            }),
            DurableAgentErrorView::TaskJoin(text) => durable_error_text(error) == text,
            DurableAgentErrorView::ManagerFailed(text) => durable_error_text(error)
                == "durable manager failed: "@ + text,
        },
{
}

} // verus!
