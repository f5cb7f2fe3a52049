//! How calls without results are repaired.
use crate::api::{call_key, AgentLoopError, AgentLoopErrorView, ToolResultKey, ToolResultKeyView};
use crate::deep::DeepEq;
use crate::history::{ids_of_calls, tool_result_ids};
use crate::journal::calls;
use crate::message::{
    answered_ids, call_ids, calls_of, result_blocks, results, results_in, results_of, text_block,
    Message, MessageView, ToolCall, ToolCallView, ToolResult, ToolResultContent, ToolResultView,
    UserContent, UserContentView,
};
use crate::text::has_text;
use vstd::prelude::*;

verus! {

/// Whether the message behind the one at `i` holds results.
pub open spec fn has_batch(history: Seq<MessageView>, i: int) -> bool {
    i + 1 < history.len() && results_of(history[i + 1]).len() > 0
}

/// The results behind the message at `i`.
pub open spec fn batch_results(history: Seq<MessageView>, i: int) -> Seq<ToolResultView> {
    if has_batch(history, i) {
        results_of(history[i + 1])
    } else {
        Seq::empty()
    }
}

/// The content with results behind the message at `i`.
pub open spec fn batch_content(history: Seq<MessageView>, i: int) -> Seq<UserContentView> {
    if has_batch(history, i) {
        history[i + 1]->User_content
    } else {
        Seq::empty()
    }
}

/// The calls whose ids are not among some others, in order.
pub open spec fn calls_without(calls: Seq<ToolCallView>, ids: Seq<Seq<char>>) -> Seq<ToolCallView>
    decreases calls.len(),
{
    if calls.len() == 0 {
        Seq::empty()
    } else if ids.contains(calls.last().id) {
        calls_without(calls.drop_last(), ids)
    } else {
        calls_without(calls.drop_last(), ids).push(calls.last())
    }
}

/// The calls of the message at `i` that have no result behind it.
pub open spec fn missing_at(history: Seq<MessageView>, i: int) -> Seq<ToolCallView> {
    calls_without(calls_of(history[i]), answered_ids(batch_results(history, i)))
}

/// A history, from the message at `i` on, in which the calls without results have some: a batch
/// is put behind calls without one, and takes the place of one that is not complete. Everything
/// else stays as it is.
pub open spec fn rebuilt(
    history: Seq<MessageView>,
    i: int,
    batches: spec_fn(int) -> Seq<UserContentView>,
) -> Seq<MessageView>
    decreases history.len() - i,
{
    if i >= history.len() {
        Seq::empty()
    } else if calls_of(history[i]).len() == 0 {
        seq![history[i]] + rebuilt(history, i + 1, batches)
    } else if has_batch(history, i) {
        seq![
            history[i],
            if missing_at(history, i).len() > 0 {
                MessageView::User { content: batches(i) }
            } else {
                history[i + 1]
            },
        ] + rebuilt(history, i + 2, batches)
    } else {
        seq![history[i], MessageView::User { content: batches(i) }] + rebuilt(
            history,
            i + 1,
            batches,
        )
    }
}

/// The result that stands in for one that was not recorded. It keeps the identity of the call.
pub open spec fn stand_in(call: ToolCallView, text: Seq<char>) -> ToolResultView {
    ToolResultView {
        call: call.id,
        provider: call.provider,
        name: call.function.name,
        content: seq![text_block(text)],
    }
}

/// The results that stand in for those of some calls.
pub open spec fn stand_ins(calls: Seq<ToolCallView>, text: Seq<char>) -> Seq<ToolResultView> {
    Seq::new(calls.len(), |k: int| stand_in(calls[k], text))
}

/// The results behind the message at `i`, with the missing ones at the end.
pub open spec fn filled_batch(history: Seq<MessageView>, i: int, text: Seq<char>) -> Seq<UserContentView> {
    batch_content(history, i) + result_blocks(stand_ins(missing_at(history, i), text))
}

/// A history in which a text stands in for every result that is missing.
pub open spec fn repaired(history: Seq<MessageView>, text: Seq<char>) -> Seq<MessageView> {
    rebuilt(history, 0, |i: int| filled_batch(history, i, text))
}

/// What a store of results has for a call.
#[derive(Debug, PartialEq, Eq)]
pub enum Loaded {
    /// The result.
    Found(ToolResult),
    /// Nothing.
    Absent,
    /// It could not tell, in words.
    Failed(String),
}

/// The value of a [`Loaded`].
pub enum LoadedView {
    Found(ToolResultView),
    Absent,
    Failed(Seq<char>),
}

impl DeepView for Loaded {
    type V = LoadedView;

    open spec fn deep_view(&self) -> LoadedView {
        match self {
            Loaded::Found(x) => LoadedView::Found(x.deep_view()),
            Loaded::Absent => LoadedView::Absent,
            Loaded::Failed(x) => LoadedView::Failed(x.deep_view()),
        }
    }
}

/// The first result for the call with an id.
pub open spec fn first_result(results: Seq<ToolResultView>, id: Seq<char>) -> Option<ToolResultView>
    decreases results.len(),
{
    if results.len() == 0 {
        None
    } else if results[0].call == id {
        Some(results[0])
    } else {
        first_result(results.skip(1), id)
    }
}

/// A result under the identity of a call; the provider's identity is kept where there is one.
pub open spec fn identified(result: ToolResultView, call: ToolCallView) -> ToolResultView {
    ToolResultView {
        call: call.id,
        provider: if result.provider is None {
            call.provider
        } else {
            result.provider
        },
        ..result
    }
}

/// The result for a call: the one that is there, else the stored one, else one that stands in.
pub open spec fn supplied(
    results: Seq<ToolResultView>,
    call: ToolCallView,
    loaded: LoadedView,
    text: Seq<char>,
) -> ToolResultView {
    match first_result(results, call.id) {
        Some(result) => identified(result, call),
        None => match loaded {
            LoadedView::Found(result) => identified(result, call),
            _ => stand_in(call, text),
        },
    }
}

/// What was loaded for the `k`th of the missing results; nothing where nobody looked.
pub open spec fn loaded_at(loaded: Seq<LoadedView>, k: int) -> LoadedView {
    if 0 <= k < loaded.len() {
        loaded[k]
    } else {
        LoadedView::Absent
    }
}

/// The results for some calls, in the order of the calls. What was loaded is used in order, from
/// the `from`th on, for the results that are missing.
pub open spec fn supply(
    results: Seq<ToolResultView>,
    calls: Seq<ToolCallView>,
    loaded: Seq<LoadedView>,
    from: int,
    text: Seq<char>,
) -> Seq<ToolResultView>
    decreases calls.len(),
{
    if calls.len() == 0 {
        Seq::empty()
    } else {
        let before = calls_without(calls.drop_last(), answered_ids(results)).len();
        supply(results, calls.drop_last(), loaded, from, text).push(
            supplied(results, calls.last(), loaded_at(loaded, from + before), text),
        )
    }
}

/// The content that holds no result.
pub open spec fn other_blocks(content: Seq<UserContentView>) -> Seq<UserContentView>
    decreases content.len(),
{
    if content.len() == 0 {
        Seq::empty()
    } else if content.last() is ToolResult {
        other_blocks(content.drop_last())
    } else {
        other_blocks(content.drop_last()).push(content.last())
    }
}

/// The results that are not the first for one of the calls with these ids.
pub open spec fn leftovers(results: Seq<ToolResultView>, ids: Seq<Seq<char>>) -> Seq<ToolResultView>
    decreases results.len(),
{
    if results.len() == 0 {
        Seq::empty()
    } else if ids.contains(results.last().call) && !answered_ids(results.drop_last()).contains(
        results.last().call,
    ) {
        leftovers(results.drop_last(), ids)
    } else {
        leftovers(results.drop_last(), ids).push(results.last())
    }
}

/// The number of results that are missing before the message at `i`.
pub open spec fn missing_before(history: Seq<MessageView>, i: int) -> nat
    decreases i,
{
    if i <= 0 {
        0
    } else {
        missing_before(history, i - 1) + missing_at(history, i - 1).len()
    }
}

/// The results behind the message at `i`, put in the order of its calls, with what was loaded or
/// stands in for the missing ones. Results that answer no call stay behind them, so that they are
/// not hidden.
pub open spec fn arranged_batch(
    history: Seq<MessageView>,
    i: int,
    loaded: Seq<LoadedView>,
    text: Seq<char>,
) -> Seq<UserContentView> {
    let results = batch_results(history, i);
    let calls = calls_of(history[i]);
    other_blocks(batch_content(history, i)) + result_blocks(
        supply(results, calls, loaded, missing_before(history, i) as int, text),
    ) + result_blocks(leftovers(results, call_ids(calls)))
}

/// A history in which stored results, or else a text, stand in for the results that are missing.
pub open spec fn restored_history(
    history: Seq<MessageView>,
    loaded: Seq<LoadedView>,
    text: Seq<char>,
) -> Seq<MessageView> {
    rebuilt(history, 0, |i: int| arranged_batch(history, i, loaded, text))
}

/// All calls without results, from the message at `i` on.
pub open spec fn missing_from(history: Seq<MessageView>, i: int) -> Seq<ToolCallView>
    decreases history.len() - i,
{
    if i >= history.len() {
        Seq::empty()
    } else {
        missing_at(history, i) + missing_from(history, i + 1)
    }
}

/// The keys of some calls.
pub open spec fn keys_of(calls: Seq<ToolCallView>) -> Seq<ToolResultKeyView> {
    Seq::new(calls.len(), |k: int| call_key(calls[k]))
}

/// The first failure among what was loaded for so many missing results.
pub open spec fn first_failure(loaded: Seq<LoadedView>, k: int, needed: int) -> Option<Seq<char>>
    decreases needed - k,
{
    if k >= needed {
        None
    } else if let LoadedView::Failed(text) = loaded_at(loaded, k) {
        Some(text)
    } else {
        first_failure(loaded, k + 1, needed)
    }
}

fn make_stand_in(call: &ToolCall, text: &str) -> (r: ToolResult)
    ensures
        r.deep_view() == stand_in(call.deep_view(), text@),
{
    let mut content: Vec<ToolResultContent> = Vec::new();
    content.push(ToolResultContent::text(text));
    assert(content.deep_view() =~= seq![text_block(text@)]);
    ToolResult {
        call: call.id.clone(),
        provider: call.provider.clone(),
        name: call.function.name.clone(),
        content,
    }
}

/// Put results that stand in for those of some calls behind other content.
fn repair_tool_result_contents(content: &mut Vec<UserContent>, calls: &Vec<&ToolCall>, text: &str)
    ensures
        final(content).deep_view() == old(content).deep_view() + result_blocks(
            stand_ins(calls.deep_view(), text@),
        ),
{
    let ghost start = content.deep_view();
    let ghost blocks = result_blocks(stand_ins(calls.deep_view(), text@));
    assert(start + blocks.take(0) =~= start);
    let mut k: usize = 0;
    while k < calls.len()
        invariant
            k <= calls.len(),
            blocks == result_blocks(stand_ins(calls.deep_view(), text@)),
            content.deep_view() == start + blocks.take(k as int),
        decreases calls.len() - k,
    {
        let ghost before = content.deep_view();
        content.push(UserContent::ToolResult(make_stand_in(calls[k], text)));
        assert(content.deep_view() =~= before.push(blocks[k as int]));
        assert(content.deep_view() =~= start + blocks.take(k + 1));
        k += 1;
    }
    assert(blocks.take(blocks.len() as int) =~= blocks);
}

/// A user message of results that stand in for those of some calls.
fn repair_tool_result_message(calls: &Vec<&ToolCall>, text: &str) -> (r: Message)
    ensures
        r.deep_view() == (MessageView::User {
            content: result_blocks(stand_ins(calls.deep_view(), text@)),
        }),
{
    let mut content: Vec<UserContent> = Vec::new();
    assert(content.deep_view() =~= Seq::empty());
    repair_tool_result_contents(&mut content, calls, text);
    let ghost blocks = result_blocks(stand_ins(calls.deep_view(), text@));
    assert(Seq::<UserContentView>::empty() + blocks =~= blocks);
    Message::User { content }
}

/// The calls whose ids are not among some others.
fn unanswered<'a>(calls: &Vec<&'a ToolCall>, ids: &Vec<String>) -> (r: Vec<&'a ToolCall>)
    ensures
        r.deep_view() == calls_without(calls.deep_view(), ids.deep_view()),
{
    let ghost all = calls.deep_view();
    let mut found: Vec<&'a ToolCall> = Vec::new();
    assert(found.deep_view() =~= calls_without(all.take(0), ids.deep_view()));
    let mut k: usize = 0;
    while k < calls.len()
        invariant
            k <= calls.len(),
            all == calls.deep_view(),
            found.deep_view() == calls_without(all.take(k as int), ids.deep_view()),
        decreases calls.len() - k,
    {
        let ghost before = found.deep_view();
        assert(all.take(k + 1).drop_last() =~= all.take(k as int));
        assert(all.take(k + 1).last() == calls[k as int].deep_view());
        if !has_text(ids, &calls[k].id) {
            found.push(calls[k]);
            assert(found.deep_view() =~= before.push(calls[k as int].deep_view()));
        }
        k += 1;
    }
    assert(all.take(all.len() as int) =~= all);
    found
}

/// Where no result is there, all calls are without one.
proof fn lemma_all_missing(calls: Seq<ToolCallView>)
    ensures
        calls_without(calls, answered_ids(Seq::empty())) == calls,
    decreases calls.len(),
{
    if calls.len() > 0 {
        lemma_all_missing(calls.drop_last());
        assert(calls.drop_last().push(calls.last()) =~= calls);
    } else {
        assert(calls =~= Seq::empty());
    }
}

/// The content behind the message at `i`, where it holds results.
fn batch_behind(messages: &Vec<Message>, i: usize) -> (r: Option<&Vec<UserContent>>)
    requires
        i < messages.len(),
    ensures
        match r {
            Some(content) => has_batch(messages.deep_view(), i as int) && messages.deep_view()[i + 1]
                == (MessageView::User { content: content.deep_view() }),
            None => !has_batch(messages.deep_view(), i as int),
        },
{
    let ghost h = messages.deep_view();
    assert(h.len() == messages.len());
    if i + 1 < messages.len() {
        assert(h[i + 1] == messages[i + 1].deep_view());
        if let Message::User { content } = &messages[i + 1] {
            let found = results(content);
            assert(found.deep_view().len() == found.len());
            if found.len() > 0 {
                return Some(content);
            }
        }
    }
    None
}

/// Repair calls that have no results.
///
/// What is there is kept. A user message with results that stand in is put behind a message whose
/// calls have none, and missing results are added to batches that are not complete. Histories
/// that are invalid for other reasons stay invalid.
pub fn repair_unanswered_tool_calls(history: Vec<Message>, repair_message: &str) -> (r: Vec<Message>)
    ensures
        r.deep_view() == repaired(history.deep_view(), repair_message@),
{
    let ghost h = history.deep_view();
    let ghost text = repair_message@;
    let ghost batches = |i: int| filled_batch(h, i, text);
    let mut out: Vec<Message> = Vec::new();
    let mut i: usize = 0;
    assert(out.deep_view() + rebuilt(h, 0, batches) =~= rebuilt(h, 0, batches));
    while i < history.len()
        invariant
            i <= history.len(),
            h == history.deep_view(),
            text == repair_message@,
            batches == (|i: int| filled_batch(h, i, text)),
            out.deep_view() + rebuilt(h, i as int, batches) == rebuilt(h, 0, batches),
        decreases history.len() - i,
    {
        let ghost before = out.deep_view();
        let message = &history[i];
        assert(h[i as int] == message.deep_view());
        let expected = calls(message);
        assert(expected.deep_view().len() == expected.len());
        out.push(message.clone());
        if expected.is_empty() {
            assert(out.deep_view() + rebuilt(h, i + 1, batches) =~= before + rebuilt(
                h,
                i as int,
                batches,
            ));
            i += 1;
            continue;
        }
        match batch_behind(&history, i) {
            None => {
                proof {
                    lemma_all_missing(calls_of(h[i as int]));
                    assert(batch_content(h, i as int) + result_blocks(
                        stand_ins(missing_at(h, i as int), text),
                    ) =~= result_blocks(stand_ins(expected.deep_view(), text)));
                }
                out.push(repair_tool_result_message(&expected, repair_message));
                assert(out.deep_view() + rebuilt(h, i + 1, batches) =~= before + rebuilt(
                    h,
                    i as int,
                    batches,
                ));
                i += 1;
            },
            Some(content) => {
                let missing = unanswered(&expected, &tool_result_ids(content));
                assert(missing.deep_view() == missing_at(h, i as int));
                assert(missing.deep_view().len() == missing.len());
                if missing.is_empty() {
                    out.push(history[i + 1].clone());
                } else {
                    let mut filled = content.clone();
                    repair_tool_result_contents(&mut filled, &missing, repair_message);
                    assert(filled.deep_view() == filled_batch(h, i as int, text));
                    out.push(Message::User { content: filled });
                }
                assert(out.deep_view() + rebuilt(h, i + 2, batches) =~= before + rebuilt(
                    h,
                    i as int,
                    batches,
                ));
                i += 2;
            },
        }
    }
    assert(out.deep_view() + rebuilt(h, i as int, batches) =~= out.deep_view());
    out
}

/// A count that may go beyond the range of its type, and is then of no use as an index.
spec fn capped(n: int) -> int {
    if n > usize::MAX {
        usize::MAX as int
    } else {
        n
    }
}

fn find_loaded<'a>(loaded: &'a Vec<Loaded>, at: usize) -> (r: Option<&'a ToolResult>)
    ensures
        forall|n: int|
            at == #[trigger] capped(n) && n >= 0 ==> (match loaded_at(loaded.deep_view(), n) {
                LoadedView::Found(result) => r.deep_view() == Some(result),
                _ => r is None,
            }),
{
    assert(loaded.deep_view().len() == loaded.len());
    if at < loaded.len() {
        assert(loaded.deep_view()[at as int] == loaded[at as int].deep_view());
        if let Loaded::Found(result) = &loaded[at] {
            return Some(result);
        }
    }
    None
}

fn find_result<'a>(found: &Vec<&'a ToolResult>, id: &String) -> (r: Option<&'a ToolResult>)
    ensures
        r.deep_view() == first_result(found.deep_view(), id@),
{
    let ghost all = found.deep_view();
    let mut k: usize = 0;
    assert(all.skip(0) =~= all);
    while k < found.len()
        invariant
            k <= found.len(),
            all == found.deep_view(),
            first_result(all, id@) == first_result(all.skip(k as int), id@),
        decreases found.len() - k,
    {
        assert(all.skip(k as int)[0] == found[k as int].deep_view());
        assert(all.skip(k as int).skip(1) =~= all.skip(k + 1));
        if found[k].call.deep_eq(id) {
            return Some(found[k]);
        }
        k += 1;
    }
    None
}

/// A result is there for an id exactly when the id is among those answered.
proof fn lemma_first_result(results: Seq<ToolResultView>, id: Seq<char>)
    ensures
        first_result(results, id) is Some <==> answered_ids(results).contains(id),
    decreases results.len(),
{
    if results.len() > 0 {
        let rest = results.skip(1);
        lemma_first_result(rest, id);
        if results[0].call == id {
            assert(answered_ids(results)[0] == id);
        } else if answered_ids(rest).contains(id) {
            let k = choose|k: int| 0 <= k < rest.len() && answered_ids(rest)[k] == id;
            assert(answered_ids(results)[k + 1] == id);
        } else if answered_ids(results).contains(id) {
            let k = choose|k: int| 0 <= k < results.len() && answered_ids(results)[k] == id;
            assert(answered_ids(rest)[k - 1] == id);
        }
    }
}

fn identify(result: &ToolResult, call: &ToolCall) -> (r: ToolResult)
    ensures
        r.deep_view() == identified(result.deep_view(), call.deep_view()),
{
    ToolResult {
        call: call.id.clone(),
        provider: match &result.provider {
            Some(identity) => Some(identity.clone()),
            None => call.provider.clone(),
        },
        name: result.name.clone(),
        content: result.content.clone(),
    }
}

/// The results behind some calls, put in the order of the calls and completed.
fn repair_tool_result_content(
    content: &Vec<UserContent>,
    expected: &Vec<&ToolCall>,
    loaded: &Vec<Loaded>,
    from: usize,
    Ghost(start): Ghost<int>,
    text: &str,
) -> (r: Vec<UserContent>)
    requires
        start >= 0,
        from == capped(start),
    ensures
        r.deep_view() == other_blocks(content.deep_view()) + result_blocks(
            supply(
                results_in(content.deep_view()),
                expected.deep_view(),
                loaded.deep_view(),
                start,
                text@,
            ),
        ) + result_blocks(
            leftovers(results_in(content.deep_view()), call_ids(expected.deep_view())),
        ),
{
    let ghost c = content.deep_view();
    let ghost rs = results_in(c);
    let ghost calls = expected.deep_view();
    let ghost l = loaded.deep_view();
    let mut out: Vec<UserContent> = Vec::new();
    assert(out.deep_view() =~= other_blocks(c.take(0)));
    let mut i: usize = 0;
    while i < content.len()
        invariant
            i <= content.len(),
            c == content.deep_view(),
            out.deep_view() == other_blocks(c.take(i as int)),
        decreases content.len() - i,
    {
        let ghost before = out.deep_view();
        assert(c.take(i + 1).drop_last() =~= c.take(i as int));
        assert(c.take(i + 1).last() == content[i as int].deep_view());
        match &content[i] {
            UserContent::ToolResult(_) => {},
            other => {
                out.push(other.clone());
                assert(out.deep_view() =~= before.push(other.deep_view()));
            },
        }
        i += 1;
    }
    assert(c.take(c.len() as int) =~= c);
    let ghost others = other_blocks(c);
    let found = results(content);
    let mut at: usize = from;
    let mut k: usize = 0;
    assert(calls.take(0) =~= Seq::empty());
    assert(out.deep_view() =~= others + result_blocks(supply(rs, calls.take(0), l, start, text@)));
    while k < expected.len()
        invariant
            k <= expected.len(),
            calls == expected.deep_view(),
            rs == found.deep_view(),
            l == loaded.deep_view(),
            start >= 0,
            at == capped(start + calls_without(calls.take(k as int), answered_ids(rs)).len()),
            out.deep_view() == others + result_blocks(supply(rs, calls.take(k as int), l, start, text@)),
        decreases expected.len() - k,
    {
        let call = expected[k];
        let ghost before = out.deep_view();
        let ghost n = start + calls_without(calls.take(k as int), answered_ids(rs)).len();
        let ghost part = supply(rs, calls.take(k as int), l, start, text@);
        let ghost whole = supply(rs, calls.take(k + 1), l, start, text@);
        proof {
            assert(calls.take(k + 1).drop_last() =~= calls.take(k as int));
            assert(calls.take(k + 1).last() == call.deep_view());
            lemma_first_result(rs, call.id@);
        }
        let result = match find_result(&found, &call.id) {
            Some(result) => identify(result, call),
            None => {
                let stored = find_loaded(loaded, at);
                at = if at < usize::MAX {
                    at + 1
                } else {
                    at
                };
                match stored {
                    Some(result) => identify(result, call),
                    None => make_stand_in(call, text),
                }
            },
        };
        assert(result.deep_view() == supplied(rs, call.deep_view(), loaded_at(l, n), text@));
        out.push(UserContent::ToolResult(result));
        assert(whole == part.push(result.deep_view()));
        assert(result_blocks(whole) =~= result_blocks(part).push(
            UserContentView::ToolResult(result.deep_view()),
        ));
        assert(out.deep_view() =~= before.push(UserContentView::ToolResult(result.deep_view())));
        assert(out.deep_view() =~= others + result_blocks(whole));
        k += 1;
    }
    assert(calls.take(calls.len() as int) =~= calls);
    let ghost front = out.deep_view();
    let ghost ids = call_ids(calls);
    let known = ids_of_calls(expected);
    let mut j: usize = 0;
    assert(rs.take(0) =~= Seq::empty());
    assert(front + result_blocks(leftovers(rs.take(0), ids)) =~= front);
    while j < found.len()
        invariant
            j <= found.len(),
            rs == found.deep_view(),
            ids == known.deep_view(),
            out.deep_view() == front + result_blocks(leftovers(rs.take(j as int), ids)),
        decreases found.len() - j,
    {
        let result = found[j];
        let ghost before = out.deep_view();
        let ghost earlier = rs.take(j as int);
        proof {
            assert(rs.take(j + 1).drop_last() =~= earlier);
            assert(rs.take(j + 1).last() == result.deep_view());
        }
        let mut repeated = false;
        let mut i: usize = 0;
        while i < j
            invariant
                i <= j < found.len(),
                rs == found.deep_view(),
                result == found[j as int],
                earlier == rs.take(j as int),
                repeated <==> exists|a: int| 0 <= a < i && answered_ids(earlier)[a] == result.call@,
            decreases j - i,
        {
            assert(answered_ids(earlier)[i as int] == found[i as int].call@);
            if found[i].call.deep_eq(&result.call) {
                repeated = true;
            }
            i += 1;
        }
        assert(repeated <==> answered_ids(earlier).contains(result.call@));
        if repeated || !has_text(&known, &result.call) {
            out.push(UserContent::ToolResult(result.clone()));
            proof {
                let part = leftovers(earlier, ids);
                let block = UserContentView::ToolResult(result.deep_view());
                assert(leftovers(rs.take(j + 1), ids) == part.push(result.deep_view()));
                assert(result_blocks(part.push(result.deep_view())) =~= result_blocks(part).push(block));
                assert(out.deep_view() =~= before.push(block));
                assert(out.deep_view() =~= front + result_blocks(part.push(result.deep_view())));
            }
        }
        j += 1;
    }
    assert(rs.take(rs.len() as int) =~= rs);
    out
}

/// The keys of the results that are missing in a history, in the order in which they are needed.
pub fn missing_result_keys(history: &Vec<Message>) -> (r: Vec<ToolResultKey>)
    ensures
        r.deep_view() == keys_of(missing_from(history.deep_view(), 0)),
{
    let ghost h = history.deep_view();
    let mut keys: Vec<ToolResultKey> = Vec::new();
    let mut i: usize = 0;
    assert(keys.deep_view() + keys_of(missing_from(h, 0)) =~= keys_of(missing_from(h, 0)));
    while i < history.len()
        invariant
            i <= history.len(),
            h == history.deep_view(),
            keys.deep_view() + keys_of(missing_from(h, i as int)) == keys_of(missing_from(h, 0)),
        decreases history.len() - i,
    {
        let ghost start = keys.deep_view();
        let ghost here = missing_at(h, i as int);
        assert(h[i as int] == history[i as int].deep_view());
        let expected = calls(&history[i]);
        let missing = match batch_behind(history, i) {
            Some(content) => unanswered(&expected, &tool_result_ids(content)),
            None => {
                proof {
                    lemma_all_missing(calls_of(h[i as int]));
                }
                expected
            },
        };
        assert(missing.deep_view() == here);
        let mut k: usize = 0;
        assert(start + keys_of(here).take(0) =~= start);
        while k < missing.len()
            invariant
                k <= missing.len(),
                here == missing.deep_view(),
                keys.deep_view() == start + keys_of(here).take(k as int),
            decreases missing.len() - k,
        {
            let ghost before = keys.deep_view();
            keys.push(ToolResultKey::from_tool_call(missing[k]));
            assert(keys.deep_view() =~= before.push(keys_of(here)[k as int]));
            assert(keys.deep_view() =~= start + keys_of(here).take(k + 1));
            k += 1;
        }
        proof {
            let rest = missing_from(h, i + 1);
            assert(keys_of(here).take(keys_of(here).len() as int) =~= keys_of(here));
            assert(keys_of(here + rest) =~= keys_of(here) + keys_of(rest));
            assert(keys.deep_view() + keys_of(rest) =~= start + keys_of(here + rest));
        }
        i += 1;
    }
    assert(keys.deep_view() + keys_of(missing_from(h, i as int)) =~= keys.deep_view());
    keys
}

/// Repair calls that have no results, with stored results where there are any.
///
/// `loaded` holds what the store of results has under [`missing_result_keys`], in that order; the
/// repair text stands in where it has nothing.
pub fn repair_unanswered_tool_calls_with_persistence(
    history: Vec<Message>,
    repair_message: &str,
    loaded: &Vec<Loaded>,
) -> (r: Result<Vec<Message>, AgentLoopError>)
    ensures
        match first_failure(
            loaded.deep_view(),
            0,
            missing_from(history.deep_view(), 0).len() as int,
        ) {
            Some(text) => r matches Err(e) && e.deep_view()
                == AgentLoopErrorView::ToolResultPersistence(text),
            None => r matches Ok(messages) && messages.deep_view() == restored_history(
                history.deep_view(),
                loaded.deep_view(),
                repair_message@,
            ),
        },
{
    let ghost h = history.deep_view();
    let ghost text = repair_message@;
    let ghost l = loaded.deep_view();
    let keys = missing_result_keys(&history);
    let needed: usize = keys.len();
    assert(keys.deep_view().len() == needed);
    assert(needed == missing_from(h, 0).len());
    let mut k: usize = 0;
    while k < needed && k < loaded.len()
        invariant
            k <= needed,
            l == loaded.deep_view(),
            h == history.deep_view(),
            needed == missing_from(h, 0).len(),
            first_failure(l, 0, needed as int) == first_failure(l, k as int, needed as int),
        decreases needed - k,
    {
        assert(l[k as int] == loaded[k as int].deep_view());
        if let Loaded::Failed(reason) = &loaded[k] {
            return Err(AgentLoopError::ToolResultPersistence(reason.clone()));
        }
        k += 1;
    }
    proof {
        lemma_nothing_failed(l, k as int, needed as int);
    }
    let ghost batches = |i: int| arranged_batch(h, i, l, text);
    let mut out: Vec<Message> = Vec::new();
    let mut used: usize = 0;
    let mut i: usize = 0;
    assert(out.deep_view() + rebuilt(h, 0, batches) =~= rebuilt(h, 0, batches));
    while i < history.len()
        invariant
            i <= history.len(),
            h == history.deep_view(),
            text == repair_message@,
            l == loaded.deep_view(),
            batches == (|i: int| arranged_batch(h, i, l, text)),
            used == capped(missing_before(h, i as int) as int),
            out.deep_view() + rebuilt(h, i as int, batches) == rebuilt(h, 0, batches),
        decreases history.len() - i,
    {
        let ghost before = out.deep_view();
        let message = &history[i];
        assert(h[i as int] == message.deep_view());
        let expected = calls(message);
        assert(expected.deep_view().len() == expected.len());
        out.push(message.clone());
        let ghost start = missing_before(h, i as int) as int;
        assert(missing_before(h, i + 1) == missing_before(h, i as int) + missing_at(h, i as int).len());
        if expected.is_empty() {
            assert(missing_at(h, i as int).len() == 0);
            assert(out.deep_view() + rebuilt(h, i + 1, batches) =~= before + rebuilt(
                h,
                i as int,
                batches,
            ));
            i += 1;
            continue;
        }
        match batch_behind(&history, i) {
            None => {
                let nothing: Vec<UserContent> = Vec::new();
                assert(nothing.deep_view() =~= batch_content(h, i as int));
                assert(results_in(nothing.deep_view()) =~= batch_results(h, i as int));
                proof {
                    lemma_all_missing(calls_of(h[i as int]));
                }
                let content = repair_tool_result_content(
                    &nothing,
                    &expected,
                    loaded,
                    used,
                    Ghost(start),
                    repair_message,
                );
                out.push(Message::User { content });
                assert(out.deep_view() + rebuilt(h, i + 1, batches) =~= before + rebuilt(
                    h,
                    i as int,
                    batches,
                ));
                used = used.saturating_add(expected.len());
                i += 1;
            },
            Some(found) => {
                let missing = unanswered(&expected, &tool_result_ids(found)).len();
                assert(missing == missing_at(h, i as int).len());
                if missing == 0 {
                    out.push(history[i + 1].clone());
                } else {
                    let content = repair_tool_result_content(
                        found,
                        &expected,
                        loaded,
                        used,
                        Ghost(start),
                        repair_message,
                    );
                    out.push(Message::User { content });
                }
                assert(out.deep_view() + rebuilt(h, i + 2, batches) =~= before + rebuilt(
                    h,
                    i as int,
                    batches,
                ));
                proof {
                    assert(h[i + 1] is User);
                    assert(missing_at(h, i + 1).len() == 0);
                    assert(missing_before(h, i + 2) == missing_before(h, i + 1) + missing_at(h, i + 1).len());
                }
                used = used.saturating_add(missing);
                i += 2;
            },
        }
    }
    assert(out.deep_view() + rebuilt(h, i as int, batches) =~= out.deep_view());
    Ok(out)
}

/// A rebuilt history has at least the messages that were there.
pub(crate) proof fn lemma_rebuilt_len(
    history: Seq<MessageView>,
    i: int,
    batches: spec_fn(int) -> Seq<UserContentView>,
)
    requires
        0 <= i <= history.len(),
    ensures
        rebuilt(history, i, batches).len() >= history.len() - i,
    decreases history.len() - i,
{
    if i < history.len() {
        if calls_of(history[i]).len() == 0 {
            lemma_rebuilt_len(history, i + 1, batches);
        } else if has_batch(history, i) {
            lemma_rebuilt_len(history, i + 2, batches);
        } else {
            lemma_rebuilt_len(history, i + 1, batches);
        }
    }
}

/// Nothing failed where nobody looked.
pub(crate) proof fn lemma_nothing_failed(loaded: Seq<LoadedView>, k: int, needed: int)
    requires
        k >= loaded.len() || k >= needed,
        k >= 0,
    ensures
        first_failure(loaded, k, needed) is None,
    decreases needed - k,
{
    if k < needed {
        lemma_nothing_failed(loaded, k + 1, needed);
    }
}

} // verus!
