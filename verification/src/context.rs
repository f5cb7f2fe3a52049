//! The view of a conversation that a model request is made on. A policy may shorten or rewrite the
//! history of a request; the prompt has to survive unchanged, and the journal is not touched.
use crate::deep::DeepEq;
use crate::journal::{is_history, law_journals_are_not_refused, refusal, validate_history};
use crate::message::{Message, MessageView};
use crate::session::{error_text, Error, ErrorView};
use vstd::prelude::*;

verus! {

/// A memory policy that is applied to every model request.
#[derive(Debug)]
pub struct ContextPolicy<P>(pub P);

/// Why the messages of a request view are refused by the rules of a history, in words.
pub open spec fn refusal_text(messages: Seq<MessageView>) -> Seq<char> {
    error_text(ErrorView::InvalidHistory(refusal(messages, false)->0))
}

/// What becomes of the messages that a policy left for a request on `prompt`: the history in front
/// of the prompt, or why the view is refused.
pub open spec fn policy_view(messages: Seq<MessageView>, prompt: MessageView) -> Result<
    Seq<MessageView>,
    Seq<char>,
> {
    if refusal(messages, false) is Some {
        Err(refusal_text(messages))
    } else if messages.len() == 0 || messages.last() != prompt {
        Err("context policy must retain the current prompt unchanged"@)
    } else {
        Ok(messages.drop_last())
    }
}

/// What becomes of the messages that a compaction left for a request on `prompt`.
pub open spec fn compacted_view(messages: Seq<MessageView>, prompt: MessageView) -> Result<
    Seq<MessageView>,
    Seq<char>,
> {
    if messages.len() == 0 || messages.last() != prompt {
        Err("compaction must retain the current prompt unchanged"@)
    } else if refusal(messages, false) is Some {
        Err(refusal_text(messages))
    } else {
        Ok(messages.drop_last())
    }
}

/// Whether a verdict on a view is the one that was specified.
pub open spec fn is_view(verdict: Result<Vec<Message>, String>, specified: Result<Seq<MessageView>, Seq<char>>) -> bool {
    match (verdict, specified) {
        (Ok(history), Ok(messages)) => history.deep_view() == messages,
        (Err(text), Err(reason)) => text@ == reason,
        _ => false,
    }
}

/// The messages of a request: its history and its prompt.
pub fn request_messages(history: &Vec<Message>, prompt: &Message) -> (r: Vec<Message>)
    ensures
        r.deep_view() == history.deep_view().push(prompt.deep_view()),
{
    let mut messages = history.clone();
    messages.push(prompt.clone());
    assert(messages.deep_view() =~= history.deep_view().push(prompt.deep_view()));
    messages
}

fn ends_with(messages: &Vec<Message>, prompt: &Message) -> (r: bool)
    ensures
        r == (messages.deep_view().len() > 0 && messages.deep_view().last() == prompt.deep_view()),
{
    assert(messages.deep_view().len() == messages.len());
    if messages.len() == 0 {
        return false;
    }
    let last = &messages[messages.len() - 1];
    assert(messages.deep_view().last() == last.deep_view());
    last.deep_eq(prompt)
}

fn without_last(messages: Vec<Message>) -> (r: Vec<Message>)
    requires
        messages.len() > 0,
    ensures
        r.deep_view() == messages.deep_view().drop_last(),
{
    let ghost all = messages.deep_view();
    let mut history = messages;
    let _ = history.pop();
    assert(history.deep_view() =~= all.drop_last());
    history
}

impl<P> ContextPolicy<P> {
    /// Hold the messages that the policy left against what a request on `prompt` needs. The
    /// history in front of the prompt is what the request is made on.
    pub fn accept(messages: Vec<Message>, prompt: &Message) -> (r: Result<Vec<Message>, String>)
        ensures
            is_view(r, policy_view(messages.deep_view(), prompt.deep_view())),
    {
        if let Err(error) = validate_history(&messages) {
            return Err(error.message());
        }
        assert(messages.deep_view().len() == messages.len());
        if !ends_with(&messages, prompt) {
            return Err("context policy must retain the current prompt unchanged".to_owned());
        }
        Ok(without_last(messages))
    }
}

/// Hold the messages that a compaction left against what a request on `prompt` needs. The history
/// in front of the prompt is what the request is made on.
pub fn accept_compacted(messages: Vec<Message>, prompt: &Message) -> (r: Result<Vec<Message>, String>)
    ensures
        is_view(r, compacted_view(messages.deep_view(), prompt.deep_view())),
{
    let ghost all = messages.deep_view();
    assert(messages.deep_view().len() == messages.len());
    if !ends_with(&messages, prompt) {
        return Err("compaction must retain the current prompt unchanged".to_owned());
    }
    proof {
        assert(all.drop_last().push(prompt.deep_view()) =~= all);
        law_journals_are_not_refused(all);
    }
    match history_patch(without_last(messages), prompt) {
        Ok(history) => Ok(history),
        Err(error) => Err(error.message()),
    }
}

/// Hold the request view of a custom compactor against the rules before its history is used. What
/// comes back is the history that the request is to be made on.
pub fn history_patch(history: Vec<Message>, prompt: &Message) -> (r: Result<Vec<Message>, Error>)
    ensures
        r is Ok <==> is_history(history.deep_view().push(prompt.deep_view())),
        match r {
            Ok(patched) => patched.deep_view() == history.deep_view(),
            Err(error) => refusal(history.deep_view().push(prompt.deep_view()), false) == Some(
                error.deep_view()->InvalidHistory_0,
            ) && error.deep_view() is InvalidHistory,
        },
{
    let full = request_messages(&history, prompt);
    validate_history(&full)?;
    Ok(history)
}

/// A view that is accepted keeps the prompt and is a history that a provider accepts; nothing in
/// it was changed.
pub proof fn law_accepted_views_keep_the_prompt(messages: Seq<MessageView>, prompt: MessageView)
    ensures
        policy_view(messages, prompt) matches Ok(history) ==> history.push(prompt) == messages
            && is_history(history.push(prompt)),
        compacted_view(messages, prompt) matches Ok(history) ==> history.push(prompt) == messages
            && is_history(history.push(prompt)),
{
    law_journals_are_not_refused(messages);
    if messages.len() > 0 {
        assert(messages.drop_last().push(messages.last()) =~= messages);
    }
}

/// A view is accepted exactly when it is a history that a provider accepts and its last message is
/// the prompt. So is the view that is the prompt alone: the request is then made on no history.
pub proof fn law_views_are_accepted(messages: Seq<MessageView>, prompt: MessageView)
    ensures
        policy_view(messages, prompt) is Ok <==> is_history(messages) && messages.len() > 0
            && messages.last() == prompt,
        compacted_view(messages, prompt) is Ok <==> is_history(messages) && messages.len() > 0
            && messages.last() == prompt,
        forall|history: Seq<MessageView>| #[trigger]
            is_history(history.push(prompt)) ==> policy_view(history.push(prompt), prompt) == Ok::<
                Seq<MessageView>,
                Seq<char>,
            >(history) && compacted_view(history.push(prompt), prompt) == Ok::<
                Seq<MessageView>,
                Seq<char>,
            >(history),
{
    law_journals_are_not_refused(messages);
    assert forall|history: Seq<MessageView>| #[trigger]
        is_history(history.push(prompt)) implies policy_view(history.push(prompt), prompt) == Ok::<
        Seq<MessageView>,
        Seq<char>,
    >(history) && compacted_view(history.push(prompt), prompt) == Ok::<Seq<MessageView>, Seq<char>>(
        history,
    ) by {
        law_journals_are_not_refused(history.push(prompt));
        assert(history.push(prompt).drop_last() =~= history);
    }
}

/// A policy and a compaction that leave the same messages are accepted alike.
pub proof fn law_policies_and_compactions_agree(messages: Seq<MessageView>, prompt: MessageView)
    ensures
        policy_view(messages, prompt) is Ok <==> compacted_view(messages, prompt) is Ok,
        policy_view(messages, prompt) is Ok ==> policy_view(messages, prompt) == compacted_view(
            messages,
            prompt,
        ),
{
}

} // verus!
