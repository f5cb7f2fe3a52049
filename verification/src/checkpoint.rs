//! What is durable of a running loop, and what a checkpoint is to write.
use crate::api::{
    AgentLoopError, AgentLoopErrorView, AssistantMessageContext, AssistantMessageContextView,
    InvalidMessageHistoryErrorView, ToolResultKey, ToolResultKeyView, TurnHookAction,
    TurnHookActionView, TurnHookContext, TurnHookContextView,
};
use crate::deep::DeepEq;
use crate::durable::{
    inbox_ids_from_messages, message_ids, DurableAgentError, DurableAgentErrorView,
    DurableTurnOutcome, DurableTurnOutcomeView, PersistMessagesArgs, PersistMessagesArgsView,
};
use crate::engine::starts_with;
use crate::history::{
    first_message_fault, first_order_fault, is_open_ordered, is_ordered,
    law_ordered_histories_have_no_fault, validate_message_history, validate_open_history,
};
use crate::message::{Message, MessageView};
use crate::repair::{
    arranged_batch, first_failure, keys_of, lemma_rebuilt_len, missing_from, missing_result_keys,
    repair_unanswered_tool_calls_with_persistence, restored_history, Loaded, LoadedView,
};
use crate::repair_laws::law_open_histories_are_repaired_at_the_end;
use vstd::prelude::*;

verus! {

/// What was made durable.
#[derive(Debug, PartialEq, Eq)]
pub enum DurableCheckpoint {
    /// A message of the assistant. Its calls may be open.
    AssistantMessageFinished(AssistantMessageContext),
    /// A turn. Its history is valid.
    TurnBoundary(TurnHookContext),
}

/// The value of a [`DurableCheckpoint`].
pub enum DurableCheckpointView {
    AssistantMessageFinished(AssistantMessageContextView),
    TurnBoundary(TurnHookContextView),
}

impl DeepView for DurableCheckpoint {
    type V = DurableCheckpointView;

    open spec fn deep_view(&self) -> DurableCheckpointView {
        match self {
            DurableCheckpoint::AssistantMessageFinished(x) => DurableCheckpointView::AssistantMessageFinished(x.deep_view()),
            DurableCheckpoint::TurnBoundary(x) => DurableCheckpointView::TurnBoundary(x.deep_view()),
        }
    }
}

/// What is to be done at a checkpoint.
#[derive(Debug, PartialEq, Eq)]
pub enum DurableCheckpointAction {
    Continue,
    Abort { reason: String },
}

/// The value of a [`DurableCheckpointAction`].
pub enum DurableCheckpointActionView {
    Continue,
    Abort { reason: Seq<char> },
}

impl DeepView for DurableCheckpointAction {
    type V = DurableCheckpointActionView;

    open spec fn deep_view(&self) -> DurableCheckpointActionView {
        match self {
            DurableCheckpointAction::Continue => DurableCheckpointActionView::Continue,
            DurableCheckpointAction::Abort { reason } => DurableCheckpointActionView::Abort { reason: reason.deep_view() },
        }
    }
}

impl Clone for DurableCheckpointAction {
    fn clone(&self) -> (r: DurableCheckpointAction)
        ensures
            r.deep_view() == self.deep_view(),
    {
        match self {
            DurableCheckpointAction::Continue => DurableCheckpointAction::Continue,
            DurableCheckpointAction::Abort { reason } => DurableCheckpointAction::Abort { reason: reason.clone() },
        }
    }
}

/// What is known to be durable.
#[derive(Debug, PartialEq, Eq)]
pub struct DurableCheckpointer {
    pub persisted_history: Vec<Message>,
    pub repair_message: Option<String>,
    pub abort_reason: Option<String>,
}

/// The value of a [`DurableCheckpointer`].
pub struct DurableCheckpointerView {
    pub persisted_history: Seq<MessageView>,
    pub repair_message: Option<Seq<char>>,
    pub abort_reason: Option<Seq<char>>,
}

impl DeepView for DurableCheckpointer {
    type V = DurableCheckpointerView;

    open spec fn deep_view(&self) -> DurableCheckpointerView {
        DurableCheckpointerView {
            persisted_history: self.persisted_history.deep_view(),
            repair_message: self.repair_message.deep_view(),
            abort_reason: self.abort_reason.deep_view(),
        }
    }
}

/// What a checkpoint is to write, and what holds once it is written.
#[derive(Debug, PartialEq, Eq)]
pub struct CheckpointPlan {
    /// The transaction; None where there is nothing to write.
    pub args: Option<PersistMessagesArgs>,
    pub persisted_history: Vec<Message>,
    /// The history to go on with, where it is not the one that was told.
    pub replacement_history: Option<Vec<Message>>,
}

/// The value of a [`CheckpointPlan`].
pub struct CheckpointPlanView {
    pub args: Option<PersistMessagesArgsView>,
    pub persisted_history: Seq<MessageView>,
    pub replacement_history: Option<Seq<MessageView>>,
}

impl DeepView for CheckpointPlan {
    type V = CheckpointPlanView;

    open spec fn deep_view(&self) -> CheckpointPlanView {
        CheckpointPlanView {
            args: self.args.deep_view(),
            persisted_history: self.persisted_history.deep_view(),
            replacement_history: self.replacement_history.deep_view(),
        }
    }
}

/// How many messages two histories have in common from the start.
pub open spec fn common_len(left: Seq<MessageView>, right: Seq<MessageView>) -> nat
    decreases left.len(),
{
    if left.len() > 0 && right.len() > 0 && left[0] == right[0] {
        1 + common_len(left.skip(1), right.skip(1))
    } else {
        0
    }
}

/// How many messages two histories have in common from the start.
pub fn common_prefix_len(left: &Vec<Message>, right: &Vec<Message>) -> (r: usize)
    ensures
        r == common_len(left.deep_view(), right.deep_view()),
        r <= left.len(),
        r <= right.len(),
{
    let ghost (l, r0) = (left.deep_view(), right.deep_view());
    let mut i: usize = 0;
    assert(l.skip(0) =~= l);
    assert(r0.skip(0) =~= r0);
    while i < left.len() && i < right.len() && left[i].deep_eq(&right[i])
        invariant
            i <= left.len(),
            i <= right.len(),
            l == left.deep_view(),
            r0 == right.deep_view(),
            common_len(l, r0) == i + common_len(l.skip(i as int), r0.skip(i as int)),
        decreases left.len() - i,
    {
        assert(l.skip(i as int)[0] == left[i as int].deep_view());
        assert(r0.skip(i as int)[0] == right[i as int].deep_view());
        assert(l.skip(i as int).skip(1) =~= l.skip(i + 1));
        assert(r0.skip(i as int).skip(1) =~= r0.skip(i + 1));
        i += 1;
    }
    proof {
        if i < left.len() && i < right.len() {
            assert(l.skip(i as int)[0] == left[i as int].deep_view());
            assert(r0.skip(i as int)[0] == right[i as int].deep_view());
        }
    }
    i
}

/// The transaction for some messages and an outcome; None where there is nothing to write.
pub open spec fn transaction(messages: Seq<MessageView>, outcome: Option<DurableTurnOutcomeView>) -> Option<
    PersistMessagesArgsView,
> {
    if messages.len() == 0 && outcome is None {
        None
    } else {
        Some(
            PersistMessagesArgsView {
                messages,
                ack_inbox_entry_ids: message_ids(messages),
                turn_outcome: outcome,
            },
        )
    }
}

/// What is known to be durable, with the missing results stood in for; or why it cannot be.
pub open spec fn durable_repair(c: DurableCheckpointerView, loaded: Seq<LoadedView>) -> Result<
    Seq<MessageView>,
    DurableAgentErrorView,
> {
    match c.repair_message {
        None => Ok(c.persisted_history),
        Some(text) => match first_failure(
            loaded,
            0,
            missing_from(c.persisted_history, 0).len() as int,
        ) {
            Some(reason) => Err(
                DurableAgentErrorView::AgentLoop(AgentLoopErrorView::ToolResultPersistence(reason)),
            ),
            None => Ok(restored_history(c.persisted_history, loaded, text)),
        },
    }
}

/// A history is not valid, for a reason.
pub open spec fn invalid_durable(text: Seq<char>) -> DurableAgentErrorView {
    DurableAgentErrorView::AgentLoop(
        AgentLoopErrorView::InvalidMessageHistory(InvalidMessageHistoryErrorView { message: text }),
    )
}

/// What holds of a checkpointer: what is durable has no fault, but its end may hold calls without
/// results.
pub open spec fn can_be_appended(c: DurableCheckpointerView) -> bool {
    is_open_ordered(c.persisted_history)
}

/// What a checkpoint of a history is to write. A history that goes on from what is durable is
/// appended to it. Where it does not, what is durable is repaired, and the rest of the history is
/// put behind it.
pub open spec fn checkpoint_plan(
    c: DurableCheckpointerView,
    history: Seq<MessageView>,
    outcome: Option<DurableTurnOutcomeView>,
    loaded: Seq<LoadedView>,
) -> Result<CheckpointPlanView, DurableAgentErrorView> {
    if c.persisted_history.is_prefix_of(history) {
        Ok(
            CheckpointPlanView {
                args: transaction(history.skip(c.persisted_history.len() as int), outcome),
                persisted_history: history,
                replacement_history: None,
            },
        )
    } else {
        let rest = history.skip(common_len(c.persisted_history, history) as int);
        match durable_repair(c, loaded) {
            Err(error) => Err(error),
            Ok(mended) => match first_order_fault(mended + rest, 0) {
                Some(text) => Err(invalid_durable(text)),
                None => Ok(
                    CheckpointPlanView {
                        args: transaction(
                            mended.skip(c.persisted_history.len() as int) + rest,
                            outcome,
                        ),
                        persisted_history: mended + rest,
                        replacement_history: Some(mended + rest),
                    },
                ),
            },
        }
    }
}

/// The results to look up before a checkpoint of a history.
pub open spec fn checkpoint_keys(c: DurableCheckpointerView, history: Seq<MessageView>) -> Seq<ToolResultKeyView> {
    if c.persisted_history.is_prefix_of(history) || c.repair_message is None {
        Seq::empty()
    } else {
        keys_of(missing_from(c.persisted_history, 0))
    }
}

fn make_transaction(messages: Vec<Message>, turn_outcome: Option<DurableTurnOutcome>) -> (r: Option<
    PersistMessagesArgs,
>)
    ensures
        r.deep_view() == transaction(messages.deep_view(), turn_outcome.deep_view()),
{
    assert(messages.deep_view().len() == messages.len());
    if messages.is_empty() && turn_outcome.is_none() {
        return None;
    }
    let ack_inbox_entry_ids = inbox_ids_from_messages(&messages);
    Some(PersistMessagesArgs { messages, ack_inbox_entry_ids, turn_outcome })
}

fn rest_of(messages: &Vec<Message>, from: usize) -> (r: Vec<Message>)
    requires
        from <= messages.len(),
    ensures
        r.deep_view() == messages.deep_view().skip(from as int),
{
    let mut all = messages.clone();
    assert(all.deep_view() == messages.deep_view());
    let rest = all.split_off(from);
    assert(rest.deep_view() =~= messages.deep_view().skip(from as int));
    rest
}

impl DurableCheckpointer {
    /// What is durable at the start. Only calls at its end may lack results: what is written is
    /// appended, so a batch of results that is not complete, or another fault, cannot be mended
    /// here, and is refused before anything is run.
    pub fn new(persisted_history: Vec<Message>, repair_message: Option<String>) -> (r: Result<
        DurableCheckpointer,
        DurableAgentError,
    >)
        ensures
            match first_message_fault(persisted_history.deep_view(), 0) {
                None => r matches Ok(c) && c.deep_view() == (DurableCheckpointerView {
                    persisted_history: persisted_history.deep_view(),
                    repair_message: repair_message.deep_view(),
                    abort_reason: None,
                }),
                Some(text) => r matches Err(e) && e.deep_view() == invalid_durable(text),
            },
            r matches Ok(c) ==> can_be_appended(c.deep_view()),
            r is Ok <==> is_open_ordered(persisted_history.deep_view()),
    {
        match validate_open_history(&persisted_history) {
            Ok(()) => Ok(DurableCheckpointer { persisted_history, repair_message, abort_reason: None }),
            Err(error) => Err(
                DurableAgentError::AgentLoop(AgentLoopError::InvalidMessageHistory(error)),
            ),
        }
    }

    /// The results to look up before a checkpoint of a history.
    pub fn needed_keys(&self, history: &Vec<Message>) -> (r: Vec<ToolResultKey>)
        ensures
            r.deep_view() == checkpoint_keys(self.deep_view(), history.deep_view()),
    {
        if starts_with(history, &self.persisted_history) || self.repair_message.is_none() {
            let none: Vec<ToolResultKey> = Vec::new();
            assert(none.deep_view() =~= Seq::empty());
            return none;
        }
        missing_result_keys(&self.persisted_history)
    }

    fn repair_persisted_history(&self, loaded: &Vec<Loaded>) -> (r: Result<
        Vec<Message>,
        DurableAgentError,
    >)
        ensures
            match durable_repair(self.deep_view(), loaded.deep_view()) {
                Ok(history) => r matches Ok(messages) && messages.deep_view() == history,
                Err(error) => r matches Err(e) && e.deep_view() == error,
            },
    {
        match &self.repair_message {
            None => Ok(self.persisted_history.clone()),
            Some(text) => match repair_unanswered_tool_calls_with_persistence(
                self.persisted_history.clone(),
                text.as_str(),
                loaded,
            ) {
                Ok(history) => Ok(history),
                Err(error) => Err(DurableAgentError::AgentLoop(error)),
            },
        }
    }

    /// What a checkpoint of a history is to write; `loaded` holds what was found under
    /// [`DurableCheckpointer::needed_keys`].
    pub fn checkpoint_history(
        &self,
        history: &Vec<Message>,
        turn_outcome: Option<DurableTurnOutcome>,
        loaded: &Vec<Loaded>,
    ) -> (r: Result<CheckpointPlan, DurableAgentError>)
        ensures
            match checkpoint_plan(
                self.deep_view(),
                history.deep_view(),
                turn_outcome.deep_view(),
                loaded.deep_view(),
            ) {
                Ok(plan) => r matches Ok(p) && p.deep_view() == plan,
                Err(error) => r matches Err(e) && e.deep_view() == error,
            },
    {
        let ghost (h, p) = (history.deep_view(), self.persisted_history.deep_view());
        assert(h.len() == history.len());
        assert(p.len() == self.persisted_history.len());
        if starts_with(history, &self.persisted_history) {
            let delta = rest_of(history, self.persisted_history.len());
            return Ok(
                CheckpointPlan {
                    args: make_transaction(delta, turn_outcome),
                    persisted_history: history.clone(),
                    replacement_history: None,
                },
            );
        }
        let common = common_prefix_len(&self.persisted_history, history);
        let mended = match self.repair_persisted_history(loaded) {
            Ok(mended) => mended,
            Err(error) => {
                return Err(error);
            },
        };
        let ghost m = mended.deep_view();
        assert(m.len() == mended.len());
        let mut rest = rest_of(history, common);
        let ghost tail = rest.deep_view();
        let mut replacement = mended.clone();
        let mut more = rest.clone();
        replacement.append(&mut more);
        assert(replacement.deep_view() =~= m + tail);
        if let Err(error) = validate_message_history(&replacement) {
            return Err(DurableAgentError::AgentLoop(AgentLoopError::InvalidMessageHistory(error)));
        }
        proof {
            law_ordered_histories_have_no_fault(m + tail);
            lemma_repair_adds(self.deep_view(), loaded.deep_view());
        }
        let mut delta = rest_of(&mended, self.persisted_history.len());
        delta.append(&mut rest);
        assert(delta.deep_view() =~= m.skip(p.len() as int) + tail);
        let replacement_history = replacement.clone();
        Ok(
            CheckpointPlan {
                args: make_transaction(delta, turn_outcome),
                persisted_history: replacement,
                replacement_history: Some(replacement_history),
            },
        )
    }

    /// What a checkpoint was to write is written.
    pub fn confirm(&mut self, persisted_history: Vec<Message>)
        ensures
            final(self).deep_view() == (DurableCheckpointerView {
                persisted_history: persisted_history.deep_view(),
                ..old(self).deep_view()
            }),
    {
        self.persisted_history = persisted_history;
    }

    /// Act on what is asked for at a message of the assistant: whether the run is to be aborted.
    pub fn assistant_finished(&mut self, action: DurableCheckpointAction) -> (r: bool)
        ensures
            r == (action is Abort),
            final(self).deep_view() == (DurableCheckpointerView {
                abort_reason: match action.deep_view() {
                    DurableCheckpointActionView::Abort { reason } => Some(reason),
                    DurableCheckpointActionView::Continue => old(self).deep_view().abort_reason,
                },
                ..old(self).deep_view()
            }),
    {
        match action {
            DurableCheckpointAction::Continue => false,
            DurableCheckpointAction::Abort { reason } => {
                self.abort_reason = Some(reason);
                true
            },
        }
    }

    /// Act on what is asked for at the end of a turn. An abort that was asked for earlier counts
    /// unless another one is asked for now.
    pub fn turn_committed(
        &mut self,
        replacement_history: Option<Vec<Message>>,
        action: DurableCheckpointAction,
    ) -> (r: TurnHookAction)
        ensures
            r.deep_view() == hook_action(
                replacement_history.deep_view(),
                match action.deep_view() {
                    DurableCheckpointActionView::Abort { reason } => Some(reason),
                    DurableCheckpointActionView::Continue => old(self).deep_view().abort_reason,
                },
            ),
            final(self).deep_view() == (DurableCheckpointerView {
                abort_reason: match action.deep_view() {
                    DurableCheckpointActionView::Abort { .. } => old(self).deep_view().abort_reason,
                    DurableCheckpointActionView::Continue => None,
                },
                ..old(self).deep_view()
            }),
    {
        let abort_reason = match action {
            DurableCheckpointAction::Continue => self.abort_reason.take(),
            DurableCheckpointAction::Abort { reason } => Some(reason),
        };
        match (replacement_history, abort_reason) {
            (Some(history), Some(reason)) => TurnHookAction::ReplaceHistoryAndAbort { history, reason },
            (Some(history), None) => TurnHookAction::ReplaceHistory(history),
            (None, Some(reason)) => TurnHookAction::Abort { reason },
            (None, None) => TurnHookAction::Continue,
        }
    }
}

/// What is asked of a loop at the end of a turn.
pub open spec fn hook_action(replaced: Option<Seq<MessageView>>, stopped: Option<Seq<char>>) -> TurnHookActionView {
    match (replaced, stopped) {
        (Some(history), Some(reason)) => TurnHookActionView::ReplaceHistoryAndAbort { history, reason },
        (Some(history), None) => TurnHookActionView::ReplaceHistory(history),
        (None, Some(reason)) => TurnHookActionView::Abort { reason },
        (None, None) => TurnHookActionView::Continue,
    }
}

/// What is recorded of a turn.
pub fn turn_outcome(turn: &TurnHookContext) -> (r: DurableTurnOutcome)
    ensures
        r.deep_view() == (DurableTurnOutcomeView {
            kind: turn.deep_view().outcome_kind,
            end_reason: turn.deep_view().end_reason,
            usage: turn.deep_view().usage,
        }),
{
    DurableTurnOutcome {
        kind: turn.outcome_kind,
        end_reason: turn.end_reason.clone(),
        usage: turn.usage,
    }
}

/// A repair takes no message away.
proof fn lemma_repair_adds(c: DurableCheckpointerView, loaded: Seq<LoadedView>)
    ensures
        durable_repair(c, loaded) matches Ok(mended) ==> mended.len() >= c.persisted_history.len(),
{
    if let Some(text) = c.repair_message {
        lemma_rebuilt_len(
            c.persisted_history,
            0,
            |i: int| arranged_batch(c.persisted_history, i, loaded, text),
        );
    }
}

/// What a checkpoint writes behind what is durable is what is durable afterwards, whatever the
/// history. What is durable stays free of faults if the history is.
pub proof fn law_checkpoints_append(
    c: DurableCheckpointerView,
    history: Seq<MessageView>,
    outcome: Option<DurableTurnOutcomeView>,
    loaded: Seq<LoadedView>,
)
    requires
        can_be_appended(c),
        checkpoint_plan(c, history, outcome, loaded) is Ok,
    ensures
        is_open_ordered(history) ==> is_open_ordered(
            checkpoint_plan(c, history, outcome, loaded)->Ok_0.persisted_history,
        ),
        ({
            let plan = checkpoint_plan(c, history, outcome, loaded)->Ok_0;
            let written = match plan.args {
                Some(args) => args.messages,
                None => Seq::empty(),
            };
            c.persisted_history + written == plan.persisted_history
        }),
{
    let plan = checkpoint_plan(c, history, outcome, loaded)->Ok_0;
    let p = c.persisted_history;
    if p.is_prefix_of(history) {
        assert(p + history.skip(p.len() as int) =~= history);
        assert(p + Seq::<MessageView>::empty() =~= p);
        if plan.args is None {
            assert(history =~= p);
        }
    } else {
        let mended = durable_repair(c, loaded)->Ok_0;
        let rest = history.skip(common_len(p, history) as int);
        if let Some(text) = c.repair_message {
            law_open_histories_are_repaired_at_the_end(p, loaded, text);
        }
        law_ordered_histories_have_no_fault(mended + rest);
        assert(p + (mended.skip(p.len() as int) + rest) =~= mended + rest);
        if plan.args is None {
            assert(mended + rest =~= p);
            assert(p + Seq::<MessageView>::empty() =~= p);
        }
    }
}

/// A checkpoint acknowledges exactly the entries whose messages it writes.
pub proof fn law_checkpoints_ack_what_they_write(
    c: DurableCheckpointerView,
    history: Seq<MessageView>,
    outcome: Option<DurableTurnOutcomeView>,
    loaded: Seq<LoadedView>,
)
    ensures
        checkpoint_plan(c, history, outcome, loaded) matches Ok(plan) ==> (plan.args matches Some(args)
            ==> args.ack_inbox_entry_ids == message_ids(args.messages)),
{
}

/// A history that a checkpoint puts in the place of another one is valid.
pub proof fn law_replacements_are_valid(
    c: DurableCheckpointerView,
    history: Seq<MessageView>,
    outcome: Option<DurableTurnOutcomeView>,
    loaded: Seq<LoadedView>,
)
    ensures
        checkpoint_plan(c, history, outcome, loaded) matches Ok(plan) ==> (
        plan.replacement_history matches Some(replacement) ==> is_ordered(replacement)),
{
    if let Ok(mended) = durable_repair(c, loaded) {
        law_ordered_histories_have_no_fault(
            mended + history.skip(common_len(c.persisted_history, history) as int),
        );
    }
}

} // verus!
