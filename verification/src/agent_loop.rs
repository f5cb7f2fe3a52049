//! An agent loop before it runs: its limits, its history and how it is started.
use crate::api::{
    AgentLoopError, AgentLoopErrorView, DEFAULT_MAX_TURNS,
    DEFAULT_UNANSWERED_TOOL_CALL_REPAIR_MESSAGE, InvalidMessageHistoryErrorView,
};
use crate::history::{resume_fault, validate_resume_history};
use crate::loop_rules::{LoopPhase, LoopPhaseView, Runner, RunnerView};
use crate::message::{Message, MessageView};
use crate::repair::{repair_unanswered_tool_calls, repaired};
use std::collections::VecDeque;
use vstd::prelude::*;

verus! {

/// What a loop is started with. Timeouts are in nanoseconds.
#[derive(Debug)]
pub struct AgentLoop {
    pub max_turns: usize,
    pub turn_timeout: Option<u128>,
    pub loop_timeout: Option<u128>,
    pub initial_history: Vec<Message>,
    /// Whether a hook is asked at every commit.
    pub turn_hook: bool,
    /// Whether a hook is told of every message of the assistant.
    pub assistant_message_hook: bool,
    /// What stands in for missing results; None for no repair.
    pub unanswered_tool_call_repair: Option<String>,
    /// Whether results are saved as they come.
    pub tool_result_persistence: bool,
}

/// The value of an [`AgentLoop`].
pub struct AgentLoopView {
    pub max_turns: usize,
    pub turn_timeout: Option<u128>,
    pub loop_timeout: Option<u128>,
    pub initial_history: Seq<MessageView>,
    pub turn_hook: bool,
    pub assistant_message_hook: bool,
    pub unanswered_tool_call_repair: Option<Seq<char>>,
    pub tool_result_persistence: bool,
}

impl DeepView for AgentLoop {
    type V = AgentLoopView;

    open spec fn deep_view(&self) -> AgentLoopView {
        AgentLoopView {
            max_turns: self.max_turns,
            turn_timeout: self.turn_timeout,
            loop_timeout: self.loop_timeout,
            initial_history: self.initial_history.deep_view(),
            turn_hook: self.turn_hook,
            assistant_message_hook: self.assistant_message_hook,
            unanswered_tool_call_repair: self.unanswered_tool_call_repair.deep_view(),
            tool_result_persistence: self.tool_result_persistence,
        }
    }
}

/// What a loop is started with unless it is told otherwise.
pub open spec fn default_loop() -> AgentLoopView {
    AgentLoopView {
        max_turns: DEFAULT_MAX_TURNS,
        turn_timeout: None,
        loop_timeout: None,
        initial_history: Seq::empty(),
        turn_hook: false,
        assistant_message_hook: false,
        unanswered_tool_call_repair: Some(DEFAULT_UNANSWERED_TOOL_CALL_REPAIR_MESSAGE@),
        tool_result_persistence: false,
    }
}

/// The history of a loop with its missing results stood in for.
pub open spec fn repaired_start(a: AgentLoopView) -> Seq<MessageView> {
    match a.unanswered_tool_call_repair {
        Some(text) => repaired(a.initial_history, text),
        None => a.initial_history,
    }
}

/// The history that a loop starts on. Where results are saved, they are looked up first, and the
/// history is repaired once the loop runs.
pub open spec fn start_history(a: AgentLoopView) -> Seq<MessageView> {
    if a.tool_result_persistence {
        a.initial_history
    } else {
        repaired_start(a)
    }
}

/// A loop that is about to run: on a prompt, or on the last message of its history.
pub open spec fn new_runner(a: AgentLoopView, prompt: Option<MessageView>) -> RunnerView {
    RunnerView {
        max_turns: a.max_turns,
        turn_timeout: a.turn_timeout,
        loop_timeout: a.loop_timeout,
        has_turn_hook: a.turn_hook,
        has_message_hook: a.assistant_message_hook,
        repair: a.unanswered_tool_call_repair,
        has_persistence: a.tool_result_persistence,
        history: start_history(a),
        turn_running: false,
        immediate: match prompt {
            Some(message) => seq![message],
            None => Seq::empty(),
        },
        steering: Seq::empty(),
        resumes: if prompt is Some {
            0
        } else {
            1
        },
        follow_ups: Seq::empty(),
        finish_when_idle: false,
        last_response: None,
        loop_deadline: None,
        phase: LoopPhaseView::Done,
    }
}

impl AgentLoop {
    /// A loop on an empty history with the default limits.
    pub fn new() -> (r: AgentLoop)
        ensures
            r.deep_view() == default_loop(),
    {
        let r = AgentLoop {
            max_turns: DEFAULT_MAX_TURNS,
            turn_timeout: None,
            loop_timeout: None,
            initial_history: Vec::new(),
            turn_hook: false,
            assistant_message_hook: false,
            unanswered_tool_call_repair: Some(
                DEFAULT_UNANSWERED_TOOL_CALL_REPAIR_MESSAGE.to_owned(),
            ),
            tool_result_persistence: false,
        };
        assert(r.initial_history.deep_view() =~= Seq::empty());
        r
    }

    /// The number of model calls that a turn may make.
    pub fn max_turns(self, max_turns: usize) -> (r: AgentLoop)
        ensures
            r.deep_view() == (AgentLoopView { max_turns, ..self.deep_view() }),
    {
        AgentLoop { max_turns, ..self }
    }

    /// How long a turn may take.
    pub fn turn_timeout(self, timeout: u128) -> (r: AgentLoop)
        ensures
            r.deep_view() == (AgentLoopView { turn_timeout: Some(timeout), ..self.deep_view() }),
    {
        AgentLoop { turn_timeout: Some(timeout), ..self }
    }

    /// How long the loop may take.
    pub fn loop_timeout(self, timeout: u128) -> (r: AgentLoop)
        ensures
            r.deep_view() == (AgentLoopView { loop_timeout: Some(timeout), ..self.deep_view() }),
    {
        AgentLoop { loop_timeout: Some(timeout), ..self }
    }

    /// The history to go on from.
    pub fn with_history(self, history: Vec<Message>) -> (r: AgentLoop)
        ensures
            r.deep_view() == (AgentLoopView {
                initial_history: history.deep_view(),
                ..self.deep_view()
            }),
    {
        AgentLoop { initial_history: history, ..self }
    }

    /// What stands in for missing results.
    pub fn with_unanswered_tool_call_repair_message(self, message: String) -> (r: AgentLoop)
        ensures
            r.deep_view() == (AgentLoopView {
                unanswered_tool_call_repair: Some(message@),
                ..self.deep_view()
            }),
    {
        AgentLoop { unanswered_tool_call_repair: Some(message), ..self }
    }

    /// Save results as they come, and use them in the repair of the history.
    pub fn with_incremental_tool_result_persistence(self) -> (r: AgentLoop)
        ensures
            r.deep_view() == (AgentLoopView { tool_result_persistence: true, ..self.deep_view() }),
    {
        AgentLoop { tool_result_persistence: true, ..self }
    }

    /// Tell a hook of every message of the assistant.
    pub fn on_assistant_message_finished(self) -> (r: AgentLoop)
        ensures
            r.deep_view() == (AgentLoopView { assistant_message_hook: true, ..self.deep_view() }),
    {
        AgentLoop { assistant_message_hook: true, ..self }
    }

    /// Ask a hook at every commit.
    pub fn with_turn_hook(self) -> (r: AgentLoop)
        ensures
            r.deep_view() == (AgentLoopView { turn_hook: true, ..self.deep_view() }),
    {
        AgentLoop { turn_hook: true, ..self }
    }

    fn repaired_initial_history(&self) -> (r: Vec<Message>)
        ensures
            r.deep_view() == repaired_start(self.deep_view()),
    {
        let history = self.initial_history.clone();
        match &self.unanswered_tool_call_repair {
            Some(message) => repair_unanswered_tool_calls(history, message.as_str()),
            None => history,
        }
    }

    fn initial_history(&self) -> (r: Vec<Message>)
        ensures
            r.deep_view() == start_history(self.deep_view()),
    {
        if self.tool_result_persistence {
            self.initial_history.clone()
        } else {
            self.repaired_initial_history()
        }
    }

    fn start(&self, prompt: Option<Message>) -> (r: Runner)
        ensures
            r.deep_view() == new_runner(self.deep_view(), prompt.deep_view()),
    {
        let history = self.initial_history();
        let mut immediate: VecDeque<Message> = VecDeque::new();
        let ghost p = prompt.deep_view();
        let resumes: usize = match prompt {
            Some(message) => {
                immediate.push_back(message);
                assert(immediate.deep_view() =~= seq![p->0]);
                0
            },
            None => {
                assert(immediate.deep_view() =~= Seq::empty());
                1
            },
        };
        let r = Runner {
            max_turns: self.max_turns,
            turn_timeout: self.turn_timeout,
            loop_timeout: self.loop_timeout,
            has_turn_hook: self.turn_hook,
            has_message_hook: self.assistant_message_hook,
            repair: self.unanswered_tool_call_repair.clone(),
            has_persistence: self.tool_result_persistence,
            history,
            turn_running: false,
            immediate,
            steering: VecDeque::new(),
            resumes,
            follow_ups: VecDeque::new(),
            finish_when_idle: false,
            last_response: None,
            loop_deadline: None,
            phase: LoopPhase::Done,
        };
        assert(r.steering.deep_view() =~= Seq::empty());
        assert(r.follow_ups.deep_view() =~= Seq::empty());
        r
    }

    /// A loop that starts on a prompt.
    pub fn prompt(&self, prompt: Message) -> (r: Runner)
        ensures
            r.deep_view() == new_runner(self.deep_view(), Some(prompt.deep_view())),
    {
        self.start(Some(prompt))
    }

    /// A loop that starts on the last message of its history, without a new prompt.
    pub fn resume(&self) -> (r: Result<Runner, AgentLoopError>)
        ensures
            match resume_fault(repaired_start(self.deep_view())) {
                None => r matches Ok(runner) && runner.deep_view() == new_runner(
                    self.deep_view(),
                    None,
                ),
                Some(text) => r matches Err(e) && e.deep_view()
                    == AgentLoopErrorView::InvalidMessageHistory(
                    InvalidMessageHistoryErrorView { message: text },
                ),
            },
    {
        let history = self.repaired_initial_history();
        if let Err(error) = validate_resume_history(&history) {
            return Err(AgentLoopError::InvalidMessageHistory(error));
        }
        Ok(self.start(None))
    }
}

/// Whether a running loop is to be sent a resume: not while a turn runs, and only where its
/// history admits one.
pub fn check_resume(turn_running: bool, history: &Vec<Message>) -> (r: Result<bool, AgentLoopError>)
    ensures
        turn_running ==> r == Ok::<bool, AgentLoopError>(false),
        !turn_running ==> (match resume_fault(history.deep_view()) {
            None => r == Ok::<bool, AgentLoopError>(true),
            Some(text) => r matches Err(e) && e.deep_view()
                == AgentLoopErrorView::InvalidMessageHistory(
                InvalidMessageHistoryErrorView { message: text },
            ),
        }),
{
    if turn_running {
        return Ok(false);
    }
    if let Err(error) = validate_resume_history(history) {
        return Err(AgentLoopError::InvalidMessageHistory(error));
    }
    Ok(true)
}

} // verus!
