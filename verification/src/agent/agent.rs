//! The agent between its runs.

use vstd::prelude::*;
use crate::agent::agent_loop::{AgentLoop, InputModel, LoopModel, StepOutput};
use crate::agent::config::AgentConfig;
use crate::agent::event::EventModel;
use crate::ai::message::{copy_messages, Message, MessageModel};

verus! {

/// An agent: a language model and the conversation with it.
///
/// During a run the conversation is the run's. It is handed back when the run is
/// over.
#[derive(Debug)]
pub struct Agent<M> {
    model: M,
    history: Vec<Message>,
    running: bool,
    backup: Vec<Message>,
}

/// What an agent is.
pub struct AgentModel<M> {
    pub model: M,
    pub history: Seq<MessageModel>,
    /// Whether a run is going on.
    pub running: bool,
    /// The conversation before the last run began.
    pub backup: Seq<MessageModel>,
}

impl<M> View for Agent<M> {
    type V = AgentModel<M>;

    closed spec fn view(&self) -> AgentModel<M> {
        AgentModel {
            model: self.model,
            history: self.history.deep_view(),
            running: self.running,
            backup: self.backup.deep_view(),
        }
    }
}

/// The conversation that a run begins with.
pub open spec fn with_user_message(history: Seq<MessageModel>, user_input: Seq<char>) -> Seq<MessageModel> {
    history.push(MessageModel::User { content: user_input })
}

/// An agent whose run has begun.
pub open spec fn begun<M>(a: AgentModel<M>) -> AgentModel<M> {
    AgentModel { history: Seq::empty(), running: true, backup: a.history, ..a }
}

/// An agent that took its run back.
pub open spec fn taken_back<M>(a: AgentModel<M>, run: LoopModel) -> AgentModel<M> {
    AgentModel { history: run.history, running: false, ..a }
}

/// An agent whose run broke down.
pub open spec fn recovered<M>(a: AgentModel<M>) -> AgentModel<M> {
    AgentModel { history: a.backup, running: false, ..a }
}

/// An agent that has said nothing yet.
pub open spec fn fresh<M>(model: M, system_prompt: Seq<char>) -> AgentModel<M> {
    AgentModel {
        model,
        history: if system_prompt.len() == 0 {
            Seq::empty()
        } else {
            seq![MessageModel::System { content: system_prompt }]
        },
        running: false,
        backup: Seq::empty(),
    }
}

impl<M> Agent<M> {
    /// An agent that has said nothing yet.
    pub fn new(model: M, system_prompt: String) -> (r: Self)
        ensures
            r@ == (AgentModel {
                model,
                history: if system_prompt@.len() == 0 {
                    Seq::empty()
                } else {
                    seq![MessageModel::System { content: system_prompt@ }]
                },
                running: false,
                backup: Seq::empty(),
            }),
            r@ == fresh(model, system_prompt@),
    {
        let mut history: Vec<Message> = Vec::new();
        if !system_prompt.as_str().is_empty() {
            history.push(Message::System { content: system_prompt });
            assert(history.deep_view() =~= seq![MessageModel::System { content: system_prompt@ }]);
        } else {
            assert(history.deep_view() =~= Seq::<MessageModel>::empty());
        }
        let backup: Vec<Message> = Vec::new();
        assert(backup.deep_view() =~= Seq::<MessageModel>::empty());
        Agent { model, history, running: false, backup }
    }

    /// The language model.
    pub fn model(&self) -> (r: &M)
        ensures
            *r == self@.model,
    {
        &self.model
    }

    /// The conversation, as it stands.
    pub fn history(&self) -> (r: Vec<Message>)
        ensures
            r.deep_view() == self@.history,
    {
        copy_messages(&self.history)
    }

    /// Puts another conversation in place of this one.
    pub fn set_history(&mut self, history: Vec<Message>)
        ensures
            final(self)@ == (AgentModel { history: history.deep_view(), ..old(self)@ }),
    {
        self.history = history;
    }

    /// Whether a run is going on.
    pub fn is_running(&self) -> (r: bool)
        ensures
            r == self@.running,
    {
        self.running
    }

    /// Begins a run with a message of the user. The run takes the conversation
    /// with it.
    pub fn run_stream(&mut self, user_input: &str, config: &AgentConfig) -> (r: (AgentLoop, StepOutput))
        requires
            !old(self)@.running,
        ensures
            final(self)@ == begun(old(self)@),
            r.0.wf(),
            ({
                let begin = crate::agent::agent_loop::start(
                    with_user_message(old(self)@.history, user_input@),
                    config.max_tool_rounds as nat,
                );
                &&& r.0@ == begin.state
                &&& r.1.events.deep_view() == begin.events
                &&& r.1.reinjected.deep_view() == begin.reinjected
            }),
            r.0@.history == old(self)@.history.push(MessageModel::User { content: user_input@ }),
    {
        let ghost before = self.history.deep_view();
        self.running = true;
        self.backup = copy_messages(&self.history);
        let mut history: Vec<Message> = Vec::new();
        assert(history.deep_view() =~= Seq::<MessageModel>::empty());
        std::mem::swap(&mut history, &mut self.history);
        history.push(Message::user(user_input));
        assert(history.deep_view() =~= with_user_message(before, user_input@));
        AgentLoop::start(history, config.max_tool_rounds)
    }

    /// Takes note that the run is over, and takes its conversation back.
    pub fn finish(&mut self, run: AgentLoop)
        requires
            old(self)@.running,
        ensures
            final(self)@ == taken_back(old(self)@, run@),
    {
        self.history = run.into_history();
        self.running = false;
    }

    /// Takes note that the run broke down, and goes back to the conversation before
    /// the user's message.
    pub fn recover(&mut self)
        requires
            old(self)@.running,
        ensures
            final(self)@ == recovered(old(self)@),
    {
        self.history = copy_messages(&self.backup);
        self.running = false;
    }
}

/// The conversation of an agent is that of its last run: an agent that began a run
/// with `user_input`, and took it back after the reports `inputs`, has said what it
/// had said before, then the user's message, and then what the run added; and it is
/// what the run's last event tells.
pub proof fn lemma_history_is_written_back<M>(
    before: AgentModel<M>,
    user_input: Seq<char>,
    max_rounds: nat,
    inputs: Seq<InputModel>,
)
    ensures
        ({
            let begin = with_user_message(before.history, user_input);
            let run = crate::agent::run::run_of(begin, max_rounds, inputs);
            let after = taken_back(begun(before), run.state);
            &&& !after.running
            &&& after.model == before.model
            &&& after.history == run.state.history
            &&& begin.is_prefix_of(after.history)
            &&& after.history.len() > before.history.len()
            &&& before.history.is_prefix_of(after.history)
            &&& after.history[before.history.len() as int] == (MessageModel::User { content: user_input })
            &&& run.state.phase is Finished ==> run.events.len() > 0 && run.events.last() == (EventModel::Done {
                messages: after.history,
            })
        }),
{
    let begin = with_user_message(before.history, user_input);
    crate::agent::run::lemma_history_grows(begin, max_rounds, inputs);
    crate::agent::run::lemma_done_is_the_last_event(begin, max_rounds, inputs);
    let history = crate::agent::run::run_of(begin, max_rounds, inputs).state.history;
    assert(begin[before.history.len() as int] == history[before.history.len() as int]);
    assert(before.history =~= history.subrange(0, before.history.len() as int));
}

/// A run that broke down leaves nothing behind: the agent has said what it had said
/// before the run began.
pub proof fn lemma_recovery<M>(before: AgentModel<M>)
    ensures
        recovered(begun(before)).history == before.history,
        recovered(begun(before)).model == before.model,
        !recovered(begun(before)).running,
        begun(before).running,
{
}

} // verus!
