//! The agent: the executable session controller.
//!
//! An [`Agent`] answers one question at a time. It does no input or output
//! of its own. [`Agent::process_query`] starts a session and returns the
//! first [`Request`]; the host carries the request out and passes what came
//! of it to [`Agent::advance`], which returns the next request, until the
//! request is to finish. What the agent does is exactly what
//! [`step`](crate::session::step) says.

use vstd::prelude::*;
use vstd::string::StringExecFns;
use crate::action::{
    continue_walk,
    execute,
    extract_commands,
    parse,
    texts,
    Action,
    Execution,
    Observation,
};
use crate::error::AgentError;
use crate::session::{
    after_answering,
    after_executing,
    after_planning,
    after_reviewing,
    after_understanding,
    answer_messages,
    ask,
    begin,
    conversation,
    finish,
    next_command,
    planning_messages,
    progress,
    results_text,
    review_messages,
    review_passes,
    step,
    understanding_messages,
    MessageModel,
    ReplyModel,
    RequestModel,
    SessionModel,
    SessionState,
    MAX_ITERATIONS,
};
use crate::text::chars_of;
use crate::walk::TreeWalk;

verus! {

/// One message of a conversation with the model.
#[derive(Debug, Clone)]
pub struct Message {
    pub role: String,
    pub content: String,
}

impl View for Message {
    type V = MessageModel;

    open spec fn view(&self) -> MessageModel {
        MessageModel { role: self.role@, content: self.content@ }
    }
}

/// The messages of a list as their views.
pub open spec fn messages_view(v: Seq<Message>) -> Seq<MessageModel> {
    v.map_values(|m: Message| m@)
}

/// The view of an answer or a failure.
pub open spec fn outcome_view(outcome: Result<String, AgentError>) -> Result<
    Seq<char>,
    crate::error::AgentErrorModel,
> {
    match outcome {
        Ok(answer) => Ok(answer@),
        Err(e) => Err(e@),
    }
}

/// What the agent asks of its host.
#[derive(Debug)]
pub enum Request {
    /// Send these messages to this model and report its choices.
    Complete { messages: Vec<Message>, model_id: String },
    /// Look at the path this action names and report what is there.
    Probe { action: Action },
    /// List the directory at this path and report its entries.
    ReadDir { path: String },
    /// The session is over, with this answer or this failure.
    Finish { outcome: Result<String, AgentError> },
}

impl View for Request {
    type V = RequestModel;

    open spec fn view(&self) -> RequestModel {
        match self {
            Request::Complete { messages, model_id } => RequestModel::Complete {
                messages: messages_view(messages@),
                model_id: model_id@,
            },
            Request::Probe { action } => RequestModel::Probe { action: action@ },
            Request::ReadDir { path } => RequestModel::ReadDir { path: path@ },
            Request::Finish { outcome } => RequestModel::Finish { outcome: outcome_view(*outcome) },
        }
    }
}

/// What the host reports back.
pub enum Reply {
    /// The model answered; these are the texts of its choices, which may
    /// be none.
    Completion { choices: Vec<String> },
    /// The model could not be reached or failed; the text says how.
    Failure { cause: String },
    /// What was found on disk.
    Found { observation: Observation },
}

impl View for Reply {
    type V = ReplyModel;

    open spec fn view(&self) -> ReplyModel {
        match self {
            Reply::Completion { choices } => ReplyModel::Completion { choices: texts(choices@) },
            Reply::Failure { cause } => ReplyModel::Failure { cause: cause@ },
            Reply::Found { observation } => ReplyModel::Found { observation: *observation },
        }
    }
}

/// The commands and outputs of a list as their views.
pub open spec fn results_view(v: Seq<(String, String)>) -> Seq<(Seq<char>, Seq<char>)> {
    v.map_values(|r: (String, String)| (r.0@, r.1@))
}

/// The view of a text that may be absent.
pub open spec fn optional_text(text: Option<String>) -> Option<Seq<char>> {
    match text {
        Some(t) => Some(t@),
        None => None,
    }
}

/// What an agent remembers of the question it is processing.
struct AgentContext {
    question: String,
    plan: Vec<String>,
    command_results: Vec<(String, String)>,
    current_answer: Option<String>,
    review_result: Option<String>,
    iterations: usize,
}

/// An agent that answers questions about a repository by probing it.
pub struct Agent {
    model_id: String,
    context: AgentContext,
    walk: Option<TreeWalk>,
    state: SessionState,
}

impl View for Agent {
    type V = SessionModel;

    closed spec fn view(&self) -> SessionModel {
        SessionModel {
            model_id: self.model_id@,
            question: self.context.question@,
            plan: texts(self.context.plan@),
            command_results: results_view(self.context.command_results@),
            walk: match self.walk {
                Some(walk) => Some(walk@),
                None => None,
            },
            current_answer: optional_text(self.context.current_answer),
            review_result: optional_text(self.context.review_result),
            iterations: self.context.iterations as nat,
            state: self.state,
        }
    }
}

/// An agent that is not processing a question.
pub open spec fn idle(model_id: Seq<char>) -> SessionModel {
    SessionModel {
        model_id,
        question: Seq::empty(),
        plan: Seq::empty(),
        command_results: Seq::empty(),
        walk: None,
        current_answer: None,
        review_result: None,
        iterations: 0,
        state: SessionState::Done,
    }
}

/// The model an agent uses unless it is given another.
pub open spec fn default_model() -> Seq<char> {
    "gpt-4"@
}

fn conversation_of(system: &str, user: String) -> (messages: Vec<Message>)
    ensures
        messages_view(messages@) == conversation(system@, user@),
{
    let mut messages: Vec<Message> = Vec::new();
    messages.push(Message { role: "system".to_owned(), content: system.to_owned() });
    messages.push(Message { role: "user".to_owned(), content: user });
    assert(messages_view(messages@) =~= conversation(system@, user@));
    messages
}

fn understanding_conversation(question: &str) -> (messages: Vec<Message>)
    ensures
        messages_view(messages@) == understanding_messages(question@),
{
    let mut user = "Based on this question: '".to_owned();
    user.append(question);
    user.append(
        "', identify what directories and files the user wants to explore. Respond in this format:\n\n{\"tree\": [\"path1\", \"path2\"], \"show_file\": [\"file1\", \"file2\"]}",
    );
    conversation_of(
        "You are an assistant that understands user questions about code repositories. Extract the user's intent regarding what files or directories they want to explore.",
        user,
    )
}

fn planning_conversation(question: &str, review: Option<&str>) -> (messages: Vec<Message>)
    ensures
        messages_view(messages@) == planning_messages(
            question@,
            match review {
                Some(verdict) => Some(verdict@),
                None => None,
            },
        ),
{
    let mut user = "Based on this question: '".to_owned();
    user.append(question);
    user.append(
        "', create a plan of what commands to run. Return a JSON array of commands like [\"tree src\", \"show_file src/main.rs\"]",
    );
    match review {
        Some(verdict) => {
            user.append(
                "\n\nThe previous answer was reviewed and found inadequate. Take the review into account when planning again. Review: ",
            );
            user.append(verdict);
        },
        None => {},
    }
    conversation_of(
        "You are an assistant that plans how to answer questions about code repositories. You can use 'tree' to show directory structure and 'show_file' to display file contents.",
        user,
    )
}

fn answer_conversation(question: &str, results: &Vec<(String, String)>) -> (messages: Vec<Message>)
    ensures
        messages_view(messages@) == answer_messages(question@, results_view(results@)),
{
    let mut listed = String::new();
    let mut i: usize = 0;
    assert(results_view(results@).take(0) == Seq::<(Seq<char>, Seq<char>)>::empty());
    while i < results.len()
        invariant
            i <= results.len(),
            listed@ == results_text(results_view(results@).take(i as int)),
        decreases results.len() - i,
    {
        proof {
            let upto = results_view(results@).take(i + 1);
            assert(upto.drop_last() == results_view(results@).take(i as int));
            assert(upto.last() == (results[i as int].0@, results[i as int].1@));
        }
        listed.append("## Command: ");
        listed.append(results[i].0.as_str());
        listed.append("\n\n```\n");
        listed.append(results[i].1.as_str());
        listed.append("\n```\n\n");
        i += 1;
    }
    assert(results_view(results@).take(results.len() as int) == results_view(results@));
    let mut user = "Question: ".to_owned();
    user.append(question);
    user.append("\n\nCommand results:\n\n");
    user.append(listed.as_str());
    user.append(
        "\n\nBased on the above information, please provide a comprehensive answer to the question.",
    );
    conversation_of(
        "You are an assistant that analyzes code repositories. Create a helpful response based on executed commands.",
        user,
    )
}

fn review_conversation(question: &str, answer: &str) -> (messages: Vec<Message>)
    ensures
        messages_view(messages@) == review_messages(question@, answer@),
{
    let mut user = "Question: ".to_owned();
    user.append(question);
    user.append("\n\nAnswer: ");
    user.append(answer);
    user.append(
        "\n\nDoes this answer adequately address the question? Only respond with 'YES' if the answer is adequate, or 'NO: <reason>' if not.",
    );
    conversation_of(
        "You are a critical judge. Evaluate if the answer adequately addresses the question.",
        user,
    )
}

/// Decides [`review_passes`].
pub fn verdict_passes(verdict: &str) -> (passes: bool)
    ensures
        passes == review_passes(verdict@),
{
    let v = chars_of(verdict);
    v.len() >= 3 && (v[0] == 'Y' || v[0] == 'y') && (v[1] == 'E' || v[1] == 'e') && (v[2] == 'S'
        || v[2] == 's' || v[2] == '\u{17f}' || v[2] == '\u{df}' || v[2] == '\u{fb05}' || v[2]
        == '\u{fb06}')
}

impl Agent {
    /// An agent that uses the default model and is not processing a
    /// question.
    pub fn new() -> (agent: Agent)
        ensures
            agent@ == idle(default_model()),
    {
        Agent::with_model("gpt-4".to_owned())
    }

    /// An agent that uses the model `model_id` and is not processing a
    /// question.
    pub fn with_model(model_id: String) -> (agent: Agent)
        ensures
            agent@ == idle(model_id@),
    {
        let agent = Agent {
            model_id,
            context: AgentContext {
                question: String::new(),
                plan: Vec::new(),
                command_results: Vec::new(),
                current_answer: None,
                review_result: None,
                iterations: 0,
            },
            walk: None,
            state: SessionState::Done,
        };
        proof {
            assert(texts(agent.context.plan@) =~= Seq::empty());
            assert(results_view(agent.context.command_results@) =~= Seq::empty());
        }
        agent
    }

    /// Where the session stands.
    pub fn state(&self) -> (state: SessionState)
        ensures
            state == self@.state,
    {
        self.state
    }

    /// The number of the current iteration, counting from one; zero before
    /// the first question.
    pub fn iteration_count(&self) -> (count: usize)
        ensures
            count == self@.iterations,
    {
        self.context.iterations
    }

    /// The model the agent uses.
    pub fn model_id(&self) -> (id: &str)
        ensures
            id@ == self@.model_id,
    {
        self.model_id.as_str()
    }

    /// The question being processed, or the last one.
    pub fn question(&self) -> (question: &str)
        ensures
            question@ == self@.question,
    {
        self.context.question.as_str()
    }

    /// The current plan.
    pub fn plan(&self) -> (plan: &Vec<String>)
        ensures
            texts(plan@) == self@.plan,
    {
        &self.context.plan
    }

    /// The commands executed so far in this iteration, each with its
    /// output.
    pub fn command_results(&self) -> (results: &Vec<(String, String)>)
        ensures
            results_view(results@) == self@.command_results,
    {
        &self.context.command_results
    }

    /// The latest answer, if there is one.
    pub fn current_answer(&self) -> (answer: Option<&str>)
        ensures
            match answer {
                Some(text) => self@.current_answer == Some(text@),
                None => self@.current_answer is None,
            },
    {
        match &self.context.current_answer {
            Some(text) => Some(text.as_str()),
            None => None,
        }
    }

    /// The latest verdict, if there is one.
    pub fn review_result(&self) -> (verdict: Option<&str>)
        ensures
            match verdict {
                Some(text) => self@.review_result == Some(text@),
                None => self@.review_result is None,
            },
    {
        match &self.context.review_result {
            Some(text) => Some(text.as_str()),
            None => None,
        }
    }

    fn request(&self, messages: Vec<Message>) -> (request: Request)
        ensures
            request@ == ask(self@, messages_view(messages@)),
    {
        Request::Complete { messages, model_id: self.model_id.clone() }
    }

    fn end(&mut self, outcome: Result<String, AgentError>) -> (request: Request)
        ensures
            (final(self)@, request@) == finish(old(self)@, outcome_view(outcome)),
    {
        self.state = SessionState::Done;
        self.walk = None;
        Request::Finish { outcome }
    }

    /// Starts a session for `query` and returns its first request.
    /// Whatever the agent held of an earlier question is dropped.
    pub fn process_query(&mut self, query: &str) -> (request: Request)
        ensures
            (final(self)@, request@) == begin(old(self)@.model_id, query@),
    {
        self.context =
        AgentContext {
            question: query.to_owned(),
            plan: Vec::new(),
            command_results: Vec::new(),
            current_answer: None,
            review_result: None,
            iterations: 1,
        };
        self.walk = None;
        self.state = SessionState::Understanding;
        proof {
            assert(texts(self.context.plan@) =~= Seq::empty());
            assert(results_view(self.context.command_results@) =~= Seq::empty());
        }
        self.request(understanding_conversation(query))
    }

    /// Takes the host's reply to the last request and returns the next
    /// request.
    pub fn advance(&mut self, reply: Reply) -> (request: Request)
        ensures
            (final(self)@, request@) == step(old(self)@, reply@),
    {
        match self.state {
            SessionState::Understanding => self.understand_question(reply),
            SessionState::Planning => self.plan_execution(reply),
            SessionState::Executing => self.execute_commands(reply),
            SessionState::Answering => self.create_answer(reply),
            SessionState::Reviewing => self.review_answer(reply),
            SessionState::Done => self.end(
                Err(AgentError::Other("No question is being processed".to_owned())),
            ),
        }
    }

    /// Takes the reply to the request to read the question.
    pub fn understand_question(&mut self, reply: Reply) -> (request: Request)
        ensures
            (final(self)@, request@) == after_understanding(old(self)@, reply@),
    {
        match reply {
            Reply::Failure { cause } => self.end(Err(AgentError::CopilotError(cause))),
            _ => {
                self.state = SessionState::Planning;
                self.request(planning_conversation(self.context.question.as_str(), None))
            },
        }
    }

    /// Goes on with the plan: probes the path of the next command, or asks
    /// for an answer when no command is left.
    fn next_command(&mut self) -> (request: Request)
        ensures
            (final(self)@, request@) == next_command(old(self)@),
    {
        let done = self.context.command_results.len();
        if done < self.context.plan.len() {
            match parse(self.context.plan[done].as_str()) {
                Ok(action) => {
                    self.state = SessionState::Executing;
                    self.walk = None;
                    Request::Probe { action }
                },
                Err(e) => self.end(Err(e)),
            }
        } else {
            self.state = SessionState::Answering;
            self.walk = None;
            self.request(
                answer_conversation(
                    self.context.question.as_str(),
                    &self.context.command_results,
                ),
            )
        }
    }

    /// Takes the reply to the request for a plan.
    pub fn plan_execution(&mut self, reply: Reply) -> (request: Request)
        ensures
            (final(self)@, request@) == after_planning(old(self)@, reply@),
    {
        match reply {
            Reply::Failure { cause } => self.end(Err(AgentError::CopilotError(cause))),
            Reply::Completion { choices } => {
                if choices.len() == 0 {
                    self.end(Err(AgentError::PlanningFailed))
                } else {
                    self.context.plan = extract_commands(choices[0].as_str());
                    self.context.command_results = Vec::new();
                    proof {
                        assert(results_view(self.context.command_results@) =~= Seq::empty());
                    }
                    self.next_command()
                }
            },
            Reply::Found { .. } => self.end(Err(AgentError::PlanningFailed)),
        }
    }

    /// Takes what an execution came to.
    fn progress(&mut self, r: Result<Execution, AgentError>) -> (request: Request)
        ensures
            (final(self)@, request@) == progress(old(self)@, crate::action::execution_view(r)),
    {
        match r {
            Ok(Execution::Finished { label, output }) => {
                let ghost before = self.context.command_results@;
                self.context.command_results.push((label, output));
                self.walk = None;
                proof {
                    assert(results_view(self.context.command_results@) =~= results_view(
                        before,
                    ).push((label@, output@)));
                }
                self.next_command()
            },
            Ok(Execution::Walking { walk, path }) => {
                self.walk = Some(walk);
                Request::ReadDir { path }
            },
            Err(e) => self.end(Err(e)),
        }
    }

    /// Takes what the host found on disk for the current command.
    pub fn execute_commands(&mut self, reply: Reply) -> (request: Request)
        ensures
            (final(self)@, request@) == after_executing(old(self)@, reply@),
    {
        let done = self.context.command_results.len();
        if done >= self.context.plan.len() {
            return self.end(Err(AgentError::CommandExecutionFailed));
        }
        match reply {
            Reply::Found { observation } => match parse(self.context.plan[done].as_str()) {
                Ok(action) => {
                    let ghost s = self@;
                    let walk = self.walk.take();
                    let r = match walk {
                        Some(walk) => continue_walk(&action, walk, observation),
                        None => execute(&action, observation),
                    };
                    let request = self.progress(r);
                    proof {
                        assert(progress(s, crate::action::execution_view(r)) == progress(
                            SessionModel { walk: None, ..s },
                            crate::action::execution_view(r),
                        ));
                    }
                    request
                },
                Err(e) => self.end(Err(e)),
            },
            _ => self.end(Err(AgentError::CommandExecutionFailed)),
        }
    }

    /// Takes the reply to the request for an answer.
    pub fn create_answer(&mut self, reply: Reply) -> (request: Request)
        ensures
            (final(self)@, request@) == after_answering(old(self)@, reply@),
    {
        match reply {
            Reply::Failure { cause } => self.end(Err(AgentError::CopilotError(cause))),
            Reply::Completion { choices } => {
                if choices.len() == 0 {
                    self.end(Err(AgentError::AnswerGenerationFailed))
                } else if choices[0].as_str().is_empty() {
                    self.end(Err(AgentError::EmptyAnswerResponse))
                } else {
                    let answer = choices[0].clone();
                    let messages = review_conversation(
                        self.context.question.as_str(),
                        answer.as_str(),
                    );
                    let request = self.request(messages);
                    self.context.current_answer = Some(answer);
                    self.state = SessionState::Reviewing;
                    request
                }
            },
            Reply::Found { .. } => self.end(Err(AgentError::AnswerGenerationFailed)),
        }
    }

    /// Takes the reply to the request for a verdict.
    pub fn review_answer(&mut self, reply: Reply) -> (request: Request)
        ensures
            (final(self)@, request@) == after_reviewing(old(self)@, reply@),
    {
        let answer = match &self.context.current_answer {
            Some(answer) => answer.clone(),
            None => {
                return self.end(Err(AgentError::NoAnswerToReview));
            },
        };
        match reply {
            Reply::Failure { cause } => self.end(Err(AgentError::CopilotError(cause))),
            Reply::Completion { choices } => {
                if choices.len() == 0 {
                    self.end(Err(AgentError::ReviewFailed))
                } else {
                    let verdict = choices[0].clone();
                    let passes = verdict_passes(verdict.as_str());
                    if passes {
                        self.context.review_result = Some(verdict);
                        self.end(Ok(answer))
                    } else if self.context.iterations >= MAX_ITERATIONS {
                        self.context.review_result = Some(verdict);
                        let mut noted = answer;
                        noted.append(
                            "\n\n(Note: This answer was provided after reaching the maximum number of iteration attempts.)",
                        );
                        self.end(Ok(noted))
                    } else {
                        let messages = planning_conversation(
                            self.context.question.as_str(),
                            Some(verdict.as_str()),
                        );
                        let request = self.request(messages);
                        self.context.review_result = Some(verdict);
                        self.context.iterations = self.context.iterations + 1;
                        self.state = SessionState::Planning;
                        request
                    }
                }
            },
            Reply::Found { .. } => self.end(Err(AgentError::ReviewFailed)),
        }
    }
}

} // verus!
