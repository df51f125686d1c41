//! The session of one question as a state machine, in mathematical terms.
//!
//! A session moves through understanding the question, planning, executing
//! the plan, answering and reviewing the answer. At every step it hands its
//! host a request -- ask the language model, look at a path, or finish --
//! and the host hands back a reply. [`step`] says, for every state and
//! every reply, what the next state and the next request are.

use vstd::prelude::*;
use crate::action::{
    continued,
    executed,
    extracted_plan,
    parse_command,
    ActionModel,
    ExecutionModel,
    Observation,
};
use crate::error::AgentErrorModel;
use crate::walk::WalkModel;

verus! {

/// How often a session plans, executes and answers before it stops asking
/// for a better answer.
pub const MAX_ITERATIONS: usize = 3;

/// Where a session stands.
#[derive(Clone, Copy, Debug, PartialEq, Eq, Structural)]
pub enum SessionState {
    /// Waiting for the model's reading of the question.
    Understanding,
    /// Waiting for the model's plan.
    Planning,
    /// Waiting for what the host found for the current command.
    Executing,
    /// Waiting for the model's answer.
    Answering,
    /// Waiting for the model's verdict on the answer.
    Reviewing,
    /// No question is being processed.
    Done,
}

/// One message of a conversation with the model.
pub struct MessageModel {
    pub role: Seq<char>,
    pub content: Seq<char>,
}

/// What a session asks of its host.
pub enum RequestModel {
    /// Send these messages to this model and report its choices.
    Complete { messages: Seq<MessageModel>, model_id: Seq<char> },
    /// Look at the path this action names and report what is there.
    Probe { action: ActionModel },
    /// List the directory at this path and report its entries.
    ReadDir { path: Seq<char> },
    /// The session is over, with this answer or this failure.
    Finish { outcome: Result<Seq<char>, AgentErrorModel> },
}

/// What a host reports back.
pub enum ReplyModel {
    /// The model answered; these are the texts of its choices, which may
    /// be none.
    Completion { choices: Seq<Seq<char>> },
    /// The model could not be reached or failed; the text says how.
    Failure { cause: Seq<char> },
    /// What was found on disk.
    Found { observation: Observation },
}

/// A session: the question, the current plan, the output of the commands
/// executed so far in this iteration, the walk of the command in
/// execution if it lists a directory, the latest answer and verdict, the
/// number of the iteration and the state.
pub struct SessionModel {
    pub model_id: Seq<char>,
    pub question: Seq<char>,
    pub plan: Seq<Seq<char>>,
    pub command_results: Seq<(Seq<char>, Seq<char>)>,
    pub walk: Option<WalkModel>,
    pub current_answer: Option<Seq<char>>,
    pub review_result: Option<Seq<char>>,
    pub iterations: nat,
    pub state: SessionState,
}

/// The instructions for the model's reading of a question.
pub open spec fn understanding_system_text() -> Seq<char> {
    "You are an assistant that understands user questions about code repositories. Extract the user's intent regarding what files or directories they want to explore."@
}

/// What comes before the question when the model is asked to read it.
pub open spec fn understanding_lead_text() -> Seq<char> {
    "Based on this question: '"@
}

/// What comes after the question when the model is asked to read it.
pub open spec fn understanding_tail_text() -> Seq<char> {
    "', identify what directories and files the user wants to explore. Respond in this format:\n\n{\"tree\": [\"path1\", \"path2\"], \"show_file\": [\"file1\", \"file2\"]}"@
}

/// The instructions for planning.
pub open spec fn planning_system_text() -> Seq<char> {
    "You are an assistant that plans how to answer questions about code repositories. You can use 'tree' to show directory structure and 'show_file' to display file contents."@
}

/// What comes before the question when the model is asked for a plan.
pub open spec fn planning_lead_text() -> Seq<char> {
    "Based on this question: '"@
}

/// What comes after the question when the model is asked for a plan.
pub open spec fn planning_tail_text() -> Seq<char> {
    "', create a plan of what commands to run. Return a JSON array of commands like [\"tree src\", \"show_file src/main.rs\"]"@
}

/// What introduces the verdict on the last answer when the model is asked
/// for another plan.
pub open spec fn planning_review_text() -> Seq<char> {
    "\n\nThe previous answer was reviewed and found inadequate. Take the review into account when planning again. Review: "@
}

/// The instructions for answering.
pub open spec fn answer_system_text() -> Seq<char> {
    "You are an assistant that analyzes code repositories. Create a helpful response based on executed commands."@
}

/// What comes before the question when the model is asked for an answer.
pub open spec fn answer_lead_text() -> Seq<char> {
    "Question: "@
}

/// What stands between the question and the command results.
pub open spec fn answer_middle_text() -> Seq<char> {
    "\n\nCommand results:\n\n"@
}

/// What comes after the command results.
pub open spec fn answer_tail_text() -> Seq<char> {
    "\n\nBased on the above information, please provide a comprehensive answer to the question."@
}

/// What introduces a command in the command results.
pub open spec fn result_lead_text() -> Seq<char> {
    "## Command: "@
}

/// What stands between a command and its output.
pub open spec fn result_middle_text() -> Seq<char> {
    "\n\n```\n"@
}

/// What comes after a command's output.
pub open spec fn result_tail_text() -> Seq<char> {
    "\n```\n\n"@
}

/// The instructions for reviewing.
pub open spec fn review_system_text() -> Seq<char> {
    "You are a critical judge. Evaluate if the answer adequately addresses the question."@
}

/// What comes before the question when the model is asked for a verdict.
pub open spec fn review_lead_text() -> Seq<char> {
    "Question: "@
}

/// What stands between the question and the answer.
pub open spec fn review_middle_text() -> Seq<char> {
    "\n\nAnswer: "@
}

/// What comes after the answer.
pub open spec fn review_tail_text() -> Seq<char> {
    "\n\nDoes this answer adequately address the question? Only respond with 'YES' if the answer is adequate, or 'NO: <reason>' if not."@
}

/// What is added to an answer that is returned because the iteration
/// limit was reached.
pub open spec fn limit_note_text() -> Seq<char> {
    "\n\n(Note: This answer was provided after reaching the maximum number of iteration attempts.)"@
}

/// What a reply gets when no question is being processed.
pub open spec fn idle_text() -> Seq<char> {
    "No question is being processed"@
}

/// The role of instructions.
pub open spec fn system_role() -> Seq<char> {
    "system"@
}

/// The role of the one who asks.
pub open spec fn user_role() -> Seq<char> {
    "user"@
}

/// A conversation of instructions and one message of the user.
pub open spec fn conversation(system: Seq<char>, user: Seq<char>) -> Seq<MessageModel> {
    seq![
        MessageModel { role: system_role(), content: system },
        MessageModel { role: user_role(), content: user },
    ]
}

/// The messages that ask the model to read a question.
pub open spec fn understanding_messages(question: Seq<char>) -> Seq<MessageModel> {
    conversation(
        understanding_system_text(),
        understanding_lead_text() + question + understanding_tail_text(),
    )
}

/// The messages that ask the model for a plan. After a failed review the
/// verdict is passed on.
pub open spec fn planning_messages(question: Seq<char>, review: Option<Seq<char>>) -> Seq<
    MessageModel,
> {
    let ask = planning_lead_text() + question + planning_tail_text();
    conversation(
        planning_system_text(),
        match review {
            Some(verdict) => ask + planning_review_text() + verdict,
            None => ask,
        },
    )
}

/// The commands of an iteration with their outputs, as the model is shown
/// them: in the order of the plan.
pub open spec fn results_text(results: Seq<(Seq<char>, Seq<char>)>) -> Seq<char>
    decreases results.len(),
{
    if results.len() == 0 {
        Seq::empty()
    } else {
        results_text(results.drop_last()) + result_lead_text() + results.last().0
            + result_middle_text() + results.last().1 + result_tail_text()
    }
}

/// The messages that ask the model for an answer.
pub open spec fn answer_messages(
    question: Seq<char>,
    results: Seq<(Seq<char>, Seq<char>)>,
) -> Seq<MessageModel> {
    conversation(
        answer_system_text(),
        answer_lead_text() + question + answer_middle_text() + results_text(results)
            + answer_tail_text(),
    )
}

/// The messages that ask the model for a verdict on an answer.
pub open spec fn review_messages(question: Seq<char>, answer: Seq<char>) -> Seq<MessageModel> {
    conversation(
        review_system_text(),
        review_lead_text() + question + review_middle_text() + answer + review_tail_text(),
    )
}

/// Whether the upper case of a character, by the rules of Unicode, begins
/// with `S`: so it is for the letter itself, for the long s, for the sharp
/// s and for the two ligatures of s and t.
pub open spec fn begins_with_s(c: char) -> bool {
    ||| c == 'S'
    ||| c == 's'
    ||| c == '\u{17f}'
    ||| c == '\u{df}'
    ||| c == '\u{fb05}'
    ||| c == '\u{fb06}'
}

/// Whether a verdict lets the answer pass: put in upper case by the rules
/// of Unicode, it begins with `YES`. Everything else fails, a verdict that
/// begins with `NO` among it. No character but `y` and `e` becomes `Y` or
/// `E` in upper case, so only the third character has more than two forms.
pub open spec fn review_passes(verdict: Seq<char>) -> bool {
    &&& verdict.len() >= 3
    &&& (verdict[0] == 'Y' || verdict[0] == 'y')
    &&& (verdict[1] == 'E' || verdict[1] == 'e')
    &&& begins_with_s(verdict[2])
}

/// The request to send `messages` to the session's model.
pub open spec fn ask(s: SessionModel, messages: Seq<MessageModel>) -> RequestModel {
    RequestModel::Complete { messages, model_id: s.model_id }
}

/// The end of a session.
pub open spec fn finish(s: SessionModel, outcome: Result<Seq<char>, AgentErrorModel>) -> (
    SessionModel,
    RequestModel,
) {
    (SessionModel { state: SessionState::Done, walk: None, ..s }, RequestModel::Finish { outcome })
}

/// The start of a session: everything of an earlier question is
/// forgotten, the iteration is the first, and the model is asked to read
/// the question.
pub open spec fn begin(model_id: Seq<char>, question: Seq<char>) -> (SessionModel, RequestModel) {
    let s = SessionModel {
        model_id,
        question,
        plan: Seq::empty(),
        command_results: Seq::empty(),
        walk: None,
        current_answer: None,
        review_result: None,
        iterations: 1,
        state: SessionState::Understanding,
    };
    (s, ask(s, understanding_messages(question)))
}

/// What happens when the plan is to go on: the next command is parsed and
/// its path probed; a command that does not parse ends the session; with
/// no command left the model is asked for an answer.
pub open spec fn next_command(s: SessionModel) -> (SessionModel, RequestModel) {
    if s.command_results.len() < s.plan.len() {
        match parse_command(s.plan[s.command_results.len() as int]) {
            Ok(action) => (
                SessionModel { state: SessionState::Executing, walk: None, ..s },
                RequestModel::Probe { action },
            ),
            Err(e) => finish(s, Err(e)),
        }
    } else {
        (
            SessionModel { state: SessionState::Answering, walk: None, ..s },
            ask(s, answer_messages(s.question, s.command_results)),
        )
    }
}

/// After the model was asked to read the question. What it says is of no
/// consequence, and neither is its saying nothing; only a failure of the
/// service ends the session.
pub open spec fn after_understanding(s: SessionModel, reply: ReplyModel) -> (
    SessionModel,
    RequestModel,
) {
    match reply {
        ReplyModel::Failure { cause } => finish(s, Err(AgentErrorModel::CopilotError(cause))),
        _ => (
            SessionModel { state: SessionState::Planning, ..s },
            ask(s, planning_messages(s.question, None)),
        ),
    }
}

/// After the model was asked for a plan. The plan is extracted from its
/// first choice and execution starts with the first command.
pub open spec fn after_planning(s: SessionModel, reply: ReplyModel) -> (
    SessionModel,
    RequestModel,
) {
    match reply {
        ReplyModel::Failure { cause } => finish(s, Err(AgentErrorModel::CopilotError(cause))),
        ReplyModel::Completion { choices } => if choices.len() == 0 {
            finish(s, Err(AgentErrorModel::PlanningFailed))
        } else {
            next_command(
                SessionModel {
                    plan: extracted_plan(choices[0]),
                    command_results: Seq::empty(),
                    ..s
                },
            )
        },
        ReplyModel::Found { .. } => finish(s, Err(AgentErrorModel::PlanningFailed)),
    }
}

/// What an execution means for the session: an action that is done has
/// its output recorded and the plan goes on; an action that is walking has
/// the directory listed that its walk asks for; an error ends the session.
pub open spec fn progress(s: SessionModel, r: Result<ExecutionModel, AgentErrorModel>) -> (
    SessionModel,
    RequestModel,
) {
    match r {
        Ok(ExecutionModel::Finished { label, output }) => next_command(
            SessionModel {
                command_results: s.command_results.push((label, output)),
                walk: None,
                ..s
            },
        ),
        Ok(ExecutionModel::Walking { walk, path }) => (
            SessionModel { walk: Some(walk), ..s },
            RequestModel::ReadDir { path },
        ),
        Err(e) => finish(s, Err(e)),
    }
}

/// After the host has looked at the disk for the current command: the
/// command is executed against what was found, or, if it is in the middle
/// of a walk, the walk goes on.
pub open spec fn after_executing(s: SessionModel, reply: ReplyModel) -> (
    SessionModel,
    RequestModel,
) {
    if s.command_results.len() >= s.plan.len() {
        finish(s, Err(AgentErrorModel::CommandExecutionFailed))
    } else {
        match reply {
            ReplyModel::Found { observation } => match parse_command(
                s.plan[s.command_results.len() as int],
            ) {
                Ok(action) => match s.walk {
                    Some(walk) => progress(s, continued(action, walk, observation)),
                    None => progress(s, executed(action, observation)),
                },
                Err(e) => finish(s, Err(e)),
            },
            _ => finish(s, Err(AgentErrorModel::CommandExecutionFailed)),
        }
    }
}

/// After the model was asked for an answer. Its first choice is the
/// answer and goes to review. No choice ends the session, and so does an
/// empty one: an answer that a session ends with is never empty, so an
/// empty text is not stored as an answer and not sent to review.
pub open spec fn after_answering(s: SessionModel, reply: ReplyModel) -> (
    SessionModel,
    RequestModel,
) {
    match reply {
        ReplyModel::Failure { cause } => finish(s, Err(AgentErrorModel::CopilotError(cause))),
        ReplyModel::Completion { choices } => if choices.len() == 0 {
            finish(s, Err(AgentErrorModel::AnswerGenerationFailed))
        } else if choices[0].len() == 0 {
            finish(s, Err(AgentErrorModel::EmptyAnswerResponse))
        } else {
            (
                SessionModel {
                    current_answer: Some(choices[0]),
                    state: SessionState::Reviewing,
                    ..s
                },
                ask(s, review_messages(s.question, choices[0])),
            )
        },
        ReplyModel::Found { .. } => finish(s, Err(AgentErrorModel::AnswerGenerationFailed)),
    }
}

/// After the model was asked for a verdict. A verdict that passes ends
/// the session with the answer as it is. One that fails in the last
/// iteration ends it with the answer and a note; one that fails earlier
/// starts the next iteration, and the verdict goes into the request for
/// the new plan.
pub open spec fn after_reviewing(s: SessionModel, reply: ReplyModel) -> (
    SessionModel,
    RequestModel,
) {
    match s.current_answer {
        None => finish(s, Err(AgentErrorModel::NoAnswerToReview)),
        Some(answer) => match reply {
            ReplyModel::Failure { cause } => finish(s, Err(AgentErrorModel::CopilotError(cause))),
            ReplyModel::Completion { choices } => if choices.len() == 0 {
                finish(s, Err(AgentErrorModel::ReviewFailed))
            } else {
                let verdict = choices[0];
                let reviewed = SessionModel { review_result: Some(verdict), ..s };
                if review_passes(verdict) {
                    finish(reviewed, Ok(answer))
                } else if s.iterations >= MAX_ITERATIONS {
                    finish(reviewed, Ok(answer + limit_note_text()))
                } else {
                    (
                        SessionModel {
                            iterations: s.iterations + 1,
                            state: SessionState::Planning,
                            ..reviewed
                        },
                        ask(s, planning_messages(s.question, Some(verdict))),
                    )
                }
            },
            ReplyModel::Found { .. } => finish(s, Err(AgentErrorModel::ReviewFailed)),
        },
    }
}

/// The next state and the next request, for every state and every reply.
/// A reply that comes when no question is being processed is an error.
pub open spec fn step(s: SessionModel, reply: ReplyModel) -> (SessionModel, RequestModel) {
    match s.state {
        SessionState::Understanding => after_understanding(s, reply),
        SessionState::Planning => after_planning(s, reply),
        SessionState::Executing => after_executing(s, reply),
        SessionState::Answering => after_answering(s, reply),
        SessionState::Reviewing => after_reviewing(s, reply),
        SessionState::Done => finish(s, Err(AgentErrorModel::Other(idle_text()))),
    }
}

} // verus!
