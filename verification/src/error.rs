//! The failures of a session.

use vstd::prelude::*;
use vstd::string::StringExecFns;

verus! {

/// What can go wrong while a question is being answered.
#[derive(Debug)]
pub enum AgentError {
    /// The intent of the question could not be extracted.
    IntentExtractionFailed,
    /// The intent came back in a form that could not be read.
    MalformedIntentResponse,
    /// The intent came back empty.
    EmptyIntentResponse,
    /// The model gave no plan.
    PlanningFailed,
    /// The plan holds no command.
    EmptyPlan,
    /// The plan came back in a form that could not be read.
    InvalidPlanFormat,
    /// A command of the plan is neither `tree` nor `show_file`; the text is
    /// the command.
    UnknownCommand(String),
    /// Nothing exists at the path a command names.
    PathNotFound(String),
    /// `show_file` was given the path of a directory.
    PathIsDirectory(String),
    /// A command could not be carried out.
    CommandExecutionFailed,
    /// The model gave no answer.
    AnswerGenerationFailed,
    /// The answer came back empty.
    EmptyAnswerResponse,
    /// The model gave no verdict on the answer.
    ReviewFailed,
    /// A review was due and there was no answer to review.
    NoAnswerToReview,
    /// The iteration limit was reached without an answer.
    MaxIterationsReached,
    /// The language-model service failed; the text says how.
    CopilotError(String),
    /// Reading from disk failed; the text says how.
    IoError(String),
    /// Anything else.
    Other(String),
}

/// An [`AgentError`] with the views of its texts.
pub enum AgentErrorModel {
    IntentExtractionFailed,
    MalformedIntentResponse,
    EmptyIntentResponse,
    PlanningFailed,
    EmptyPlan,
    InvalidPlanFormat,
    UnknownCommand(Seq<char>),
    PathNotFound(Seq<char>),
    PathIsDirectory(Seq<char>),
    CommandExecutionFailed,
    AnswerGenerationFailed,
    EmptyAnswerResponse,
    ReviewFailed,
    NoAnswerToReview,
    MaxIterationsReached,
    CopilotError(Seq<char>),
    IoError(Seq<char>),
    Other(Seq<char>),
}

impl View for AgentError {
    type V = AgentErrorModel;

    open spec fn view(&self) -> AgentErrorModel {
        match self {
            AgentError::IntentExtractionFailed => AgentErrorModel::IntentExtractionFailed,
            AgentError::MalformedIntentResponse => AgentErrorModel::MalformedIntentResponse,
            AgentError::EmptyIntentResponse => AgentErrorModel::EmptyIntentResponse,
            AgentError::PlanningFailed => AgentErrorModel::PlanningFailed,
            AgentError::EmptyPlan => AgentErrorModel::EmptyPlan,
            AgentError::InvalidPlanFormat => AgentErrorModel::InvalidPlanFormat,
            AgentError::UnknownCommand(text) => AgentErrorModel::UnknownCommand(text@),
            AgentError::PathNotFound(path) => AgentErrorModel::PathNotFound(path@),
            AgentError::PathIsDirectory(path) => AgentErrorModel::PathIsDirectory(path@),
            AgentError::CommandExecutionFailed => AgentErrorModel::CommandExecutionFailed,
            AgentError::AnswerGenerationFailed => AgentErrorModel::AnswerGenerationFailed,
            AgentError::EmptyAnswerResponse => AgentErrorModel::EmptyAnswerResponse,
            AgentError::ReviewFailed => AgentErrorModel::ReviewFailed,
            AgentError::NoAnswerToReview => AgentErrorModel::NoAnswerToReview,
            AgentError::MaxIterationsReached => AgentErrorModel::MaxIterationsReached,
            AgentError::CopilotError(cause) => AgentErrorModel::CopilotError(cause@),
            AgentError::IoError(cause) => AgentErrorModel::IoError(cause@),
            AgentError::Other(text) => AgentErrorModel::Other(text@),
        }
    }
}

/// The text of an error, for people.
pub open spec fn agent_error_text(e: AgentErrorModel) -> Seq<char> {
    match e {
        AgentErrorModel::IntentExtractionFailed => "Failed to extract intent from question"@,
        AgentErrorModel::MalformedIntentResponse => "Intent extraction produced malformed response"@,
        AgentErrorModel::EmptyIntentResponse => "Intent extraction produced empty response"@,
        AgentErrorModel::PlanningFailed => "Failed to create execution plan"@,
        AgentErrorModel::EmptyPlan => "Generated plan contains no commands"@,
        AgentErrorModel::InvalidPlanFormat => "Generated plan has invalid format"@,
        AgentErrorModel::UnknownCommand(text) => "Unknown command: "@ + text,
        AgentErrorModel::PathNotFound(path) => "Path does not exist: "@ + path,
        AgentErrorModel::PathIsDirectory(path) => "Path is a directory: "@ + path,
        AgentErrorModel::CommandExecutionFailed => "Command execution failed"@,
        AgentErrorModel::AnswerGenerationFailed => "Failed to generate answer"@,
        AgentErrorModel::EmptyAnswerResponse => "Generated answer is empty"@,
        AgentErrorModel::ReviewFailed => "Failed to review answer"@,
        AgentErrorModel::NoAnswerToReview => "No answer available to review"@,
        AgentErrorModel::MaxIterationsReached => "Maximum iterations reached without satisfactory answer"@,
        AgentErrorModel::CopilotError(cause) => "Copilot error: "@ + cause,
        AgentErrorModel::IoError(cause) => "I/O error: "@ + cause,
        AgentErrorModel::Other(text) => "Other error: "@ + text,
    }
}

fn labelled(label: &str, detail: &str) -> (text: String)
    ensures
        text@ == label@ + detail@,
{
    let mut text = label.to_owned();
    text.append(detail);
    text
}

impl AgentError {
    /// The text of the error, for people.
    pub fn message(&self) -> (text: String)
        ensures
            text@ == agent_error_text(self@),
    {
        match self {
            AgentError::IntentExtractionFailed => "Failed to extract intent from question".to_owned(),
            AgentError::MalformedIntentResponse => "Intent extraction produced malformed response".to_owned(),
            AgentError::EmptyIntentResponse => "Intent extraction produced empty response".to_owned(),
            AgentError::PlanningFailed => "Failed to create execution plan".to_owned(),
            AgentError::EmptyPlan => "Generated plan contains no commands".to_owned(),
            AgentError::InvalidPlanFormat => "Generated plan has invalid format".to_owned(),
            AgentError::UnknownCommand(text) => labelled("Unknown command: ", text.as_str()),
            AgentError::PathNotFound(path) => labelled("Path does not exist: ", path.as_str()),
            AgentError::PathIsDirectory(path) => labelled("Path is a directory: ", path.as_str()),
            AgentError::CommandExecutionFailed => "Command execution failed".to_owned(),
            AgentError::AnswerGenerationFailed => "Failed to generate answer".to_owned(),
            AgentError::EmptyAnswerResponse => "Generated answer is empty".to_owned(),
            AgentError::ReviewFailed => "Failed to review answer".to_owned(),
            AgentError::NoAnswerToReview => "No answer available to review".to_owned(),
            AgentError::MaxIterationsReached => "Maximum iterations reached without satisfactory answer".to_owned(),
            AgentError::CopilotError(cause) => labelled("Copilot error: ", cause.as_str()),
            AgentError::IoError(cause) => labelled("I/O error: ", cause.as_str()),
            AgentError::Other(text) => labelled("Other error: ", text.as_str()),
        }
    }
}

} // verus!
