//! The command language of a plan and its interpreter.
//!
//! A plan is a list of command strings. There are two commands, told apart
//! by their first word: `tree <path>` lists a directory and
//! `show_file <path>` shows a file. The interpreter does not touch the
//! disk: the host looks at the path an action names and reports what it
//! found, and [`execute`] turns that report into the command's output or
//! into the error the command ends with. A directory is listed by a walk,
//! which asks the host for one directory after the other;
//! [`continue_walk`] takes each listing.

use vstd::prelude::*;
use vstd::string::StringExecFns;
use crate::error::{AgentError, AgentErrorModel};
use crate::show_file::{read_file_content, FileProbe, FileReadError};
use crate::text::{
    chars_of,
    split_chars,
    split_on,
    starts_with,
    string_of,
    subvec,
    trim,
    trim_chars,
    views,
};
use crate::gitignore::{discovered_rules, find_gitignore_patterns, Ancestor};
use crate::tree::DirEntry;
use crate::walk::{
    feed,
    listed_view,
    walk_start,
    TreeWalk,
    WalkModel,
    WalkRequest,
    WalkRequestModel,
};

verus! {

/// One step of a plan.
#[derive(Debug)]
pub enum Action {
    /// Render the tree below the directory at `path`.
    ListDirectory { path: String },
    /// Show the content of the file at `path`.
    ShowFile { path: String },
}

/// An [`Action`] with the view of its path.
pub enum ActionModel {
    ListDirectory { path: Seq<char> },
    ShowFile { path: Seq<char> },
}

impl View for Action {
    type V = ActionModel;

    open spec fn view(&self) -> ActionModel {
        match self {
            Action::ListDirectory { path } => ActionModel::ListDirectory { path: path@ },
            Action::ShowFile { path } => ActionModel::ShowFile { path: path@ },
        }
    }
}

/// The word, with its blank, that starts a command to list a directory.
pub open spec fn tree_keyword() -> Seq<char> {
    "tree "@
}

/// The word, with its blank, that starts a command to show a file.
pub open spec fn show_file_keyword() -> Seq<char> {
    "show_file "@
}

/// The action a command stands for: what follows the keyword is the path,
/// as it is. Text that starts with neither keyword is an unknown command.
pub open spec fn parse_command(command: Seq<char>) -> Result<ActionModel, AgentErrorModel> {
    if tree_keyword().is_prefix_of(command) {
        Ok(ActionModel::ListDirectory { path: command.skip(tree_keyword().len() as int) })
    } else if show_file_keyword().is_prefix_of(command) {
        Ok(ActionModel::ShowFile { path: command.skip(show_file_keyword().len() as int) })
    } else {
        Err(AgentErrorModel::UnknownCommand(command))
    }
}

/// The view of the outcome of parsing.
pub open spec fn parsed_view(r: Result<Action, AgentError>) -> Result<ActionModel, AgentErrorModel> {
    match r {
        Ok(action) => Ok(action@),
        Err(e) => Err(e@),
    }
}

/// The command that an action is written as.
pub open spec fn command_text(action: ActionModel) -> Seq<char> {
    match action {
        ActionModel::ListDirectory { path } => tree_keyword() + path,
        ActionModel::ShowFile { path } => show_file_keyword() + path,
    }
}

/// Whether a piece of text is a command.
pub open spec fn is_command(text: Seq<char>) -> bool {
    tree_keyword().is_prefix_of(text) || show_file_keyword().is_prefix_of(text)
}

/// The commands among pieces of text: each piece is trimmed and kept if
/// what is left is a command.
pub open spec fn commands_among(pieces: Seq<Seq<char>>) -> Seq<Seq<char>>
    decreases pieces.len(),
{
    if pieces.len() == 0 {
        Seq::empty()
    } else {
        let before = commands_among(pieces.drop_last());
        if is_command(trim(pieces.last())) {
            before.push(trim(pieces.last()))
        } else {
            before
        }
    }
}

/// The plan that a model's response stands for. The response is cut at
/// line breaks and at double quotes, so that commands are found one per
/// line in free text as well as one per string in a quoted list. A
/// response in which no command is found is taken as one command, whole.
pub open spec fn extracted_plan(response: Seq<char>) -> Seq<Seq<char>> {
    let found = commands_among(split_on(response, '\n', '"'));
    if found.len() == 0 {
        seq![response]
    } else {
        found
    }
}

/// A parsed command, written out again, is the command.
pub proof fn lemma_command_text_of_parsed(command: Seq<char>)
    ensures
        parse_command(command) matches Ok(action) ==> command_text(action) == command,
{
    if tree_keyword().is_prefix_of(command) {
        assert(tree_keyword() + command.skip(tree_keyword().len() as int) =~= command);
    } else if show_file_keyword().is_prefix_of(command) {
        assert(show_file_keyword() + command.skip(show_file_keyword().len() as int) =~= command);
    }
}

/// The plan extracted from a response is never empty, and every command
/// in it is either recognized or the whole response.
pub proof fn lemma_extracted_plan(response: Seq<char>)
    ensures
        extracted_plan(response).len() >= 1,
        forall|i: int|
            0 <= i < extracted_plan(response).len() ==> is_command(
                #[trigger] extracted_plan(response)[i],
            ) || extracted_plan(response) == seq![response],
{
    lemma_commands_among(split_on(response, '\n', '"'));
}

proof fn lemma_commands_among(pieces: Seq<Seq<char>>)
    ensures
        forall|i: int|
            0 <= i < commands_among(pieces).len() ==> is_command(#[trigger] commands_among(pieces)[i]),
    decreases pieces.len(),
{
    if pieces.len() > 0 {
        lemma_commands_among(pieces.drop_last());
        let before = commands_among(pieces.drop_last());
        let all = commands_among(pieces);
        assert forall|i: int| 0 <= i < all.len() implies is_command(#[trigger] all[i]) by {
            if i < before.len() {
                assert(all[i] == before[i]);
            }
        }
    }
}

/// Decides [`is_command`].
pub fn is_command_chars(text: &Vec<char>) -> (r: bool)
    ensures
        r == is_command(text@),
{
    let tree = chars_of("tree ");
    let show = chars_of("show_file ");
    starts_with(text, &tree) || starts_with(text, &show)
}

/// Parses one command of a plan.
pub fn parse(command: &str) -> (r: Result<Action, AgentError>)
    ensures
        parsed_view(r) == parse_command(command@),
{
    let text = chars_of(command);
    let tree = chars_of("tree ");
    let show = chars_of("show_file ");
    if starts_with(&text, &tree) {
        let path = subvec(&text, tree.len(), text.len());
        Ok(Action::ListDirectory { path: string_of(&path) })
    } else if starts_with(&text, &show) {
        let path = subvec(&text, show.len(), text.len());
        Ok(Action::ShowFile { path: string_of(&path) })
    } else {
        Err(AgentError::UnknownCommand(command.to_owned()))
    }
}

/// The strings of a list as their views.
pub open spec fn texts(v: Seq<String>) -> Seq<Seq<char>> {
    v.map_values(|s: String| s@)
}

/// Extracts the plan from a model's response. See [`extracted_plan`].
pub fn extract_commands(response: &str) -> (plan: Vec<String>)
    ensures
        texts(plan@) == extracted_plan(response@),
        plan.len() >= 1,
{
    let text = chars_of(response);
    let pieces = split_chars(&text, '\n', '"');
    let mut plan: Vec<String> = Vec::new();
    let mut i: usize = 0;
    assert(views(pieces@).take(0) == Seq::<Seq<char>>::empty());
    assert(texts(plan@) == Seq::<Seq<char>>::empty());
    while i < pieces.len()
        invariant
            i <= pieces.len(),
            texts(plan@) == commands_among(views(pieces@).take(i as int)),
        decreases pieces.len() - i,
    {
        let piece = trim_chars(&pieces[i]);
        proof {
            assert(views(pieces@).take(i + 1).drop_last() == views(pieces@).take(i as int));
            assert(views(pieces@).take(i + 1).last() == pieces[i as int]@);
        }
        if is_command_chars(&piece) {
            let ghost before = plan@;
            let command = string_of(&piece);
            plan.push(command);
            assert(texts(plan@) == texts(before).push(piece@));
        }
        i += 1;
    }
    assert(views(pieces@).take(pieces.len() as int) == views(pieces@));
    if plan.len() == 0 {
        plan.push(response.to_owned());
        assert(texts(plan@) == seq![response@]);
    }
    plan
}

/// The number of characters of a command's output that a preview shows.
pub const PREVIEW_LENGTH: usize = 100;

/// What marks a preview that does not show all of the output.
pub open spec fn ellipsis() -> Seq<char> {
    "..."@
}

/// A short form of a command's output for a log line: the output itself
/// if it has no more than [`PREVIEW_LENGTH`] characters, else that many
/// characters of it and an ellipsis.
pub open spec fn preview_of(output: Seq<char>) -> Seq<char> {
    if output.len() <= PREVIEW_LENGTH {
        output
    } else {
        output.take(PREVIEW_LENGTH as int) + ellipsis()
    }
}

/// Computes [`preview_of`].
pub fn preview(output: &str) -> (short: String)
    ensures
        short@ == preview_of(output@),
{
    let text = chars_of(output);
    if text.len() <= PREVIEW_LENGTH {
        output.to_owned()
    } else {
        let head = subvec(&text, 0, PREVIEW_LENGTH);
        let mut short = string_of(&head);
        short.append("...");
        short
    }
}

/// What the host found at the path of a directory to list.
pub enum DirectoryProbe {
    /// Nothing exists at the path.
    Missing,
    /// The path exists. `ancestors` is what was found in the directories
    /// from there upwards, the directory at the path first.
    Present { ancestors: Vec<Ancestor> },
}

/// What the host reports of the disk.
pub enum Observation {
    /// For an action that lists a directory: what is at its path.
    Directory { found: DirectoryProbe },
    /// For an action that shows a file: what reading it gave.
    File { probe: FileProbe },
    /// For a directory that a walk asked for: its entries, or the reason
    /// why it could not be listed.
    Listing { listed: Result<Vec<DirEntry>, String> },
}

/// How far an action has come.
pub enum Execution {
    /// It is done, with this label and this output.
    Finished { label: String, output: String },
    /// It is walking a tree and needs the directory at `path` listed.
    Walking { walk: TreeWalk, path: String },
}

/// An [`Execution`] in mathematical terms.
pub enum ExecutionModel {
    Finished { label: Seq<char>, output: Seq<char> },
    Walking { walk: WalkModel, path: Seq<char> },
}

impl View for Execution {
    type V = ExecutionModel;

    open spec fn view(&self) -> ExecutionModel {
        match self {
            Execution::Finished { label, output } => ExecutionModel::Finished {
                label: label@,
                output: output@,
            },
            Execution::Walking { walk, path } => ExecutionModel::Walking {
                walk: walk@,
                path: path@,
            },
        }
    }
}

/// The view of the outcome of an execution.
pub open spec fn execution_view(r: Result<Execution, AgentError>) -> Result<
    ExecutionModel,
    AgentErrorModel,
> {
    match r {
        Ok(execution) => Ok(execution@),
        Err(e) => Err(e@),
    }
}

/// What a step of a walk means for the action that walks: a directory to
/// list keeps it going, the end of the walk is the end of the action with
/// the rendering as its output, and a directory that could not be listed
/// is an `IoError`.
pub open spec fn walk_progress(action: ActionModel, step: (WalkModel, WalkRequestModel)) -> Result<
    ExecutionModel,
    AgentErrorModel,
> {
    match step.1 {
        WalkRequestModel::ReadDir { path } => Ok(ExecutionModel::Walking { walk: step.0, path }),
        WalkRequestModel::Done { output } => Ok(
            ExecutionModel::Finished { label: command_text(action), output },
        ),
        WalkRequestModel::Failed { cause } => Err(AgentErrorModel::IoError(cause)),
    }
}

/// What an action comes to, given what the host found at its path.
///
/// Listing a directory that does not exist is `PathNotFound`. Otherwise a
/// walk of the whole tree below it starts, without a prefix and without a
/// depth limit, by the ignore rules of the repository it lies in; if those
/// cannot be read, that is an `IoError`. Showing a file gives its content;
/// a missing file is `PathNotFound`, a directory `PathIsDirectory`, a
/// failed read `IoError`. An observation of the wrong kind is
/// `CommandExecutionFailed`.
pub open spec fn executed(action: ActionModel, observation: Observation) -> Result<
    ExecutionModel,
    AgentErrorModel,
> {
    match action {
        ActionModel::ListDirectory { path } => match observation {
            Observation::Directory { found: DirectoryProbe::Missing } => Err(
                AgentErrorModel::PathNotFound(path),
            ),
            Observation::Directory {
                found: DirectoryProbe::Present { ancestors },
            } => match discovered_rules(ancestors@) {
                Ok(rules) => walk_progress(action, walk_start(path, Seq::empty(), rules, None)),
                Err(cause) => Err(AgentErrorModel::IoError(cause)),
            },
            _ => Err(AgentErrorModel::CommandExecutionFailed),
        },
        ActionModel::ShowFile { path } => match observation {
            Observation::File { probe: FileProbe::Missing } => Err(
                AgentErrorModel::PathNotFound(path),
            ),
            Observation::File { probe: FileProbe::Directory } => Err(
                AgentErrorModel::PathIsDirectory(path),
            ),
            Observation::File { probe: FileProbe::Content(text) } => Ok(
                ExecutionModel::Finished { label: command_text(action), output: text@ },
            ),
            Observation::File { probe: FileProbe::Failed(cause) } => Err(
                AgentErrorModel::IoError(cause@),
            ),
            _ => Err(AgentErrorModel::CommandExecutionFailed),
        },
    }
}

/// What an action that is walking a tree comes to, given the listing of
/// the directory its walk asked for. An observation of another kind is
/// `CommandExecutionFailed`.
pub open spec fn continued(action: ActionModel, walk: WalkModel, observation: Observation) -> Result<
    ExecutionModel,
    AgentErrorModel,
> {
    match observation {
        Observation::Listing { listed } => walk_progress(action, feed(walk, listed_view(listed))),
        _ => Err(AgentErrorModel::CommandExecutionFailed),
    }
}

fn label_of(action: &Action) -> (label: String)
    ensures
        label@ == command_text(action@),
{
    match action {
        Action::ListDirectory { path } => {
            let mut label = "tree ".to_owned();
            label.append(path.as_str());
            label
        },
        Action::ShowFile { path } => {
            let mut label = "show_file ".to_owned();
            label.append(path.as_str());
            label
        },
    }
}

fn progress_of(action: &Action, step: (TreeWalk, WalkRequest)) -> (r: Result<Execution, AgentError>)
    ensures
        execution_view(r) == walk_progress(action@, (step.0@, step.1@)),
{
    let (walk, request) = step;
    match request {
        WalkRequest::ReadDir { path } => Ok(Execution::Walking { walk, path }),
        WalkRequest::Done { output } => Ok(Execution::Finished { label: label_of(action), output }),
        WalkRequest::Failed { cause } => Err(AgentError::IoError(cause)),
    }
}

/// Executes an action against what the host found at its path. See
/// [`executed`].
pub fn execute(action: &Action, observation: Observation) -> (r: Result<Execution, AgentError>)
    ensures
        execution_view(r) == executed(action@, observation),
        action@ matches ActionModel::ShowFile { path } ==> {
            &&& observation matches Observation::File { probe: FileProbe::Missing } ==> r matches Err(
                AgentError::PathNotFound(p),
            ) && p@ == path
            &&& observation matches Observation::File { probe: FileProbe::Directory }
                ==> r matches Err(AgentError::PathIsDirectory(p)) && p@ == path
        },
{
    match action {
        Action::ListDirectory { path } => match observation {
            Observation::Directory { found: DirectoryProbe::Missing } => Err(
                AgentError::PathNotFound(path.clone()),
            ),
            Observation::Directory {
                found: DirectoryProbe::Present { ancestors },
            } => match find_gitignore_patterns(&ancestors) {
                Ok(rules) => {
                    proof {
                        reveal_strlit("");
                        assert(""@ == Seq::<char>::empty());
                    }
                    progress_of(action, TreeWalk::start(path.as_str(), "", rules, None))
                },
                Err(e) => match e {
                    FileReadError::Io(cause) => Err(AgentError::IoError(cause)),
                    _ => Err(AgentError::CommandExecutionFailed),
                },
            },
            _ => Err(AgentError::CommandExecutionFailed),
        },
        Action::ShowFile { path } => match observation {
            Observation::File { probe } => match read_file_content(probe) {
                Ok(text) => Ok(Execution::Finished { label: label_of(action), output: text }),
                Err(FileReadError::NotFound) => Err(AgentError::PathNotFound(path.clone())),
                Err(FileReadError::IsDirectory) => Err(AgentError::PathIsDirectory(path.clone())),
                Err(FileReadError::Io(cause)) => Err(AgentError::IoError(cause)),
            },
            _ => Err(AgentError::CommandExecutionFailed),
        },
    }
}

/// Goes on with an action that is walking a tree, given the listing its
/// walk asked for. See [`continued`].
pub fn continue_walk(action: &Action, walk: TreeWalk, observation: Observation) -> (r: Result<
    Execution,
    AgentError,
>)
    ensures
        execution_view(r) == continued(action@, walk@, observation),
{
    match observation {
        Observation::Listing { listed } => progress_of(action, walk.feed(listed)),
        _ => Err(AgentError::CommandExecutionFailed),
    }
}

} // verus!
