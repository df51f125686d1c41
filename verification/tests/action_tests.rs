use nishiogi::action::{
    continue_walk, execute, extract_commands, parse, preview, Action, DirectoryProbe, Execution,
    Observation, PREVIEW_LENGTH,
};
use nishiogi::error::AgentError;
use nishiogi::gitignore::{Ancestor, GitignoreFile};
use nishiogi::show_file::FileProbe;
use nishiogi::tree::DirEntry;

fn show(path: &str) -> Action {
    Action::ShowFile { path: path.to_string() }
}

fn list(path: &str) -> Action {
    Action::ListDirectory { path: path.to_string() }
}

fn file_probe(probe: FileProbe) -> Observation {
    Observation::File { probe }
}

fn present(ancestors: Vec<Ancestor>) -> Observation {
    Observation::Directory { found: DirectoryProbe::Present { ancestors } }
}

fn listing(entries: Vec<DirEntry>) -> Observation {
    Observation::Listing { listed: Ok(entries) }
}

fn expect_walking(r: Result<Execution, AgentError>) -> (nishiogi::walk::TreeWalk, String) {
    match r {
        Ok(Execution::Walking { walk, path }) => (walk, path),
        Ok(Execution::Finished { label, output }) => panic!("finished: {label}: {output}"),
        Err(e) => panic!("failed: {}", e.message()),
    }
}

fn expect_finished(r: Result<Execution, AgentError>) -> (String, String) {
    match r {
        Ok(Execution::Finished { label, output }) => (label, output),
        Ok(Execution::Walking { path, .. }) => panic!("still walking, asks for {path}"),
        Err(e) => panic!("failed: {}", e.message()),
    }
}

#[test]
fn parse_tree_command() {
    match parse("tree src") {
        Ok(Action::ListDirectory { path }) => assert_eq!(path, "src"),
        other => panic!("unexpected: {:?}", other),
    }
}

#[test]
fn parse_show_file_command() {
    match parse("show_file src/main.rs") {
        Ok(Action::ShowFile { path }) => assert_eq!(path, "src/main.rs"),
        other => panic!("unexpected: {:?}", other),
    }
}

#[test]
fn parse_keeps_the_path_as_it_is() {
    match parse("tree  a b/ ") {
        Ok(Action::ListDirectory { path }) => assert_eq!(path, " a b/ "),
        other => panic!("unexpected: {:?}", other),
    }
    match parse("tree ") {
        Ok(Action::ListDirectory { path }) => assert_eq!(path, ""),
        other => panic!("unexpected: {:?}", other),
    }
    match parse("show_file tree x") {
        Ok(Action::ShowFile { path }) => assert_eq!(path, "tree x"),
        other => panic!("unexpected: {:?}", other),
    }
}

#[test]
fn parse_rejects_everything_else() {
    for text in ["", "tree", "show_file", "ls src", " tree src", "Tree src", "treesrc", "show_file\tx", "rm -rf /"] {
        match parse(text) {
            Err(AgentError::UnknownCommand(command)) => assert_eq!(command, text),
            other => panic!("unexpected for {:?}: {:?}", text, other),
        }
    }
}

#[test]
fn extract_commands_from_a_quoted_list() {
    assert_eq!(
        extract_commands("[\"tree src\", \"show_file src/main.rs\"]"),
        vec!["tree src", "show_file src/main.rs"]
    );
    assert_eq!(
        extract_commands("Here is the plan:\n```json\n[\n  \"tree .\",\n  \"show_file Cargo.toml\"\n]\n```\n"),
        vec!["tree .", "show_file Cargo.toml"]
    );
}

#[test]
fn extract_commands_from_lines() {
    assert_eq!(
        extract_commands("tree src\n  show_file README.md  \nthat is all"),
        vec!["tree src", "show_file README.md"]
    );
}

#[test]
fn extract_commands_falls_back_to_the_whole_response() {
    assert_eq!(extract_commands("I cannot help with that."), vec!["I cannot help with that."]);
    assert_eq!(extract_commands(""), vec![""]);
    assert_eq!(extract_commands("1. tree src\n2. show_file a"), vec!["1. tree src\n2. show_file a"]);
    assert_eq!(extract_commands("tree"), vec!["tree"]);
}

#[test]
fn show_missing_file_is_path_not_found() {
    match execute(&show("src/main.x"), file_probe(FileProbe::Missing)) {
        Err(AgentError::PathNotFound(path)) => assert_eq!(path, "src/main.x"),
        _ => panic!("unexpected outcome"),
    }
}

#[test]
fn show_directory_is_path_is_directory() {
    match execute(&show("src"), file_probe(FileProbe::Directory)) {
        Err(AgentError::PathIsDirectory(path)) => assert_eq!(path, "src"),
        _ => panic!("unexpected outcome"),
    }
}

#[test]
fn show_file_gives_label_and_content() {
    let (label, output) = expect_finished(execute(
        &show("notes.txt"),
        file_probe(FileProbe::Content("line 1\nline 2\n".to_string())),
    ));
    assert_eq!(label, "show_file notes.txt");
    assert_eq!(output, "line 1\nline 2\n");
}

#[test]
fn show_file_read_failure_is_io_error() {
    match execute(&show("f"), file_probe(FileProbe::Failed("bad sector".to_string()))) {
        Err(AgentError::IoError(cause)) => assert_eq!(cause, "bad sector"),
        _ => panic!("unexpected outcome"),
    }
}

#[test]
fn list_missing_directory_is_path_not_found() {
    match execute(&list("nowhere"), Observation::Directory { found: DirectoryProbe::Missing }) {
        Err(AgentError::PathNotFound(path)) => assert_eq!(path, "nowhere"),
        _ => panic!("unexpected outcome"),
    }
}

#[test]
fn list_directory_walks_by_the_repository_rules() {
    let ancestors = vec![
        Ancestor { has_git_dir: false, gitignore: GitignoreFile::Absent },
        Ancestor { has_git_dir: true, gitignore: GitignoreFile::Content("*.log\n".to_string()) },
    ];
    let action = list("repo/src");
    let (walk, path) = expect_walking(execute(&action, present(ancestors)));
    assert_eq!(path, "repo/src");
    let (walk, path) = expect_walking(continue_walk(
        &action,
        walk,
        listing(vec![DirEntry::file("b.rs"), DirEntry::file("a.log"), DirEntry::dir("sub", vec![])]),
    ));
    assert_eq!(path, "repo/src/sub");
    let (label, output) = expect_finished(continue_walk(
        &action,
        walk,
        listing(vec![DirEntry::file("x.log"), DirEntry::file("y.rs")]),
    ));
    assert_eq!(label, "tree repo/src");
    assert_eq!(output, "├── b.rs\n└── sub\n    └── y.rs\n");
}

#[test]
fn list_directory_with_unreadable_gitignore_is_io_error() {
    let ancestors = vec![Ancestor {
        has_git_dir: true,
        gitignore: GitignoreFile::Unreadable("permission denied".to_string()),
    }];
    match execute(&list("repo"), present(ancestors)) {
        Err(AgentError::IoError(cause)) => assert_eq!(cause, "permission denied"),
        _ => panic!("unexpected outcome"),
    }
}

#[test]
fn unreadable_directory_during_a_walk_is_io_error() {
    let action = list("repo");
    let (walk, _) = expect_walking(execute(&action, present(vec![])));
    match continue_walk(&action, walk, Observation::Listing { listed: Err("gone".to_string()) }) {
        Err(AgentError::IoError(cause)) => assert_eq!(cause, "gone"),
        _ => panic!("unexpected outcome"),
    }
}

#[test]
fn observation_of_the_wrong_kind_fails_the_command() {
    assert!(matches!(
        execute(&list("repo"), file_probe(FileProbe::Missing)),
        Err(AgentError::CommandExecutionFailed)
    ));
    assert!(matches!(
        execute(&list("repo"), listing(vec![])),
        Err(AgentError::CommandExecutionFailed)
    ));
    assert!(matches!(
        execute(&show("f"), present(vec![])),
        Err(AgentError::CommandExecutionFailed)
    ));
    let action = list("repo");
    let (walk, _) = expect_walking(execute(&action, present(vec![])));
    assert!(matches!(
        continue_walk(&action, walk, file_probe(FileProbe::Missing)),
        Err(AgentError::CommandExecutionFailed)
    ));
}

#[test]
fn error_messages() {
    let cases: Vec<(AgentError, &str)> = vec![
        (AgentError::IntentExtractionFailed, "Failed to extract intent from question"),
        (AgentError::MalformedIntentResponse, "Intent extraction produced malformed response"),
        (AgentError::EmptyIntentResponse, "Intent extraction produced empty response"),
        (AgentError::PlanningFailed, "Failed to create execution plan"),
        (AgentError::EmptyPlan, "Generated plan contains no commands"),
        (AgentError::InvalidPlanFormat, "Generated plan has invalid format"),
        (AgentError::UnknownCommand("ls".to_string()), "Unknown command: ls"),
        (AgentError::PathNotFound("a/b".to_string()), "Path does not exist: a/b"),
        (AgentError::PathIsDirectory("a".to_string()), "Path is a directory: a"),
        (AgentError::CommandExecutionFailed, "Command execution failed"),
        (AgentError::AnswerGenerationFailed, "Failed to generate answer"),
        (AgentError::EmptyAnswerResponse, "Generated answer is empty"),
        (AgentError::ReviewFailed, "Failed to review answer"),
        (AgentError::NoAnswerToReview, "No answer available to review"),
        (
            AgentError::MaxIterationsReached,
            "Maximum iterations reached without satisfactory answer",
        ),
        (AgentError::CopilotError("timeout".to_string()), "Copilot error: timeout"),
        (AgentError::IoError("eof".to_string()), "I/O error: eof"),
        (AgentError::Other("x".to_string()), "Other error: x"),
    ];
    for (error, text) in cases {
        assert_eq!(error.message(), text);
    }
}

#[test]
fn preview_shows_the_first_hundred_characters() {
    assert_eq!(PREVIEW_LENGTH, 100);
    assert_eq!(preview(""), "");
    assert_eq!(preview("short"), "short");
    let exactly = "x".repeat(100);
    assert_eq!(preview(&exactly), exactly);
    let longer = "x".repeat(101);
    assert_eq!(preview(&longer), format!("{}...", "x".repeat(100)));
    let wide = "é".repeat(150);
    assert_eq!(preview(&wide), format!("{}...", "é".repeat(100)));
}
