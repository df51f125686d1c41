use nishiogi::action::{Action, DirectoryProbe, Observation};
use nishiogi::agent::{verdict_passes, Agent, Message, Reply, Request};
use nishiogi::error::AgentError;
use nishiogi::session::{SessionState, MAX_ITERATIONS};
use nishiogi::show_file::FileProbe;
use nishiogi::tree::DirEntry;

const NOTE: &str =
    "\n\n(Note: This answer was provided after reaching the maximum number of iteration attempts.)";

fn completion(texts: &[&str]) -> Reply {
    Reply::Completion { choices: texts.iter().map(|t| t.to_string()).collect() }
}

fn found(observation: Observation) -> Reply {
    Reply::Found { observation }
}

fn present() -> Reply {
    found(Observation::Directory { found: DirectoryProbe::Present { ancestors: vec![] } })
}

fn listing(entries: Vec<DirEntry>) -> Reply {
    found(Observation::Listing { listed: Ok(entries) })
}

fn content(text: &str) -> Reply {
    found(Observation::File { probe: FileProbe::Content(text.to_string()) })
}

fn messages_of(request: &Request) -> &Vec<Message> {
    match request {
        Request::Complete { messages, .. } => messages,
        other => panic!("not a request to the model: {:?}", other),
    }
}

fn user_text(request: &Request) -> &str {
    let messages = messages_of(request);
    assert_eq!(messages.len(), 2);
    assert_eq!(messages[0].role, "system");
    assert_eq!(messages[1].role, "user");
    &messages[1].content
}

fn outcome_of(request: Request) -> Result<String, AgentError> {
    match request {
        Request::Finish { outcome } => outcome,
        other => panic!("the session is not over: {:?}", other),
    }
}

/// Takes a session that has just been started through understanding,
/// planning with the plan `tree src` and `show_file src/main.rs`, and
/// execution, up to the request for an answer.
fn through_execution(agent: &mut Agent, to_planning: Reply) -> Request {
    let request = agent.advance(to_planning);
    assert_eq!(agent.state(), SessionState::Planning);
    assert!(matches!(request, Request::Complete { .. }));
    execute_plan(agent)
}

/// Answers a request for a plan and executes the plan.
fn execute_plan(agent: &mut Agent) -> Request {
    let request = agent.advance(completion(&["[\"tree src\", \"show_file src/main.rs\"]"]));
    assert_eq!(agent.state(), SessionState::Executing);
    match request {
        Request::Probe { action: Action::ListDirectory { path } } => assert_eq!(path, "src"),
        other => panic!("unexpected request: {:?}", other),
    }
    let request = agent.advance(present());
    match request {
        Request::ReadDir { path } => assert_eq!(path, "src"),
        other => panic!("unexpected request: {:?}", other),
    }
    let request = agent.advance(listing(vec![DirEntry::file("main.rs")]));
    match request {
        Request::Probe { action: Action::ShowFile { path } } => assert_eq!(path, "src/main.rs"),
        other => panic!("unexpected request: {:?}", other),
    }
    let request = agent.advance(content("fn main() {}\n"));
    assert_eq!(agent.state(), SessionState::Answering);
    request
}

#[test]
fn new_agent_is_idle_with_the_default_model() {
    let agent = Agent::new();
    assert_eq!(agent.model_id(), "gpt-4");
    assert_eq!(agent.state(), SessionState::Done);
    assert_eq!(agent.iteration_count(), 0);
    assert_eq!(agent.question(), "");
    assert!(agent.plan().is_empty());
    assert!(agent.command_results().is_empty());
    assert!(agent.current_answer().is_none());
    assert!(agent.review_result().is_none());
    let agent = Agent::with_model("other-model".to_string());
    assert_eq!(agent.model_id(), "other-model");
}

#[test]
fn reply_without_a_question_is_an_error() {
    let mut agent = Agent::new();
    match outcome_of(agent.advance(completion(&["hello"]))) {
        Err(AgentError::Other(text)) => assert_eq!(text, "No question is being processed"),
        _ => panic!("unexpected outcome"),
    }
    assert_eq!(agent.state(), SessionState::Done);
}

#[test]
fn process_query_asks_the_model_to_read_the_question() {
    let mut agent = Agent::with_model("m-1".to_string());
    let request = agent.process_query("Where is main?");
    assert_eq!(agent.state(), SessionState::Understanding);
    assert_eq!(agent.iteration_count(), 1);
    assert_eq!(agent.question(), "Where is main?");
    match &request {
        Request::Complete { messages, model_id } => {
            assert_eq!(model_id, "m-1");
            assert_eq!(messages.len(), 2);
            assert_eq!(messages[0].role, "system");
            assert_eq!(
                messages[0].content,
                "You are an assistant that understands user questions about code repositories. Extract the user's intent regarding what files or directories they want to explore."
            );
            assert_eq!(messages[1].role, "user");
            assert_eq!(
                messages[1].content,
                "Based on this question: 'Where is main?', identify what directories and files the user wants to explore. Respond in this format:\n\n{\"tree\": [\"path1\", \"path2\"], \"show_file\": [\"file1\", \"file2\"]}"
            );
        }
        other => panic!("unexpected request: {:?}", other),
    }
}

#[test]
fn missing_intent_is_not_fatal() {
    let mut agent = Agent::new();
    agent.process_query("q");
    let request = agent.advance(completion(&[]));
    assert_eq!(agent.state(), SessionState::Planning);
    assert_eq!(
        user_text(&request),
        "Based on this question: 'q', create a plan of what commands to run. Return a JSON array of commands like [\"tree src\", \"show_file src/main.rs\"]"
    );
    assert_eq!(
        messages_of(&request)[0].content,
        "You are an assistant that plans how to answer questions about code repositories. You can use 'tree' to show directory structure and 'show_file' to display file contents."
    );
}

#[test]
fn service_failure_aborts_in_every_model_step() {
    // understanding
    let mut agent = Agent::new();
    agent.process_query("q");
    match outcome_of(agent.advance(Reply::Failure { cause: "503".to_string() })) {
        Err(AgentError::CopilotError(cause)) => assert_eq!(cause, "503"),
        _ => panic!("unexpected outcome"),
    }
    assert_eq!(agent.state(), SessionState::Done);
    // planning
    let mut agent = Agent::new();
    agent.process_query("q");
    agent.advance(completion(&["intent"]));
    assert!(matches!(
        outcome_of(agent.advance(Reply::Failure { cause: "503".to_string() })),
        Err(AgentError::CopilotError(_))
    ));
    // answering
    let mut agent = Agent::new();
    agent.process_query("q");
    through_execution(&mut agent, completion(&["intent"]));
    assert!(matches!(
        outcome_of(agent.advance(Reply::Failure { cause: "503".to_string() })),
        Err(AgentError::CopilotError(_))
    ));
    // reviewing
    let mut agent = Agent::new();
    agent.process_query("q");
    through_execution(&mut agent, completion(&["intent"]));
    agent.advance(completion(&["an answer"]));
    assert_eq!(agent.state(), SessionState::Reviewing);
    assert!(matches!(
        outcome_of(agent.advance(Reply::Failure { cause: "503".to_string() })),
        Err(AgentError::CopilotError(_))
    ));
}

#[test]
fn no_choice_fails_planning_answering_and_reviewing() {
    let mut agent = Agent::new();
    agent.process_query("q");
    agent.advance(completion(&["intent"]));
    assert!(matches!(outcome_of(agent.advance(completion(&[]))), Err(AgentError::PlanningFailed)));

    let mut agent = Agent::new();
    agent.process_query("q");
    through_execution(&mut agent, completion(&["intent"]));
    assert!(matches!(
        outcome_of(agent.advance(completion(&[]))),
        Err(AgentError::AnswerGenerationFailed)
    ));

    let mut agent = Agent::new();
    agent.process_query("q");
    through_execution(&mut agent, completion(&["intent"]));
    assert!(matches!(
        outcome_of(agent.advance(completion(&[""]))),
        Err(AgentError::EmptyAnswerResponse)
    ));

    let mut agent = Agent::new();
    agent.process_query("q");
    through_execution(&mut agent, completion(&["intent"]));
    agent.advance(completion(&["an answer"]));
    assert!(matches!(outcome_of(agent.advance(completion(&[]))), Err(AgentError::ReviewFailed)));
}

#[test]
fn replies_of_the_wrong_kind_fail_the_step() {
    let mut agent = Agent::new();
    agent.process_query("q");
    agent.advance(completion(&["intent"]));
    assert!(matches!(outcome_of(agent.advance(present())), Err(AgentError::PlanningFailed)));

    let mut agent = Agent::new();
    agent.process_query("q");
    agent.advance(completion(&["intent"]));
    agent.advance(completion(&["tree src"]));
    assert!(matches!(
        outcome_of(agent.advance(completion(&["not a listing"]))),
        Err(AgentError::CommandExecutionFailed)
    ));

    let mut agent = Agent::new();
    agent.process_query("q");
    through_execution(&mut agent, completion(&["intent"]));
    assert!(matches!(
        outcome_of(agent.advance(present())),
        Err(AgentError::AnswerGenerationFailed)
    ));

    let mut agent = Agent::new();
    agent.process_query("q");
    through_execution(&mut agent, completion(&["intent"]));
    agent.advance(completion(&["an answer"]));
    assert!(matches!(outcome_of(agent.advance(present())), Err(AgentError::ReviewFailed)));
}

#[test]
fn unknown_command_aborts_the_session() {
    let mut agent = Agent::new();
    agent.process_query("q");
    agent.advance(completion(&["intent"]));
    match outcome_of(agent.advance(completion(&["Sorry, I have no plan."]))) {
        Err(AgentError::UnknownCommand(text)) => assert_eq!(text, "Sorry, I have no plan."),
        _ => panic!("unexpected outcome"),
    }
    assert_eq!(agent.state(), SessionState::Done);
    assert_eq!(agent.plan(), &vec!["Sorry, I have no plan.".to_string()]);
    assert!(agent.current_answer().is_none());
}

#[test]
fn missing_file_in_the_plan_aborts_with_path_not_found() {
    let mut agent = Agent::new();
    agent.process_query("What does main do?");
    agent.advance(completion(&["intent"]));
    let request = agent.advance(completion(&["[\"tree src\", \"show_file src/main.x\"]"]));
    assert_eq!(agent.plan(), &vec!["tree src".to_string(), "show_file src/main.x".to_string()]);
    assert!(matches!(request, Request::Probe { action: Action::ListDirectory { .. } }));
    let request = agent.advance(present());
    assert!(matches!(request, Request::ReadDir { .. }));
    let request = agent.advance(listing(vec![DirEntry::file("main.rs")]));
    match request {
        Request::Probe { action: Action::ShowFile { path } } => assert_eq!(path, "src/main.x"),
        other => panic!("unexpected request: {:?}", other),
    }
    assert_eq!(
        agent.command_results(),
        &vec![("tree src".to_string(), "└── main.rs\n".to_string())]
    );
    let request = agent.advance(found(Observation::File { probe: FileProbe::Missing }));
    match outcome_of(request) {
        Err(AgentError::PathNotFound(path)) => assert_eq!(path, "src/main.x"),
        _ => panic!("unexpected outcome"),
    }
    assert_eq!(agent.state(), SessionState::Done);
    assert!(agent.current_answer().is_none());
}

#[test]
fn missing_directory_in_the_plan_aborts_with_path_not_found() {
    let mut agent = Agent::new();
    agent.process_query("q");
    agent.advance(completion(&["intent"]));
    agent.advance(completion(&["tree nowhere"]));
    let request = agent.advance(found(Observation::Directory { found: DirectoryProbe::Missing }));
    match outcome_of(request) {
        Err(AgentError::PathNotFound(path)) => assert_eq!(path, "nowhere"),
        _ => panic!("unexpected outcome"),
    }
}

#[test]
fn answer_request_shows_the_results_in_plan_order() {
    let mut agent = Agent::new();
    agent.process_query("What does main do?");
    let request = through_execution(&mut agent, completion(&["intent"]));
    assert_eq!(
        agent.command_results(),
        &vec![
            ("tree src".to_string(), "└── main.rs\n".to_string()),
            ("show_file src/main.rs".to_string(), "fn main() {}\n".to_string()),
        ]
    );
    assert_eq!(
        user_text(&request),
        "Question: What does main do?\n\nCommand results:\n\n## Command: tree src\n\n```\n└── main.rs\n\n```\n\n## Command: show_file src/main.rs\n\n```\nfn main() {}\n\n```\n\n\n\nBased on the above information, please provide a comprehensive answer to the question."
    );
    assert_eq!(
        messages_of(&request)[0].content,
        "You are an assistant that analyzes code repositories. Create a helpful response based on executed commands."
    );
}

#[test]
fn affirmative_first_verdict_returns_the_answer_unmodified() {
    let mut agent = Agent::new();
    agent.process_query("What does main do?");
    through_execution(&mut agent, completion(&["intent"]));
    let request = agent.advance(completion(&["It does nothing.", "a second choice"]));
    assert_eq!(agent.state(), SessionState::Reviewing);
    assert_eq!(agent.current_answer(), Some("It does nothing."));
    assert_eq!(
        user_text(&request),
        "Question: What does main do?\n\nAnswer: It does nothing.\n\nDoes this answer adequately address the question? Only respond with 'YES' if the answer is adequate, or 'NO: <reason>' if not."
    );
    let outcome = outcome_of(agent.advance(completion(&["YES"])));
    assert_eq!(outcome.ok(), Some("It does nothing.".to_string()));
    assert_eq!(agent.iteration_count(), 1);
    assert_eq!(agent.state(), SessionState::Done);
    assert_eq!(agent.review_result(), Some("YES"));
}

#[test]
fn negative_verdicts_run_to_the_iteration_limit() {
    let mut agent = Agent::new();
    agent.process_query("What does main do?");
    let mut plans = 0;
    let mut answers = 0;
    let mut reviews = 0;
    let mut request = agent.advance(completion(&["intent"]));
    let outcome = loop {
        assert_eq!(agent.state(), SessionState::Planning);
        assert!(matches!(request, Request::Complete { .. }));
        plans += 1;
        assert_eq!(agent.iteration_count(), plans);
        execute_plan(&mut agent);
        answers += 1;
        let answer = format!("answer {answers}");
        agent.advance(completion(&[answer.as_str()]));
        reviews += 1;
        let verdict = format!("NO: attempt {reviews} is not enough");
        request = agent.advance(completion(&[verdict.as_str()]));
        if let Request::Finish { outcome } = request {
            break outcome;
        }
        assert!(
            user_text(&request).ends_with(&format!(" Review: NO: attempt {reviews} is not enough")),
            "the verdict is carried into the next plan request"
        );
        assert!(plans < 10, "the session does not end");
    };
    assert_eq!(plans, MAX_ITERATIONS);
    assert_eq!(answers, MAX_ITERATIONS);
    assert_eq!(reviews, MAX_ITERATIONS);
    assert_eq!(MAX_ITERATIONS, 3);
    assert_eq!(agent.iteration_count(), MAX_ITERATIONS);
    assert_eq!(outcome.ok(), Some(format!("answer 3{NOTE}")));
    assert_eq!(agent.current_answer(), Some("answer 3"));
    assert_eq!(agent.state(), SessionState::Done);
}

#[test]
fn verdict_that_passes_in_the_second_iteration() {
    let mut agent = Agent::new();
    agent.process_query("q");
    through_execution(&mut agent, completion(&["intent"]));
    agent.advance(completion(&["first"]));
    let request = agent.advance(completion(&["NO: too short"]));
    assert_eq!(agent.state(), SessionState::Planning);
    assert_eq!(agent.iteration_count(), 2);
    assert_eq!(
        user_text(&request),
        "Based on this question: 'q', create a plan of what commands to run. Return a JSON array of commands like [\"tree src\", \"show_file src/main.rs\"]\n\nThe previous answer was reviewed and found inadequate. Take the review into account when planning again. Review: NO: too short"
    );
    execute_plan(&mut agent);
    assert_eq!(agent.command_results().len(), 2);
    agent.advance(completion(&["second"]));
    let outcome = outcome_of(agent.advance(completion(&["yes, this is fine"])));
    assert_eq!(outcome.ok(), Some("second".to_string()));
    assert_eq!(agent.iteration_count(), 2);
}

#[test]
fn verdicts() {
    for passing in ["YES", "yes", "Yes.", "yEs, it does", "YESTERDAY", "ye\u{17f}", "Ye\u{df}", "ye\u{fb06}"] {
        assert!(verdict_passes(passing), "{passing}");
    }
    for failing in ["", "NO", "NO: because", "no", " YES", "Y", "YE", "The answer is YES", "ja", "ÝES"] {
        assert!(!verdict_passes(failing), "{failing}");
    }
}

#[test]
fn verdict_passes_where_the_upper_case_begins_with_yes() {
    let by_upper_case = |text: &str| text.to_uppercase().starts_with("YES");
    let mut code: u32 = 0;
    // Every character that has an upper case lies below U+20000.
    while code <= 0x1FFFF {
        if let Some(c) = char::from_u32(code) {
            for text in [
                format!("{c}"),
                format!("{c}s"),
                format!("{c}es"),
                format!("y{c}"),
                format!("y{c}s"),
                format!("ye{c}"),
                format!("YE{c} and more"),
            ] {
                assert_eq!(verdict_passes(&text), by_upper_case(&text), "U+{:04X}", code);
            }
        }
        code += 1;
    }
}

#[test]
fn a_new_question_drops_the_old_session() {
    let mut agent = Agent::new();
    agent.process_query("first question");
    through_execution(&mut agent, completion(&["intent"]));
    agent.advance(completion(&["first answer"]));
    agent.advance(completion(&["NO"]));
    assert_eq!(agent.iteration_count(), 2);
    agent.process_query("second question");
    assert_eq!(agent.question(), "second question");
    assert_eq!(agent.iteration_count(), 1);
    assert_eq!(agent.state(), SessionState::Understanding);
    assert!(agent.plan().is_empty());
    assert!(agent.command_results().is_empty());
    assert!(agent.current_answer().is_none());
    assert!(agent.review_result().is_none());
}

#[test]
fn step_handlers_can_be_called_directly() {
    let mut agent = Agent::new();
    agent.process_query("q");
    agent.understand_question(completion(&["intent"]));
    assert_eq!(agent.state(), SessionState::Planning);
    agent.plan_execution(completion(&["show_file a.txt"]));
    assert_eq!(agent.state(), SessionState::Executing);
    agent.execute_commands(content("text"));
    assert_eq!(agent.state(), SessionState::Answering);
    agent.create_answer(completion(&["answer"]));
    assert_eq!(agent.state(), SessionState::Reviewing);
    let outcome = outcome_of(agent.review_answer(completion(&["YES"])));
    assert_eq!(outcome.ok(), Some("answer".to_string()));
}

#[test]
fn review_without_an_answer_is_an_error() {
    let mut agent = Agent::new();
    agent.process_query("q");
    assert!(matches!(
        outcome_of(agent.review_answer(completion(&["YES"]))),
        Err(AgentError::NoAnswerToReview)
    ));
}

#[test]
fn execution_without_a_plan_is_an_error() {
    let mut agent = Agent::new();
    agent.process_query("q");
    assert!(matches!(
        outcome_of(agent.execute_commands(content("text"))),
        Err(AgentError::CommandExecutionFailed)
    ));
}
