//! The turns of the stand-in.

use kid_agentic_coding::acp::ToolCallStatus;
use kid_agentic_coding::lorem::agent::{AgentServer, Listing, LoremAgent, PromptStart};
use kid_agentic_coding::lorem::plan::{called_tool, Invocation, McpToolCall};
use kid_agentic_coding::lorem::turn::{Turn, TurnAction, TurnEvent};
use kid_agentic_coding::mcp::servers::StdioServer;

fn event(cancelled: bool, called: bool) -> TurnEvent {
    TurnEvent {
        cancelled,
        listings: Vec::new(),
        called,
    }
}

fn server(name: &str, program: &str) -> AgentServer {
    AgentServer::Stdio(StdioServer {
        name: name.to_owned(),
        program: program.to_owned(),
        args: vec!["--socket".to_owned(), "here".to_owned()],
    })
}

/// The first prompt of a session with some servers.
fn first_prompt(servers: Vec<AgentServer>) -> PromptStart {
    let mut agent = LoremAgent::new();
    let id = agent.new_session(servers);
    agent.start_prompt(&id)
}

/// Every action of a turn until its end, in short.
fn actions(turn: &mut Turn, called: bool) -> Vec<String> {
    let mut actions = Vec::new();
    loop {
        let action = match turn.next(event(false, called)) {
            TurnAction::ListTools => "list".to_owned(),
            TurnAction::Say(text) => format!("say {text}"),
            TurnAction::Think(_) => "think".to_owned(),
            TurnAction::Announce { id, name, .. } => format!("announce {id} {name}"),
            TurnAction::Call(call) => format!("call {}", call.name),
            TurnAction::Settle { id, status, text } => format!("settle {id} {status:?} {text}"),
            TurnAction::Reply(chunks) => format!("reply {}", chunks.len()),
            TurnAction::End { cancelled } => {
                actions.push(format!("end {cancelled}"));
                return actions;
            }
        };
        actions.push(action);
    }
}

#[test]
fn a_first_prompt_lists_the_tools_and_runs_its_plan() {
    let mut turn = Turn::new(&first_prompt(Vec::new()), true, false);

    assert_eq!(
        actions(&mut turn, true),
        [
            "list",
            "say Registered MCP tools:",
            "think",
            "announce lorem-tool-0-1 generate_lorem_ipsum",
            "settle lorem-tool-0-1 Completed generate_lorem_ipsum: ok (48 words)",
            "reply 24",
            "end false",
        ]
    );
    assert_eq!(actions(&mut turn, true), ["end false"]);
}

#[test]
fn listed_tools_are_said() {
    let mut turn = Turn::new(&first_prompt(Vec::new()), true, false);
    assert!(matches!(
        turn.next(event(false, false)),
        TurnAction::ListTools
    ));

    let listed = TurnEvent {
        cancelled: true,
        listings: vec![Listing {
            server: "rust-tools".to_owned(),
            tools: Ok(vec!["check".to_owned(), "lint".to_owned()]),
        }],
        called: false,
    };
    assert!(matches!(
        turn.next(listed),
        TurnAction::Say(text) if text == "Registered MCP tools:\n- rust-tools: check, lint"
    ));
}

#[test]
fn a_later_prompt_lists_no_tools() {
    let mut agent = LoremAgent::new();
    let id = agent.new_session(Vec::new());
    agent.start_prompt(&id);
    let start = agent.start_prompt(&id);

    let mut turn = Turn::new(&start, true, false);

    assert!(matches!(
        turn.next(event(false, false)),
        TurnAction::Think(_)
    ));
    let TurnAction::Announce { id, input, .. } = turn.next(event(false, false)) else {
        panic!("expected a tool call");
    };
    assert_eq!(id, "lorem-tool-48-1");
    assert_eq!(
        input.as_deref(),
        Some(r#"{"tool":"search_files","prompt_seed":48,"step_index":1}"#)
    );
}

#[test]
fn a_fix_session_calls_its_tools_and_settles_each() {
    let servers = vec![server("git-commit-fix-close-tools", "close")];
    let mut turn = Turn::new(&first_prompt(servers), true, false);

    let taken = actions(&mut turn, true);

    for (index, action) in taken.iter().enumerate() {
        if let Some(announced) = action.strip_prefix("announce ") {
            let id = announced.split(' ').next().unwrap();
            assert!(taken[index + 1].starts_with("call "));
            assert!(taken[index + 2].starts_with(&format!("settle {id} Completed")));
        }
    }
    assert!(taken
        .iter()
        .any(|action| action.ends_with("Completed git_commit: ok")));
}

#[test]
fn a_call_that_could_not_be_made_has_failed() {
    let servers = vec![server("git-commit-fix-close-tools", "close")];
    let mut turn = Turn::new(&first_prompt(servers), true, false);

    let taken = actions(&mut turn, false);

    assert!(taken
        .iter()
        .filter(|action| action.starts_with("settle"))
        .all(|action| action.contains("Failed") && action.ends_with(": failed")));
}

#[test]
fn the_first_tool_call_fails_where_that_is_asked_for() {
    let mut agent = LoremAgent::new();
    let id = agent.new_session(Vec::new());
    agent.start_prompt(&id);
    let mut turn = Turn::new(&agent.start_prompt(&id), true, true);

    let settled: Vec<String> = actions(&mut turn, true)
        .into_iter()
        .filter(|action| action.starts_with("settle"))
        .collect();

    assert_eq!(
        settled[0],
        "settle lorem-tool-48-1 Failed search_files: simulated failure"
    );
    assert!(settled[1..].iter().all(|action| action.contains("Completed")));
}

#[test]
fn a_cancelled_turn_settles_its_call_and_ends() {
    let mut turn = Turn::new(&first_prompt(Vec::new()), true, false);
    for _ in 0..4 {
        turn.next(event(false, false));
    }

    assert!(matches!(
        turn.next(event(true, false)),
        TurnAction::Settle {
            status: ToolCallStatus::Completed,
            ..
        }
    ));
    assert!(matches!(
        turn.next(event(true, false)),
        TurnAction::End { cancelled: true }
    ));
    assert!(matches!(
        turn.next(event(false, false)),
        TurnAction::End { cancelled: true }
    ));
}

#[test]
fn the_server_that_was_offered_first_is_remembered() {
    let mut agent = LoremAgent::new();
    let offered = vec![AgentServer::Acp("first".to_owned())];
    agent.remember(&offered, true);
    assert_eq!(agent.confetti(), None);
    assert!(agent.commit_workflow().is_none());

    agent.remember(&offered, false);
    let later = vec![
        AgentServer::Acp("second".to_owned()),
        server("git-commit-fix-open-tools", "open"),
    ];
    agent.remember(&later, false);
    agent.remember(&vec![server("git-commit-fix-open-tools", "other")], false);

    assert_eq!(agent.confetti().as_deref(), Some("first"));
    let kept = agent.commit_workflow().unwrap();
    assert_eq!(kept.program, "open");
    assert_eq!(kept.args, ["--socket", "here"]);
}

#[test]
fn calls_go_to_the_tools_of_their_servers() {
    let call = |argument: Option<&'static str>, invoke: Invocation| McpToolCall {
        name: "tool",
        argument,
        invoke,
    };

    assert_eq!(
        called_tool(&call(Some("rust_check"), Invocation::RustTool)),
        ("rust_check", None)
    );
    assert_eq!(
        called_tool(&call(Some("fix: it"), Invocation::CommitWorkflow)),
        ("git_commit_with_fix", Some("fix: it"))
    );
    assert_eq!(
        called_tool(&call(Some("fix: it"), Invocation::GitCommit)),
        ("git_commit", Some("fix: it"))
    );
    assert_eq!(
        called_tool(&call(None, Invocation::Confetti)),
        ("confetti", None)
    );
}
