//! The stand-in agent.

use kid_agentic_coding::acp::ToolCallStatus;
use kid_agentic_coding::lorem::agent::{
    find_acp_id, find_server, list_registered_tools, session_kind, tool_names, AgentServer,
    Listing, LoremAgent, SessionKind,
};
use kid_agentic_coding::lorem::plan::{
    commit_fix_session_plan, invocation_report, mcp_result, plan_for, simulated_result,
    tool_call_id, word_chunks, Invocation, McpToolCall, Step, REPLY_WORD_COUNT,
};
use kid_agentic_coding::lorem::words::{generate, word, WORD_COUNT};
use kid_agentic_coding::mcp::servers::StdioServer;

#[test]
fn generates_requested_word_count() {
    let text = generate(0, 5);
    assert_eq!(text.split(' ').count(), 5);
}

#[test]
fn is_deterministic_for_the_same_seed() {
    assert_eq!(generate(3, 8), generate(3, 8));
}

#[test]
fn wraps_around_the_word_pool() {
    let text = generate(WORD_COUNT - 1, 2);
    assert_eq!(text, format!("{} {}", word(WORD_COUNT - 1), word(0)));
}

#[test]
fn the_text_starts_as_it_always_does() {
    assert_eq!(generate(0, 5), "lorem ipsum dolor sit amet");
    assert_eq!(generate(WORD_COUNT, 5), generate(0, 5));
    assert_eq!(generate(7, 0), "");
}

fn stdio_server(name: &str, program: &str) -> AgentServer {
    AgentServer::Stdio(StdioServer {
        name: name.to_owned(),
        program: program.to_owned(),
        args: Vec::new(),
    })
}

#[test]
fn session_kind_identifies_fix_session_from_close_server() {
    let servers = vec![stdio_server(
        "git-commit-fix-close-tools",
        "git-commit-fix-close",
    )];
    assert_eq!(session_kind(&servers), SessionKind::Fix);
}

#[test]
fn session_kind_keeps_main_session_without_close_server() {
    let servers = vec![stdio_server(
        "git-commit-fix-open-tools",
        "git-commit-fix-open",
    )];
    assert_eq!(session_kind(&servers), SessionKind::Main);
}

#[test]
fn fix_session_commit_uses_close_server_git_commit() {
    let steps = commit_fix_session_plan();
    let Some(Step::McpToolCall(call)) = steps.last() else {
        panic!("fix session must end with Git Commit");
    };

    assert_eq!(call.name, "Git Commit");
    assert_eq!(
        call.argument,
        Some("feat(lorem-agent): demonstrate commit fix workflow")
    );
    assert_eq!(call.invoke, Invocation::GitCommit);
}

fn tool_call_names(steps: &[Step]) -> Vec<&'static str> {
    steps
        .iter()
        .filter_map(|step| match step {
            Step::SimulatedToolCall(name) => Some(*name),
            Step::McpToolCall(call) => Some(call.name),
            Step::Thought(_) => None,
        })
        .collect()
}

#[test]
fn first_request_has_a_single_thought_and_tool_call() {
    let steps = plan_for(0, false);
    assert_eq!(tool_call_names(&steps), vec!["generate_lorem_ipsum"]);
    assert!(matches!(steps[0], Step::Thought(_)));
}

#[test]
fn commit_fix_session_plan_ends_with_git_commit() {
    let steps = commit_fix_session_plan();
    assert_eq!(
        tool_call_names(&steps),
        vec!["Rust Check", "Rust Lint", "Rust Test", "Git Commit"]
    );

    assert!(matches!(steps[0], Step::Thought(_)));
}

#[test]
fn second_request_includes_commit_fix_tool_call() {
    let steps = plan_for(1, false);
    assert_eq!(
        tool_call_names(&steps),
        vec![
            "search_files",
            "read_file",
            "list_directory",
            "Git Commit With Fix"
        ]
    );
}

#[test]
fn third_request_with_mcp_includes_bash_before_confetti() {
    let steps = plan_for(2, true);
    assert!(matches!(
        steps[steps.len() - 2],
        Step::SimulatedToolCall("bash")
    ));
    assert!(matches!(
        steps.last(),
        Some(Step::McpToolCall(McpToolCall {
            name: "confetti",
            ..
        }))
    ));
}

#[test]
fn second_request_has_two_consecutive_tool_calls() {
    let steps = plan_for(1, false);
    assert_eq!(
        tool_call_names(&steps),
        vec![
            "search_files",
            "read_file",
            "list_directory",
            "Git Commit With Fix",
        ]
    );
    assert!(matches!(steps[1], Step::SimulatedToolCall("search_files")));
    assert!(matches!(steps[2], Step::SimulatedToolCall("read_file")));
}

#[test]
fn third_request_has_more_than_three_tool_calls() {
    let steps = plan_for(2, false);
    // More than the inline UI's 3-step live tail, so this request exercises
    // the truncation marker while the turn is still running.
    assert!(tool_call_names(&steps).len() > 3);
}

#[test]
fn third_request_interleaves_thoughts_between_tool_calls() {
    let steps = plan_for(2, false);
    let thought_count = steps
        .iter()
        .filter(|step| matches!(step, Step::Thought(_)))
        .count();
    assert!(thought_count >= 2);
    assert!(matches!(steps[0], Step::Thought(_)));
}

#[test]
fn plan_cycles_every_three_requests() {
    assert_eq!(
        tool_call_names(&plan_for(0, false)),
        tool_call_names(&plan_for(3, false))
    );
    assert_eq!(
        tool_call_names(&plan_for(1, false)),
        tool_call_names(&plan_for(4, false))
    );
}

#[test]
fn words_are_sent_two_by_two() {
    assert_eq!(word_chunks("lorem ipsum dolor"), vec!["lorem ipsum", "dolor"]);
    assert_eq!(word_chunks("lorem"), vec!["lorem"]);
}

#[test]
fn simulated_calls_succeed_but_for_the_first() {
    assert_eq!(
        simulated_result("bash", true),
        (ToolCallStatus::Failed, "bash: simulated failure".to_owned())
    );
    let (status, text) = simulated_result("bash", false);
    assert_eq!(status, ToolCallStatus::Completed);
    assert_eq!(text, format!("bash: ok ({REPLY_WORD_COUNT} words)"));
    assert_eq!(tool_call_id(96, 2), "lorem-tool-96-2");
}

#[test]
fn calls_report_what_they_did() {
    let call = |argument: Option<&'static str>, invoke: Invocation| McpToolCall {
        name: "Tool",
        argument,
        invoke,
    };
    assert_eq!(
        invocation_report(&call(Some("rust_test"), Invocation::RustTool)),
        Ok("rust_test: ok".to_owned())
    );
    assert_eq!(
        invocation_report(&call(None, Invocation::RustTool)),
        Err("rust tool name unavailable")
    );
    assert_eq!(
        invocation_report(&call(Some("m"), Invocation::CommitWorkflow)),
        Ok("git_commit_with_fix: ok".to_owned())
    );
    assert_eq!(
        invocation_report(&call(None, Invocation::GitCommit)),
        Err("commit message unavailable")
    );
    assert_eq!(
        invocation_report(&call(None, Invocation::Confetti)),
        Ok("confetti: ok".to_owned())
    );
    assert_eq!(
        mcp_result("Tool", None),
        (ToolCallStatus::Failed, "Tool: failed".to_owned())
    );
}

#[test]
fn servers_are_found_by_name() {
    let servers = vec![
        AgentServer::Other,
        stdio_server("rust-tools", "a"),
        stdio_server("rust-tools", "b"),
        AgentServer::Acp("bridge-1".to_owned()),
        AgentServer::Acp("bridge-2".to_owned()),
    ];

    let found = find_server(&servers, "rust-tools").unwrap();
    assert_eq!(found.program, "a");
    assert!(find_server(&servers, "python-tools").is_none());
    assert_eq!(find_acp_id(&servers), Some("bridge-1".to_owned()));
    assert_eq!(find_acp_id(&vec![AgentServer::Other]), None);
}

#[test]
fn sessions_are_announced_at_their_first_prompt() {
    let mut agent = LoremAgent::new();
    let first = agent.new_session(vec![]);
    let second = agent.new_session(vec![stdio_server("git-commit-fix-close-tools", "c")]);
    assert_eq!(first, "lorem-session-0");
    assert_eq!(second, "lorem-session-1");

    let start = agent.start_prompt("lorem-session-1");
    assert_eq!((start.prompt_index, start.seed), (0, 0));
    assert_eq!(start.session.unwrap().kind, SessionKind::Fix);

    let start = agent.start_prompt("lorem-session-1");
    assert_eq!((start.prompt_index, start.seed), (1, REPLY_WORD_COUNT));
    assert!(start.session.is_none());
}

#[test]
fn registered_tools_are_listed_by_server() {
    let listings = vec![
        Listing {
            server: "rust-tools".to_owned(),
            tools: Ok(vec!["check".to_owned(), "test".to_owned()]),
        },
        Listing {
            server: "confetti".to_owned(),
            tools: Err("gone".to_owned()),
        },
    ];

    assert_eq!(
        list_registered_tools(&listings),
        "Registered MCP tools:\n- rust-tools: check, test\n- confetti: <failed to list tools: gone>"
    );
}

#[test]
fn tools_are_listed_by_name() {
    let response = br#"{"tools":[{"name":"confetti","title":"Celebrate"},{"title":"nameless"},7,{"name":3},{"name":"git \"add\""}]}"#;

    assert_eq!(
        tool_names(response).unwrap(),
        vec!["confetti".to_owned(), "git \"add\"".to_owned()]
    );
}

#[test]
fn a_response_without_a_list_names_no_tools() {
    for response in [r#"{}"#, r#"{"tools":{"name":"confetti"}}"#, r#"["tools"]"#, "null"] {
        assert_eq!(tool_names(response.as_bytes()).unwrap(), Vec::<String>::new());
    }
}

#[test]
fn a_response_has_to_be_json() {
    let error = tool_names(b"{\"tools\":").unwrap_err();

    assert!(error.starts_with("EOF while parsing"), "{error}");
}
