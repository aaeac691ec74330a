//! Workflows from their definition to their completion.

use kid_agentic_coding::definition::completion_tool::CompletionTool;
use kid_agentic_coding::definition::tool::{Tool, ToolResult, ToolSet};
use kid_agentic_coding::definition::workflow::{
    CompletionReason, Running, Workflow, WorkflowDefinition,
};

fn commit_tool() -> Tool {
    Tool::new("git_commit")
}

fn running_workflow() -> Workflow<Running> {
    Workflow::new(
        WorkflowDefinition::new("commit-fix")
            .with_tools(ToolSet::default().with(commit_tool()))
            .completes_on_successful_tool(commit_tool()),
    )
    .start()
}

#[test]
fn successful_completion_transitions_to_completed() {
    let workflow = running_workflow();

    let completed = match workflow.handle_tool_result(&ToolResult::success(commit_tool())) {
        Ok(completed) => completed,
        Err(_) => panic!("successful completion must transition to completed"),
    };

    assert_eq!(
        completed.completion_reason(),
        Some(&CompletionReason::ToolSucceeded {
            tool: commit_tool().into(),
        })
    );
}

#[test]
fn failed_completion_keeps_workflow_running() {
    let workflow = running_workflow();
    let workflow = match workflow.handle_tool_result(&ToolResult::failure(commit_tool())) {
        Err(workflow) => workflow,
        Ok(_) => panic!("failed completion must keep workflow running"),
    };

    assert_eq!(workflow.definition().name(), "commit-fix");
}

#[test]
fn unrelated_success_keeps_workflow_running() {
    let workflow = running_workflow();

    let workflow = match workflow.handle_tool_result(&ToolResult::success(Tool::new("git_status"))) {
        Err(workflow) => workflow,
        Ok(_) => panic!("unrelated tool must keep workflow running"),
    };

    assert_eq!(workflow.definition().name(), "commit-fix");
}

#[test]
fn commit_fix_workflow() {
    let tools = ToolSet::default()
        .with(Tool::new("git_status"))
        .with(Tool::new("git_diff"))
        .with(commit_tool());
    assert!(tools.contains("git_diff"));
    assert!(!tools.contains("git_add"));
    let definition = WorkflowDefinition::new("commit-fix")
        .with_tools(tools)
        .completes_on_successful_tool(commit_tool());
    let mut workflow = Workflow::new(definition).start();

    for (name, succeeds) in [
        ("git_status", true),
        ("git_diff", false),
        ("git_diff", true),
        ("git_commit", false),
    ] {
        let tool = Tool::new(name);
        let result = if succeeds {
            ToolResult::success(tool)
        } else {
            ToolResult::failure(tool)
        };
        workflow = match workflow.handle_tool_result(&result) {
            Err(workflow) => workflow,
            Ok(_) => panic!("the workflow must remain active after {name}"),
        };
        assert!(workflow.definition().tools().contains("git_commit"));
    }

    let completed = match workflow.handle_tool_result(&ToolResult::success(commit_tool())) {
        Ok(completed) => completed,
        Err(_) => panic!("the workflow must be complete"),
    };
    assert_eq!(completed.definition().name(), "commit-fix");
}

#[test]
fn a_workflow_without_a_completion_tool_never_completes() {
    let workflow = Workflow::new(WorkflowDefinition::new("open-ended")).start();

    assert!(workflow
        .handle_tool_result(&ToolResult::success(commit_tool()))
        .is_err());
}

#[test]
fn completion_tools_have_the_name_of_their_tool() {
    let tool: CompletionTool = commit_tool().into();

    assert_eq!(tool.name(), "git_commit");
    assert_eq!(ToolResult::failure(commit_tool()).tool().name(), "git_commit");
    assert!(!ToolResult::failure(commit_tool()).is_success());
}
