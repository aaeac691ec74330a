//! One-shot prompts and the agents they are sent to.

use kid_agentic_coding::acp::{
    ContentBlock, EmbeddedResource, PermissionChoice, PermissionOptionKind,
};
use kid_agentic_coding::bridge::StopReason;
use kid_agentic_coding::prompt::{PromptMessage, PromptRunner, PromptStep};

#[test]
fn parses_json_agent_configuration() {
    let agent = PromptRunner::parse_agent_args(&vec![
        r#"{"command":"python","args":["agent.py"],"env":{"RUST_LOG":"debug"}}"#.to_owned(),
    ])
    .unwrap();

    assert_eq!(agent.command, "python");
    assert_eq!(agent.arguments, ["agent.py"]);
    assert_eq!(
        agent.environment,
        vec![("RUST_LOG".to_owned(), "debug".to_owned())]
    );
}

#[test]
fn preserves_single_executable_path_with_spaces() {
    let agent =
        PromptRunner::parse_agent_args(&vec!["/Applications/My Agent".to_owned()]).unwrap();

    assert_eq!(agent.command, "/Applications/My Agent");
    assert!(agent.arguments.is_empty());
}

#[test]
fn a_command_line_is_taken_argument_by_argument() {
    let agent = PromptRunner::parse_agent_args(&vec![
        "RUST_LOG=debug".to_owned(),
        "opencode".to_owned(),
        "acp".to_owned(),
    ])
    .unwrap();

    assert_eq!(agent.command, "opencode");
    assert_eq!(agent.arguments, ["acp"]);
    assert_eq!(
        agent.environment,
        vec![("RUST_LOG".to_owned(), "debug".to_owned())]
    );
}

#[test]
fn a_missing_agent_is_an_error() {
    let error = PromptRunner::parse_agent_args(&vec![]).unwrap_err();
    assert!(error.message().starts_with("agent protocol error: "));

    assert!(PromptRunner::parse_agent_args(&vec!["{not json".to_owned()]).is_err());
}

#[test]
fn content_is_put_into_words() {
    let cases = [
        (ContentBlock::Text("hi".to_owned()), "hi"),
        (ContentBlock::Image("image/png".to_owned()), "[Image: image/png]"),
        (ContentBlock::Audio("audio/ogg".to_owned()), "[Audio: audio/ogg]"),
        (ContentBlock::ResourceLink("file:///a".to_owned()), "file:///a"),
        (
            ContentBlock::Resource(EmbeddedResource::Text("file:///b".to_owned())),
            "file:///b",
        ),
        (
            ContentBlock::Resource(EmbeddedResource::Unknown),
            "[Unknown resource type]",
        ),
        (ContentBlock::Unknown, "[Unknown content type]"),
    ];
    for (block, text) in cases {
        assert_eq!(PromptRunner::content_block_to_string(&block), text);
    }
}

#[test]
fn an_answer_grows_chunk_by_chunk() {
    let mut answer = String::new();
    PromptRunner::accumulate(&mut answer, &ContentBlock::Text("one ".to_owned()));
    PromptRunner::accumulate(&mut answer, &ContentBlock::Text("two".to_owned()));

    assert_eq!(answer, "one two");
}

#[test]
fn the_first_option_that_allows_is_taken() {
    let choice = |id: &str, kind: PermissionOptionKind| PermissionChoice {
        option_id: id.to_owned(),
        kind,
    };
    let choices = vec![
        choice("no", PermissionOptionKind::RejectOnce),
        choice("yes", PermissionOptionKind::AllowAlways),
        choice("once", PermissionOptionKind::AllowOnce),
    ];
    assert_eq!(PromptRunner::approval(&choices), Some("yes".to_owned()));
    assert_eq!(PromptRunner::approval(&vec![]), None);
    assert!(matches!(
        PromptRunner::handle_message(PromptMessage::Permission(choices)),
        PromptStep::Answer(Some(id)) if id == "yes"
    ));
    assert!(matches!(
        PromptRunner::handle_message(PromptMessage::Stopped(StopReason::Refusal)),
        PromptStep::Finish
    ));
}
