//! The Git commands that tools run.

use vstd::prelude::*;

use crate::text::chars;

verus! {

/// A Git command: its arguments, and what it is called in messages.
#[derive(Debug, PartialEq, Eq)]
pub struct GitCommand {
    pub args: Vec<String>,
    pub operation: &'static str,
}

/// A Git command as texts.
#[verifier::ext_equal]
pub struct CommandView {
    pub args: Seq<Seq<char>>,
    pub operation: Seq<char>,
}

impl View for GitCommand {
    type V = CommandView;

    open spec fn view(&self) -> CommandView {
        CommandView { args: chars::texts(self.args@), operation: self.operation@ }
    }
}

/// The program that runs Git commands.
pub const GIT: &'static str = "git";

/// Shows the current status.
pub fn git_status() -> (command: GitCommand)
    ensures
        command@ == (CommandView {
            args: seq!["status"@, "--short"@],
            operation: "git status"@,
        }),
{
    let args: Vec<String> = vec!["status".to_owned(), "--short".to_owned()];
    assert(chars::texts(args@) =~= seq!["status"@, "--short"@]);
    GitCommand { args, operation: "git status" }
}

/// Shows the current diff.
pub fn git_diff() -> (command: GitCommand)
    ensures
        command@ == (CommandView { args: seq!["diff"@], operation: "git diff"@ }),
{
    let args: Vec<String> = vec!["diff".to_owned()];
    assert(chars::texts(args@) =~= seq!["diff"@]);
    GitCommand { args, operation: "git diff" }
}

/// The command that stages a path.
pub open spec fn add_command(path: Seq<char>) -> CommandView {
    CommandView { args: seq!["add"@, path], operation: "git add"@ }
}

/// Stages a file or directory.
pub fn git_add(path: &str) -> (command: GitCommand)
    ensures
        command@ == add_command(path@),
{
    let args: Vec<String> = vec!["add".to_owned(), path.to_owned()];
    assert(chars::texts(args@) =~= seq!["add"@, path@]);
    GitCommand { args, operation: "git add" }
}

/// The command that commits.
pub open spec fn commit_command(message: Seq<char>, amend: bool) -> CommandView {
    if amend {
        CommandView {
            args: seq!["commit"@, "--amend"@, "-m"@, message],
            operation: "git commit (amend)"@,
        }
    } else {
        CommandView { args: seq!["commit"@, "-m"@, message], operation: "git commit"@ }
    }
}

/// Creates a commit, or amends the previous one.
pub fn git_commit(message: &str, amend: bool) -> (command: GitCommand)
    ensures
        command@ == commit_command(message@, amend),
{
    if amend {
        let args: Vec<String> = vec![
            "commit".to_owned(),
            "--amend".to_owned(),
            "-m".to_owned(),
            message.to_owned(),
        ];
        assert(chars::texts(args@) =~= seq!["commit"@, "--amend"@, "-m"@, message@]);
        GitCommand { args, operation: "git commit (amend)" }
    } else {
        let args: Vec<String> = vec!["commit".to_owned(), "-m".to_owned(), message.to_owned()];
        assert(chars::texts(args@) =~= seq!["commit"@, "-m"@, message@]);
        GitCommand { args, operation: "git commit" }
    }
}

/// A commit is made with its message as the last argument, behind `-m`, and
/// amends the previous one exactly where that is asked.
pub proof fn commits_carry_their_message(message: Seq<char>, amend: bool)
    ensures
        commit_command(message, amend).args[0] == "commit"@,
        commit_command(message, amend).args.last() == message,
        commit_command(message, amend).args.drop_last().last() == "-m"@,
        commit_command(message, amend).args.drop_last().contains("--amend"@) <==> amend,
        commit_command(message, amend).args.len() == (if amend {
            4
        } else {
            3nat
        }),
{
    reveal_strlit("commit");
    reveal_strlit("-m");
    reveal_strlit("--amend");
    assert("--amend"@.len() == 7);
    assert("commit"@.len() == 6);
    assert("-m"@.len() == 2);
    let before = commit_command(message, amend).args.drop_last();
    if amend {
        assert(before[1] == "--amend"@);
    }
}

/// A path is staged as it is given, and alone.
pub proof fn paths_are_staged_as_given(path: Seq<char>)
    ensures
        add_command(path).args.len() == 2,
        add_command(path).args[0] == "add"@,
        add_command(path).args[1] == path,
{
}

/// A command is told by what it does.
pub proof fn commands_are_told_by_name(path: Seq<char>, message: Seq<char>)
    ensures
        add_command(path).operation == "git add"@,
        commit_command(message, true).operation == "git commit (amend)"@,
        commit_command(message, false).operation == "git commit"@,
{
}

} // verus!
