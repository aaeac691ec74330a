//! The tool servers that run as processes of their own.

use vstd::prelude::*;

use crate::text::chars;

verus! {

/// The name under which the confetti tool is offered.
pub const CONFETTI_TOOL_NAME: &'static str = "confetti";

/// A tool server: its name, the file name of its program, which lies beside
/// this process's own, and its arguments.
#[derive(Debug, PartialEq, Eq)]
pub struct StdioServer {
    pub name: String,
    pub program: String,
    pub args: Vec<String>,
}

/// A tool server as texts.
#[verifier::ext_equal]
pub struct ServerView {
    pub name: Seq<char>,
    pub program: Seq<char>,
    pub args: Seq<Seq<char>>,
}

impl View for StdioServer {
    type V = ServerView;

    open spec fn view(&self) -> ServerView {
        ServerView { name: self.name@, program: self.program@, args: chars::texts(self.args@) }
    }
}

impl StdioServer {
    /// The same server once more.
    pub fn copy(&self) -> (server: Self)
        ensures
            server@ == self@,
    {
        let mut args: Vec<String> = Vec::new();
        let mut i: usize = 0;
        while i < self.args.len()
            invariant
                i <= self.args@.len(),
                args@.len() == i,
                forall|k: int| 0 <= k < i ==> (#[trigger] args@[k])@ == self.args@[k]@,
            decreases self.args@.len() - i,
        {
            args.push(self.args[i].clone());
            i = i + 1;
        }
        assert(chars::texts(args@) =~= chars::texts(self.args@));
        StdioServer { name: self.name.clone(), program: self.program.clone(), args }
    }
}

/// Tool servers as texts.
pub open spec fn server_views(servers: Seq<StdioServer>) -> Seq<ServerView> {
    Seq::new(servers.len(), |i: int| servers[i]@)
}

/// A server that takes no arguments.
pub open spec fn plain_server(name: Seq<char>, program: Seq<char>) -> ServerView {
    ServerView { name, program, args: Seq::empty() }
}

/// A server that is told a socket.
pub open spec fn socket_server(name: Seq<char>, program: Seq<char>, socket: Seq<char>) -> ServerView {
    ServerView { name, program, args: seq!["--socket"@, socket] }
}

/// The server of the confetti tool.
pub open spec fn confetti_server(socket: Seq<char>) -> ServerView {
    socket_server("confetti-tools"@, "kid-agentic-coding-confetti"@, socket)
}

/// The server of the tool that opens a fix session.
pub open spec fn open_server(socket: Seq<char>) -> ServerView {
    socket_server(
        "git-commit-fix-open-tools"@,
        "kid-agentic-coding-git-commit-fix-open"@,
        socket,
    )
}

/// The server of the tools that close a fix session.
pub open spec fn close_server(socket: Seq<char>) -> ServerView {
    socket_server(
        "git-commit-fix-close-tools"@,
        "kid-agentic-coding-git-commit-fix-close"@,
        socket,
    )
}

/// The server of the Rust tools.
pub open spec fn rust_server() -> ServerView {
    plain_server("rust-tools"@, "kid-agentic-coding-rust"@)
}

/// The server of the Python tools.
pub open spec fn python_server() -> ServerView {
    plain_server("python-tools"@, "kid-agentic-coding-python"@)
}

/// The server of the issue tools.
pub open spec fn gh_server() -> ServerView {
    plain_server("gh-issue-tools"@, "kid-agentic-coding-gh"@)
}

/// A server, where a condition holds.
pub open spec fn server_if(enabled: bool, server: ServerView) -> Seq<ServerView> {
    if enabled {
        seq![server]
    } else {
        Seq::empty()
    }
}

/// The servers of a main session.
pub open spec fn main_servers(
    socket: Seq<char>,
    workflow_socket: Seq<char>,
    has_github_repo: bool,
) -> Seq<ServerView> {
    seq![confetti_server(socket), open_server(workflow_socket)] + server_if(
        has_github_repo,
        gh_server(),
    )
}

/// The servers of a main session without confetti.
pub open spec fn main_servers_without_confetti(
    workflow_socket: Seq<char>,
    has_github_repo: bool,
) -> Seq<ServerView> {
    seq![open_server(workflow_socket)] + server_if(has_github_repo, gh_server())
}

/// The servers of a fix session: the toolchains whose lockfiles were found,
/// and the tools that close it.
pub open spec fn fix_servers(
    workflow_socket: Seq<char>,
    has_rust: bool,
    has_python: bool,
) -> Seq<ServerView> {
    server_if(has_rust, rust_server()) + server_if(has_python, python_server()) + seq![
        close_server(workflow_socket),
    ]
}

fn server(name: &str, program: &str, socket: Option<&str>) -> (server: StdioServer)
    ensures
        server@ == (match socket {
            Some(socket) => socket_server(name@, program@, socket@),
            None => plain_server(name@, program@),
        }),
{
    let mut args: Vec<String> = Vec::new();
    match socket {
        Some(socket) => {
            args.push("--socket".to_owned());
            args.push(socket.to_owned());
            assert(chars::texts(args@) =~= seq!["--socket"@, socket@]);
        },
        None => {
            assert(chars::texts(args@) =~= Seq::<Seq<char>>::empty());
        },
    }
    StdioServer { name: name.to_owned(), program: program.to_owned(), args }
}

/// The server of the confetti tool, for agents that cannot reach it over the
/// agent connection.
pub fn confetti_stdio_mcp_server(socket_name: &str) -> (config: StdioServer)
    ensures
        config@ == confetti_server(socket_name@),
{
    server("confetti-tools", "kid-agentic-coding-confetti", Some(socket_name))
}

/// The server of the Rust tools.
pub fn rust_stdio_mcp_server() -> (config: StdioServer)
    ensures
        config@ == rust_server(),
{
    server("rust-tools", "kid-agentic-coding-rust", None)
}

/// The server of the Python tools.
pub fn python_stdio_mcp_server() -> (config: StdioServer)
    ensures
        config@ == python_server(),
{
    server("python-tools", "kid-agentic-coding-python", None)
}

/// The server of the tool that opens a fix session. The socket receives
/// semantic workflow events from the server process.
pub fn git_commit_fix_open_stdio_mcp_server(socket_name: &str) -> (config: StdioServer)
    ensures
        config@ == open_server(socket_name@),
{
    server(
        "git-commit-fix-open-tools",
        "kid-agentic-coding-git-commit-fix-open",
        Some(socket_name),
    )
}

/// The server of the tools that close a fix session. The socket receives the
/// commit-fix-done event once a commit closes the session.
pub fn git_commit_fix_close_stdio_mcp_server(socket_name: &str) -> (config: StdioServer)
    ensures
        config@ == close_server(socket_name@),
{
    server(
        "git-commit-fix-close-tools",
        "kid-agentic-coding-git-commit-fix-close",
        Some(socket_name),
    )
}

/// The server of the issue tools.
pub fn gh_stdio_mcp_server() -> (config: StdioServer)
    ensures
        config@ == gh_server(),
{
    server("gh-issue-tools", "kid-agentic-coding-gh", None)
}

/// The servers of a main session. The issue tools are among them only where
/// the workspace holds a repository that is hosted on GitHub.
pub fn stdio_mcp_servers(socket_name: &str, workflow_socket_name: &str, has_github_repo: bool) -> (servers:
    Vec<StdioServer>)
    ensures
        server_views(servers@) == main_servers(
            socket_name@,
            workflow_socket_name@,
            has_github_repo,
        ),
{
    let mut servers: Vec<StdioServer> = Vec::new();
    servers.push(confetti_stdio_mcp_server(socket_name));
    servers.push(git_commit_fix_open_stdio_mcp_server(workflow_socket_name));
    if has_github_repo {
        servers.push(gh_stdio_mcp_server());
    }
    assert(server_views(servers@) =~= main_servers(
        socket_name@,
        workflow_socket_name@,
        has_github_repo,
    ));
    servers
}

/// The servers of a main session without confetti.
pub fn stdio_mcp_servers_without_confetti(workflow_socket_name: &str, has_github_repo: bool) -> (servers:
    Vec<StdioServer>)
    ensures
        server_views(servers@) == main_servers_without_confetti(
            workflow_socket_name@,
            has_github_repo,
        ),
{
    let mut servers: Vec<StdioServer> = Vec::new();
    servers.push(git_commit_fix_open_stdio_mcp_server(workflow_socket_name));
    if has_github_repo {
        servers.push(gh_stdio_mcp_server());
    }
    assert(server_views(servers@) =~= main_servers_without_confetti(
        workflow_socket_name@,
        has_github_repo,
    ));
    servers
}

/// The servers of a fix session. A toolchain is among them where its lockfile
/// was found in the workspace.
pub fn stdio_mcp_servers_for_fix_session(
    workflow_socket_name: &str,
    has_rust: bool,
    has_python: bool,
) -> (servers: Vec<StdioServer>)
    ensures
        server_views(servers@) == fix_servers(workflow_socket_name@, has_rust, has_python),
{
    let mut servers: Vec<StdioServer> = Vec::new();
    if has_rust {
        servers.push(rust_stdio_mcp_server());
    }
    if has_python {
        servers.push(python_stdio_mcp_server());
    }
    servers.push(git_commit_fix_close_stdio_mcp_server(workflow_socket_name));
    assert(server_views(servers@) =~= fix_servers(workflow_socket_name@, has_rust, has_python));
    servers
}

/// A main session can open a fix session and not close one; the issue tools are
/// offered exactly where there is a repository for them, and leaving confetti out
/// leaves out nothing else.
pub proof fn main_sessions_open_fix_sessions(
    socket: Seq<char>,
    workflow_socket: Seq<char>,
    has_github_repo: bool,
)
    ensures
        ({
            let all = main_servers(socket, workflow_socket, has_github_repo);
            let fewer = main_servers_without_confetti(workflow_socket, has_github_repo);
            &&& all[0].name == "confetti-tools"@ && all[0].args == seq!["--socket"@, socket]
            &&& all[1].name == "git-commit-fix-open-tools"@ && all[1].args == seq![
                "--socket"@,
                workflow_socket,
            ]
            &&& all.len() == (if has_github_repo {
                3
            } else {
                2nat
            })
            &&& has_github_repo ==> all[2].name == "gh-issue-tools"@ && all[2].args.len() == 0
            &&& fewer == all.skip(1)
        }),
{
    let all = main_servers(socket, workflow_socket, has_github_repo);
    assert(main_servers_without_confetti(workflow_socket, has_github_repo) =~= all.skip(1));
}

/// A fix session can be closed, by the server it is offered last, and has the
/// tools of exactly the toolchains that were found.
pub proof fn fix_sessions_have_their_toolchains(
    workflow_socket: Seq<char>,
    has_rust: bool,
    has_python: bool,
)
    ensures
        ({
            let all = fix_servers(workflow_socket, has_rust, has_python);
            &&& all.last().name == "git-commit-fix-close-tools"@ && all.last().args == seq![
                "--socket"@,
                workflow_socket,
            ]
            &&& all.len() == 1 + (if has_rust {
                1nat
            } else {
                0
            }) + (if has_python {
                1nat
            } else {
                0
            })
            &&& has_rust ==> all[0].name == "rust-tools"@
            &&& has_python ==> all[all.len() - 2].name == "python-tools"@
        }),
{
}

/// Each server runs a program of its own.
pub proof fn servers_run_their_programs(socket: Seq<char>)
    ensures
        confetti_server(socket).program == "kid-agentic-coding-confetti"@,
        open_server(socket).program == "kid-agentic-coding-git-commit-fix-open"@,
        close_server(socket).program == "kid-agentic-coding-git-commit-fix-close"@,
        rust_server().program == "kid-agentic-coding-rust"@,
        python_server().program == "kid-agentic-coding-python"@,
        gh_server().program == "kid-agentic-coding-gh"@,
{
}

} // verus!
