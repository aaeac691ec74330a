//! The bridge sockets of a session: their names, and the order in which they
//! are bound.

use std::marker::PhantomData;

use vstd::prelude::*;

use super::servers;
use super::servers::{stdio_mcp_servers, stdio_mcp_servers_for_fix_session, stdio_mcp_servers_without_confetti, StdioServer};
use crate::text::chars;
use crate::text::number;
use crate::text::number::decimal_text;
use crate::text::search;
use crate::text::search::{text_ends_with, text_starts_with};

verus! {

/// Directory for filesystem-fallback bridge sockets, distinct from
/// `Option<String>` so it cannot be swapped with a session root at a call site
/// without a type error.
#[derive(Debug, Clone)]
pub struct FsSocketDir(pub Option<String>);

/// Numbers the sockets bound within a process, since two sessions (e.g. main
/// and fix) can be alive at overlapping times.
#[derive(Debug)]
pub struct SocketIds {
    next: u64,
}

impl View for SocketIds {
    type V = u64;

    /// The next number.
    closed spec fn view(&self) -> u64 {
        self.next
    }
}

impl SocketIds {
    /// Starts counting at zero.
    pub fn new() -> (ids: Self)
        ensures
            ids@ == 0,
    {
        SocketIds { next: 0 }
    }

    /// The next number. Counting starts over where the numbers are used up.
    pub fn next_socket_id(&mut self) -> (id: u64)
        ensures
            id == old(self)@,
            final(self)@ == (if id == u64::MAX {
                0
            } else {
                (id + 1) as u64
            }),
    {
        let id: u64 = self.next;
        self.next = if id == u64::MAX {
            0
        } else {
            id + 1
        };
        id
    }
}

/// The name of a socket of a process.
pub open spec fn socket_name(kind: Seq<char>, process_id: nat, socket_id: nat) -> Seq<char> {
    kind + number::decimal(process_id) + "-"@ + number::decimal(socket_id)
}

/// Unique name of a process's workflow bridge socket.
pub fn workflow_socket_name(process_id: u32, socket_id: u64) -> (name: String)
    ensures
        name@ == socket_name(
            "kid-agentic-coding-workflow-"@,
            process_id as nat,
            socket_id as nat,
        ),
{
    let mut name = "kid-agentic-coding-workflow-".to_owned();
    name.append(decimal_text(process_id as u64).as_str());
    name.append("-");
    name.append(decimal_text(socket_id).as_str());
    name
}

/// Unique name of a process's confetti bridge socket.
pub fn confetti_socket_name(process_id: u32, socket_id: u64) -> (name: String)
    ensures
        name@ == socket_name(
            "kid-agentic-coding-confetti-"@,
            process_id as nat,
            socket_id as nat,
        ),
{
    let mut name = "kid-agentic-coding-confetti-".to_owned();
    name.append(decimal_text(process_id as u64).as_str());
    name.append("-");
    name.append(decimal_text(socket_id).as_str());
    name
}

/// Sockets of one kind with different numbers have different names within a
/// process.
pub proof fn socket_names_are_distinct(kind: Seq<char>, process_id: nat, left: nat, right: nat)
    requires
        left != right,
    ensures
        socket_name(kind, process_id, left) != socket_name(kind, process_id, right),
{
    number::lemma_decimal_value(left);
    number::lemma_decimal_value(right);
    let prefix = kind + number::decimal(process_id) + "-"@;
    if socket_name(kind, process_id, left) == socket_name(kind, process_id, right) {
        assert(socket_name(kind, process_id, left).skip(prefix.len() as int) =~= number::decimal(
            left,
        ));
        assert(socket_name(kind, process_id, right).skip(prefix.len() as int) =~= number::decimal(
            right,
        ));
    }
}

/// A file name put behind a directory. One that starts at the root stands
/// alone.
pub open spec fn joined_path(directory: Seq<char>, file: Seq<char>) -> Seq<char> {
    if search::starts_with(file, "/"@) {
        file
    } else if directory.len() == 0 || search::ends_with(directory, "/"@) {
        directory + file
    } else {
        directory + "/"@ + file
    }
}

/// Path of a bridge socket in the filesystem fallback directory. Used when the
/// agent is sandboxed and cannot reach Linux abstract-namespace sockets.
pub fn fs_socket_path(directory: &str, socket_name: &str) -> (path: String)
    ensures
        path@ == joined_path(directory@, socket_name@ + ".sock"@),
{
    let mut file = socket_name.to_owned();
    file.append(".sock");
    if text_starts_with(file.as_str(), "/") {
        return file;
    }
    let mut path = directory.to_owned();
    if !directory.is_empty() && !text_ends_with(directory, "/") {
        path.append("/");
    }
    path.append(file.as_str());
    path
}

/// No socket is bound.
#[derive(Debug)]
pub struct Unbound;

/// The workflow socket is bound.
#[derive(Debug)]
pub struct WorkflowBound;

/// The workflow and the confetti socket are bound.
#[derive(Debug)]
pub struct AllBound;

/// Why sockets could not be taken further.
#[derive(Debug, Clone, Copy, PartialEq, Eq, Structural)]
pub enum SocketError {
    ConfettiNotConfigured,
    WorkflowNotBound,
    ConfettiNotBound,
}

impl SocketError {
    /// The error in words.
    pub fn message(&self) -> (text: &'static str)
        ensures
            text@ == (match *self {
                SocketError::ConfettiNotConfigured => "confetti socket is not configured"@,
                SocketError::WorkflowNotBound => "workflow socket is not bound"@,
                SocketError::ConfettiNotBound => "confetti socket is not bound"@,
            }),
    {
        match self {
            SocketError::ConfettiNotConfigured => "confetti socket is not configured",
            SocketError::WorkflowNotBound => "workflow socket is not bound",
            SocketError::ConfettiNotBound => "confetti socket is not bound",
        }
    }
}

/// The bridge sockets of a session, and how far they are bound. `L` is a bound
/// socket.
#[derive(Debug)]
pub struct BridgeSockets<State, L> {
    workflow_socket: String,
    confetti_socket: Option<String>,
    workflow_listener: Option<L>,
    confetti_listener: Option<L>,
    state: PhantomData<State>,
}

/// The bridge sockets of a session as texts.
#[verifier::ext_equal]
pub struct SocketsView<L> {
    pub workflow_socket: Seq<char>,
    pub confetti_socket: Option<Seq<char>>,
    pub workflow_listener: Option<L>,
    pub confetti_listener: Option<L>,
}

impl<State, L> View for BridgeSockets<State, L> {
    type V = SocketsView<L>;

    closed spec fn view(&self) -> SocketsView<L> {
        SocketsView {
            workflow_socket: self.workflow_socket@,
            confetti_socket: chars::optional_text(self.confetti_socket),
            workflow_listener: self.workflow_listener,
            confetti_listener: self.confetti_listener,
        }
    }
}

impl<L> BridgeSockets<Unbound, L> {
    /// Sockets that are not bound yet.
    pub fn new(workflow_socket: String, confetti_socket: Option<String>) -> (sockets: Self)
        ensures
            sockets@ == (SocketsView::<L> {
                workflow_socket: workflow_socket@,
                confetti_socket: chars::optional_text(confetti_socket),
                workflow_listener: None,
                confetti_listener: None,
            }),
    {
        BridgeSockets {
            workflow_socket,
            confetti_socket,
            workflow_listener: None,
            confetti_listener: None,
            state: PhantomData,
        }
    }

    /// The name of the workflow socket.
    pub fn workflow_socket(&self) -> (name: &str)
        ensures
            name@ == self@.workflow_socket,
    {
        self.workflow_socket.as_str()
    }

    /// Takes the bound workflow socket.
    pub fn bind_workflow(self, listener: L) -> (sockets: BridgeSockets<WorkflowBound, L>)
        ensures
            sockets@ == (SocketsView { workflow_listener: Some(listener), ..self@ }),
    {
        BridgeSockets {
            workflow_socket: self.workflow_socket,
            confetti_socket: self.confetti_socket,
            workflow_listener: Some(listener),
            confetti_listener: self.confetti_listener,
            state: PhantomData,
        }
    }
}

impl<L> BridgeSockets<WorkflowBound, L> {
    /// The name of the confetti socket, or the error that there is none.
    pub fn confetti_socket(&self) -> (name: Result<&str, SocketError>)
        ensures
            match name {
                Ok(name) => self@.confetti_socket == Some(name@),
                Err(error) => self@.confetti_socket is None && error
                    == SocketError::ConfettiNotConfigured,
            },
    {
        match &self.confetti_socket {
            Some(socket) => Ok(socket.as_str()),
            None => Err(SocketError::ConfettiNotConfigured),
        }
    }

    /// Takes the bound confetti socket, where one is configured.
    pub fn bind_confetti(self, listener: L) -> (sockets: Result<
        BridgeSockets<AllBound, L>,
        SocketError,
    >)
        ensures
            match sockets {
                Ok(sockets) => self@.confetti_socket is Some && sockets@ == (SocketsView::<L> {
                    confetti_listener: Some(listener),
                    ..self@
                }),
                Err(error) => self@.confetti_socket is None && error
                    == SocketError::ConfettiNotConfigured,
            },
    {
        if self.confetti_socket.is_none() {
            return Err(SocketError::ConfettiNotConfigured);
        }
        Ok(
            BridgeSockets {
                workflow_socket: self.workflow_socket,
                confetti_socket: self.confetti_socket,
                workflow_listener: self.workflow_listener,
                confetti_listener: Some(listener),
                state: PhantomData,
            },
        )
    }

    /// The servers of a main session without confetti.
    pub fn stdio_mcp_servers_without_confetti(&self, has_github_repo: bool) -> (config: Vec<
        StdioServer,
    >)
        ensures
            servers::server_views(config@) == servers::main_servers_without_confetti(
                self@.workflow_socket,
                has_github_repo,
            ),
    {
        stdio_mcp_servers_without_confetti(self.workflow_socket.as_str(), has_github_repo)
    }

    /// The servers of a fix session.
    pub fn stdio_mcp_servers_for_fix_session(&self, has_rust: bool, has_python: bool) -> (config:
        Vec<StdioServer>)
        ensures
            servers::server_views(config@) == servers::fix_servers(
                self@.workflow_socket,
                has_rust,
                has_python,
            ),
    {
        stdio_mcp_servers_for_fix_session(self.workflow_socket.as_str(), has_rust, has_python)
    }

    /// Hands over the bound sockets.
    pub fn into_listeners(self) -> (listeners: Result<(L, Option<L>), SocketError>)
        ensures
            match self@.workflow_listener {
                Some(workflow) => listeners is Ok && listeners->Ok_0 == (
                    workflow,
                    self@.confetti_listener,
                ),
                None => listeners is Err && listeners->Err_0 == SocketError::WorkflowNotBound,
            },
    {
        match self.workflow_listener {
            Some(listener) => Ok((listener, self.confetti_listener)),
            None => Err(SocketError::WorkflowNotBound),
        }
    }
}

impl<L> BridgeSockets<AllBound, L> {
    /// The servers of a main session.
    pub fn stdio_mcp_servers(&self, has_github_repo: bool) -> (config: Result<
        Vec<StdioServer>,
        SocketError,
    >)
        ensures
            match self@.confetti_socket {
                Some(confetti) => config is Ok && servers::server_views(config->Ok_0@)
                    == servers::main_servers(confetti, self@.workflow_socket, has_github_repo),
                None => config is Err && config->Err_0 == SocketError::ConfettiNotConfigured,
            },
    {
        match &self.confetti_socket {
            Some(confetti) => Ok(
                stdio_mcp_servers(
                    confetti.as_str(),
                    self.workflow_socket.as_str(),
                    has_github_repo,
                ),
            ),
            None => Err(SocketError::ConfettiNotConfigured),
        }
    }

    /// Hands over the bound sockets.
    pub fn into_listeners(self) -> (listeners: Result<(L, L), SocketError>)
        ensures
            match (self@.workflow_listener, self@.confetti_listener) {
                (Some(workflow), Some(confetti)) => listeners is Ok && listeners->Ok_0 == (
                    workflow,
                    confetti,
                ),
                (None, _) => listeners is Err && listeners->Err_0 == SocketError::WorkflowNotBound,
                (Some(_), None) => listeners is Err && listeners->Err_0
                    == SocketError::ConfettiNotBound,
            },
    {
        match self.workflow_listener {
            Some(workflow) => match self.confetti_listener {
                Some(confetti) => Ok((workflow, confetti)),
                None => Err(SocketError::ConfettiNotBound),
            },
            None => Err(SocketError::WorkflowNotBound),
        }
    }
}

/// The filesystem bridge socket that is to be removed when the session that
/// bound it ends. Abstract-namespace sockets vanish with the binding process
/// and need no such cleanup.
#[derive(Debug)]
pub struct SocketFileGuard {
    path: Option<String>,
}

impl View for SocketFileGuard {
    type V = Option<Seq<char>>;

    closed spec fn view(&self) -> Option<Seq<char>> {
        chars::optional_text(self.path)
    }
}

impl SocketFileGuard {
    /// Guards a path, or nothing.
    pub fn new(path: Option<String>) -> (guard: Self)
        ensures
            guard@ == chars::optional_text(path),
    {
        SocketFileGuard { path }
    }

    /// Hands out the path to remove, once.
    pub fn release(&mut self) -> (path: Option<String>)
        ensures
            chars::optional_text(path) == old(self)@,
            final(self)@ is None,
    {
        self.path.take()
    }
}

/// A path in a directory starts with the directory and ends with the file, with a
/// single slash between them.
pub proof fn paths_lie_in_their_directory(directory: Seq<char>, file: Seq<char>)
    requires
        file.len() > 0 && file[0] != '/',
    ensures
        search::starts_with(joined_path(directory, file), directory),
        search::ends_with(joined_path(directory, file), file),
        directory.len() > 0 && directory.last() != '/' ==> joined_path(directory, file)
            == directory + seq!['/'] + file,
        directory.len() > 0 && directory.last() == '/' ==> joined_path(directory, file)
            == directory + file,
{
    reveal_strlit("/");
    let path = joined_path(directory, file);
    if search::starts_with(file, "/"@) {
        assert(file.take(1)[0] == '/');
    }
    if directory.len() > 0 {
        let end = directory.skip(directory.len() - 1);
        assert(end[0] == directory.last());
        if directory.last() == '/' {
            assert(end =~= "/"@);
        }
    }
    assert("/"@ =~= seq!['/']);
    assert(path.take(directory.len() as int) =~= directory);
    assert(path.skip(path.len() - file.len()) =~= file);
}

/// The name of a socket tells its kind, its process and its number.
pub proof fn socket_names_tell_their_numbers(kind: Seq<char>, process_id: nat, socket_id: nat)
    ensures
        ({
            let name = socket_name(kind, process_id, socket_id);
            let process = number::decimal(process_id);
            &&& search::starts_with(name, kind)
            &&& number::value_of(process) == process_id
            &&& name.subrange(kind.len() as int, (kind.len() + process.len()) as int) == process
            &&& number::value_of(name.skip(kind.len() + process.len() + 1int)) == socket_id
        }),
{
    reveal_strlit("-");
    let name = socket_name(kind, process_id, socket_id);
    let process = number::decimal(process_id);
    number::lemma_decimal_value(process_id);
    number::lemma_decimal_value(socket_id);
    assert(name.take(kind.len() as int) =~= kind);
    assert(name.subrange(kind.len() as int, (kind.len() + process.len()) as int) =~= process);
    assert(name.skip(kind.len() + process.len() + 1int) =~= number::decimal(socket_id));
}

} // verus!
