//! How a session is set up: the tools and bridge sockets it gets.

use vstd::prelude::*;

verus! {

/// Working directory the agent session operates in. `.` ties the session to
/// the current process's working directory.
pub const SESSION_ROOT: &'static str = ".";

/// The tools that a session is set up with.
#[derive(Debug, Clone, Copy, PartialEq, Eq, Structural)]
pub enum ToolSetup {
    /// The tools of a fix session. Where they cannot be registered, the
    /// session starts without tools.
    Fix,
    /// The commit tools, without confetti.
    WithoutConfetti,
    /// The commit tools, and confetti over the agent connection itself. Where
    /// these cannot be registered together, confetti alone.
    ConfettiOverAcp,
    /// The commit tools, and confetti over a socket of its own.
    ConfettiOverSocket,
}

/// The setup of a session: a fix session has tools of its own; else confetti
/// may be disabled, or goes over the connection where the agent can do so.
pub open spec fn setup_of(is_fix: bool, disable_confetti: bool, supports_mcp: bool) -> ToolSetup {
    if is_fix {
        ToolSetup::Fix
    } else if disable_confetti {
        ToolSetup::WithoutConfetti
    } else if supports_mcp {
        ToolSetup::ConfettiOverAcp
    } else {
        ToolSetup::ConfettiOverSocket
    }
}

/// Chooses the setup of a session.
pub fn tool_setup(is_fix: bool, disable_confetti: bool, supports_mcp: bool) -> (setup: ToolSetup)
    ensures
        setup == setup_of(is_fix, disable_confetti, supports_mcp),
{
    if is_fix {
        ToolSetup::Fix
    } else if disable_confetti {
        ToolSetup::WithoutConfetti
    } else if supports_mcp {
        ToolSetup::ConfettiOverAcp
    } else {
        ToolSetup::ConfettiOverSocket
    }
}

impl ToolSetup {
    /// Whether the session listens on a confetti socket.
    pub fn has_confetti_socket(self) -> (has: bool)
        ensures
            has == (self is ConfettiOverSocket),
    {
        self == ToolSetup::ConfettiOverSocket
    }
}

/// Exactly the main session of an agent without support of its own, confetti
/// not being disabled, listens on a confetti socket.
pub proof fn confetti_socket_is_the_fallback(
    is_fix: bool,
    disable_confetti: bool,
    supports_mcp: bool,
)
    ensures
        setup_of(is_fix, disable_confetti, supports_mcp) is ConfettiOverSocket <==> !is_fix
            && !disable_confetti && !supports_mcp,
{
}

/// The directory that a session operates in: a fix session in the one it was
/// opened for, any other in the process's own.
pub fn session_root(is_fix: bool, requested: Option<String>) -> (root: String)
    ensures
        root@ == (match requested {
            Some(directory) => if is_fix {
                directory@
            } else {
                SESSION_ROOT@
            },
            None => SESSION_ROOT@,
        }),
{
    match requested {
        Some(directory) => if is_fix {
            directory
        } else {
            SESSION_ROOT.to_owned()
        },
        None => SESSION_ROOT.to_owned(),
    }
}

/// The error of a session whose bridge directory could not be made.
pub fn directory_error(directory: &str, error: &str) -> (text: String)
    ensures
        text@ == "failed to create bridge socket directory '"@ + directory@ + "': "@ + error@,
{
    let mut text = "failed to create bridge socket directory '".to_owned();
    text.append(directory);
    text.append("': ");
    text.append(error);
    text
}

/// A fix session has the tools of one, whatever else is asked for; and confetti
/// is set up exactly where a main session has not disabled it, over the agent's
/// own connection where it supports that.
pub proof fn setups_follow_the_session(is_fix: bool, disable_confetti: bool, supports_mcp: bool)
    ensures
        setup_of(is_fix, disable_confetti, supports_mcp) is Fix <==> is_fix,
        setup_of(is_fix, disable_confetti, supports_mcp) is WithoutConfetti <==> !is_fix
            && disable_confetti,
        setup_of(is_fix, disable_confetti, supports_mcp) is ConfettiOverAcp <==> !is_fix
            && !disable_confetti && supports_mcp,
{
}

} // verus!
