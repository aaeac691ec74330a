//! Addresses of the bridge sockets, and the framing of what is sent there.

use vstd::prelude::*;
use vstd::utf8;

use crate::text::search;
use crate::text::search::text_contains;

verus! {

/// Where a bridge socket is found.
#[derive(Debug, PartialEq, Eq)]
pub enum SocketAddress {
    /// At a path of the filesystem.
    Pathname(String),
    /// Under a name of the Linux abstract namespace.
    Abstract(String),
}

/// Resolves a bridge socket identifier to a socket address. Identifiers
/// containing a path separator are filesystem paths (the sandboxed-agent
/// fallback); bare identifiers are Linux abstract-namespace names.
pub fn socket_address(socket: &str) -> (address: SocketAddress)
    ensures
        match address {
            SocketAddress::Pathname(path) => search::contains(socket@, "/"@) && path@ == socket@,
            SocketAddress::Abstract(name) => !search::contains(socket@, "/"@) && name@ == socket@,
        },
{
    if text_contains(socket, "/") {
        SocketAddress::Pathname(socket.to_owned())
    } else {
        SocketAddress::Abstract(socket.to_owned())
    }
}

/// The bytes of a line followed by the newline that terminates every message.
pub fn line_bytes(line: &str) -> (bytes: Vec<u8>)
    ensures
        bytes@ == utf8::encode_utf8(line@ + "\n"@),
{
    let mut message = line.to_owned();
    message.append("\n");
    message.as_str().as_bytes_vec()
}

/// The description of a failed bridge connection.
pub open spec fn unreachable_text(socket: Seq<char>, error: Seq<char>) -> Seq<char> {
    "bridge socket '"@ + socket + "' is unreachable: "@ + error
        + ". If the agent runs sandboxed, start kid-agentic-coding with --fs-socket-dir pointing at a writable directory that is mounted into the sandbox (e.g. $XDG_RUNTIME_DIR/kid-agentic-coding), because Linux abstract-namespace sockets cannot cross a sandbox boundary."@
}

/// Full description of a failed bridge connection: which socket was attempted,
/// the underlying OS error, and the fix for the common sandboxed-agent case.
/// Used both for the startup probe log and for tool errors so the agent can
/// relay actionable guidance to the user.
pub fn bridge_error(socket: &str, error: &str) -> (text: String)
    ensures
        text@ == unreachable_text(socket@, error@),
{
    let mut text = "bridge socket '".to_owned();
    text.append(socket);
    text.append("' is unreachable: ");
    text.append(error);
    text.append(
        ". If the agent runs sandboxed, start kid-agentic-coding with --fs-socket-dir pointing at a writable directory that is mounted into the sandbox (e.g. $XDG_RUNTIME_DIR/kid-agentic-coding), because Linux abstract-namespace sockets cannot cross a sandbox boundary.",
    );
    text
}

/// The description of a failed connection names the socket and the error.
pub proof fn failures_name_socket_and_error(socket: Seq<char>, error: Seq<char>)
    ensures
        search::contains(unreachable_text(socket, error), socket),
        search::contains(unreachable_text(socket, error), error),
{
    let text = unreachable_text(socket, error);
    let at = "bridge socket '"@.len() as int;
    assert(text.subrange(at, at + socket.len()) =~= socket);
    search::containing_is_standing_somewhere(text, socket);
    let then: int = at + socket.len() + "' is unreachable: "@.len();
    assert(text.subrange(then, then + error.len()) =~= error);
    search::containing_is_standing_somewhere(text, error);
}

} // verus!
