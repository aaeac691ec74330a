//! Tool servers, their sockets, and the search for what they are offered for.

use kid_agentic_coding::mcp::github::{
    git_repo_has_github_remote, is_github_remote_url, lists_github_remote,
};
use kid_agentic_coding::mcp::search::{DirectoryEntry, LockfileSearch, RepositoryScan, ScanStep};
use kid_agentic_coding::mcp::servers::{
    stdio_mcp_servers, stdio_mcp_servers_for_fix_session, stdio_mcp_servers_without_confetti,
};
use kid_agentic_coding::mcp::sockets::{
    confetti_socket_name, fs_socket_path, workflow_socket_name, BridgeSockets, SocketError,
    SocketFileGuard, SocketIds, Unbound,
};
use kid_agentic_coding::wire::socket::{bridge_error, line_bytes, socket_address, SocketAddress};

#[test]
fn fs_socket_path_extends_the_fallback_directory() {
    assert_eq!(
        fs_socket_path(
            "/run/user/1000/kid-agentic-coding",
            "kid-agentic-coding-workflow-1-2"
        ),
        "/run/user/1000/kid-agentic-coding/kid-agentic-coding-workflow-1-2.sock"
    );
}

#[test]
fn mcp_socket_address_distinguishes_paths_from_abstract_names() {
    assert!(matches!(
        socket_address("/run/user/1000/kid-agentic-coding/bridge.sock"),
        SocketAddress::Pathname(_)
    ));
    assert!(matches!(
        socket_address("kid-agentic-coding-workflow-1-2"),
        SocketAddress::Abstract(_)
    ));
}

#[test]
fn socket_socket_address_distinguishes_paths_from_abstract_names() {
    assert_eq!(
        socket_address("/run/user/1000/kid-agentic-coding/bridge.sock"),
        SocketAddress::Pathname("/run/user/1000/kid-agentic-coding/bridge.sock".to_owned())
    );
    assert_eq!(
        socket_address("kid-agentic-coding-workflow-1-2"),
        SocketAddress::Abstract("kid-agentic-coding-workflow-1-2".to_owned())
    );
}

#[test]
fn socket_bridge_error_names_the_socket_and_the_fs_socket_dir_flag() {
    let socket = "kid-agentic-coding-wire-error";
    let message = bridge_error(socket, "no such file or directory");

    assert!(message.contains(socket));
    assert!(message.contains("--fs-socket-dir"));
    assert!(message.contains("sandbox"));
}

#[test]
fn lines_are_sent_with_a_newline() {
    assert_eq!(line_bytes("hello"), b"hello\n");
    assert_eq!(line_bytes("Ä"), "Ä\n".as_bytes());
}

#[test]
fn socket_names_are_numbered() {
    let mut ids = SocketIds::new();
    let first = ids.next_socket_id();
    let second = ids.next_socket_id();

    assert_ne!(first, second);
    assert_ne!(
        workflow_socket_name(1, first),
        workflow_socket_name(1, second)
    );
    assert_ne!(
        workflow_socket_name(1, first),
        confetti_socket_name(1, first)
    );
}

#[test]
fn sockets_are_bound_one_after_the_other() {
    let sockets = BridgeSockets::<Unbound, u8>::new("workflow".to_owned(), None);
    assert_eq!(sockets.workflow_socket(), "workflow");
    let bound = sockets.bind_workflow(1);
    assert!(bound.confetti_socket().is_err());
    assert_eq!(bound.into_listeners(), Ok((1, None)));

    let bound = BridgeSockets::<Unbound, u8>::new("workflow".to_owned(), Some("confetti".to_owned()))
        .bind_workflow(1);
    assert_eq!(bound.confetti_socket().unwrap(), "confetti");
    let all = bound.bind_confetti(2).unwrap();
    assert_eq!(all.stdio_mcp_servers(true).unwrap().len(), 3);
    assert_eq!(all.into_listeners(), Ok((1, 2)));
}

#[test]
fn confetti_cannot_be_bound_without_a_socket() {
    let bound = BridgeSockets::<Unbound, u8>::new("workflow".to_owned(), None).bind_workflow(1);

    assert!(matches!(
        bound.bind_confetti(2),
        Err(SocketError::ConfettiNotConfigured)
    ));
}

#[test]
fn a_guard_hands_its_file_out_once() {
    let mut guard = SocketFileGuard::new(Some("/tmp/a.sock".to_owned()));

    assert_eq!(guard.release(), Some("/tmp/a.sock".to_owned()));
    assert_eq!(guard.release(), None);
}

#[test]
fn is_github_remote_url_matches_only_github_com_hosts() {
    assert!(is_github_remote_url("https://github.com/owner/repo.git"));
    assert!(is_github_remote_url("git@github.com:owner/repo.git"));
    assert!(is_github_remote_url("ssh://git@github.com/owner/repo.git"));
    assert!(!is_github_remote_url(
        "https://github.example.com/owner/repo.git"
    ));
    assert!(!is_github_remote_url("https://gitlab.com/owner/repo.git"));
    assert!(!is_github_remote_url("owner/repo.git"));
}

#[test]
fn hosts_are_read_in_any_case_and_up_to_the_port() {
    assert!(is_github_remote_url("  https://GitHub.com/owner/repo.git\n"));
    assert!(is_github_remote_url("ssh://git@github.com:22/owner/repo"));
    assert!(is_github_remote_url("a@b@github.com:owner/repo"));
    assert!(!is_github_remote_url("https://github.com.evil.example/x"));
    assert!(!is_github_remote_url(""));
}

#[test]
fn a_listing_is_searched_line_by_line() {
    let listing = "remote.origin.url https://gitlab.com/a/b.git\n\
                   remote.up.url git@github.com:a/b.git\n";
    assert!(lists_github_remote(listing));
    assert!(!lists_github_remote("git@github.com:a/b.git"));
    assert!(git_repo_has_github_remote(true, listing.as_bytes()));
    assert!(!git_repo_has_github_remote(false, listing.as_bytes()));
}

fn entry(name: &str, path: &str, is_dir: bool) -> DirectoryEntry {
    DirectoryEntry {
        name: name.to_owned(),
        path: path.to_owned(),
        is_file: !is_dir,
        is_dir,
    }
}

#[test]
fn lockfiles_are_found_in_subdirectories() {
    let mut search = LockfileSearch::new("/w", "Cargo.lock");
    assert_eq!(search.next_directory(), Some("/w".to_owned()));
    let found = search.take_entries(&vec![
        entry("Cargo.lock", "/w/Cargo.lock", true),
        entry("a", "/w/a", true),
    ]);
    assert_eq!(found, None);

    assert_eq!(search.next_directory(), Some("/w/a".to_owned()));
    let found = search.take_entries(&vec![
        entry("uv.lock", "/w/a/uv.lock", false),
        entry("Cargo.lock", "/w/a/Cargo.lock", false),
    ]);
    assert_eq!(found, Some("/w/a/Cargo.lock".to_owned()));
}

#[test]
fn a_search_ends_when_every_directory_was_read() {
    let mut search = LockfileSearch::new("/w", "uv.lock");
    assert!(search.next_directory().is_some());
    assert_eq!(search.take_entries(&vec![]), None);

    assert_eq!(search.next_directory(), None);
}

#[test]
fn repositories_are_not_descended_into() {
    let mut scan = RepositoryScan::new("/w");
    assert_eq!(scan.next_directory(), Some("/w".to_owned()));
    let step = scan.take_entries(&vec![
        entry("target", "/w/target", true),
        entry("node_modules", "/w/node_modules", true),
        entry("src", "/w/src", true),
    ]);
    assert_eq!(step, ScanStep::Continue);

    assert_eq!(scan.next_directory(), Some("/w/src".to_owned()));
    let step = scan.take_entries(&vec![
        entry("lib", "/w/src/lib", true),
        entry(".git", "/w/src/.git", true),
    ]);
    assert_eq!(step, ScanStep::CheckRemotes);
    assert_eq!(scan.next_directory(), None);
}

#[test]
fn servers_are_offered_for_what_the_workspace_holds() {
    assert_eq!(stdio_mcp_servers("confetti", "workflow", true).len(), 3);
    assert_eq!(stdio_mcp_servers("confetti", "workflow", false).len(), 2);
    assert_eq!(stdio_mcp_servers_without_confetti("workflow", true).len(), 2);
    assert_eq!(stdio_mcp_servers_without_confetti("workflow", false).len(), 1);
    assert_eq!(
        stdio_mcp_servers_for_fix_session("workflow", true, true).len(),
        3
    );
    assert_eq!(
        stdio_mcp_servers_for_fix_session("workflow", true, false).len(),
        2
    );
    assert_eq!(
        stdio_mcp_servers_for_fix_session("workflow", false, true).len(),
        2
    );
    assert_eq!(
        stdio_mcp_servers_for_fix_session("workflow", false, false).len(),
        1
    );
}

#[test]
fn servers_are_told_their_socket() {
    let servers = stdio_mcp_servers("confetti-socket", "workflow-socket", false);

    assert!(servers.iter().any(|server| server.name == "confetti-tools"
        && server.args == vec!["--socket".to_owned(), "confetti-socket".to_owned()]));
    assert!(servers
        .iter()
        .any(|server| server.name == "git-commit-fix-open-tools"
            && server.args == vec!["--socket".to_owned(), "workflow-socket".to_owned()]));
}
