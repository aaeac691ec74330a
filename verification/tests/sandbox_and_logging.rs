//! The way into the sandbox, and the log filter.

use kid_agentic_coding::logging::{env_filter, LogLevel};
use kid_agentic_coding::sandbox::{
    check_command, sandbox_steps, step_error, SandboxError, SandboxStep, UNPRIVILEGED_ID,
};

#[test]
fn privileges_are_dropped_last_of_all() {
    let steps = sandbox_steps(1000, 100);

    assert_eq!(
        steps[1],
        SandboxStep::Write {
            path: "/proc/self/uid_map",
            text: "0 1000 1\n".to_owned(),
        }
    );
    assert_eq!(
        &steps[steps.len() - 3..],
        &[
            SandboxStep::SetGroup(UNPRIVILEGED_ID),
            SandboxStep::SetUser(UNPRIVILEGED_ID),
            SandboxStep::Exec,
        ]
    );
}

#[test]
fn each_step_fails_in_its_own_words() {
    let source = || "EPERM".to_owned();
    let cases = [
        (SandboxStep::Unshare, "failed to unshare namespaces: EPERM"),
        (SandboxStep::Fork, "failed to fork sandbox init process: EPERM"),
        (SandboxStep::MakeRootPrivate, "failed to mount /: EPERM"),
        (
            SandboxStep::CreateProjectDir,
            "failed to create sandbox directory /projects: EPERM",
        ),
        (SandboxStep::BindProject, "failed to mount /projects: EPERM"),
        (SandboxStep::SetUser(1), "failed to drop privileges: EPERM"),
        (SandboxStep::Exec, "failed to exec sh: EPERM"),
    ];
    for (step, text) in cases {
        assert_eq!(step_error(&step, "sh", source()).message(), text);
    }
    assert_eq!(
        SandboxError::Wait(source()).message(),
        "failed to wait for sandbox init process: EPERM"
    );
    assert_eq!(
        SandboxError::IdMap("/proc/self/uid_map", source()).message(),
        "failed to write /proc/self/uid_map: EPERM"
    );
}

#[test]
fn commands_are_checked_before_they_run() {
    assert_eq!(check_command(&vec!["sh".to_owned()]), Ok(()));
    assert_eq!(check_command(&vec![]), Err(SandboxError::EmptyCommand));
    assert_eq!(
        check_command(&vec!["sh".to_owned(), "a\0b".to_owned()]),
        Err(SandboxError::InvalidArgument("a\0b".to_owned()))
    );
    assert_eq!(
        SandboxError::EmptyCommand.message(),
        "no command given to sandbox"
    );
}

#[test]
fn the_baseline_never_says_more_than_asked_for() {
    assert_eq!(
        env_filter(LogLevel::Debug, LogLevel::Warn),
        vec!["warn", "kid_agentic_coding=debug", "agent_stderr=debug"]
    );
    assert_eq!(
        env_filter(LogLevel::Error, LogLevel::Warn),
        vec!["error", "kid_agentic_coding=error", "agent_stderr=debug"]
    );
}
