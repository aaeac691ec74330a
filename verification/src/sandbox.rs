//! Linux namespace sandbox for isolating an agent process.
//!
//! Confines a process to a project directory using mount, user, PID, and
//! network namespaces, dropping root privileges before the process image is
//! replaced by the sandboxed command. What is done, and in which order, is
//! decided here; the calls of the operating system are made elsewhere.

use vstd::prelude::*;

use crate::text::chars;
use crate::text::chars::chars_of;
use crate::text::number;
use crate::text::number::decimal_text;
use crate::text::search;

verus! {

/// Errors returned while entering or running inside the sandbox. The last text
/// of each is the error of the operating system.
#[derive(Debug, PartialEq, Eq)]
pub enum SandboxError {
    Unshare(String),
    IdMap(&'static str, String),
    Mount(&'static str, String),
    DropPrivileges(String),
    CreateDir(&'static str, String),
    Fork(String),
    Wait(String),
    EmptyCommand,
    InvalidArgument(String),
    Exec(String, String),
}

/// An error in words.
pub open spec fn error_text(error: SandboxError) -> Seq<char> {
    match error {
        SandboxError::Unshare(source) => "failed to unshare namespaces: "@ + source@,
        SandboxError::IdMap(path, source) => "failed to write "@ + path@ + ": "@ + source@,
        SandboxError::Mount(path, source) => "failed to mount "@ + path@ + ": "@ + source@,
        SandboxError::DropPrivileges(source) => "failed to drop privileges: "@ + source@,
        SandboxError::CreateDir(path, source) => "failed to create sandbox directory "@ + path@
            + ": "@ + source@,
        SandboxError::Fork(source) => "failed to fork sandbox init process: "@ + source@,
        SandboxError::Wait(source) => "failed to wait for sandbox init process: "@ + source@,
        SandboxError::EmptyCommand => "no command given to sandbox"@,
        SandboxError::InvalidArgument(argument) => "argument is not a valid C string: "@
            + argument@,
        SandboxError::Exec(program, source) => "failed to exec "@ + program@ + ": "@ + source@,
    }
}

fn joined(head: &str, middle: &str, source: &str) -> (text: String)
    ensures
        text@ == head@ + middle@ + ": "@ + source@,
{
    let mut text = head.to_owned();
    text.append(middle);
    text.append(": ");
    text.append(source);
    text
}

fn behind(head: &str, source: &str) -> (text: String)
    ensures
        text@ == head@ + source@,
{
    let mut text = head.to_owned();
    text.append(source);
    text
}

impl SandboxError {
    /// The error in words.
    pub fn message(&self) -> (text: String)
        ensures
            text@ == error_text(*self),
    {
        match self {
            SandboxError::Unshare(source) => behind(
                "failed to unshare namespaces: ",
                source.as_str(),
            ),
            SandboxError::IdMap(path, source) => joined("failed to write ", path, source.as_str()),
            SandboxError::Mount(path, source) => joined("failed to mount ", path, source.as_str()),
            SandboxError::DropPrivileges(source) => behind(
                "failed to drop privileges: ",
                source.as_str(),
            ),
            SandboxError::CreateDir(path, source) => joined(
                "failed to create sandbox directory ",
                path,
                source.as_str(),
            ),
            SandboxError::Fork(source) => behind(
                "failed to fork sandbox init process: ",
                source.as_str(),
            ),
            SandboxError::Wait(source) => behind(
                "failed to wait for sandbox init process: ",
                source.as_str(),
            ),
            SandboxError::EmptyCommand => "no command given to sandbox".to_owned(),
            SandboxError::InvalidArgument(argument) => behind(
                "argument is not a valid C string: ",
                argument.as_str(),
            ),
            SandboxError::Exec(program, source) => joined(
                "failed to exec ",
                program.as_str(),
                source.as_str(),
            ),
        }
    }
}

/// The path inside the sandbox where the project is exposed.
pub const SANDBOX_PROJECT_PATH: &'static str = "/projects";

/// Unprivileged user and group id used inside the sandbox, regardless of
/// the privileges of the process entering the sandbox.
pub const UNPRIVILEGED_ID: u32 = 65534;

/// The map of an id to root inside the namespace.
pub open spec fn id_map(id: u32) -> Seq<char> {
    "0 "@ + number::decimal(id as nat) + " 1\n"@
}

fn id_map_text(id: u32) -> (text: String)
    ensures
        text@ == id_map(id),
{
    let mut text = "0 ".to_owned();
    text.append(decimal_text(id as u64).as_str());
    text.append(" 1\n");
    text
}

/// A step on the way into the sandbox.
#[derive(Debug, PartialEq, Eq)]
pub enum SandboxStep {
    /// Leave the user, mount, PID and network namespaces.
    Unshare,
    /// Write a file of the process.
    Write { path: &'static str, text: String },
    /// Fork: the child goes on, and its parent waits for it. Leaving the PID
    /// namespace affects children alone, so the child becomes PID 1 of the
    /// new one.
    Fork,
    /// Make the root mount private, so that no mount below propagates back to
    /// the host.
    MakeRootPrivate,
    /// Create the directory where the project is exposed.
    CreateProjectDir,
    /// Mount the project there.
    BindProject,
    /// Take another group.
    SetGroup(u32),
    /// Take another user.
    SetUser(u32),
    /// Replace the process image.
    Exec,
}

/// A step as texts.
#[verifier::ext_equal]
pub enum StepView {
    Unshare,
    Write { path: Seq<char>, text: Seq<char> },
    Fork,
    MakeRootPrivate,
    CreateProjectDir,
    BindProject,
    SetGroup(u32),
    SetUser(u32),
    Exec,
}

impl View for SandboxStep {
    type V = StepView;

    open spec fn view(&self) -> StepView {
        match *self {
            SandboxStep::Unshare => StepView::Unshare,
            SandboxStep::Write { path, text } => StepView::Write { path: path@, text: text@ },
            SandboxStep::Fork => StepView::Fork,
            SandboxStep::MakeRootPrivate => StepView::MakeRootPrivate,
            SandboxStep::CreateProjectDir => StepView::CreateProjectDir,
            SandboxStep::BindProject => StepView::BindProject,
            SandboxStep::SetGroup(id) => StepView::SetGroup(id),
            SandboxStep::SetUser(id) => StepView::SetUser(id),
            SandboxStep::Exec => StepView::Exec,
        }
    }
}

/// Steps as texts.
pub open spec fn step_views(steps: Seq<SandboxStep>) -> Seq<StepView> {
    Seq::new(steps.len(), |i: int| steps[i]@)
}

/// The steps into the sandbox, in their order.
pub open spec fn way_in(uid: u32, gid: u32) -> Seq<StepView> {
    seq![
        StepView::Unshare,
        (StepView::Write { path: "/proc/self/uid_map"@, text: id_map(uid) }),
        (StepView::Write { path: "/proc/self/setgroups"@, text: "deny"@ }),
        (StepView::Write { path: "/proc/self/gid_map"@, text: id_map(gid) }),
        StepView::Fork,
        StepView::MakeRootPrivate,
        StepView::CreateProjectDir,
        StepView::BindProject,
        StepView::SetGroup(UNPRIVILEGED_ID),
        StepView::SetUser(UNPRIVILEGED_ID),
        StepView::Exec,
    ]
}

/// The steps into the sandbox, from the user and the group of the process that
/// enters it.
pub fn sandbox_steps(uid: u32, gid: u32) -> (steps: Vec<SandboxStep>)
    ensures
        step_views(steps@) == way_in(uid, gid),
{
    let steps: Vec<SandboxStep> = vec![
        SandboxStep::Unshare,
        SandboxStep::Write { path: "/proc/self/uid_map", text: id_map_text(uid) },
        SandboxStep::Write { path: "/proc/self/setgroups", text: "deny".to_owned() },
        SandboxStep::Write { path: "/proc/self/gid_map", text: id_map_text(gid) },
        SandboxStep::Fork,
        SandboxStep::MakeRootPrivate,
        SandboxStep::CreateProjectDir,
        SandboxStep::BindProject,
        SandboxStep::SetGroup(UNPRIVILEGED_ID),
        SandboxStep::SetUser(UNPRIVILEGED_ID),
        SandboxStep::Exec,
    ];
    assert(step_views(steps@) =~= way_in(uid, gid));
    steps
}

/// The command is executed last, and by then neither the user nor the group is
/// privileged, whatever they were before.
pub proof fn privileges_are_dropped_before_the_command_runs(uid: u32, gid: u32)
    ensures
        way_in(uid, gid).last() is Exec,
        forall|i: int|
            0 <= i < way_in(uid, gid).len() ==> ((#[trigger] way_in(uid, gid)[i]) is Exec ==> i
                == way_in(uid, gid).len() - 1),
        way_in(uid, gid).contains(StepView::SetGroup(UNPRIVILEGED_ID)),
        way_in(uid, gid).contains(StepView::SetUser(UNPRIVILEGED_ID)),
        forall|i: int|
            0 <= i < way_in(uid, gid).len() ==> match #[trigger] way_in(uid, gid)[i] {
                StepView::SetUser(id) => id == UNPRIVILEGED_ID,
                StepView::SetGroup(id) => id == UNPRIVILEGED_ID,
                _ => true,
            },
{
    let steps = way_in(uid, gid);
    assert(steps[8] == StepView::SetGroup(UNPRIVILEGED_ID));
    assert(steps[9] == StepView::SetUser(UNPRIVILEGED_ID));
}

/// The error of a step, from the error of the operating system.
pub fn step_error(step: &SandboxStep, program: &str, source: String) -> (error: SandboxError)
    ensures
        match *step {
            SandboxStep::Unshare => error == SandboxError::Unshare(source),
            SandboxStep::Write { path, .. } => error == SandboxError::IdMap(path, source),
            SandboxStep::Fork => error == SandboxError::Fork(source),
            SandboxStep::MakeRootPrivate => error == SandboxError::Mount("/", source),
            SandboxStep::CreateProjectDir => error == SandboxError::CreateDir(
                SANDBOX_PROJECT_PATH,
                source,
            ),
            SandboxStep::BindProject => error == SandboxError::Mount(SANDBOX_PROJECT_PATH, source),
            SandboxStep::SetGroup(_) => error == SandboxError::DropPrivileges(source),
            SandboxStep::SetUser(_) => error == SandboxError::DropPrivileges(source),
            SandboxStep::Exec => error matches SandboxError::Exec(named, why) && named@ == program@
                && why == source,
        },
{
    match step {
        SandboxStep::Unshare => SandboxError::Unshare(source),
        SandboxStep::Write { path, .. } => SandboxError::IdMap(path, source),
        SandboxStep::Fork => SandboxError::Fork(source),
        SandboxStep::MakeRootPrivate => SandboxError::Mount("/", source),
        SandboxStep::CreateProjectDir => SandboxError::CreateDir(SANDBOX_PROJECT_PATH, source),
        SandboxStep::BindProject => SandboxError::Mount(SANDBOX_PROJECT_PATH, source),
        SandboxStep::SetGroup(_) => SandboxError::DropPrivileges(source),
        SandboxStep::SetUser(_) => SandboxError::DropPrivileges(source),
        SandboxStep::Exec => SandboxError::Exec(program.to_owned(), source),
    }
}

/// Whether a text can be handed to the operating system: it holds no NUL.
pub open spec fn is_c_string(text: Seq<char>) -> bool {
    !text.contains('\0')
}

fn text_is_c_string(text: &str) -> (valid: bool)
    ensures
        valid == is_c_string(text@),
{
    let chars = chars_of(text);
    let mut i: usize = 0;
    while i < chars.len()
        invariant
            chars@ == text@,
            i <= chars@.len(),
            forall|k: int| 0 <= k < i ==> #[trigger] chars@[k] != '\0',
        decreases chars@.len() - i,
    {
        if chars[i] == '\0' {
            assert(text@[i as int] == '\0');
            return false;
        }
        i = i + 1;
    }
    true
}

/// Checks a command, program first, before it is executed: it must not be
/// empty, and each of its parts must be one that can be handed to the
/// operating system.
pub fn check_command(command: &Vec<String>) -> (checked: Result<(), SandboxError>)
    ensures
        match checked {
            Ok(()) => command@.len() > 0 && forall|i: int|
                0 <= i < command@.len() ==> is_c_string((#[trigger] command@[i])@),
            Err(SandboxError::EmptyCommand) => command@.len() == 0,
            Err(SandboxError::InvalidArgument(argument)) => exists|i: int|
                0 <= i < command@.len() && argument@ == (#[trigger] command@[i])@ && !is_c_string(
                    argument@,
                ) && forall|k: int| 0 <= k < i ==> is_c_string((#[trigger] command@[k])@),
            Err(_) => false,
        },
{
    if command.len() == 0 {
        return Err(SandboxError::EmptyCommand);
    }
    let mut i: usize = 0;
    while i < command.len()
        invariant
            i <= command@.len(),
            forall|k: int| 0 <= k < i ==> is_c_string((#[trigger] command@[k])@),
        decreases command@.len() - i,
    {
        if !text_is_c_string(command[i].as_str()) {
            let argument = command[i].clone();
            assert(argument@ == command@[i as int]@);
            return Err(SandboxError::InvalidArgument(argument));
        }
        i = i + 1;
    }
    Ok(())
}

/// Every error that the operating system gave ends with it, and names the path or
/// the program it is about.
pub proof fn errors_tell_their_source(error: SandboxError)
    ensures
        match error {
            SandboxError::Unshare(source) => search::ends_with(error_text(error), source@),
            SandboxError::IdMap(path, source) => search::ends_with(error_text(error), source@)
                && search::contains(error_text(error), path@),
            SandboxError::Mount(path, source) => search::ends_with(error_text(error), source@)
                && search::contains(error_text(error), path@),
            SandboxError::DropPrivileges(source) => search::ends_with(error_text(error), source@),
            SandboxError::CreateDir(path, source) => search::ends_with(error_text(error), source@)
                && search::contains(error_text(error), path@),
            SandboxError::Fork(source) => search::ends_with(error_text(error), source@),
            SandboxError::Wait(source) => search::ends_with(error_text(error), source@),
            SandboxError::EmptyCommand => true,
            SandboxError::InvalidArgument(argument) => search::ends_with(
                error_text(error),
                argument@,
            ),
            SandboxError::Exec(program, source) => search::ends_with(error_text(error), source@)
                && search::contains(error_text(error), program@),
        },
{
    let text = error_text(error);
    match error {
        SandboxError::Unshare(source) => lemma_named("failed to unshare namespaces: "@, ""@, source@),
        SandboxError::IdMap(path, source) => lemma_named("failed to write "@, path@, source@),
        SandboxError::Mount(path, source) => lemma_named("failed to mount "@, path@, source@),
        SandboxError::DropPrivileges(source) => lemma_named(
            "failed to drop privileges: "@,
            ""@,
            source@,
        ),
        SandboxError::CreateDir(path, source) => lemma_named(
            "failed to create sandbox directory "@,
            path@,
            source@,
        ),
        SandboxError::Fork(source) => lemma_named(
            "failed to fork sandbox init process: "@,
            ""@,
            source@,
        ),
        SandboxError::Wait(source) => lemma_named(
            "failed to wait for sandbox init process: "@,
            ""@,
            source@,
        ),
        SandboxError::EmptyCommand => {},
        SandboxError::InvalidArgument(argument) => lemma_named(
            "argument is not a valid C string: "@,
            ""@,
            argument@,
        ),
        SandboxError::Exec(program, source) => lemma_named("failed to exec "@, program@, source@),
    }
}

proof fn lemma_named(head: Seq<char>, name: Seq<char>, source: Seq<char>)
    ensures
        search::ends_with(head + source, source),
        search::ends_with(head + name + ": "@ + source, source),
        search::contains(head + name + ": "@ + source, name),
{
    let short = head + source;
    let text = head + name + ": "@ + source;
    assert(short.skip(short.len() - source.len()) =~= source);
    assert(text.skip(text.len() - source.len()) =~= source);
    let at = head.len() as int;
    assert(text.subrange(at, at + name.len()) =~= name);
    search::containing_is_standing_somewhere(text, name);
}

/// The process is root inside its namespace and nobody else: each id is mapped
/// there alone. Groups are denied before theirs is, the namespaces are left
/// before anything else, and the project is mounted before privileges are
/// dropped, in a mount that is private by then.
pub proof fn the_way_in_is_in_order(uid: u32, gid: u32)
    ensures
        ({
            let steps = way_in(uid, gid);
            &&& steps[0] is Unshare
            &&& steps[1] == (StepView::Write {
                path: "/proc/self/uid_map"@,
                text: "0 "@ + number::decimal(uid as nat) + " 1\n"@,
            })
            &&& steps[2] == (StepView::Write { path: "/proc/self/setgroups"@, text: "deny"@ })
            &&& steps[3] == (StepView::Write {
                path: "/proc/self/gid_map"@,
                text: "0 "@ + number::decimal(gid as nat) + " 1\n"@,
            })
            &&& forall|i: int, k: int|
                0 <= i < steps.len() && 0 <= k < steps.len() && (#[trigger] steps[i])
                    is MakeRootPrivate && (#[trigger] steps[k]) is BindProject ==> i < k
            &&& forall|i: int, k: int|
                0 <= i < steps.len() && 0 <= k < steps.len() && (#[trigger] steps[i])
                    is BindProject && (#[trigger] steps[k]) is SetUser ==> i < k
            &&& forall|i: int, k: int|
                0 <= i < steps.len() && 0 <= k < steps.len() && (#[trigger] steps[i]) is SetGroup
                    && (#[trigger] steps[k]) is SetUser ==> i < k
            &&& exists|i: int| 0 <= i < steps.len() && (#[trigger] steps[i]) is Fork
            &&& exists|i: int| 0 <= i < steps.len() && (#[trigger] steps[i]) is CreateProjectDir
            &&& exists|i: int| 0 <= i < steps.len() && (#[trigger] steps[i]) is BindProject
            &&& exists|i: int| 0 <= i < steps.len() && (#[trigger] steps[i]) is MakeRootPrivate
        }),
{
    let steps = way_in(uid, gid);
    assert(steps[4] is Fork);
    assert(steps[5] is MakeRootPrivate);
    assert(steps[6] is CreateProjectDir);
    assert(steps[7] is BindProject);
}

} // verus!
