//! What is made of a process that a tool has run.

use vstd::prelude::*;

use crate::text::chars;
use crate::text::chars::text_of_bytes;
use crate::text::search;
use crate::text::words;
use crate::text::words::trimmed;
use crate::tools::reply;
use crate::tools::reply::{
    DataView, FailureData, FailureView, OutputView, ProcessOutput, ReplyView, ToolFailure,
    ToolReply,
};

verus! {

/// How far a process got that was to be run. The texts are the errors of the
/// operating system.
#[derive(Debug, PartialEq, Eq)]
pub enum ProcessRun {
    /// The directory to run it in could not be told.
    NoDirectory(String),
    /// Whoever was to run it did not.
    NotRun(String),
    /// It could not be executed. `not_found` tells whether there is no such
    /// program.
    NotExecuted { not_found: bool, error: String },
    /// It ended.
    Ended(ProcessOutput),
}

/// What a process left behind, as it was read. A process that was ended by a
/// signal has no exit code.
pub fn process_output(code: Option<i32>, stdout: &[u8], stderr: &[u8]) -> (output: ProcessOutput)
    ensures
        output@ == (OutputView {
            status: match code {
                Some(code) => code,
                None => (-1int) as i32,
            },
            stdout: chars::lossy_text(stdout@),
            stderr: chars::lossy_text(stderr@),
        }),
{
    ProcessOutput {
        status: match code {
            Some(code) => code,
            None => -1,
        },
        stdout: text_of_bytes(stdout),
        stderr: text_of_bytes(stderr),
    }
}

/// A text behind another.
pub(crate) fn concat(left: &str, right: &str) -> (text: String)
    ensures
        text@ == left@ + right@,
{
    let mut text = left.to_owned();
    text.append(right);
    text
}

/// The failure of a process that was not run.
pub open spec fn not_run(run: ProcessRun, operation: Seq<char>) -> Option<FailureView> {
    match run {
        ProcessRun::NoDirectory(error) => Some(
            reply::failed("failed to determine working directory for "@ + operation, error@),
        ),
        ProcessRun::NotRun(error) => Some(reply::failed("failed to run "@ + operation, error@)),
        ProcessRun::NotExecuted { error, .. } => Some(
            reply::failed("failed to execute "@ + operation, error@),
        ),
        ProcessRun::Ended(_) => None,
    }
}

/// The output of a process that was run, or the failure of one that was not.
pub fn run_process(run: ProcessRun, operation: &str) -> (output: Result<ProcessOutput, ToolFailure>)
    ensures
        match output {
            Ok(output) => run == ProcessRun::Ended(output),
            Err(failure) => not_run(run, operation@) == Some(failure@),
        },
{
    match run {
        ProcessRun::NoDirectory(error) => Err(
            ToolFailure::new(
                concat("failed to determine working directory for ", operation).as_str(),
                error.as_str(),
            ),
        ),
        ProcessRun::NotRun(error) => Err(
            ToolFailure::new(concat("failed to run ", operation).as_str(), error.as_str()),
        ),
        ProcessRun::NotExecuted { error, .. } => Err(
            ToolFailure::new(concat("failed to execute ", operation).as_str(), error.as_str()),
        ),
        ProcessRun::Ended(output) => Ok(output),
    }
}

/// The result of a command, from what is said of its failure: all it printed
/// where it succeeded.
pub open spec fn result_of(run: ProcessRun, operation: Seq<char>, complaint: Seq<char>) -> Result<
    ReplyView,
    FailureView,
> {
    match run {
        ProcessRun::Ended(output) => if output.status == 0 {
            Ok(ReplyView::Success(output.stdout@ + output.stderr@))
        } else {
            Err(FailureView { message: complaint, data: DataView::Process(output@) })
        },
        _ => Err(not_run(run, operation)->0),
    }
}

/// What is said of a failed command: what it printed of its errors.
pub open spec fn complaint_of(run: ProcessRun, operation: Seq<char>) -> Seq<char> {
    match run {
        ProcessRun::Ended(output) => operation + " failed: "@ + words::trim(output.stderr@),
        _ => Seq::empty(),
    }
}

fn settle(run: ProcessRun, operation: &str, complaint: String) -> (result: Result<
    ToolReply,
    ToolFailure,
>)
    ensures
        reply::result_view(result) == result_of(run, operation@, complaint@),
{
    match run_process(run, operation) {
        Ok(output) => {
            if output.status == 0 {
                Ok(ToolReply::Success(concat(output.stdout.as_str(), output.stderr.as_str())))
            } else {
                Err(ToolFailure { message: complaint, data: FailureData::Process(output) })
            }
        },
        Err(failure) => Err(failure),
    }
}

/// The result of a command, whose failure is explained by what it printed of
/// its errors.
pub fn command_result(run: ProcessRun, operation: &str) -> (result: Result<ToolReply, ToolFailure>)
    ensures
        reply::result_view(result) == result_of(run, operation@, complaint_of(run, operation@)),
{
    let complaint = match &run {
        ProcessRun::Ended(output) => {
            let mut complaint = concat(operation, " failed: ");
            complaint.append(trimmed(output.stderr.as_str()).as_str());
            complaint
        },
        _ => String::new(),
    };
    settle(run, operation, complaint)
}

/// The result of a command, whose failure is stated alone.
pub fn plain_command_result(run: ProcessRun, operation: &str) -> (result: Result<
    ToolReply,
    ToolFailure,
>)
    ensures
        reply::result_view(result) == result_of(run, operation@, operation@ + " failed"@),
{
    let complaint = concat(operation, " failed");
    settle(run, operation, complaint)
}

/// A failure that says in its data what failed.
pub open spec fn explained(error: Seq<char>, reason: Seq<char>) -> FailureView {
    FailureView { message: error, data: DataView::Explained { error, reason } }
}

fn explain(error: String, reason: String) -> (failure: ToolFailure)
    ensures
        failure@ == explained(error@, reason@),
{
    let message = error.clone();
    ToolFailure { message, data: FailureData::Explained { error, reason } }
}

/// The output of a program that was run, whatever its status, or the failure
/// of one that was not. A program that is missing is named.
pub open spec fn output_of(run: ProcessRun, operation: Seq<char>, program: Seq<char>) -> Result<
    OutputView,
    FailureView,
> {
    match run {
        ProcessRun::NoDirectory(error) => Err(
            explained("failed to determine working directory"@, error@),
        ),
        ProcessRun::NotRun(error) => Err(explained("failed to run "@ + operation, error@)),
        ProcessRun::NotExecuted { not_found, error } => Err(
            explained(
                "failed to execute "@ + operation,
                if not_found {
                    program + " is not installed"@
                } else {
                    error@
                },
            ),
        ),
        ProcessRun::Ended(output) => Ok(output@),
    }
}

/// The output of a program that was run.
pub fn program_output(run: ProcessRun, operation: &str, program: &str) -> (output: Result<
    ProcessOutput,
    ToolFailure,
>)
    ensures
        match output {
            Ok(output) => output_of(run, operation@, program@) == Ok::<OutputView, FailureView>(
                output@,
            ),
            Err(failure) => output_of(run, operation@, program@) == Err::<OutputView, FailureView>(
                failure@,
            ),
        },
{
    match run {
        ProcessRun::NoDirectory(error) => Err(
            explain("failed to determine working directory".to_owned(), error),
        ),
        ProcessRun::NotRun(error) => Err(explain(concat("failed to run ", operation), error)),
        ProcessRun::NotExecuted { not_found, error } => {
            let reason = if not_found {
                concat(program, " is not installed")
            } else {
                error
            };
            Err(explain(concat("failed to execute ", operation), reason))
        },
        ProcessRun::Ended(output) => Ok(output),
    }
}

/// A command succeeds if and only if its process ended with status zero.
pub proof fn command_succeeds_with_status_zero(
    run: ProcessRun,
    operation: Seq<char>,
    complaint: Seq<char>,
)
    ensures
        result_of(run, operation, complaint) is Ok <==> (run matches ProcessRun::Ended(output)
            && output.status == 0),
{
}

/// A command that succeeded answers with all it printed, its errors last; one
/// that failed keeps its status and both of what it printed, and says what it
/// printed of its errors; one that did not run says why.
pub proof fn nothing_printed_is_lost(run: ProcessRun, operation: Seq<char>)
    ensures
        run matches ProcessRun::Ended(output) ==> {
            &&& output.status == 0 ==> (result_of(
                run,
                operation,
                complaint_of(run, operation),
            ) matches Ok(ReplyView::Success(text)) && search::starts_with(text, output.stdout@)
                && search::ends_with(text, output.stderr@) && text.len() == output.stdout@.len()
                + output.stderr@.len())
            &&& output.status != 0 ==> (result_of(
                run,
                operation,
                complaint_of(run, operation),
            ) matches Err(failure) && failure.data == DataView::Process(output@)
                && search::starts_with(failure.message, operation) && search::ends_with(
                failure.message,
                words::trim(output.stderr@),
            ))
        },
        !(run is Ended) ==> (result_of(run, operation, complaint_of(run, operation)) matches Err(
            failure,
        ) && search::ends_with(failure.message, operation) && (match run {
            ProcessRun::NoDirectory(error) => failure.data == DataView::Reason(error@),
            ProcessRun::NotRun(error) => failure.data == DataView::Reason(error@),
            ProcessRun::NotExecuted { error, .. } => failure.data == DataView::Reason(error@),
            ProcessRun::Ended(_) => true,
        })),
{
    match run {
        ProcessRun::Ended(output) => {
            let text = output.stdout@ + output.stderr@;
            assert(text.take(output.stdout@.len() as int) =~= output.stdout@);
            assert(text.skip(text.len() - output.stderr@.len()) =~= output.stderr@);
            let complaint = complaint_of(run, operation);
            let trimmed = words::trim(output.stderr@);
            assert(complaint.take(operation.len() as int) =~= operation);
            assert(complaint.skip(complaint.len() - trimmed.len()) =~= trimmed);
        },
        _ => {
            let message = not_run(run, operation)->0.message;
            assert(message.skip(message.len() - operation.len()) =~= operation);
        },
    }
}

/// A program's output is handed on whatever its status; a program that is missing
/// is named, and any other error is told as it is.
pub proof fn outputs_are_handed_on(run: ProcessRun, operation: Seq<char>, program: Seq<char>)
    ensures
        run matches ProcessRun::Ended(output) ==> output_of(run, operation, program) == Ok::<
            OutputView,
            FailureView,
        >(output@),
        !(run is Ended) ==> output_of(run, operation, program) is Err,
        run matches ProcessRun::NotExecuted { not_found, error } ==> (output_of(
            run,
            operation,
            program,
        ) matches Err(failure) && (failure.data matches DataView::Explained { error: what, reason }
            && what == failure.message && search::ends_with(what, operation) && (not_found
            ==> search::starts_with(reason, program)) && (!not_found ==> reason == error@))),
{
    if let ProcessRun::NotExecuted { not_found, error } = run {
        let message = "failed to execute "@ + operation;
        assert(message.skip(message.len() - operation.len()) =~= operation);
        let reason = program + " is not installed"@;
        assert(reason.take(program.len() as int) =~= program);
    }
}

} // verus!
