//! Tools for Python projects, backed by `uv`.

use vstd::prelude::*;

use crate::text::chars;
use crate::tools::process;
use crate::tools::process::{program_output, ProcessRun};
use crate::tools::reply::{FailureView, OutputView, ProcessOutput, ToolFailure};

verus! {

/// The program that runs the tools.
pub const UV: &'static str = "uv";

/// A tool for Python projects.
#[derive(Debug, Clone, Copy, PartialEq, Eq, Structural)]
pub enum PythonTool {
    /// Checks the whole project, including tests.
    Check,
    /// Reports style and correctness issues with `ty`.
    LintTy,
    /// Reports style and correctness issues with `mypy`.
    Lint,
    /// Runs the full unit test suite.
    Test,
    /// Builds the project.
    BuildPackages,
}

/// The arguments of a tool.
pub open spec fn tool_args(tool: PythonTool) -> Seq<Seq<char>> {
    match tool {
        PythonTool::Check => seq!["run"@, "ruff"@, "check"@, "--fix"@],
        PythonTool::LintTy => seq!["run"@, "ty"@, "check"@],
        PythonTool::Lint => seq!["run"@, "mypy"@],
        PythonTool::Test => seq![
            "run"@,
            "pytest"@,
            "--cov=src"@,
            "--cov-report=term-missing"@,
            "--no-cov-on-fail"@,
            "--override-ini=addopts="@,
            "tests/unit"@,
        ],
        PythonTool::BuildPackages => seq!["build"@, "--all-packages"@, "--out-dir"@, "dist"@],
    }
}

/// What a tool is called in messages.
pub open spec fn tool_operation(tool: PythonTool) -> Seq<char> {
    match tool {
        PythonTool::Check => "ruff check"@,
        PythonTool::LintTy => "ty check"@,
        PythonTool::Lint => "mypy"@,
        PythonTool::Test => "pytest"@,
        PythonTool::BuildPackages => "uv build"@,
    }
}

fn owned(texts: &Vec<&'static str>) -> (out: Vec<String>)
    ensures
        chars::texts(out@) == Seq::new(texts@.len(), |i: int| texts@[i]@),
{
    let mut out: Vec<String> = Vec::new();
    let mut i: usize = 0;
    while i < texts.len()
        invariant
            i <= texts@.len(),
            out@.len() == i,
            forall|k: int| 0 <= k < i ==> (#[trigger] out@[k])@ == texts@[k]@,
        decreases texts@.len() - i,
    {
        out.push(texts[i].to_owned());
        i = i + 1;
    }
    assert(chars::texts(out@) =~= Seq::new(texts@.len(), |i: int| texts@[i]@));
    out
}

impl PythonTool {
    /// The arguments of the tool.
    pub fn args(&self) -> (args: Vec<String>)
        ensures
            chars::texts(args@) == tool_args(*self),
    {
        let texts: Vec<&'static str> = match self {
            PythonTool::Check => vec!["run", "ruff", "check", "--fix"],
            PythonTool::LintTy => vec!["run", "ty", "check"],
            PythonTool::Lint => vec!["run", "mypy"],
            PythonTool::Test => vec![
                "run",
                "pytest",
                "--cov=src",
                "--cov-report=term-missing",
                "--no-cov-on-fail",
                "--override-ini=addopts=",
                "tests/unit",
            ],
            PythonTool::BuildPackages => vec!["build", "--all-packages", "--out-dir", "dist"],
        };
        let args = owned(&texts);
        assert(chars::texts(args@) =~= tool_args(*self));
        args
    }

    /// What the tool is called in messages.
    pub fn operation(&self) -> (operation: &'static str)
        ensures
            operation@ == tool_operation(*self),
    {
        match self {
            PythonTool::Check => "ruff check",
            PythonTool::LintTy => "ty check",
            PythonTool::Lint => "mypy",
            PythonTool::Test => "pytest",
            PythonTool::BuildPackages => "uv build",
        }
    }
}

/// The output of a tool, whatever its status.
pub fn run_uv(run: ProcessRun, tool: PythonTool) -> (output: Result<ProcessOutput, ToolFailure>)
    ensures
        match output {
            Ok(output) => process::output_of(run, tool_operation(tool), UV@) == Ok::<
                OutputView,
                FailureView,
            >(output@),
            Err(failure) => process::output_of(run, tool_operation(tool), UV@) == Err::<
                OutputView,
                FailureView,
            >(failure@),
        },
{
    program_output(run, tool.operation(), UV)
}

/// Each tool runs a program of its own: the check runs `ruff`, the lints `ty` and
/// `mypy`, the tests `pytest`, and the build builds every package.
pub proof fn tools_run_their_programs(tool: PythonTool)
    ensures
        tool is Check ==> tool_args(tool).contains("ruff"@) && tool_args(tool).contains("check"@),
        tool is LintTy ==> tool_args(tool).contains("ty"@),
        tool is Lint ==> tool_args(tool).contains("mypy"@),
        tool is Test ==> tool_args(tool).contains("pytest"@) && tool_args(tool).last()
            == "tests/unit"@,
        tool is BuildPackages ==> tool_args(tool)[0] == "build"@ && tool_args(tool).contains(
            "--all-packages"@,
        ),
        !(tool is BuildPackages) ==> tool_args(tool)[0] == "run"@,
{
    let args = tool_args(tool);
    match tool {
        PythonTool::Check => {
            assert(args[1] == "ruff"@);
            assert(args[2] == "check"@);
        },
        PythonTool::LintTy => {
            assert(args[1] == "ty"@);
        },
        PythonTool::Lint => {
            assert(args[1] == "mypy"@);
        },
        PythonTool::Test => {
            assert(args[1] == "pytest"@);
        },
        PythonTool::BuildPackages => {
            assert(args[1] == "--all-packages"@);
        },
    }
}

/// Each tool is told by the command it runs.
pub proof fn tools_are_told_by_their_command(tool: PythonTool)
    ensures
        tool is Check ==> tool_operation(tool) == "ruff check"@,
        tool is LintTy ==> tool_operation(tool) == "ty check"@,
        tool is Lint ==> tool_operation(tool) == "mypy"@,
        tool is Test ==> tool_operation(tool) == "pytest"@,
        tool is BuildPackages ==> tool_operation(tool) == "uv build"@,
{
}

} // verus!
