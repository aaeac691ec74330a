//! Which log lines are kept.

use vstd::prelude::*;

use crate::text::chars;

verus! {

/// How much is logged, from nothing to everything.
#[derive(Debug, Clone, Copy, PartialEq, Eq, Structural)]
pub enum LogLevel {
    Off,
    Error,
    Warn,
    Info,
    Debug,
    Trace,
}

/// How much a level lets through.
pub open spec fn verbosity(level: LogLevel) -> nat {
    match level {
        LogLevel::Off => 0,
        LogLevel::Error => 1,
        LogLevel::Warn => 2,
        LogLevel::Info => 3,
        LogLevel::Debug => 4,
        LogLevel::Trace => 5,
    }
}

/// The name of a level.
pub open spec fn level_name(level: LogLevel) -> Seq<char> {
    match level {
        LogLevel::Off => "off"@,
        LogLevel::Error => "error"@,
        LogLevel::Warn => "warn"@,
        LogLevel::Info => "info"@,
        LogLevel::Debug => "debug"@,
        LogLevel::Trace => "trace"@,
    }
}

impl LogLevel {
    fn rank(self) -> (rank: u8)
        ensures
            rank == verbosity(self),
    {
        match self {
            LogLevel::Off => 0,
            LogLevel::Error => 1,
            LogLevel::Warn => 2,
            LogLevel::Info => 3,
            LogLevel::Debug => 4,
            LogLevel::Trace => 5,
        }
    }

    /// The name of the level.
    pub fn name(self) -> (name: &'static str)
        ensures
            name@ == level_name(self),
    {
        match self {
            LogLevel::Off => "off",
            LogLevel::Error => "error",
            LogLevel::Warn => "warn",
            LogLevel::Info => "info",
            LogLevel::Debug => "debug",
            LogLevel::Trace => "trace",
        }
    }
}

/// The level of what lies outside this crate: never more than is asked for.
pub open spec fn baseline_of(level: LogLevel, baseline: LogLevel) -> LogLevel {
    if verbosity(baseline) < verbosity(level) {
        baseline
    } else {
        level
    }
}

/// The directives of the log filter: the baseline, this crate's own level, and
/// what the agent writes to its standard error.
pub open spec fn directives_of(level: LogLevel, baseline: LogLevel) -> Seq<Seq<char>> {
    seq![
        level_name(baseline_of(level, baseline)),
        "kid_agentic_coding="@ + level_name(level),
        "agent_stderr=debug"@,
    ]
}

/// The directives of the log filter, unless the environment gives others.
pub fn env_filter(level: LogLevel, baseline: LogLevel) -> (directives: Vec<String>)
    ensures
        chars::texts(directives@) == directives_of(level, baseline),
{
    let lowest = if baseline.rank() < level.rank() {
        baseline
    } else {
        level
    };
    let mut own = "kid_agentic_coding=".to_owned();
    own.append(level.name());
    let directives: Vec<String> = vec![
        lowest.name().to_owned(),
        own,
        "agent_stderr=debug".to_owned(),
    ];
    assert(chars::texts(directives@) =~= directives_of(level, baseline));
    directives
}

/// What lies outside this crate logs no more than the crate itself, and no
/// more than the baseline.
pub proof fn baseline_is_a_limit(level: LogLevel, baseline: LogLevel)
    ensures
        verbosity(baseline_of(level, baseline)) <= verbosity(level),
        verbosity(baseline_of(level, baseline)) <= verbosity(baseline),
{
}

/// The filter names the crate's own level, and for all else the lesser of the two
/// levels; a level lets through what every lesser one does.
pub proof fn filters_name_their_levels(level: LogLevel, baseline: LogLevel)
    ensures
        directives_of(level, baseline).len() == 3,
        directives_of(level, baseline)[1] == "kid_agentic_coding="@ + level_name(level),
        directives_of(level, baseline)[0] == level_name(baseline) || directives_of(
            level,
            baseline,
        )[0] == level_name(level),
        verbosity(baseline) <= verbosity(level) ==> directives_of(level, baseline)[0] == level_name(
            baseline,
        ),
        verbosity(LogLevel::Off) < verbosity(LogLevel::Error) < verbosity(LogLevel::Warn)
            < verbosity(LogLevel::Info) < verbosity(LogLevel::Debug) < verbosity(LogLevel::Trace),
        level_name(LogLevel::Off) == "off"@,
        level_name(LogLevel::Error) == "error"@,
        level_name(LogLevel::Warn) == "warn"@,
        level_name(LogLevel::Info) == "info"@,
        level_name(LogLevel::Debug) == "debug"@,
        level_name(LogLevel::Trace) == "trace"@,
{
}

} // verus!
