//! What a run of the program does, step by step, and the settings that it
//! derives from its arguments.

use vstd::prelude::*;

verus! {

/// The command that a run was started for.
#[derive(Debug, Copy, Clone, PartialEq, Eq, Structural)]
pub enum Command {
    Scan,
    Summarize,
    Report,
    Generate,
    Datastore,
}

/// How much is logged.
#[derive(Debug, Copy, Clone, PartialEq, Eq, Structural)]
pub enum LevelFilter {
    Error,
    Warn,
    Info,
    Debug,
    Trace,
}

/// The level of logging for the given flags: errors only when quiet, and
/// otherwise one level more for each request for verbosity, from warnings up
/// to everything.
pub fn level_filter(quiet: bool, verbose: u8) -> (level: LevelFilter)
    ensures
        level == (if quiet {
            LevelFilter::Error
        } else if verbose == 0 {
            LevelFilter::Warn
        } else if verbose == 1 {
            LevelFilter::Info
        } else if verbose == 2 {
            LevelFilter::Debug
        } else {
            LevelFilter::Trace
        }),
{
    if quiet {
        LevelFilter::Error
    } else {
        match verbose {
            0 => LevelFilter::Warn,
            1 => LevelFilter::Info,
            2 => LevelFilter::Debug,
            _ => LevelFilter::Trace,
        }
    }
}

/// The larger of two limits.
pub open spec fn larger(a: u64, b: u64) -> u64 {
    if a >= b {
        a
    } else {
        b
    }
}

/// The soft and the hard limit on open files to ask for: each at least
/// the wanted limit, and neither lowered.
pub fn raised_limits(soft: u64, hard: u64, nofile_limit: u64) -> (limits: (u64, u64))
    ensures
        limits.0 == larger(soft, nofile_limit),
        limits.1 == larger(hard, nofile_limit),
{
    let soft = if soft >= nofile_limit {
        soft
    } else {
        nofile_limit
    };
    let hard = if hard >= nofile_limit {
        hard
    } else {
        nofile_limit
    };
    (soft, hard)
}

/// One step of a run.
#[derive(Debug, Copy, Clone, PartialEq, Eq, Structural)]
pub enum Action {
    ConfigureBacktraces,
    ConfigureColor,
    ConfigureTracing,
    ConfigureRlimits,
    OpenDatastore,
    RunScan,
    /// The report that follows a scan that succeeded.
    RunReportAfterScan,
    RunSummarize,
    RunReport,
    RunGenerate,
    RunDatastore,
    /// The run is over.
    Finish { failed: bool },
}

/// The step that carries out a command.
pub open spec fn command_action(command: Command) -> Action {
    match command {
        Command::Scan => Action::RunScan,
        Command::Summarize => Action::RunSummarize,
        Command::Report => Action::RunReport,
        Command::Generate => Action::RunGenerate,
        Command::Datastore => Action::RunDatastore,
    }
}

/// The step that follows `last`, which succeeded or not. A run sets up
/// backtraces, colour, logging and resource limits, opens the store, and
/// carries out its command. It ends at once where logging cannot be set up or
/// the store cannot be opened; a failure to raise the resource limits does
/// not end it. A scan that succeeded is followed by a report, and the run
/// fails where its last step failed.
pub open spec fn next_action(command: Command, last: Option<Action>, succeeded: bool) -> Action {
    match last {
        None => Action::ConfigureBacktraces,
        Some(Action::ConfigureBacktraces) => Action::ConfigureColor,
        Some(Action::ConfigureColor) => Action::ConfigureTracing,
        Some(Action::ConfigureTracing) => if succeeded {
            Action::ConfigureRlimits
        } else {
            Action::Finish { failed: true }
        },
        Some(Action::ConfigureRlimits) => Action::OpenDatastore,
        Some(Action::OpenDatastore) => if succeeded {
            command_action(command)
        } else {
            Action::Finish { failed: true }
        },
        Some(Action::RunScan) => if succeeded {
            Action::RunReportAfterScan
        } else {
            Action::Finish { failed: true }
        },
        Some(Action::Finish { failed }) => Action::Finish { failed },
        Some(_) => Action::Finish { failed: !succeeded },
    }
}

/// Whether a step carries out a command.
pub open spec fn runs_command(action: Action) -> bool {
    action is RunScan || action is RunReportAfterScan || action is RunSummarize
        || action is RunReport || action is RunGenerate || action is RunDatastore
}

/// Decides the next step of a run from the command, the step that was
/// taken last (`None` at the start) and whether that step succeeded.
pub fn try_main(command: Command, last: Option<Action>, succeeded: bool) -> (next: Action)
    ensures
        next == next_action(command, last, succeeded),
        runs_command(next) && !(next is RunReportAfterScan) ==> last == Some(Action::OpenDatastore)
            && succeeded && next == command_action(command),
        next is RunReportAfterScan ==> last == Some(Action::RunScan) && succeeded,
{
    match last {
        None => Action::ConfigureBacktraces,
        Some(Action::ConfigureBacktraces) => Action::ConfigureColor,
        Some(Action::ConfigureColor) => Action::ConfigureTracing,
        Some(Action::ConfigureTracing) => {
            if succeeded {
                Action::ConfigureRlimits
            } else {
                Action::Finish { failed: true }
            }
        },
        Some(Action::ConfigureRlimits) => Action::OpenDatastore,
        Some(Action::OpenDatastore) => {
            if succeeded {
                match command {
                    Command::Scan => Action::RunScan,
                    Command::Summarize => Action::RunSummarize,
                    Command::Report => Action::RunReport,
                    Command::Generate => Action::RunGenerate,
                    Command::Datastore => Action::RunDatastore,
                }
            } else {
                Action::Finish { failed: true }
            }
        },
        Some(Action::RunScan) => {
            if succeeded {
                Action::RunReportAfterScan
            } else {
                Action::Finish { failed: true }
            }
        },
        Some(Action::Finish { failed }) => Action::Finish { failed },
        Some(_) => Action::Finish { failed: !succeeded },
    }
}

} // verus!
