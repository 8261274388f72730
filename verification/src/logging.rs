//! How loud the program is asked to be.

use vstd::prelude::*;

verus! {

/// How much is logged, from errors only to everything.
#[derive(Clone, Copy, Debug, PartialEq, Eq, Structural)]
pub enum LogLevel {
    Error,
    Warn,
    Info,
    Debug,
    Trace,
}

/// The level for a number of `-v` flags: errors only without one, one level
/// more for each flag, everything from four flags on.
pub open spec fn log_level_of(verbosity: u8) -> LogLevel {
    if verbosity == 0 {
        LogLevel::Error
    } else if verbosity == 1 {
        LogLevel::Warn
    } else if verbosity == 2 {
        LogLevel::Info
    } else if verbosity == 3 {
        LogLevel::Debug
    } else {
        LogLevel::Trace
    }
}

/// The level for a number of `-v` flags.
pub fn get_log_level(verbosity: u8) -> (level: LogLevel)
    ensures
        level == log_level_of(verbosity),
{
    match verbosity {
        0 => LogLevel::Error,
        1 => LogLevel::Warn,
        2 => LogLevel::Info,
        3 => LogLevel::Debug,
        _ => LogLevel::Trace,
    }
}

} // verus!
