//! Logging verbosity flags and their mapping to a log level. The level is
//! the crate's own model; the caller maps it onto its logging backend.

use vstd::prelude::*;

verus! {

/// A logger level filter, from quietest to most verbose.
#[derive(Clone, Copy, Debug, PartialEq, Eq, Structural)]
pub enum LogLevel {
    Warn,
    Info,
    Debug,
    Trace,
}

/// Repeatable raise-verbosity and lower-verbosity flags.
#[derive(Clone, Copy, Debug, PartialEq, Eq, Structural)]
pub struct Verbosity {
    /// How many times the raise-verbosity flag was given.
    pub verbose: u8,
    /// How many times the lower-verbosity flag was given.
    pub quiet: u8,
}

impl Verbosity {
    /// The level the flags mean: any quiet flag selects warnings only;
    /// otherwise the level rises with the verbose count.
    pub open spec fn spec_log_level(&self) -> LogLevel {
        if self.quiet > 0 {
            LogLevel::Warn
        } else if self.verbose == 0 {
            LogLevel::Info
        } else if self.verbose == 1 {
            LogLevel::Debug
        } else {
            LogLevel::Trace
        }
    }

    /// Selects the logger level filter the flags ask for.
    pub fn log_level_filter(&self) -> (r: LogLevel)
        ensures
            r == self.spec_log_level(),
    {
        if self.quiet > 0 {
            LogLevel::Warn
        } else {
            match self.verbose {
                0 => LogLevel::Info,
                1 => LogLevel::Debug,
                _ => LogLevel::Trace,
            }
        }
    }
}

} // verus!
