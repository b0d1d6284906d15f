//! The verbosity flags' mapping to a logger level.

use record_gen::verbosity::{LogLevel, Verbosity};

#[test]
fn quiet_always_selects_warn() {
    assert_eq!(Verbosity { verbose: 0, quiet: 1 }.log_level_filter(), LogLevel::Warn);
    assert_eq!(Verbosity { verbose: 5, quiet: 2 }.log_level_filter(), LogLevel::Warn);
}

#[test]
fn verbosity_raises_the_level() {
    assert_eq!(Verbosity { verbose: 0, quiet: 0 }.log_level_filter(), LogLevel::Info);
    assert_eq!(Verbosity { verbose: 1, quiet: 0 }.log_level_filter(), LogLevel::Debug);
    assert_eq!(Verbosity { verbose: 2, quiet: 0 }.log_level_filter(), LogLevel::Trace);
    assert_eq!(Verbosity { verbose: 9, quiet: 0 }.log_level_filter(), LogLevel::Trace);
}
