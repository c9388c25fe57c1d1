//! The verbosity of diagnostic output, held as a value that is handed to
//! whoever needs it.

use vstd::prelude::*;

verus! {

/// The level from which debugging messages are written.
pub const LOG_LEVEL_DEBUG: u8 = 2;

/// The verbosity that a run was started with.
#[derive(Clone, Copy, Debug, PartialEq, Eq, Structural)]
pub struct LogConfig {
    pub level: u8,
}

impl LogConfig {
    /// A configuration at the lowest verbosity.
    pub fn new() -> (r: Self)
        ensures
            r.level == 0,
    {
        LogConfig { level: 0 }
    }

    /// Whether messages of the given level are written.
    pub fn enabled(&self, level: u8) -> (r: bool)
        ensures
            r == (self.level >= level),
    {
        self.level >= level
    }
}

/// The current verbosity.
pub fn get_log_level(config: &LogConfig) -> (level: u8)
    ensures
        level == config.level,
{
    config.level
}

/// Sets the verbosity.
pub fn set_log_level(config: &mut LogConfig, level: u8)
    ensures
        final(config).level == level,
{
    config.level = level;
}

} // verus!
