//! The errors a command can end with.
//!
//! Every error is terminal for the command that raised it and maps to process
//! exit code 1. Soft conditions (the private framework missing, brightness
//! unsupported on a display) are deliberately not errors: callers report them
//! as informational placeholders and still exit 0.

use vstd::prelude::*;

verus! {

/// Why a command failed.
#[derive(Clone, Copy, Debug, PartialEq, Eq, Structural)]
pub enum CommandError {
    /// A `--display <id>` filter named a numeric ID that is not active.
    RequestedDisplayNotFound,
    /// A persistent UUID matched no display known to the mode manager.
    PersistentDisplayNotFound,
    /// A requested mode number is not in the display's mode list.
    ModeNotFoundForDisplay,
    /// The mode manager could not be obtained at all.
    ManagerUnavailable,
    /// The manager is up but yielded no mode data for the display.
    ModesUnavailableForDisplay,
    /// A brightness percentage outside 0..=100 was requested.
    InvalidBrightnessRange,
    /// The mode-set call returned a nonzero result code, carried here.
    SetOperationFailed(i32),
}

impl CommandError {
    /// The process exit code this error maps to: always 1.
    pub fn exit_code(&self) -> (r: u8)
        ensures
            r == 1u8,
    {
        1
    }
}

} // verus!
