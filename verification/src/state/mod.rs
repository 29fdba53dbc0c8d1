//! Target state tracking for debugging sessions.
use vstd::prelude::*;

verus! {

/// The state of the target.
#[derive(Debug, Clone, PartialEq)]
pub enum TargetState {
    /// Target is running.
    Running,
    /// Target is stopped.
    Stopped,
    /// Target is halted at a breakpoint.
    Halted,
    /// Target state is unknown.
    Unknown,
}

} // verus!
