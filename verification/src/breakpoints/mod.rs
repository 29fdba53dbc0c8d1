//! Breakpoint records: named, conditional and typed breakpoints.
use vstd::prelude::*;

verus! {

/// Breakpoint type.
#[derive(Debug, Clone, PartialEq)]
pub enum BreakpointType {
    /// Software breakpoint.
    Software,
    /// Hardware breakpoint.
    Hardware,
    /// Watchpoint (data breakpoint).
    Watchpoint,
}

/// A breakpoint.
#[derive(Debug, Clone)]
pub struct Breakpoint {
    /// Unique identifier.
    pub id: u32,
    /// Optional name.
    pub name: Option<String>,
    /// Address.
    pub address: u64,
    /// Breakpoint type.
    pub bp_type: BreakpointType,
    /// Whether the breakpoint is enabled.
    pub enabled: bool,
    /// Optional condition.
    pub condition: Option<String>,
}

} // verus!
