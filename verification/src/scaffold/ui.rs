//! UI settings, kept for future TUI / web frontends; the program has none.
use vstd::prelude::*;
use crate::text::owned;

verus! {

/// UI configuration.
#[derive(Debug, Clone)]
pub struct UiConfig {
    /// UI type (`tui`, `web`, `none`).
    pub ui_type: String,
    /// Port for the web UI.
    pub web_port: Option<u16>,
}

impl Default for UiConfig {
    /// No UI.
    fn default() -> (r: Self)
        ensures
            r.ui_type@ == "none"@,
            r.web_port is None,
    {
        UiConfig { ui_type: owned("none"), web_port: None }
    }
}

} // verus!
