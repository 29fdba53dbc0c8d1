//! APIs not wired into the proxy yet: session state and UI settings.
pub mod state;
pub mod ui;
