//! rsgdb: a GDB Remote Serial Protocol proxy library.
//!
//! The verified part of the project: RSP framing and checksums, the
//! stream codec, command parsing, configuration validation, argv templating
//! for spawned stubs and flash tools, RTOS reply summaries, SVD address
//! annotation, session statistics and recording budgets.
#![allow(unused_imports)]

pub mod backends;
pub mod breakpoints;
pub mod config;
pub mod deps;
pub mod error;
pub mod flash;
pub mod logger;
pub mod logging_setup;
pub mod text;
pub mod protocol;
pub mod proxy;
pub mod recorder;
pub mod replay;
pub mod rtos;
pub mod scaffold;
pub mod state;
pub mod svd;

pub use config::Config;
pub use error::RsgdbError;
pub use scaffold::ui;

use vstd::prelude::*;

verus! {

/// Library version.
pub const VERSION: &'static str = "0.1.0";

} // verus!
