//! Debug probe backends: argv templating and launch plans for spawned stubs
//! and remote `gdbserver` over SSH. The connections themselves are made by
//! the application.
pub mod native;
pub mod remote_ssh;
pub mod tcp;
