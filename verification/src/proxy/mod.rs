//! Proxy logic for bridging GDB clients and debug backends: the per-item
//! decisions of a session (where an item goes, how it is counted, which
//! SVD and RTOS notes it earns). Sockets and the event loop live with the
//! program that drives a session.
pub mod session;

pub use crate::config::ProxyConfig;
pub use session::{Peer, RtosBackendNote, RtosClientNote, SessionStats, SvdAccess, SvdNote};
