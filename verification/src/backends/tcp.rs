//! TCP connection to a remote GDB stub (OpenOCD, probe-rs, pyOCD, …): the
//! address, the connect time limit and the error when it runs out.
use vstd::prelude::*;
use crate::config::ProxyConfig;
use crate::error::RsgdbError;
use crate::text::{append_to, concat_str, decimal_string, decimal_text};

verus! {

/// The backend address `host:port`.
pub open spec fn backend_addr_text(config: ProxyConfig) -> Seq<char> {
    config.target_host@ + ":"@ + decimal_text(config.target_port as nat)
}

/// The address the proxy connects to for its backend.
pub fn backend_addr(config: &ProxyConfig) -> (r: String)
    ensures
        r@ == backend_addr_text(*config),
{
    let port = decimal_string(config.target_port as u64);
    append_to(concat_str(config.target_host.as_str(), ":"), port.as_str())
}

/// The time limit on establishing the backend connection, in seconds:
/// none when `timeout_secs` is `0`.
pub fn connect_limit_secs(config: &ProxyConfig) -> (r: Option<u64>)
    ensures
        r == (if config.timeout_secs == 0 { None } else { Some(config.timeout_secs) }),
{
    if config.timeout_secs == 0 {
        None
    } else {
        Some(config.timeout_secs)
    }
}

/// The message of the error for a connect that ran out of time.
pub open spec fn connect_timeout_text(addr: Seq<char>, secs: u64) -> Seq<char> {
    "TCP connect to backend "@ + addr + " exceeded "@ + decimal_text(secs as nat) + "s"@
}

/// The error for a backend connect to `addr` that took longer than `secs`.
pub fn connect_timeout_error(addr: &str, secs: u64) -> (e: RsgdbError)
    ensures
        e matches RsgdbError::Timeout(m) && m@ == connect_timeout_text(addr@, secs),
{
    let n = decimal_string(secs);
    let m = append_to(append_to(append_to(concat_str("TCP connect to backend ", addr), " exceeded "), n.as_str()), "s");
    RsgdbError::Timeout(m)
}

} // verus!
