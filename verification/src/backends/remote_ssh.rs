//! SSH to a remote host, run `gdbserver` (or similar), then connect TCP to
//! `proxy.target_host:port`; optionally `scp` a binary first. This module
//! builds the command lines; the application runs them.
use vstd::prelude::*;
use crate::backends::native::{max_u64, mentions, substitute, substitute_port};
use crate::config::{texts, BackendConfig, BackendRemoteSshConfig, ProxyConfig};
use crate::error::{is_backend_error, RsgdbError};
use crate::text::{append_to, decimal_string, decimal_text, owned, str_trim, trim_chars};

verus! {

/// The tool to run, behind `sshpass -p <password>` when a non-empty password is given.
pub open spec fn tool_prefix(tool: Seq<char>, password: Option<String>) -> Seq<Seq<char>> {
    match password {
        Some(p) => if p@.len() > 0 {
            seq!["sshpass"@, "-p"@, p@, tool]
        } else {
            seq![tool]
        },
        None => seq![tool],
    }
}

/// `-i <file>` for an identity file that is set and not blank (trimmed).
pub open spec fn identity_args(id: Option<String>) -> Seq<Seq<char>> {
    match id {
        Some(p) => if trim_chars(p@).len() > 0 {
            seq!["-i"@, trim_chars(p@)]
        } else {
            Seq::empty()
        },
        None => Seq::empty(),
    }
}

/// The options that every ssh and scp run gets, with the port flag given.
pub open spec fn common_options(port_flag: Seq<char>, ssh_port: u16) -> Seq<Seq<char>> {
    seq!["-o"@, "BatchMode=yes"@, "-o"@, "ConnectTimeout=15"@, port_flag, decimal_text(ssh_port as nat)]
}

/// The argv of the ssh run that starts the remote stub.
pub open spec fn ssh_argv_spec(
    rs: BackendRemoteSshConfig,
    ssh_host: Seq<char>,
    remote: Seq<Seq<char>>,
    password: Option<String>,
) -> Seq<Seq<char>> {
    tool_prefix("ssh"@, password) + common_options("-p"@, rs.ssh_port) + identity_args(rs.identity_file)
        + seq![rs.user@ + "@"@ + ssh_host] + remote
}

/// The argv of the scp run that uploads `local` to `remote` on the host.
pub open spec fn scp_argv_spec(
    rs: BackendRemoteSshConfig,
    ssh_host: Seq<char>,
    local: Seq<char>,
    remote: Seq<char>,
    password: Option<String>,
) -> Seq<Seq<char>> {
    tool_prefix("scp"@, password) + common_options("-P"@, rs.ssh_port) + identity_args(rs.identity_file)
        + seq![local, rs.user@ + "@"@ + ssh_host + ":"@ + remote]
}

fn push_tool_prefix(v: &mut Vec<String>, tool: &str, password: &Option<String>)
    ensures
        texts(final(v)@) == texts(old(v)@) + tool_prefix(tool@, *password),
{
    let ghost v0 = v@;
    match password {
        Some(p) => {
            if p.as_str().is_empty() {
                v.push(owned(tool));
            } else {
                v.push(owned("sshpass"));
                v.push(owned("-p"));
                v.push(p.clone());
                v.push(owned(tool));
            }
        },
        None => {
            v.push(owned(tool));
        },
    }
    assert(texts(v@) =~= texts(v0) + tool_prefix(tool@, *password));
}

fn push_options(v: &mut Vec<String>, port_flag: &str, rs: &BackendRemoteSshConfig)
    ensures
        texts(final(v)@) == texts(old(v)@) + common_options(port_flag@, rs.ssh_port) + identity_args(
            rs.identity_file,
        ),
{
    let ghost v0 = v@;
    v.push(owned("-o"));
    v.push(owned("BatchMode=yes"));
    v.push(owned("-o"));
    v.push(owned("ConnectTimeout=15"));
    v.push(owned(port_flag));
    v.push(decimal_string(rs.ssh_port as u64));
    let ghost v1 = v@;
    assert(texts(v1) =~= texts(v0) + common_options(port_flag@, rs.ssh_port));
    match &rs.identity_file {
        Some(path) => {
            let p = str_trim(path.as_str());
            if !p.is_empty() {
                v.push(owned("-i"));
                v.push(owned(p));
            }
        },
        None => {},
    }
    assert(texts(v@) =~= texts(v1) + identity_args(rs.identity_file));
}

/// Replace `{port}` in each remote argv element; at least one must hold it.
pub fn build_remote_ssh_argv(program: &[String], port: u16) -> (r: Result<Vec<String>, RsgdbError>)
    ensures
        match r {
            Ok(v) => mentions(program@, "{port}"@) && texts(v@) == substitute(
                program@,
                "{port}"@,
                decimal_text(port as nat),
            ),
            Err(e) => !mentions(program@, "{port}"@) && is_backend_error(
                e,
                "[backend.remote_ssh] program must include the placeholder {port}"@,
            ),
        },
{
    substitute_port(program, port, "[backend.remote_ssh] program must include the placeholder {port}")
}

/// The argv of the ssh run: the tool, connection options, optional identity
/// file, `user@host`, then the remote argv, which must not be empty.
pub fn build_ssh_command(
    rs: &BackendRemoteSshConfig,
    ssh_host: &str,
    remote_argv: &[String],
    password: &Option<String>,
) -> (r: Result<Vec<String>, RsgdbError>)
    ensures
        match r {
            Ok(v) => remote_argv@.len() > 0 && texts(v@) == ssh_argv_spec(*rs, ssh_host@, texts(remote_argv@), *password),
            Err(e) => remote_argv@.len() == 0 && is_backend_error(e, "[backend.remote_ssh] program is empty"@),
        },
{
    if remote_argv.len() == 0 {
        return Err(RsgdbError::Backend(owned("[backend.remote_ssh] program is empty")));
    }
    let mut v: Vec<String> = Vec::new();
    push_tool_prefix(&mut v, "ssh", password);
    push_options(&mut v, "-p", rs);
    let ghost v1 = v@;
    let user_host = append_to(append_to(rs.user.clone(), "@"), ssh_host);
    v.push(user_host);
    let mut i: usize = 0;
    while i < remote_argv.len()
        invariant
            i <= remote_argv@.len(),
            texts(v@) == texts(v1) + seq![rs.user@ + "@"@ + ssh_host@] + texts(remote_argv@).take(i as int),
        decreases remote_argv@.len() - i,
    {
        let ghost before = v@;
        v.push(remote_argv[i].clone());
        assert(texts(v@) =~= texts(before).push(remote_argv@[i as int]@));
        assert(texts(remote_argv@).take(i + 1) =~= texts(remote_argv@).take(i as int).push(remote_argv@[i as int]@));
        i = i + 1;
    }
    assert(texts(remote_argv@).take(i as int) =~= texts(remote_argv@));
    assert(texts(v@) =~= ssh_argv_spec(*rs, ssh_host@, texts(remote_argv@), *password));
    Ok(v)
}

/// The argv of the scp run that uploads `local` (which must be a file, as
/// `local_is_file` reports) to `remote` on the host.
pub fn scp_upload_argv(
    rs: &BackendRemoteSshConfig,
    ssh_host: &str,
    local: &str,
    remote: &str,
    local_is_file: bool,
    password: &Option<String>,
) -> (r: Result<Vec<String>, RsgdbError>)
    ensures
        match r {
            Ok(v) => local_is_file && texts(v@) == scp_argv_spec(*rs, ssh_host@, local@, remote@, *password),
            Err(e) => !local_is_file && is_backend_error(
                e,
                "[backend.remote_ssh] upload_local is not a file: "@ + local@,
            ),
        },
{
    if !local_is_file {
        return Err(RsgdbError::Backend(append_to(owned("[backend.remote_ssh] upload_local is not a file: "), local)));
    }
    let mut v: Vec<String> = Vec::new();
    push_tool_prefix(&mut v, "scp", password);
    push_options(&mut v, "-P", rs);
    let ghost v1 = v@;
    v.push(owned(local));
    let dest = append_to(append_to(append_to(append_to(rs.user.clone(), "@"), ssh_host), ":"), remote);
    v.push(dest);
    assert(texts(v@) =~= scp_argv_spec(*rs, ssh_host@, local@, remote@, *password));
    Ok(v)
}

/// How to start a remote stub over SSH and reach it.
#[derive(Debug, Clone)]
pub struct RemoteSshLaunch {
    /// Host to ssh to.
    pub ssh_host: String,
    /// Local and remote paths to upload first, when both are configured.
    pub upload: Option<(String, String)>,
    /// The remote argv with `{port}` substituted.
    pub remote_argv: Vec<String>,
    /// The full ssh argv.
    pub ssh_argv: Vec<String>,
    /// Host to connect to over TCP once the stub runs.
    pub tcp_host: String,
    /// Port of the stub.
    pub port: u16,
    /// Seconds to wait for the stub (at least 1).
    pub ready_timeout_secs: u64,
    /// Milliseconds between connection attempts (at least 10).
    pub poll_interval_ms: u64,
}

/// The SSH host: the configured one unless it is blank, else the proxy's target host.
pub open spec fn ssh_host_of(proxy: ProxyConfig, rs: BackendRemoteSshConfig) -> Seq<char> {
    if trim_chars(rs.host@).len() == 0 {
        proxy.target_host@
    } else {
        rs.host@
    }
}

/// The trimmed upload paths, when both are set and neither is blank.
pub open spec fn upload_of(rs: BackendRemoteSshConfig) -> Option<(Seq<char>, Seq<char>)> {
    match (rs.upload_local, rs.upload_remote) {
        (Some(l), Some(r)) => if trim_chars(l@).len() > 0 && trim_chars(r@).len() > 0 {
            Some((trim_chars(l@), trim_chars(r@)))
        } else {
            None
        },
        _ => None,
    }
}

/// Plan a remote-SSH launch: pick the SSH host, substitute the proxy's target
/// port into the remote argv, decide on the upload, build the ssh argv and
/// clamp the wait parameters.
pub fn plan_remote_ssh(
    proxy: &ProxyConfig,
    backend: &BackendConfig,
    password: &Option<String>,
) -> (r: Result<RemoteSshLaunch, RsgdbError>)
    ensures
        match r {
            Ok(l) => {
                let rs = backend.remote_ssh;
                &&& mentions(rs.program@, "{port}"@)
                &&& l.ssh_host@ == ssh_host_of(*proxy, rs)
                &&& texts(l.remote_argv@) == substitute(rs.program@, "{port}"@, decimal_text(proxy.target_port as nat))
                &&& texts(l.ssh_argv@) == ssh_argv_spec(rs, l.ssh_host@, texts(l.remote_argv@), *password)
                &&& (match l.upload {
                    Some((a, b)) => upload_of(rs) == Some((a@, b@)),
                    None => upload_of(rs) is None,
                })
                &&& l.tcp_host@ == proxy.target_host@
                &&& l.port == proxy.target_port
                &&& l.ready_timeout_secs == max_u64(rs.ready_timeout_secs, 1)
                &&& l.poll_interval_ms == max_u64(rs.poll_interval_ms, 10)
                &&& (rs.ready_timeout_secs >= 1 ==> l.ready_timeout_secs == rs.ready_timeout_secs)
                &&& (rs.ready_timeout_secs < 1 ==> l.ready_timeout_secs == 1)
                &&& (rs.poll_interval_ms >= 10 ==> l.poll_interval_ms == rs.poll_interval_ms)
                &&& (rs.poll_interval_ms < 10 ==> l.poll_interval_ms == 10)
            },
            Err(e) => !mentions(backend.remote_ssh.program@, "{port}"@) && is_backend_error(
                e,
                "[backend.remote_ssh] program must include the placeholder {port}"@,
            ),
        },
{
    let rs = &backend.remote_ssh;
    let ssh_host = if str_trim(rs.host.as_str()).is_empty() {
        proxy.target_host.clone()
    } else {
        rs.host.clone()
    };
    let port = proxy.target_port;
    let remote_argv = build_remote_ssh_argv(rs.program.as_slice(), port)?;
    let upload = match (&rs.upload_local, &rs.upload_remote) {
        (Some(loc), Some(rem)) => {
            let l = str_trim(loc.as_str());
            let m = str_trim(rem.as_str());
            if !l.is_empty() && !m.is_empty() {
                Some((owned(l), owned(m)))
            } else {
                None
            }
        },
        _ => None,
    };
    assert(texts(remote_argv@).len() == remote_argv@.len());
    let ssh_argv = match build_ssh_command(rs, ssh_host.as_str(), remote_argv.as_slice(), password) {
        Ok(v) => v,
        Err(e) => {
            assert(rs.program@.len() > 0);
            return Err(e);
        },
    };
    let ready_timeout_secs = if rs.ready_timeout_secs >= 1 { rs.ready_timeout_secs } else { 1 };
    let poll_interval_ms = if rs.poll_interval_ms >= 10 { rs.poll_interval_ms } else { 10 };
    Ok(RemoteSshLaunch {
        ssh_host,
        upload,
        remote_argv,
        ssh_argv,
        tcp_host: proxy.target_host.clone(),
        port,
        ready_timeout_secs,
        poll_interval_ms,
    })
}

} // verus!
