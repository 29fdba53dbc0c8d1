//! Configuration: the settings of the proxy, logging, backends, recording,
//! SVD annotation and flashing, their defaults and their validation.
use vstd::prelude::*;
use std::collections::HashMap;
use crate::error::{ConfigError, ConfigErrorView};
use crate::text::{
    ascii_lower, concat_all, concat_str, concat_strings, contains_chars, owned, str_ascii_lowercase,
    parse_unsigned, parse_unsigned_spec, str_contains, str_is, str_trim, trim_chars,
};
use vstd::utf8::encode_utf8;

verus! {

/// Result type alias for configuration operations.
pub type ConfigResult<T> = Result<T, ConfigError>;

/// Main configuration structure.
#[derive(Debug, Clone)]
pub struct Config {
    pub proxy: ProxyConfig,
    pub logging: LoggingConfig,
    pub breakpoints: BreakpointConfig,
    pub backend: BackendConfig,
    pub recording: RecordingConfig,
    /// CMSIS-SVD file for read-only peripheral/register annotation.
    pub svd: SvdConfig,
    /// External flash programming command.
    pub flash: FlashConfig,
}

/// argv template for flashing; each string may contain `{image}`.
#[derive(Debug, Clone)]
pub struct FlashConfig {
    pub program: Vec<String>,
}

/// Optional CMSIS-SVD path.
#[derive(Debug, Clone)]
pub struct SvdConfig {
    /// Path to the `.svd` XML device description.
    pub path: Option<String>,
}

/// Proxy server configuration.
#[derive(Debug, Clone)]
pub struct ProxyConfig {
    /// Port to listen on for GDB connections (`0` = ephemeral).
    pub listen_port: u16,
    /// Target host to connect to.
    pub target_host: String,
    /// Target port to connect to.
    pub target_port: u16,
    /// Reserved for a future ack policy; `+`/`-` are always forwarded.
    pub enable_acks: bool,
    /// Max seconds to establish the backend TCP connection (`0` = no limit).
    pub timeout_secs: u64,
}

/// Logging configuration.
#[derive(Debug, Clone)]
pub struct LoggingConfig {
    /// Log level (trace, debug, info, warn, error).
    pub level: String,
    /// Log format (text, json).
    pub format: String,
    /// Output file path (`None` for stdout).
    pub output: Option<String>,
    /// Log all protocol traffic.
    pub log_protocol: bool,
    /// Include timestamps.
    pub include_timestamps: bool,
    /// Include thread ids.
    pub include_thread_ids: bool,
}

/// Breakpoint management configuration.
#[derive(Debug, Clone)]
pub struct BreakpointConfig {
    pub auto_optimize: bool,
    pub max_hardware: u32,
    pub enable_named: bool,
    pub enable_conditional: bool,
}

/// How the proxy reaches the debug target.
#[derive(Debug, Clone, Copy, PartialEq, Eq, Structural)]
pub enum BackendTransport {
    /// A GDB remote stub at `proxy.target_host:proxy.target_port`.
    Tcp,
    /// rsgdb spawns a GDB stub with `{port}` in argv, then connects via TCP.
    Native,
    /// SSH to the target, run the remote argv, then connect via TCP.
    RemoteSsh,
}

/// argv template for `transport = native`: must include `{port}`.
#[derive(Debug, Clone)]
pub struct BackendSpawnConfig {
    /// Stub command line; `{port}` is replaced once per session.
    pub program: Vec<String>,
    /// Address the stub must listen on.
    pub bind_host: String,
    /// Max seconds to wait for the stub to accept TCP after spawn.
    pub ready_timeout_secs: u64,
    /// Delay between TCP connect attempts while waiting.
    pub poll_interval_ms: u64,
}

/// Remote argv for `transport = remote_ssh`: must include `{port}`.
#[derive(Debug, Clone)]
pub struct BackendRemoteSshConfig {
    /// SSH target host; if empty, `proxy.target_host`.
    pub host: String,
    pub user: String,
    pub ssh_port: u16,
    pub identity_file: Option<String>,
    /// Local file to copy to the target before starting the stub.
    pub upload_local: Option<String>,
    /// Destination path on the target.
    pub upload_remote: Option<String>,
    /// Remote command line; `{port}` becomes `proxy.target_port`.
    pub program: Vec<String>,
    pub ready_timeout_secs: u64,
    pub poll_interval_ms: u64,
}

/// Backend configuration.
#[derive(Debug, Clone)]
pub struct BackendConfig {
    /// Label for the stub or tool (logging only).
    pub backend_type: String,
    /// Transport to the target.
    pub transport: BackendTransport,
    /// Managed stub argv when `transport = native`.
    pub spawn: BackendSpawnConfig,
    /// SSH and remote argv when `transport = remote_ssh`.
    pub remote_ssh: BackendRemoteSshConfig,
    /// Backend-specific options.
    pub options: HashMap<String, String>,
}

/// Session recording configuration.
#[derive(Debug, Clone)]
pub struct RecordingConfig {
    pub enabled: bool,
    /// Output directory for recordings.
    pub output_dir: String,
    /// Maximum recording size in MB (`0` = unlimited).
    pub max_size_mb: u64,
    /// Compress recordings (not implemented; recordings are written uncompressed).
    pub compress: bool,
}

fn default_spawn_bind_host() -> (r: String)
    ensures
        r@ == "127.0.0.1"@,
{
    owned("127.0.0.1")
}

fn default_spawn_ready_timeout_secs() -> (r: u64)
    ensures
        r == 30,
{
    30
}

fn default_spawn_poll_ms() -> (r: u64)
    ensures
        r == 50,
{
    50
}

fn default_remote_ssh_port() -> (r: u16)
    ensures
        r == 22,
{
    22
}

fn default_listen_port() -> (r: u16)
    ensures
        r == 3333,
{
    3333
}

fn default_target_host() -> (r: String)
    ensures
        r@ == "localhost"@,
{
    owned("localhost")
}

fn default_target_port() -> (r: u16)
    ensures
        r == 3334,
{
    3334
}

fn default_timeout() -> (r: u64)
    ensures
        r == 30,
{
    30
}

fn default_log_level() -> (r: String)
    ensures
        r@ == "info"@,
{
    owned("info")
}

fn default_log_format() -> (r: String)
    ensures
        r@ == "text"@,
{
    owned("text")
}

fn default_max_hardware_breakpoints() -> (r: u32)
    ensures
        r == 6,
{
    6
}

fn default_backend_type() -> (r: String)
    ensures
        r@ == "openocd"@,
{
    owned("openocd")
}

fn default_recording_dir() -> (r: String)
    ensures
        r@ == "./recordings"@,
{
    owned("./recordings")
}

fn default_max_recording_size() -> (r: u64)
    ensures
        r == 100,
{
    100
}

fn default_true() -> (r: bool)
    ensures
        r,
{
    true
}

fn default_false() -> (r: bool)
    ensures
        !r,
{
    false
}

impl Default for FlashConfig {
    fn default() -> (r: Self)
        ensures
            r.program@.len() == 0,
    {
        FlashConfig { program: Vec::new() }
    }
}

impl Default for SvdConfig {
    fn default() -> (r: Self)
        ensures
            r.path is None,
    {
        SvdConfig { path: None }
    }
}

impl Default for BackendTransport {
    fn default() -> (r: Self)
        ensures
            r == BackendTransport::Tcp,
    {
        BackendTransport::Tcp
    }
}

impl Default for BackendSpawnConfig {
    fn default() -> (r: Self)
        ensures
            r.program@.len() == 0,
            r.bind_host@ == "127.0.0.1"@,
            r.ready_timeout_secs == 30,
            r.poll_interval_ms == 50,
    {
        Self {
            program: Vec::new(),
            bind_host: default_spawn_bind_host(),
            ready_timeout_secs: default_spawn_ready_timeout_secs(),
            poll_interval_ms: default_spawn_poll_ms(),
        }
    }
}

impl Default for BackendRemoteSshConfig {
    fn default() -> (r: Self)
        ensures
            r.host@.len() == 0,
            r.user@.len() == 0,
            r.ssh_port == 22,
            r.identity_file is None,
            r.upload_local is None,
            r.upload_remote is None,
            r.program@.len() == 0,
            r.ready_timeout_secs == 30,
            r.poll_interval_ms == 50,
    {
        Self {
            host: String::new(),
            user: String::new(),
            ssh_port: default_remote_ssh_port(),
            identity_file: None,
            upload_local: None,
            upload_remote: None,
            program: Vec::new(),
            ready_timeout_secs: default_spawn_ready_timeout_secs(),
            poll_interval_ms: default_spawn_poll_ms(),
        }
    }
}

impl Default for ProxyConfig {
    fn default() -> (r: Self)
        ensures
            r.listen_port == 3333,
            r.target_host@ == "localhost"@,
            r.target_port == 3334,
            r.enable_acks,
            r.timeout_secs == 30,
    {
        Self {
            listen_port: default_listen_port(),
            target_host: default_target_host(),
            target_port: default_target_port(),
            enable_acks: default_true(),
            timeout_secs: default_timeout(),
        }
    }
}

impl Default for LoggingConfig {
    fn default() -> (r: Self)
        ensures
            r.level@ == "info"@,
            r.format@ == "text"@,
            r.output is None,
            r.log_protocol,
            r.include_timestamps,
            !r.include_thread_ids,
    {
        Self {
            level: default_log_level(),
            format: default_log_format(),
            output: None,
            log_protocol: default_true(),
            include_timestamps: default_true(),
            include_thread_ids: default_false(),
        }
    }
}

impl Default for BreakpointConfig {
    fn default() -> (r: Self)
        ensures
            r.auto_optimize,
            r.max_hardware == 6,
            r.enable_named,
            r.enable_conditional,
    {
        Self {
            auto_optimize: default_true(),
            max_hardware: default_max_hardware_breakpoints(),
            enable_named: default_true(),
            enable_conditional: default_true(),
        }
    }
}

impl Default for BackendConfig {
    fn default() -> (r: Self)
        ensures
            r.backend_type@ == "openocd"@,
            r.transport == BackendTransport::Tcp,
            spawn_is_default(r.spawn),
            remote_ssh_is_default(r.remote_ssh),
            r.options@ == Map::<String, String>::empty(),
    {
        Self {
            backend_type: default_backend_type(),
            transport: BackendTransport::default(),
            spawn: BackendSpawnConfig::default(),
            remote_ssh: BackendRemoteSshConfig::default(),
            options: HashMap::new(),
        }
    }
}

impl Default for RecordingConfig {
    fn default() -> (r: Self)
        ensures
            !r.enabled,
            r.output_dir@ == "./recordings"@,
            r.max_size_mb == 100,
            r.compress,
    {
        Self {
            enabled: default_false(),
            output_dir: default_recording_dir(),
            max_size_mb: default_max_recording_size(),
            compress: default_true(),
        }
    }
}

impl Default for Config {
    fn default() -> (r: Self)
        ensures
            config_is_default(r),
    {
        Config {
            proxy: ProxyConfig::default(),
            logging: LoggingConfig::default(),
            breakpoints: BreakpointConfig::default(),
            backend: BackendConfig::default(),
            recording: RecordingConfig::default(),
            svd: SvdConfig::default(),
            flash: FlashConfig::default(),
        }
    }
}

/// The default managed-stub settings.
pub open spec fn spawn_is_default(s: BackendSpawnConfig) -> bool {
    &&& s.program@.len() == 0
    &&& s.bind_host@ == "127.0.0.1"@
    &&& s.ready_timeout_secs == 30
    &&& s.poll_interval_ms == 50
}

/// The default remote-SSH settings.
pub open spec fn remote_ssh_is_default(rs: BackendRemoteSshConfig) -> bool {
    &&& rs.host@.len() == 0
    &&& rs.user@.len() == 0
    &&& rs.ssh_port == 22
    &&& rs.identity_file is None
    &&& rs.upload_local is None
    &&& rs.upload_remote is None
    &&& rs.program@.len() == 0
    &&& rs.ready_timeout_secs == 30
    &&& rs.poll_interval_ms == 50
}

/// The default settings.
pub open spec fn config_is_default(r: Config) -> bool {
    &&& r.proxy.listen_port == 3333
    &&& r.proxy.target_host@ == "localhost"@
    &&& r.proxy.target_port == 3334
    &&& r.proxy.enable_acks
    &&& r.proxy.timeout_secs == 30
    &&& r.logging.level@ == "info"@
    &&& r.logging.format@ == "text"@
    &&& r.logging.output is None
    &&& r.logging.log_protocol
    &&& r.logging.include_timestamps
    &&& !r.logging.include_thread_ids
    &&& r.breakpoints.auto_optimize
    &&& r.breakpoints.max_hardware == 6
    &&& r.breakpoints.enable_named
    &&& r.breakpoints.enable_conditional
    &&& r.backend.backend_type@ == "openocd"@
    &&& r.backend.transport == BackendTransport::Tcp
    &&& spawn_is_default(r.backend.spawn)
    &&& remote_ssh_is_default(r.backend.remote_ssh)
    &&& r.backend.options@ == Map::<String, String>::empty()
    &&& !r.recording.enabled
    &&& r.recording.output_dir@ == "./recordings"@
    &&& r.recording.max_size_mb == 100
    &&& r.recording.compress
    &&& r.svd.path is None
    &&& r.flash.program@.len() == 0
}

/// What parsing a transport name yields: surrounding whitespace is ignored
/// and ASCII letters are compared case-insensitively.
pub open spec fn spec_transport_parse(s: Seq<char>) -> Result<BackendTransport, ConfigErrorView> {
    let t = trim_chars(s).map_values(|c: char| ascii_lower(c));
    if t == "tcp"@ || t == "stub"@ {
        Ok(BackendTransport::Tcp)
    } else if t == "native"@ {
        Ok(BackendTransport::Native)
    } else if t == "remote_ssh"@ || t == "ssh"@ {
        Ok(BackendTransport::RemoteSsh)
    } else if t.len() == 0 {
        Err(ConfigErrorView::InvalidValue { field: "backend.transport"@, reason: "Cannot be empty"@ })
    } else {
        Err(ConfigErrorView::InvalidValue {
            field: "backend.transport"@,
            reason: "Must be tcp, native, or remote_ssh, got: "@ + t,
        })
    }
}

impl BackendTransport {
    /// Parse from configuration strings (`tcp`, `stub`, `native`, `remote_ssh`, `ssh`).
    pub fn parse(s: &str) -> (r: ConfigResult<Self>)
        ensures
            match r {
                Ok(t) => spec_transport_parse(s@) == Ok::<BackendTransport, ConfigErrorView>(t),
                Err(e) => spec_transport_parse(s@) == Err::<BackendTransport, ConfigErrorView>(e@),
            },
    {
        let lower = str_ascii_lowercase(str_trim(s));
        let t = lower.as_str();
        if str_is(t, "tcp") || str_is(t, "stub") {
            Ok(BackendTransport::Tcp)
        } else if str_is(t, "native") {
            Ok(BackendTransport::Native)
        } else if str_is(t, "remote_ssh") || str_is(t, "ssh") {
            Ok(BackendTransport::RemoteSsh)
        } else if t.is_empty() {
            Err(ConfigError::invalid("backend.transport", "Cannot be empty"))
        } else {
            Err(ConfigError::InvalidValue {
                field: owned("backend.transport"),
                reason: concat_str("Must be tcp, native, or remote_ssh, got: ", t),
            })
        }
    }
}

/// Text that is empty once trimmed.
pub open spec fn is_blank(s: Seq<char>) -> bool {
    trim_chars(s).len() == 0
}

/// Spec view of an optional text.
pub open spec fn opt_str_view(o: Option<&str>) -> Option<Seq<char>> {
    match o {
        Some(s) => Some(s@),
        None => None,
    }
}

/// An optional text that is present and not blank.
pub open spec fn present_nonblank(o: Option<String>) -> bool {
    match o {
        Some(s) => !is_blank(s@),
        None => false,
    }
}

/// The texts of a list of strings.
pub open spec fn texts(v: Seq<String>) -> Seq<Seq<char>> {
    v.map_values(|s: String| s@)
}

/// An invalid-value error.
pub open spec fn invalid_value(field: &str, reason: &str) -> Result<(), ConfigErrorView> {
    Err(ConfigErrorView::InvalidValue { field: field@, reason: reason@ })
}

/// What validating a configuration yields; `svd_file_exists` says whether
/// the trimmed SVD path names an existing file (it is read only when the
/// path is set and not blank). The checks run in this order and the first
/// failure is reported.
pub open spec fn spec_validate(c: Config, svd_file_exists: bool) -> Result<(), ConfigErrorView> {
    let native = c.backend.transport == BackendTransport::Native;
    let ssh = c.backend.transport == BackendTransport::RemoteSsh;
    let level = c.logging.level@;
    let format = c.logging.format@;
    if c.proxy.target_port == 0 {
        invalid_value("proxy.target_port", "Port cannot be 0")
    } else if c.proxy.target_host@.len() == 0 {
        invalid_value("proxy.target_host", "Host cannot be empty")
    } else if !(level == "trace"@ || level == "debug"@ || level == "info"@ || level == "warn"@
        || level == "error"@) {
        invalid_value("logging.level", "Must be one of: trace, debug, info, warn, error")
    } else if !(format == "text"@ || format == "json"@) {
        invalid_value("logging.format", "Must be one of: text, json")
    } else if is_blank(c.backend.backend_type@) {
        invalid_value("backend.backend_type", "Cannot be empty")
    } else if native && c.backend.spawn.program@.len() == 0 {
        invalid_value(
            "backend.spawn.program",
            "Required when transport = native; must include {port} placeholder",
        )
    } else if native && !contains_chars(concat_all(texts(c.backend.spawn.program@)), "{port}"@) {
        invalid_value(
            "backend.spawn.program",
            "Must contain the substring {port} for the ephemeral GDB stub port",
        )
    } else if ssh && is_blank(c.backend.remote_ssh.user@) {
        invalid_value("backend.remote_ssh.user", "Required when transport = remote_ssh")
    } else if ssh && c.backend.remote_ssh.program@.len() == 0 {
        invalid_value(
            "backend.remote_ssh.program",
            "Required when transport = remote_ssh; must include {port} placeholder",
        )
    } else if ssh && !contains_chars(concat_all(texts(c.backend.remote_ssh.program@)), "{port}"@) {
        invalid_value(
            "backend.remote_ssh.program",
            "Must contain {port} (same as proxy.target_port) for gdbserver bind",
        )
    } else if ssh && present_nonblank(c.backend.remote_ssh.upload_local) != present_nonblank(
        c.backend.remote_ssh.upload_remote,
    ) {
        invalid_value(
            "backend.remote_ssh.upload",
            "Set both upload_local and upload_remote, or omit both",
        )
    } else if c.recording.enabled && is_blank(c.recording.output_dir@) {
        invalid_value("recording.output_dir", "Cannot be empty when recording is enabled")
    } else if c.svd.path matches Some(p) && !is_blank(p@) && !svd_file_exists {
        invalid_value("svd.path", "SVD file not found")
    } else {
        Ok(())
    }
}

/// Validation refuses the log level exactly when it is not one of the
/// documented levels `trace`, `debug`, `info`, `warn`, `error` (and the checks
/// before it passed), and the refusal names exactly those levels.
pub proof fn lemma_validate_log_levels(c: Config, svd_file_exists: bool)
    ensures
        (spec_validate(c, svd_file_exists) matches Err(ConfigErrorView::InvalidValue { field, reason })
            && field == "logging.level"@) <==> (c.proxy.target_port != 0 && c.proxy.target_host@.len() > 0 && !(
        c.logging.level@ == "trace"@ || c.logging.level@ == "debug"@ || c.logging.level@ == "info"@
            || c.logging.level@ == "warn"@ || c.logging.level@ == "error"@)),
        spec_validate(c, svd_file_exists) matches Err(ConfigErrorView::InvalidValue { field, reason }) ==> (field
            == "logging.level"@ ==> reason == "Must be one of: trace, debug, info, warn, error"@),
{
    reveal_strlit("logging.level");
    reveal_strlit("proxy.target_port");
    reveal_strlit("proxy.target_host");
    reveal_strlit("logging.format");
    reveal_strlit("backend.backend_type");
    reveal_strlit("backend.spawn.program");
    reveal_strlit("backend.remote_ssh.user");
    reveal_strlit("backend.remote_ssh.program");
    reveal_strlit("backend.remote_ssh.upload");
    reveal_strlit("recording.output_dir");
    reveal_strlit("svd.path");
    assert("proxy.target_port"@.len() != "logging.level"@.len());
    assert("proxy.target_host"@.len() != "logging.level"@.len());
    assert("logging.format"@.len() != "logging.level"@.len());
    assert("backend.backend_type"@.len() != "logging.level"@.len());
    assert("backend.spawn.program"@.len() != "logging.level"@.len());
    assert("backend.remote_ssh.user"@.len() != "logging.level"@.len());
    assert("backend.remote_ssh.program"@.len() != "logging.level"@.len());
    assert("backend.remote_ssh.upload"@.len() != "logging.level"@.len());
    assert("recording.output_dir"@.len() != "logging.level"@.len());
    assert("svd.path"@.len() != "logging.level"@.len());
    let level = c.logging.level@;
    let documented = level == "trace"@ || level == "debug"@ || level == "info"@ || level == "warn"@ || level == "error"@;
    if c.proxy.target_port == 0 || c.proxy.target_host@.len() == 0 {
    } else if !documented {
        assert(spec_validate(c, svd_file_exists) == invalid_value(
            "logging.level",
            "Must be one of: trace, debug, info, warn, error",
        ));
    } else {
        assert(!(spec_validate(c, svd_file_exists) matches Err(ConfigErrorView::InvalidValue { field, reason })
            && field == "logging.level"@));
    }
}

/// `r` is the outcome that `s` describes.
pub open spec fn unit_result_is(r: ConfigResult<()>, s: Result<(), ConfigErrorView>) -> bool {
    match r {
        Ok(_) => s == Ok::<(), ConfigErrorView>(()),
        Err(e) => s == Err::<(), ConfigErrorView>(e@),
    }
}

/// `std::path::Path::exists`: whether the path names something on disk. The
/// answer depends on the file system at the time of the call, so nothing is
/// stated of it.
#[verifier::external_body]
fn path_exists(p: &str) -> bool {
    std::path::Path::new(p).exists()
}

/// Whether an optional text is present and not blank.
fn is_present_nonblank(o: &Option<String>) -> (r: bool)
    ensures
        r == present_nonblank(*o),
{
    match o {
        Some(s) => !str_trim(s.as_str()).is_empty(),
        None => false,
    }
}

/// The SVD path that validation looks up on disk: the configured path with
/// surrounding whitespace trimmed, when it is set and not blank.
pub open spec fn svd_path_checked(c: Config) -> Option<Seq<char>> {
    match c.svd.path {
        Some(p) => if is_blank(p@) {
            None
        } else {
            Some(trim_chars(p@))
        },
        None => None,
    }
}

impl Config {
    /// The SVD path to look up on disk, trimmed; `None` when no path is set
    /// or it is blank.
    pub fn svd_path_to_check(&self) -> (r: Option<&str>)
        ensures
            opt_str_view(r) == svd_path_checked(*self),
    {
        match &self.svd.path {
            Some(p) => {
                let t = str_trim(p.as_str());
                if t.is_empty() {
                    None
                } else {
                    Some(t)
                }
            },
            None => None,
        }
    }

    /// Validate the configuration; the SVD path, when set and not blank, is
    /// looked up on disk (trimmed), and the outcome is that of
    /// [`Config::validate_given`] with the answer.
    pub fn validate(&self) -> (r: ConfigResult<()>)
        ensures
            exists|svd_file_exists: bool| unit_result_is(r, #[trigger] spec_validate(*self, svd_file_exists)),
            svd_path_checked(*self) is None ==> unit_result_is(r, spec_validate(*self, true)),
    {
        let svd_file_exists = match self.svd_path_to_check() {
            Some(t) => path_exists(t),
            None => true,
        };
        self.validate_given(svd_file_exists)
    }

    /// Validate the configuration, given whether the SVD file exists.
    pub fn validate_given(&self, svd_file_exists: bool) -> (r: ConfigResult<()>)
        ensures
            unit_result_is(r, spec_validate(*self, svd_file_exists)),
    {
        let native = self.backend.transport == BackendTransport::Native;
        let ssh = self.backend.transport == BackendTransport::RemoteSsh;
        if self.proxy.target_port == 0 {
            return Err(ConfigError::invalid("proxy.target_port", "Port cannot be 0"));
        }
        if self.proxy.target_host.as_str().is_empty() {
            return Err(ConfigError::invalid("proxy.target_host", "Host cannot be empty"));
        }
        let level = self.logging.level.as_str();
        if !(str_is(level, "trace") || str_is(level, "debug") || str_is(level, "info") || str_is(level, "warn")
            || str_is(level, "error")) {
            return Err(ConfigError::invalid("logging.level", "Must be one of: trace, debug, info, warn, error"));
        }
        let format = self.logging.format.as_str();
        if !(str_is(format, "text") || str_is(format, "json")) {
            return Err(ConfigError::invalid("logging.format", "Must be one of: text, json"));
        }
        if str_trim(self.backend.backend_type.as_str()).is_empty() {
            return Err(ConfigError::invalid("backend.backend_type", "Cannot be empty"));
        }
        if native {
            if self.backend.spawn.program.len() == 0 {
                return Err(
                    ConfigError::invalid(
                        "backend.spawn.program",
                        "Required when transport = native; must include {port} placeholder",
                    ),
                );
            }
            let joined = concat_strings(&self.backend.spawn.program);
            if !str_contains(joined.as_str(), "{port}") {
                return Err(
                    ConfigError::invalid(
                        "backend.spawn.program",
                        "Must contain the substring {port} for the ephemeral GDB stub port",
                    ),
                );
            }
        }
        if ssh {
            if str_trim(self.backend.remote_ssh.user.as_str()).is_empty() {
                return Err(ConfigError::invalid("backend.remote_ssh.user", "Required when transport = remote_ssh"));
            }
            if self.backend.remote_ssh.program.len() == 0 {
                return Err(
                    ConfigError::invalid(
                        "backend.remote_ssh.program",
                        "Required when transport = remote_ssh; must include {port} placeholder",
                    ),
                );
            }
            let joined = concat_strings(&self.backend.remote_ssh.program);
            if !str_contains(joined.as_str(), "{port}") {
                return Err(
                    ConfigError::invalid(
                        "backend.remote_ssh.program",
                        "Must contain {port} (same as proxy.target_port) for gdbserver bind",
                    ),
                );
            }
            let ul = is_present_nonblank(&self.backend.remote_ssh.upload_local);
            let ur = is_present_nonblank(&self.backend.remote_ssh.upload_remote);
            if ul != ur {
                return Err(
                    ConfigError::invalid(
                        "backend.remote_ssh.upload",
                        "Set both upload_local and upload_remote, or omit both",
                    ),
                );
            }
        }
        if self.recording.enabled && str_trim(self.recording.output_dir.as_str()).is_empty() {
            return Err(ConfigError::invalid("recording.output_dir", "Cannot be empty when recording is enabled"));
        }
        if let Some(p) = &self.svd.path {
            if !str_trim(p.as_str()).is_empty() && !svd_file_exists {
                return Err(ConfigError::invalid("svd.path", "SVD file not found"));
            }
        }
        Ok(())
    }
}

/// Values of the `RSGDB_*` environment variables, `None` where unset.
#[derive(Debug, Clone)]
pub struct EnvOverrides {
    /// `RSGDB_PORT`: listen port.
    pub port: Option<String>,
    /// `RSGDB_TARGET_HOST`.
    pub target_host: Option<String>,
    /// `RSGDB_TARGET_PORT`.
    pub target_port: Option<String>,
    /// `RSGDB_LOG_LEVEL`.
    pub log_level: Option<String>,
    /// `RSGDB_BACKEND`: backend label.
    pub backend: Option<String>,
    /// `RSGDB_TRANSPORT`.
    pub transport: Option<String>,
    /// `RSGDB_RECORD`: turns recording on when `1`, `true` or `yes`.
    pub record: Option<String>,
    /// `RSGDB_RECORD_DIR`.
    pub record_dir: Option<String>,
    /// `RSGDB_SVD`.
    pub svd: Option<String>,
}

/// A port from the environment: the decimal value when the text parses as
/// a `u16` (an optional `+`, then digits), else the current port.
pub open spec fn env_port(o: Option<String>, current: u16) -> u16 {
    match o {
        Some(s) => match parse_unsigned_spec(encode_utf8(s@), 10, 0xffff) {
            Some(v) => v as u16,
            None => current,
        },
        None => current,
    }
}

/// A text from the environment that replaces the current one outright.
pub open spec fn env_text(o: Option<String>, current: String) -> String {
    match o {
        Some(s) => s,
        None => current,
    }
}

/// A yes-value for a flag: trimmed, `1`, or `true` / `yes` in any ASCII case.
pub open spec fn env_truthy(s: Seq<char>) -> bool {
    let t = trim_chars(s);
    let lower = t.map_values(|c: char| ascii_lower(c));
    t == "1"@ || lower == "true"@ || lower == "yes"@
}

/// The proxy settings after the environment: ports that do not parse are ignored.
pub open spec fn proxy_after_env(p: ProxyConfig, e: EnvOverrides) -> ProxyConfig {
    ProxyConfig {
        listen_port: env_port(e.port, p.listen_port),
        target_host: env_text(e.target_host, p.target_host),
        target_port: env_port(e.target_port, p.target_port),
        ..p
    }
}

/// The backend settings after the environment: a transport that is not
/// recognized is ignored.
pub open spec fn backend_after_env(b: BackendConfig, e: EnvOverrides) -> BackendConfig {
    BackendConfig {
        backend_type: env_text(e.backend, b.backend_type),
        transport: match e.transport {
            Some(t) => match spec_transport_parse(t@) {
                Ok(tr) => tr,
                Err(_) => b.transport,
            },
            None => b.transport,
        },
        ..b
    }
}

/// The recording settings after the environment: recording is only ever
/// switched on, and an empty directory is ignored.
pub open spec fn recording_after_env(r: RecordingConfig, e: EnvOverrides) -> RecordingConfig {
    RecordingConfig {
        enabled: r.enabled || (e.record matches Some(v) && env_truthy(v@)),
        output_dir: match e.record_dir {
            Some(d) => if d@.len() > 0 { d } else { r.output_dir },
            None => r.output_dir,
        },
        ..r
    }
}

/// The SVD path after the environment: a blank path is ignored.
pub open spec fn svd_path_after_env(path: Option<String>, e: EnvOverrides) -> Option<String> {
    match e.svd {
        Some(p) => if !is_blank(p@) { Some(p) } else { path },
        None => path,
    }
}

/// The configuration after the environment has been applied; breakpoint
/// and flash settings are untouched.
pub open spec fn spec_merge_env(c: Config, e: EnvOverrides) -> Config {
    Config {
        proxy: proxy_after_env(c.proxy, e),
        logging: LoggingConfig { level: env_text(e.log_level, c.logging.level), ..c.logging },
        backend: backend_after_env(c.backend, e),
        recording: recording_after_env(c.recording, e),
        svd: SvdConfig { path: svd_path_after_env(c.svd.path, e) },
        ..c
    }
}

/// The port that a text gives, if it parses as a `u16`.
fn parse_port(s: &String) -> (r: Option<u16>)
    ensures
        match r {
            Some(v) => parse_unsigned_spec(encode_utf8(s@), 10, 0xffff) == Some(v as nat),
            None => parse_unsigned_spec(encode_utf8(s@), 10, 0xffff) is None,
        },
{
    match parse_unsigned(s.as_str().as_bytes(), 10, 0xffff) {
        Some(v) => Some(v as u16),
        None => None,
    }
}

/// Whether a text is a yes-value for a flag.
fn is_truthy(s: &str) -> (r: bool)
    ensures
        r == env_truthy(s@),
{
    let t = str_trim(s);
    let lower = str_ascii_lowercase(t);
    str_is(t, "1") || str_is(lower.as_str(), "true") || str_is(lower.as_str(), "yes")
}

impl ProxyConfig {
    fn merge_env(&mut self, e: &EnvOverrides)
        ensures
            *final(self) == proxy_after_env(*old(self), *e),
    {
        if let Some(s) = &e.port {
            if let Some(v) = parse_port(s) {
                self.listen_port = v;
            }
        }
        if let Some(h) = &e.target_host {
            self.target_host = h.clone();
        }
        if let Some(s) = &e.target_port {
            if let Some(v) = parse_port(s) {
                self.target_port = v;
            }
        }
    }
}

impl BackendConfig {
    fn merge_env(&mut self, e: &EnvOverrides)
        ensures
            *final(self) == backend_after_env(*old(self), *e),
    {
        if let Some(b) = &e.backend {
            self.backend_type = b.clone();
        }
        if let Some(t) = &e.transport {
            if let Ok(tr) = BackendTransport::parse(t.as_str()) {
                self.transport = tr;
            }
        }
    }
}

impl RecordingConfig {
    fn merge_env(&mut self, e: &EnvOverrides)
        ensures
            *final(self) == recording_after_env(*old(self), *e),
    {
        if let Some(v) = &e.record {
            if is_truthy(v.as_str()) {
                self.enabled = true;
            }
        }
        if let Some(d) = &e.record_dir {
            if !d.as_str().is_empty() {
                self.output_dir = d.clone();
            }
        }
    }
}

impl Config {
    /// Apply environment values (`RSGDB_*`). Intended after loading a file;
    /// command-line flags are applied after this, so they win over the
    /// environment.
    pub fn merge_env(&mut self, env: &EnvOverrides)
        ensures
            *final(self) == spec_merge_env(*old(self), *env),
    {
        self.proxy.merge_env(env);
        if let Some(l) = &env.log_level {
            self.logging.level = l.clone();
        }
        self.backend.merge_env(env);
        self.recording.merge_env(env);
        if let Some(p) = &env.svd {
            if !str_trim(p.as_str()).is_empty() {
                self.svd.path = Some(p.clone());
            }
        }
    }
}

/// Settings given on the command line, `None` where not given.
#[derive(Debug, Clone)]
pub struct CliOverrides {
    /// `--port`: listen port.
    pub port: Option<u16>,
    /// `--target-host`.
    pub target_host: Option<String>,
    /// `--target-port`.
    pub target_port: Option<u16>,
    /// `--backend`: backend label.
    pub backend: Option<String>,
}

/// The configuration after the command-line settings: each one given
/// replaces the configured value.
pub open spec fn spec_apply_cli(c: Config, cli: CliOverrides) -> Config {
    Config {
        proxy: ProxyConfig {
            listen_port: match cli.port {
                Some(p) => p,
                None => c.proxy.listen_port,
            },
            target_host: env_text(cli.target_host, c.proxy.target_host),
            target_port: match cli.target_port {
                Some(p) => p,
                None => c.proxy.target_port,
            },
            ..c.proxy
        },
        backend: BackendConfig { backend_type: env_text(cli.backend, c.backend.backend_type), ..c.backend },
        ..c
    }
}

impl Config {
    /// Apply the command-line settings; called after `merge_env`, so the
    /// command line wins over the environment.
    pub fn apply_cli(&mut self, cli: &CliOverrides)
        ensures
            *final(self) == spec_apply_cli(*old(self), *cli),
    {
        if let Some(p) = cli.port {
            self.proxy.listen_port = p;
        }
        if let Some(h) = &cli.target_host {
            self.proxy.target_host = h.clone();
        }
        if let Some(p) = cli.target_port {
            self.proxy.target_port = p;
        }
        if let Some(b) = &cli.backend {
            self.backend.backend_type = b.clone();
        }
    }
}

/// Precedence of settings: a value given on the command line wins over the
/// environment, which wins over the file (or the defaults); a value given
/// nowhere else keeps what the file says.
pub proof fn lemma_settings_precedence(c: Config, e: EnvOverrides, cli: CliOverrides)
    ensures
        ({
            let r = spec_apply_cli(spec_merge_env(c, e), cli);
            &&& r.proxy.listen_port == match cli.port {
                Some(p) => p,
                None => env_port(e.port, c.proxy.listen_port),
            }
            &&& r.proxy.target_host == match cli.target_host {
                Some(h) => h,
                None => env_text(e.target_host, c.proxy.target_host),
            }
            &&& r.proxy.target_port == match cli.target_port {
                Some(p) => p,
                None => env_port(e.target_port, c.proxy.target_port),
            }
            &&& r.backend.backend_type == match cli.backend {
                Some(b) => b,
                None => env_text(e.backend, c.backend.backend_type),
            }
            &&& r.logging.level == env_text(e.log_level, c.logging.level)
            &&& (cli.port is None && e.port is None ==> r.proxy.listen_port == c.proxy.listen_port)
        }),
{
}

} // verus!
