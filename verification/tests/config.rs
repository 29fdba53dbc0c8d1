use rsgdb::config::{BackendTransport, CliOverrides, Config, EnvOverrides, LoggingConfig};
use rsgdb::error::ConfigError;
use rsgdb::logging_setup::{default_filter_directive, effective_level_str, log_style};
use rsgdb::VERSION;

fn no_env() -> EnvOverrides {
    EnvOverrides {
        port: None,
        target_host: None,
        target_port: None,
        log_level: None,
        backend: None,
        transport: None,
        record: None,
        record_dir: None,
        svd: None,
    }
}

fn invalid_field(r: Result<(), ConfigError>) -> String {
    match r {
        Err(ConfigError::InvalidValue { field, .. }) => field,
        other => panic!("expected an invalid value, got {other:?}"),
    }
}

#[test]
fn test_version() {
    assert_eq!(VERSION, "0.1.0");
}

#[test]
fn test_default_config() {
    let config = Config::default();
    assert_eq!(config.proxy.listen_port, 3333);
    assert_eq!(config.logging.level, "info");
}

#[test]
fn test_config_validation() {
    let config = Config::default();
    assert!(config.validate().is_ok());
}

#[test]
fn test_invalid_target_port() {
    let mut config = Config::default();
    config.proxy.target_port = 0;
    assert!(config.validate().is_err());
}

#[test]
fn test_ephemeral_listen_port_valid() {
    let mut config = Config::default();
    config.proxy.listen_port = 0;
    assert!(config.validate().is_ok());
}

#[test]
fn test_invalid_log_level() {
    let mut config = Config::default();
    config.logging.level = "invalid".to_string();
    assert!(config.validate().is_err());
}

#[test]
fn test_recording_requires_output_dir_when_enabled() {
    let mut config = Config::default();
    config.recording.enabled = true;
    config.recording.output_dir = "   ".to_string();
    assert!(config.validate().is_err());
}

#[test]
fn test_svd_path_must_exist_when_set() {
    let mut config = Config::default();
    config.svd.path = Some("/nonexistent/absolute/path/device.svd".to_string());
    assert!(config.validate().is_err());
}

#[test]
fn test_native_requires_spawn_program() {
    let mut config = Config::default();
    config.backend.transport = BackendTransport::Native;
    assert!(config.validate().is_err());
}

#[test]
fn test_native_requires_port_placeholder() {
    let mut config = Config::default();
    config.backend.transport = BackendTransport::Native;
    config.backend.spawn.program = vec!["true".into()];
    assert!(config.validate().is_err());
}

#[test]
fn test_native_spawn_validates_with_port_placeholder() {
    let mut config = Config::default();
    config.backend.transport = BackendTransport::Native;
    config.backend.spawn.program = vec!["sh".into(), "-c".into(), "exit 0".into(), "{port}".into()];
    assert!(config.validate().is_ok());
}

#[test]
fn test_remote_ssh_requires_user() {
    let mut config = Config::default();
    config.backend.transport = BackendTransport::RemoteSsh;
    config.backend.remote_ssh.program = vec!["gdbserver".into(), "0.0.0.0:{port}".into(), "/bin/true".into()];
    assert!(config.validate().is_err());
}

#[test]
fn test_remote_ssh_validates_with_user_and_port_placeholder() {
    let mut config = Config::default();
    config.backend.transport = BackendTransport::RemoteSsh;
    config.backend.remote_ssh.user = "root".into();
    config.backend.remote_ssh.program = vec!["gdbserver".into(), "0.0.0.0:{port}".into(), "/bin/true".into()];
    assert!(config.validate().is_ok());
}

#[test]
fn test_remote_ssh_upload_requires_both_paths() {
    let mut config = Config::default();
    config.backend.transport = BackendTransport::RemoteSsh;
    config.backend.remote_ssh.user = "u".into();
    config.backend.remote_ssh.program = vec!["gdbserver".into(), "0.0.0.0:{port}".into(), "/x".into()];
    config.backend.remote_ssh.upload_local = Some("/a".into());
    assert!(config.validate().is_err());
}

#[test]
fn validation_errors_name_the_field_in_check_order() {
    let mut c = Config::default();
    c.proxy.target_port = 0;
    c.logging.level = "loud".into();
    assert_eq!(invalid_field(c.validate()), "proxy.target_port");

    let mut c = Config::default();
    c.proxy.target_host = String::new();
    assert_eq!(invalid_field(c.validate()), "proxy.target_host");

    let mut c = Config::default();
    c.logging.format = "xml".into();
    assert_eq!(invalid_field(c.validate()), "logging.format");

    let mut c = Config::default();
    c.backend.backend_type = "  ".into();
    assert_eq!(invalid_field(c.validate()), "backend.backend_type");

    let mut c = Config::default();
    c.recording.enabled = true;
    c.recording.output_dir = " ".into();
    assert_eq!(invalid_field(c.validate()), "recording.output_dir");
}

#[test]
fn validate_given_uses_the_reported_file_state() {
    let mut c = Config::default();
    c.svd.path = Some("device.svd".into());
    assert!(c.validate_given(true).is_ok());
    assert_eq!(invalid_field(c.validate_given(false)), "svd.path");
    c.svd.path = Some("   ".into());
    assert!(c.validate_given(false).is_ok());
}

#[test]
fn config_error_messages() {
    let e = ConfigError::invalid("proxy.target_port", "Port cannot be 0");
    assert_eq!(e.message(), "Invalid configuration value for proxy.target_port: Port cannot be 0");
    assert_eq!(
        ConfigError::FileNotFound("a.toml".into()).message(),
        "Configuration file not found: a.toml"
    );
    assert_eq!(ConfigError::ParseError("x".into()).message(), "Failed to parse configuration: x");
    assert_eq!(ConfigError::ValidationError("y".into()).message(), "Configuration validation failed: y");
    assert_eq!(ConfigError::MissingField("z".into()).message(), "Missing required configuration field: z");
}

#[test]
fn transport_names() {
    assert_eq!(BackendTransport::parse("tcp").unwrap(), BackendTransport::Tcp);
    assert_eq!(BackendTransport::parse(" Stub ").unwrap(), BackendTransport::Tcp);
    assert_eq!(BackendTransport::parse("NATIVE").unwrap(), BackendTransport::Native);
    assert_eq!(BackendTransport::parse("ssh").unwrap(), BackendTransport::RemoteSsh);
    assert_eq!(BackendTransport::parse("remote_ssh").unwrap(), BackendTransport::RemoteSsh);
    match BackendTransport::parse("  ") {
        Err(ConfigError::InvalidValue { reason, .. }) => assert_eq!(reason, "Cannot be empty"),
        other => panic!("unexpected {other:?}"),
    }
    match BackendTransport::parse("Serial") {
        Err(ConfigError::InvalidValue { reason, .. }) => {
            assert_eq!(reason, "Must be tcp, native, or remote_ssh, got: serial")
        }
        other => panic!("unexpected {other:?}"),
    }
}

#[test]
fn merge_env_applies_each_variable() {
    let mut c = Config::default();
    let env = EnvOverrides {
        port: Some("4444".into()),
        target_host: Some("10.0.0.2".into()),
        target_port: Some("+3335".into()),
        log_level: Some("debug".into()),
        backend: Some("probe-rs".into()),
        transport: Some("Native".into()),
        record: Some(" YES ".into()),
        record_dir: Some("/tmp/rec".into()),
        svd: Some("chip.svd".into()),
    };
    c.merge_env(&env);
    assert_eq!(c.proxy.listen_port, 4444);
    assert_eq!(c.proxy.target_host, "10.0.0.2");
    assert_eq!(c.proxy.target_port, 3335);
    assert_eq!(c.logging.level, "debug");
    assert_eq!(c.backend.backend_type, "probe-rs");
    assert_eq!(c.backend.transport, BackendTransport::Native);
    assert!(c.recording.enabled);
    assert_eq!(c.recording.output_dir, "/tmp/rec");
    assert_eq!(c.svd.path.as_deref(), Some("chip.svd"));
}

#[test]
fn merge_env_ignores_values_that_do_not_apply() {
    let mut c = Config::default();
    let env = EnvOverrides {
        port: Some("70000".into()),
        target_port: Some(" 3335".into()),
        transport: Some("serial".into()),
        record: Some("on".into()),
        record_dir: Some(String::new()),
        svd: Some("   ".into()),
        ..no_env()
    };
    c.merge_env(&env);
    assert_eq!(c.proxy.listen_port, 3333);
    assert_eq!(c.proxy.target_port, 3334);
    assert_eq!(c.backend.transport, BackendTransport::Tcp);
    assert!(!c.recording.enabled);
    assert_eq!(c.recording.output_dir, "./recordings");
    assert!(c.svd.path.is_none());
}

#[test]
fn merge_env_never_switches_recording_off() {
    let mut c = Config::default();
    c.recording.enabled = true;
    c.merge_env(&EnvOverrides { record: Some("0".into()), ..no_env() });
    assert!(c.recording.enabled);
    let mut d = Config::default();
    d.merge_env(&EnvOverrides { record: Some("1".into()), ..no_env() });
    assert!(d.recording.enabled);
    let mut e = Config::default();
    e.merge_env(&EnvOverrides { record: Some("True".into()), ..no_env() });
    assert!(e.recording.enabled);
}

#[test]
fn command_line_wins_over_environment() {
    let mut c = Config::default();
    c.merge_env(&EnvOverrides {
        port: Some("4000".into()),
        target_host: Some("envhost".into()),
        backend: Some("pyocd".into()),
        ..no_env()
    });
    c.apply_cli(&CliOverrides {
        port: Some(5000),
        target_host: None,
        target_port: Some(6000),
        backend: Some("openocd".into()),
    });
    assert_eq!(c.proxy.listen_port, 5000);
    assert_eq!(c.proxy.target_host, "envhost");
    assert_eq!(c.proxy.target_port, 6000);
    assert_eq!(c.backend.backend_type, "openocd");
}

#[test]
fn effective_level_cli_debug_wins() {
    let logging = LoggingConfig { level: "warn".to_string(), ..Default::default() };
    assert_eq!(effective_level_str(&logging, false, true), "debug");
}

#[test]
fn effective_level_verbose_over_config() {
    let logging = LoggingConfig { level: "warn".to_string(), ..Default::default() };
    assert_eq!(effective_level_str(&logging, true, false), "info");
}

#[test]
fn effective_level_falls_back_to_config() {
    let logging = LoggingConfig { level: "warn".to_string(), ..Default::default() };
    assert_eq!(effective_level_str(&logging, false, false), "warn");
    assert_eq!(effective_level_str(&logging, true, true), "debug");
}

#[test]
fn filter_directive_adds_protocol_trace() {
    let mut logging = LoggingConfig { level: "warn".to_string(), ..Default::default() };
    logging.log_protocol = true;
    assert_eq!(default_filter_directive(&logging, false, false), "rsgdb=warn,rsgdb::protocol=trace");
    logging.log_protocol = false;
    assert_eq!(default_filter_directive(&logging, true, false), "rsgdb=info");
}

#[test]
fn log_style_follows_format() {
    let mut logging = LoggingConfig::default();
    let s = log_style(&logging);
    assert!(!s.json);
    assert!(s.timestamps);
    assert!(!s.thread_ids);
    logging.format = "json".into();
    logging.include_timestamps = false;
    logging.include_thread_ids = true;
    let s = log_style(&logging);
    assert!(s.json && !s.timestamps && s.thread_ids);
}

#[test]
fn svd_path_to_check_is_trimmed_and_skips_blank() {
    let mut c = Config::default();
    assert_eq!(c.svd_path_to_check(), None);
    c.svd.path = Some("  board/chip.svd \n".into());
    assert_eq!(c.svd_path_to_check(), Some("board/chip.svd"));
    c.svd.path = Some(" \t ".into());
    assert_eq!(c.svd_path_to_check(), None);
    assert!(c.validate().is_ok());
}
