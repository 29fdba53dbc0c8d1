use rsgdb::backends::native::{
    build_spawn_argv, enrich_err_with_stderr, plan_native_stub, push_stderr_line, utf8_tail, wait_step,
};
use rsgdb::backends::remote_ssh::{build_remote_ssh_argv, build_ssh_command, plan_remote_ssh, scp_upload_argv};
use rsgdb::backends::tcp::{backend_addr, connect_limit_secs, connect_timeout_error};
use rsgdb::config::{BackendConfig, BackendRemoteSshConfig, BackendSpawnConfig, FlashConfig, ProxyConfig};
use rsgdb::flash::{build_argv, flash_argv, FlashError, ImagePath};
use rsgdb::RsgdbError;

fn strs(v: &[&str]) -> Vec<String> {
    v.iter().map(|s| s.to_string()).collect()
}

#[test]
fn build_spawn_argv_replaces_port() {
    let v = build_spawn_argv(&["sh".into(), "-c".into(), "echo {port}".into()], 4242).unwrap();
    assert_eq!(v, vec!["sh", "-c", "echo 4242"]);
}

#[test]
fn build_spawn_argv_requires_placeholder() {
    let err = build_spawn_argv(&["true".into()], 1).unwrap_err();
    match err {
        RsgdbError::Backend(s) => assert!(s.contains("{port}")),
        e => panic!("unexpected {e:?}"),
    }
}

#[test]
fn build_spawn_argv_replaces_every_occurrence() {
    let v = build_spawn_argv(&strs(&["stub", "--port={port}", "{port}{port}"]), 7).unwrap();
    assert_eq!(v, vec!["stub", "--port=7", "77"]);
}

#[test]
fn enrich_appends_stderr_tail() {
    let e = RsgdbError::Backend("main".into());
    let out = enrich_err_with_stderr(e, "line1\nline2");
    match out {
        RsgdbError::Backend(s) => {
            assert!(s.contains("main"));
            assert!(s.contains("line1"));
            assert!(s.contains("stub stderr"));
        }
        _ => panic!("expected Backend"),
    }
}

#[test]
fn enrich_exact_text_and_untouched_cases() {
    match enrich_err_with_stderr(RsgdbError::Timeout("late".into()), "  boom \n") {
        RsgdbError::Timeout(s) => assert_eq!(s, "late\n--- stub stderr (recent) ---\nboom"),
        e => panic!("unexpected {e:?}"),
    }
    match enrich_err_with_stderr(RsgdbError::Backend("x".into()), "   \n ") {
        RsgdbError::Backend(s) => assert_eq!(s, "x"),
        e => panic!("unexpected {e:?}"),
    }
    match enrich_err_with_stderr(RsgdbError::Connection("c".into()), "noise") {
        RsgdbError::Connection(s) => assert_eq!(s, "c"),
        e => panic!("unexpected {e:?}"),
    }
}

#[test]
fn enrich_keeps_only_the_last_bytes() {
    let long = "a".repeat(3000) + "END";
    match enrich_err_with_stderr(RsgdbError::Backend("m".into()), &long) {
        RsgdbError::Backend(s) => {
            let tail = s.strip_prefix("m\n--- stub stderr ---\n").unwrap();
            assert_eq!(tail.len(), 2048);
            assert!(tail.ends_with("END"));
        }
        e => panic!("unexpected {e:?}"),
    }
}

#[test]
fn utf8_tail_starts_on_a_character_boundary() {
    assert_eq!(utf8_tail("hello", 10), "hello");
    assert_eq!(utf8_tail("hello", 3), "llo");
    // "é" is two bytes; cutting 3 bytes from "aé!" would split nothing, cutting 2 would.
    assert_eq!(utf8_tail("aé!", 2), "!");
    assert_eq!(utf8_tail("aé!", 3), "é!");
}

#[test]
fn plan_native_stub_clamps_waits() {
    let spawn = BackendSpawnConfig {
        program: strs(&["gdbserver", ":{port}", "app"]),
        bind_host: "127.0.0.1".into(),
        ready_timeout_secs: 0,
        poll_interval_ms: 3,
    };
    let l = plan_native_stub(&spawn, 5555).unwrap();
    assert_eq!(l.argv, vec!["gdbserver", ":5555", "app"]);
    assert_eq!(l.host, "127.0.0.1");
    assert_eq!(l.port, 5555);
    assert_eq!(l.ready_timeout_secs, 1);
    assert_eq!(l.poll_interval_ms, 10);
    let bad = BackendSpawnConfig { program: strs(&["x"]), ..spawn };
    assert!(matches!(plan_native_stub(&bad, 1), Err(RsgdbError::Backend(_))));
}

#[test]
fn wait_step_reports_exit_then_timeout() {
    match wait_step("127.0.0.1", 9, 5, Some("exit status: 1".into()), true) {
        Some(RsgdbError::Backend(m)) => {
            assert!(m.starts_with("stub process exited before TCP was ready on 127.0.0.1:9 (status=exit status: 1)"))
        }
        other => panic!("unexpected {other:?}"),
    }
    match wait_step("127.0.0.1", 9, 5, None, true) {
        Some(RsgdbError::Timeout(m)) => assert!(m.starts_with("stub did not accept TCP on 127.0.0.1:9 within 5s")),
        other => panic!("unexpected {other:?}"),
    }
    assert!(wait_step("127.0.0.1", 9, 5, None, false).is_none());
}

#[test]
fn build_remote_ssh_argv_replaces_port() {
    let v = build_remote_ssh_argv(&["gdbserver".into(), "0.0.0.0:{port}".into(), "/bin/true".into()], 2345).unwrap();
    assert_eq!(v, vec!["gdbserver", "0.0.0.0:2345", "/bin/true"]);
}

#[test]
fn build_remote_ssh_argv_requires_placeholder() {
    match build_remote_ssh_argv(&strs(&["gdbserver"]), 1) {
        Err(RsgdbError::Backend(m)) => {
            assert_eq!(m, "[backend.remote_ssh] program must include the placeholder {port}")
        }
        other => panic!("unexpected {other:?}"),
    }
}

#[test]
fn ssh_and_scp_command_lines() {
    let rs = BackendRemoteSshConfig {
        user: "root".into(),
        ssh_port: 2222,
        identity_file: Some(" /k/id ".into()),
        ..Default::default()
    };
    let ssh = build_ssh_command(&rs, "board", &strs(&["gdbserver", ":1"]), &None).unwrap();
    assert_eq!(ssh[0], "ssh");
    assert!(ssh.windows(2).any(|w| w[0] == "-p" && w[1] == "2222"));
    assert!(ssh.windows(2).any(|w| w[0] == "-i" && w[1] == "/k/id"));
    assert_eq!(&ssh[ssh.len() - 3..], &["root@board".to_string(), "gdbserver".to_string(), ":1".to_string()]);

    let with_pw = build_ssh_command(&rs, "board", &strs(&["x"]), &Some("pw".into())).unwrap();
    assert_eq!(&with_pw[..4], &strs(&["sshpass", "-p", "pw", "ssh"])[..]);

    assert!(matches!(build_ssh_command(&rs, "board", &[], &None), Err(RsgdbError::Backend(_))));

    let scp = scp_upload_argv(&rs, "board", "/fw.bin", "/tmp/fw.bin", true, &None).unwrap();
    assert_eq!(scp[0], "scp");
    assert!(scp.windows(2).any(|w| w[0] == "-P" && w[1] == "2222"));
    assert_eq!(&scp[scp.len() - 2..], &["/fw.bin".to_string(), "root@board:/tmp/fw.bin".to_string()]);
    match scp_upload_argv(&rs, "board", "/nope", "/x", false, &None) {
        Err(RsgdbError::Backend(m)) => assert!(m.contains("upload_local")),
        other => panic!("unexpected {other:?}"),
    }
}

#[test]
fn plan_remote_ssh_uses_proxy_target() {
    let proxy = ProxyConfig { target_host: "10.1.1.1".into(), target_port: 3000, ..Default::default() };
    let mut backend = BackendConfig::default();
    backend.remote_ssh.user = "u".into();
    backend.remote_ssh.program = strs(&["gdbserver", "0.0.0.0:{port}", "/app"]);
    backend.remote_ssh.upload_local = Some(" /a ".into());
    backend.remote_ssh.upload_remote = Some("/b".into());
    let l = plan_remote_ssh(&proxy, &backend, &None).unwrap();
    assert_eq!(l.ssh_host, "10.1.1.1");
    assert_eq!(l.remote_argv, vec!["gdbserver", "0.0.0.0:3000", "/app"]);
    assert_eq!(l.upload, Some(("/a".to_string(), "/b".to_string())));
    assert_eq!(l.tcp_host, "10.1.1.1");
    assert_eq!(l.port, 3000);
    assert!(l.ssh_argv.contains(&"u@10.1.1.1".to_string()));
}

#[test]
fn tcp_backend_address_and_limits() {
    let p = ProxyConfig { target_host: "localhost".into(), target_port: 3334, timeout_secs: 0, ..Default::default() };
    assert_eq!(backend_addr(&p), "localhost:3334");
    assert_eq!(connect_limit_secs(&p), None);
    let q = ProxyConfig { timeout_secs: 30, ..p };
    assert_eq!(connect_limit_secs(&q), Some(30));
    match connect_timeout_error("localhost:3334", 30) {
        RsgdbError::Timeout(m) => assert_eq!(m, "TCP connect to backend localhost:3334 exceeded 30s"),
        e => panic!("unexpected {e:?}"),
    }
}

#[test]
fn build_argv_substitutes_image() {
    let img = ImagePath::Resolved("/tmp/work/fw.bin".to_string());
    let argv = build_argv(&["tool".to_string(), "-c".to_string(), "flash {image} verify".to_string()], &img).unwrap();
    assert_eq!(argv[0], "tool");
    assert!(argv[2].contains("flash "));
    assert!(argv[2].contains("verify"));
    assert!(!argv[2].contains("{image}"));
    assert!(argv[2].contains("fw.bin"));
}

#[test]
fn build_argv_requires_image_placeholder() {
    let img = ImagePath::Resolved("/tmp/work/fw.bin".to_string());
    let err = build_argv(&["openocd".to_string()], &img).unwrap_err();
    assert!(err.message().contains("{image}"));
}

#[test]
fn build_argv_reports_image_problems_first() {
    match build_argv(&strs(&["{image}"]), &ImagePath::Missing("fw.bin".into())) {
        Err(e @ FlashError::ImageNotFound(_)) => assert_eq!(e.message(), "firmware image not found: fw.bin"),
        other => panic!("unexpected {other:?}"),
    }
    let img = ImagePath::Unresolvable { path: "fw.bin".into(), reason: "denied".into() };
    assert!(matches!(build_argv(&strs(&["{image}"]), &img), Err(FlashError::ImageUnresolvable { .. })));
}

#[test]
fn flash_argv_needs_a_program() {
    let img = ImagePath::Resolved("/fw.bin".into());
    match flash_argv(&FlashConfig { program: Vec::new() }, &img) {
        Err(e @ FlashError::EmptyProgram) => assert!(e.message().starts_with("[flash].program is empty")),
        other => panic!("unexpected {other:?}"),
    }
    let ok = flash_argv(&FlashConfig { program: strs(&["probe-rs", "download", "{image}"]) }, &img).unwrap();
    assert_eq!(ok, vec!["probe-rs", "download", "/fw.bin"]);
    assert_eq!(FlashError::ToolFailed("exit status: 2".into()).message(), "flash program exited with exit status: 2");
}

#[test]
fn stderr_capture_joins_lines_and_keeps_the_tail() {
    let c = push_stderr_line("", "first  \n");
    assert_eq!(c, "first");
    let c = push_stderr_line(&c, "second");
    assert_eq!(c, "first\nsecond");
    let big = "x".repeat(12288);
    let c2 = push_stderr_line(&c, &big);
    assert_eq!(c2.len(), 12288);
    assert!(c2.chars().all(|ch| ch == 'x'));
    // a cut that would fall inside "é" moves on to the next character
    let s = "é".to_string() + &"y".repeat(12287);
    let t = push_stderr_line("", &s);
    assert_eq!(t, "y".repeat(12287));
}

#[test]
fn scp_upload_missing_local_errors() {
    let rs = BackendRemoteSshConfig::default();
    let local = "/nonexistent/rsgdb_scp_test";
    let err = scp_upload_argv(&rs, "127.0.0.1", local, "/tmp/x", false, &None).unwrap_err();
    match err {
        RsgdbError::Backend(s) => assert!(s.contains("upload_local")),
        e => panic!("unexpected {e:?}"),
    }
}

#[test]
fn flash_error_report_adds_the_cause() {
    let e = FlashError::SpawnFailed { program: "openocd".into(), reason: "not found".into() };
    assert_eq!(e.message(), "failed to spawn openocd");
    assert_eq!(e.report(), "failed to spawn openocd: not found");
    let u = FlashError::ImageUnresolvable { path: "fw.bin".into(), reason: "denied".into() };
    assert_eq!(u.report(), "resolving image path fw.bin: denied");
    assert_eq!(FlashError::MissingImagePlaceholder.report(), FlashError::MissingImagePlaceholder.message());
}

#[test]
fn stderr_capture_over_a_run_of_lines_is_the_bounded_end_of_the_joined_lines() {
    let mut cap = String::new();
    let mut joined = String::new();
    for i in 0..3000u32 {
        let line = format!("line {i} ünïcödé €€ \n");
        if !joined.is_empty() {
            joined.push('\n');
        }
        joined.push_str(line.trim_end());
        cap = push_stderr_line(&cap, &line);
        assert!(cap.len() <= 12288);
        assert!(joined.ends_with(cap.as_str()));
    }
    assert!(cap.ends_with("line 2999 ünïcödé €€"));
    assert!(cap.len() > 12288 - 4);
}
