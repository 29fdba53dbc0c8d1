use rsgdb::breakpoints::{Breakpoint, BreakpointType};
use rsgdb::config::RecordingConfig;
use rsgdb::deps::Timestamp;
use rsgdb::logger::LoggerConfig;
use rsgdb::protocol::codec::PacketOrAck;
use rsgdb::protocol::Packet;
use rsgdb::proxy::session::{rtos_backend_note, rtos_client_note, svd_client_note};
use rsgdb::proxy::{Peer, RtosBackendNote, RtosClientNote, SessionStats, SvdAccess};
use rsgdb::recorder::jsonl::session_file_name;
use rsgdb::recorder::{RecordBudget, RecordDirection, RecordEventV1, RecordHeaderV1, RecordKind, FORMAT_NAME, FORMAT_VERSION};
use rsgdb::replay::jsonl::session_lines;
use rsgdb::replay::mock::{check_received, same_item};
use rsgdb::replay::{check_header, event_to_item, item_summary, mock_step, MockAction, ReplayError};
use rsgdb::svd::index::{DeviceLayout, PeripheralLayout, RegisterLayout, SvdIndex};
use rsgdb::ui::UiConfig;

fn pkt(data: &[u8]) -> PacketOrAck {
    PacketOrAck::Packet(Packet::new(data.to_vec()))
}

fn ts() -> Timestamp {
    Timestamp { secs: 1_700_000_000, nanos: 5 }
}

#[test]
fn test_session_stats_default() {
    let stats = SessionStats::default();
    assert_eq!(stats.packets_from_client, 0);
    assert_eq!(stats.packets_to_client, 0);
    assert_eq!(stats.packets_from_backend, 0);
    assert_eq!(stats.packets_to_backend, 0);
    assert_eq!(stats.acks_forwarded, 0);
    assert_eq!(stats.nacks_forwarded, 0);
}

#[test]
fn relaying_counts_each_item_once() {
    let mut s = SessionStats::default();
    let p = pkt(b"qC");
    assert!(s.has_room());
    assert_eq!(s.on_received(Peer::Client, &p), Peer::Backend);
    s.on_forwarded(Peer::Client, &p);
    assert_eq!(s.on_received(Peer::Backend, &PacketOrAck::Ack), Peer::Client);
    s.on_forwarded(Peer::Backend, &PacketOrAck::Ack);
    let r = pkt(b"QC1");
    s.on_received(Peer::Backend, &r);
    s.on_forwarded(Peer::Backend, &r);
    s.on_received(Peer::Client, &PacketOrAck::Nack);
    s.on_forwarded(Peer::Client, &PacketOrAck::Nack);
    assert_eq!(
        s,
        SessionStats {
            packets_from_client: 1,
            packets_to_client: 1,
            packets_from_backend: 1,
            packets_to_backend: 1,
            acks_forwarded: 1,
            nacks_forwarded: 1,
        }
    );
}

#[test]
fn failed_send_leaves_only_the_receive_counted() {
    let mut s = SessionStats::default();
    s.on_received(Peer::Client, &pkt(b"g"));
    assert_eq!(s.packets_from_client, 1);
    assert_eq!(s.packets_to_backend, 0);
    let full = SessionStats { acks_forwarded: u64::MAX, ..SessionStats::default() };
    assert!(!full.has_room());
}

fn gpio_index() -> SvdIndex {
    SvdIndex::from_layout(&DeviceLayout {
        default_size: None,
        peripherals: vec![PeripheralLayout {
            name: "GPIOA".into(),
            base_address: 0x4002_0000,
            derived_from: None,
            registers: Some(vec![
                RegisterLayout { name: "MODER".into(), address_offset: 0, size: Some(32), array: None, fields: vec![] },
                RegisterLayout { name: "BSRR".into(), address_offset: 0x18, size: Some(32), array: None, fields: vec![] },
            ]),
            default_size: None,
            array: None,
        }],
    })
}

#[test]
fn svd_notes_for_client_memory_packets() {
    let idx = gpio_index();
    let n = svd_client_note(&idx, &pkt(b"m40020000,4")).unwrap();
    assert_eq!(n.access, SvdAccess::Read);
    assert_eq!(n.addr, 0x4002_0000);
    assert_eq!(n.len, 4);
    assert_eq!(n.note, "GPIOA.MODER (4 bytes)");
    let w = svd_client_note(&idx, &pkt(b"M40020018,2:aabb")).unwrap();
    assert_eq!(w.access, SvdAccess::Write);
    assert_eq!(w.len, 2);
    assert_eq!(w.note, "GPIOA.BSRR (2 bytes)");
    assert!(svd_client_note(&idx, &pkt(b"m50000000,4")).is_none());
    assert!(svd_client_note(&idx, &pkt(b"g")).is_none());
    assert!(svd_client_note(&idx, &PacketOrAck::Ack).is_none());
    assert!(svd_client_note(&idx, &pkt(b"mzz,4")).is_none());
}

#[test]
fn rtos_notes_for_client_thread_requests() {
    assert_eq!(rtos_client_note(&pkt(b"qC")), Some(RtosClientNote::CurrentThread));
    assert_eq!(rtos_client_note(&pkt(b"qfThreadInfo")), Some(RtosClientNote::FirstThreadInfo));
    assert_eq!(rtos_client_note(&pkt(b"qsThreadInfo")), Some(RtosClientNote::SubsequentThreadInfo));
    assert_eq!(
        rtos_client_note(&pkt(b"qThreadExtraInfo:1f")),
        Some(RtosClientNote::ThreadExtraInfo("1f".into()))
    );
    assert_eq!(
        rtos_client_note(&pkt(b"Hc-1")),
        None,
        "a thread id that is not hex does not parse"
    );
    assert_eq!(
        rtos_client_note(&pkt(b"Hg2")),
        Some(RtosClientNote::SetThread { for_continue: false, thread_id: 2 })
    );
    assert_eq!(rtos_client_note(&pkt(b"qXfer:threads:read::0,fff")), Some(RtosClientNote::ThreadsXml));
    assert_eq!(rtos_client_note(&pkt(b"qXfer:features:read")), None);
    assert_eq!(rtos_client_note(&pkt(b"m0,4")), None);
    assert_eq!(rtos_client_note(&PacketOrAck::Nack), None);
}

#[test]
fn rtos_notes_for_backend_replies() {
    assert_eq!(
        rtos_backend_note(&pkt(b"T05thread:2;")),
        Some(RtosBackendNote::StopReply("T stop reply, thread=2".into()))
    );
    assert_eq!(rtos_backend_note(&pkt(b"T")), None);
    assert_eq!(
        rtos_backend_note(&pkt(b"l")),
        Some(RtosBackendNote::ThreadReply("thread list: end (l)".into()))
    );
    assert_eq!(rtos_backend_note(&pkt(b"OK")), None);
    assert_eq!(rtos_backend_note(&PacketOrAck::Ack), None);
}

#[test]
fn record_event_from_items() {
    let ev = RecordEventV1::from_rsp(RecordDirection::ClientToBackend, &pkt(b"vCont?"), ts());
    assert!(matches!(ev.kind, RecordKind::Packet));
    assert_eq!(ev.payload_hex.as_deref(), Some("76436f6e743f"));
    assert_eq!(ev.payload_len, Some(6));
    let ack = RecordEventV1::from_rsp(RecordDirection::BackendToClient, &PacketOrAck::Ack, ts());
    assert!(matches!(ack.kind, RecordKind::Ack));
    assert!(ack.payload_hex.is_none() && ack.payload_len.is_none());
    assert_eq!(ack.direction, RecordDirection::BackendToClient);
}

#[test]
fn recorded_item_replays_as_itself() {
    for item in [pkt(b"qSupported"), pkt(b""), PacketOrAck::Ack, PacketOrAck::Nack] {
        let ev = RecordEventV1::from_rsp(RecordDirection::ClientToBackend, &item, ts());
        let back = event_to_item(&ev).unwrap();
        assert!(same_item(&back, &item));
    }
}

#[test]
fn event_to_item_errors() {
    let mut ev = RecordEventV1::from_rsp(RecordDirection::ClientToBackend, &pkt(b"OK"), ts());
    ev.payload_hex = None;
    match event_to_item(&ev) {
        Err(ReplayError::InvalidEvent(m)) => assert_eq!(m, "packet missing payload_hex"),
        other => panic!("unexpected {other:?}"),
    }
    ev.payload_hex = Some("abc".into());
    assert!(matches!(event_to_item(&ev), Err(ReplayError::Hex(_))));
    ev.payload_hex = Some(" 4f4B \n".into());
    match event_to_item(&ev).unwrap() {
        PacketOrAck::Packet(p) => {
            assert_eq!(p.data, b"OK");
            assert_eq!(p.checksum, 0x9a);
        }
        other => panic!("unexpected {other:?}"),
    }
}

#[test]
fn mock_steps_follow_direction() {
    let send = RecordEventV1::from_rsp(RecordDirection::BackendToClient, &pkt(b"OK"), ts());
    assert!(matches!(mock_step(&send), Ok(MockAction::Send(PacketOrAck::Packet(_)))));
    let expect = RecordEventV1::from_rsp(RecordDirection::ClientToBackend, &PacketOrAck::Ack, ts());
    assert!(matches!(mock_step(&expect), Ok(MockAction::Expect(PacketOrAck::Ack))));
}

#[test]
fn check_received_reports_mismatch_and_eof() {
    let expected = pkt(b"qSupported");
    assert!(check_received(1, &expected, Some(pkt(b"qSupported"))).is_ok());
    match check_received(2, &expected, Some(PacketOrAck::Ack)) {
        Err(ReplayError::Mismatch { step, expected, got }) => {
            assert_eq!(step, 2);
            assert_eq!(expected, "Packet(qSupported)");
            assert_eq!(got, "+");
        }
        other => panic!("unexpected {other:?}"),
    }
    assert!(matches!(check_received(3, &expected, None), Err(ReplayError::UnexpectedEof { step: 3 })));
    assert_eq!(item_summary(&PacketOrAck::Nack), "-");
}

#[test]
fn header_checks() {
    let h = RecordHeaderV1::new("s1".into(), ts());
    assert_eq!(h.format, FORMAT_NAME);
    assert_eq!(h.version, FORMAT_VERSION);
    assert!(check_header(&h).is_ok());
    let bad = RecordHeaderV1 { format: "other".into(), ..h.clone() };
    match check_header(&bad) {
        Err(ReplayError::InvalidHeader(m)) => assert_eq!(m, "expected format \"rsgdb-record\", got \"other\""),
        other => panic!("unexpected {other:?}"),
    }
    let v2 = RecordHeaderV1 { version: 2, ..h };
    match check_header(&v2) {
        Err(ReplayError::InvalidHeader(m)) => assert_eq!(m, "expected version 1, got 2"),
        other => panic!("unexpected {other:?}"),
    }
}

#[test]
fn session_lines_split_header_and_events() {
    let (h, evs) = session_lines("{\"h\":1}\r\n{\"e\":1}\n\n   \n{\"e\":2}\n").unwrap();
    assert_eq!(h, "{\"h\":1}");
    assert_eq!(evs, vec!["{\"e\":1}".to_string(), "{\"e\":2}".to_string()]);
    let (h, evs) = session_lines("only").unwrap();
    assert_eq!(h, "only");
    assert!(evs.is_empty());
    match session_lines("") {
        Err(ReplayError::InvalidHeader(m)) => assert_eq!(m, "empty file"),
        other => panic!("unexpected {other:?}"),
    }
    let (h, _) = session_lines("\n").unwrap();
    assert_eq!(h, "");
}

#[test]
fn recording_budget_stops_at_the_limit() {
    let cfg = RecordingConfig { enabled: true, output_dir: "/tmp".into(), max_size_mb: 1, compress: false };
    let mut b = RecordBudget::new(&cfg);
    assert_eq!(b.max_bytes, 1024 * 1024);
    assert!(b.take_line(99));
    assert_eq!(b.bytes_written, 100);
    assert!(!b.take_line(1024 * 1024));
    assert!(b.stopped);
    assert!(!b.take_line(1));
    assert_eq!(b.bytes_written, 100);

    let unlimited = RecordingConfig { max_size_mb: 0, ..cfg.clone() };
    let mut u = RecordBudget::new(&unlimited);
    assert!(u.take_line(10_000_000));
    let huge = RecordingConfig { max_size_mb: u64::MAX, ..cfg };
    assert_eq!(RecordBudget::new(&huge).max_bytes, u64::MAX);
}

#[test]
fn recording_file_name() {
    assert_eq!(session_file_name("20240101-120000-42"), "20240101-120000-42.jsonl");
}

#[test]
fn test_breakpoint_creation() {
    let bp = Breakpoint {
        id: 1,
        name: Some("main".to_string()),
        address: 0x8000,
        bp_type: BreakpointType::Hardware,
        enabled: true,
        condition: None,
    };
    assert_eq!(bp.id, 1);
    assert_eq!(bp.address, 0x8000);
}

#[test]
fn settings_defaults() {
    let ui = UiConfig::default();
    assert_eq!(ui.ui_type, "none");
    assert!(ui.web_port.is_none());
    let l = LoggerConfig::default();
    assert_eq!(l.level, "info");
    assert_eq!(l.format, "text");
    assert!(l.output.is_none());
}

#[test]
fn item_summary_replaces_invalid_utf8() {
    let p = PacketOrAck::Packet(Packet::new(vec![0x66, 0xff]));
    assert_eq!(item_summary(&p), "Packet(f\u{fffd})");
}

#[test]
fn replay_and_svd_error_messages() {
    let m = ReplayError::Mismatch { step: 3, expected: "+".into(), got: "-".into() };
    assert_eq!(m.message(), "replay mismatch at step 3: expected +, got -");
    assert_eq!(
        ReplayError::UnexpectedEof { step: 7 }.message(),
        "replay ended before mock backend finished (step 7)"
    );
    assert_eq!(ReplayError::InvalidHeader("empty file".into()).message(), "invalid session header: empty file");
    assert_eq!(rsgdb::svd::SvdLoadError::Parse("bad".into()).message(), "SVD parse error: bad");
}

#[test]
fn recording_session_id_is_utc_stamp_and_pid() {
    // 2023-11-14 22:13:20 UTC
    let id = rsgdb::recorder::jsonl::session_id(ts(), 42).unwrap();
    assert_eq!(id, "20231114-221320-42");
}
