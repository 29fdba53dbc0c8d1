use bytes::BytesMut;
use rsgdb::protocol::codec::{GdbCodec, PacketOrAck};
use rsgdb::protocol::commands::{BreakpointType, CommandError, GdbCommand, QueryCommand, VContAction};
use rsgdb::protocol::{Packet, ProtocolError};

// ---- packets ----

#[test]
fn test_checksum_calculation() {
    let data = b"qSupported";
    let checksum = Packet::calculate_checksum(data);
    // q(113)+S(83)+u(117)+p(112)+p(112)+o(111)+r(114)+t(116)+e(101)+d(100) = 1079 % 256 = 55 (0x37)
    assert_eq!(checksum, 0x37);
}

#[test]
fn test_packet_parse_valid() {
    let buffer = b"$qSupported#37";
    let packet = Packet::parse(buffer).unwrap();
    assert_eq!(packet.data, b"qSupported");
    assert_eq!(packet.checksum, 0x37);
}

#[test]
fn test_packet_parse_invalid_checksum() {
    let buffer = b"$qSupported#00";
    let result = Packet::parse(buffer);
    assert!(matches!(result, Err(ProtocolError::ChecksumMismatch { .. })));
}

#[test]
fn test_packet_to_bytes() {
    let packet = Packet::new(b"qSupported".to_vec());
    let bytes = packet.to_bytes();
    assert_eq!(bytes, b"$qSupported#37");
}

#[test]
fn packet_checksum_of_empty_data_is_zero() {
    assert_eq!(Packet::calculate_checksum(b""), 0);
    assert_eq!(Packet::new(Vec::new()).to_bytes(), b"$#00");
}

#[test]
fn packet_checksum_wraps_modulo_256() {
    // 0xff + 0x02 = 0x101 -> 0x01
    assert_eq!(Packet::calculate_checksum(&[0xff, 0x02]), 0x01);
}

#[test]
fn packet_parse_accepts_upper_case_checksum() {
    let p = Packet::parse(b"$OK#9A").unwrap();
    assert_eq!(p.data, b"OK");
    assert_eq!(p.checksum, 0x9a);
}

#[test]
fn packet_parse_reports_expected_and_actual_checksum() {
    match Packet::parse(b"$OK#00") {
        Err(ProtocolError::ChecksumMismatch { expected, actual }) => {
            assert_eq!(expected, 0x9a);
            assert_eq!(actual, 0x00);
        }
        other => panic!("unexpected {other:?}"),
    }
}

#[test]
fn packet_parse_errors_by_kind() {
    assert!(matches!(Packet::parse(b"$a#"), Err(ProtocolError::IncompletePacket)));
    assert!(matches!(Packet::parse(b"xOK#9a"), Err(ProtocolError::InvalidFormat)));
    assert!(matches!(Packet::parse(b"$OK9a"), Err(ProtocolError::InvalidFormat)));
    assert!(matches!(Packet::parse(b"$OK#9"), Err(ProtocolError::IncompletePacket)));
    assert!(matches!(Packet::parse(b"$OK#zz"), Err(ProtocolError::InvalidFormat)));
}

#[test]
fn packet_round_trip_through_wire_form() {
    let p = Packet::new(b"m8000,4".to_vec());
    let q = Packet::parse(&p.to_bytes()).unwrap();
    assert_eq!(q.data, p.data);
    assert_eq!(q.checksum, p.checksum);
}

// ---- codec ----

#[test]
fn test_decode_single_packet() {
    let mut codec = GdbCodec::new();
    let mut buf = BytesMut::from(&b"$qSupported#37"[..]);
    let result = codec.decode(&mut buf).unwrap();
    assert!(matches!(result, Some(PacketOrAck::Packet(_))));
    assert_eq!(buf.len(), 0);
}

#[test]
fn test_decode_ack() {
    let mut codec = GdbCodec::new();
    let mut buf = BytesMut::from(&b"+"[..]);
    let result = codec.decode(&mut buf).unwrap();
    assert!(matches!(result, Some(PacketOrAck::Ack)));
}

#[test]
fn test_decode_incomplete_packet() {
    let mut codec = GdbCodec::new();
    let mut buf = BytesMut::from(&b"$qSupported#3"[..]);
    let result = codec.decode(&mut buf).unwrap();
    assert!(result.is_none());
    assert_eq!(buf.len(), 13);
}

#[test]
fn test_decode_multiple_packets() {
    let mut codec = GdbCodec::new();
    let mut buf = BytesMut::from(&b"+$qSupported#37"[..]);
    let result = codec.decode(&mut buf).unwrap();
    assert!(matches!(result, Some(PacketOrAck::Ack)));
    let result = codec.decode(&mut buf).unwrap();
    assert!(matches!(result, Some(PacketOrAck::Packet(_))));
}

#[test]
fn test_encode_packet() {
    let mut codec = GdbCodec::new();
    let mut buf = BytesMut::new();
    let packet = Packet::new(b"OK".to_vec());
    codec.encode(PacketOrAck::Packet(packet), &mut buf).unwrap();
    assert_eq!(&buf[..], b"$OK#9a");
}

#[test]
fn test_encode_ack() {
    let mut codec = GdbCodec::new();
    let mut buf = BytesMut::new();
    codec.encode(PacketOrAck::Ack, &mut buf).unwrap();
    assert_eq!(&buf[..], b"+");
}

#[test]
fn decode_nack() {
    let mut codec = GdbCodec::new();
    let mut buf = BytesMut::from(&b"-"[..]);
    let r = codec.decode(&mut buf).unwrap();
    assert!(matches!(r, Some(PacketOrAck::Nack)));
    assert!(buf.is_empty());
}

#[test]
fn decode_leading_junk_before_dollar() {
    let mut codec = GdbCodec::new();
    let mut buf = BytesMut::from(&b"noise$OK#9a"[..]);
    let r = codec.decode(&mut buf).unwrap();
    match r {
        Some(PacketOrAck::Packet(p)) => {
            assert_eq!(p.data, b"OK");
        }
        other => panic!("expected packet, got {:?}", other),
    }
    assert!(buf.is_empty());
}

#[test]
fn decode_packet_split_across_two_feeds() {
    let mut codec = GdbCodec::new();
    let mut buf = BytesMut::from(&b"$qSuppor"[..]);
    assert!(codec.decode(&mut buf).unwrap().is_none());
    assert!(!buf.is_empty());

    buf.extend_from_slice(b"ted#37");
    let r = codec.decode(&mut buf).unwrap();
    match r {
        Some(PacketOrAck::Packet(p)) => assert_eq!(p.data, b"qSupported"),
        other => panic!("expected packet, got {:?}", other),
    }
    assert!(buf.is_empty());
}

#[test]
fn decode_ack_then_packet_in_one_buffer() {
    let mut codec = GdbCodec::new();
    let mut buf = BytesMut::from(&b"+$OK#9a"[..]);
    assert!(matches!(codec.decode(&mut buf).unwrap(), Some(PacketOrAck::Ack)));
    match codec.decode(&mut buf).unwrap() {
        Some(PacketOrAck::Packet(p)) => assert_eq!(p.data, b"OK"),
        other => panic!("expected second item packet, got {:?}", other),
    }
    assert!(buf.is_empty());
}

#[test]
fn decode_invalid_checksum_errors() {
    let mut codec = GdbCodec::new();
    let mut buf = BytesMut::from(&b"$qSupported#00"[..]);
    let err = codec.decode(&mut buf).unwrap_err();
    assert!(matches!(err, ProtocolError::ChecksumMismatch { .. }));
}

#[test]
fn decode_long_payload_round_trip() {
    let data: Vec<u8> = (0u8..=200).map(|i| b'a' + (i % 26)).collect();
    let packet = Packet::new(data.clone());
    let wire = packet.to_bytes();

    let mut codec = GdbCodec::new();
    let mut buf = BytesMut::from(&wire[..]);
    match codec.decode(&mut buf).unwrap() {
        Some(PacketOrAck::Packet(p)) => assert_eq!(p.data, data),
        other => panic!("expected packet, got {:?}", other),
    }
}

#[test]
fn decode_empty_buffer_returns_none_and_stays_empty() {
    let mut codec = GdbCodec::new();
    let mut buf = BytesMut::new();
    assert!(codec.decode(&mut buf).unwrap().is_none());
    assert!(buf.is_empty());
}

#[test]
fn decode_no_rsp_marker_clears_buffer() {
    let mut codec = GdbCodec::new();
    let mut buf = BytesMut::from(&b"no_marker_here"[..]);
    assert!(codec.decode(&mut buf).unwrap().is_none());
    assert!(buf.is_empty());
}

#[test]
fn decode_leaves_following_bytes_in_buffer() {
    let mut codec = GdbCodec::new();
    let mut buf = BytesMut::from(&b"$OK#9a$qC"[..]);
    assert!(matches!(codec.decode(&mut buf).unwrap(), Some(PacketOrAck::Packet(_))));
    assert_eq!(&buf[..], b"$qC");
    assert!(codec.decode(&mut buf).unwrap().is_none());
    assert_eq!(&buf[..], b"$qC");
}

#[test]
fn encode_then_decode_gives_back_each_item() {
    let mut codec = GdbCodec::new();
    let mut buf = BytesMut::new();
    codec.encode(PacketOrAck::Nack, &mut buf).unwrap();
    codec.encode(PacketOrAck::Packet(Packet::new(b"g".to_vec())), &mut buf).unwrap();
    codec.encode(PacketOrAck::Ack, &mut buf).unwrap();
    assert_eq!(&buf[..], b"-$g#67+");
    assert!(matches!(codec.decode(&mut buf).unwrap(), Some(PacketOrAck::Nack)));
    match codec.decode(&mut buf).unwrap() {
        Some(PacketOrAck::Packet(p)) => {
            assert_eq!(p.data, b"g");
            assert_eq!(p.checksum, 0x67);
        }
        other => panic!("expected packet, got {other:?}"),
    }
    assert!(matches!(codec.decode(&mut buf).unwrap(), Some(PacketOrAck::Ack)));
    assert!(buf.is_empty());
}

#[test]
fn decode_then_encode_reproduces_the_wire_bytes() {
    let mut codec = GdbCodec::new();
    let mut buf = BytesMut::from(&b"xx$m8000,4#95+"[..]);
    let item = codec.decode(&mut buf).unwrap().unwrap();
    let mut out = BytesMut::new();
    codec.encode(item, &mut out).unwrap();
    assert_eq!(&out[..], b"$m8000,4#95");
    assert_eq!(&buf[..], b"+");
}

// ---- commands ----

#[test]
fn test_parse_query_supported() {
    let cmd = GdbCommand::parse(b"qSupported:multiprocess+").unwrap();
    assert!(matches!(cmd, GdbCommand::Query(QueryCommand::Supported(_))));
}

#[test]
fn test_parse_read_memory() {
    let cmd = GdbCommand::parse(b"m8000,100").unwrap();
    assert!(matches!(cmd, GdbCommand::ReadMemory { addr: 0x8000, len: 0x100 }));
}

#[test]
fn test_parse_insert_breakpoint() {
    let cmd = GdbCommand::parse(b"Z0,8000,2").unwrap();
    assert!(matches!(
        cmd,
        GdbCommand::InsertBreakpoint { bp_type: BreakpointType::Software, addr: 0x8000, kind: 2 }
    ));
}

#[test]
fn test_parse_continue() {
    let cmd = GdbCommand::parse(b"c").unwrap();
    assert!(matches!(cmd, GdbCommand::Continue { addr: None }));
}

#[test]
fn test_parse_set_thread_hc() {
    let cmd = GdbCommand::parse(b"Hc2").unwrap();
    assert!(matches!(cmd, GdbCommand::SetThread { for_continue: true, thread_id: 2 }));
}

#[test]
fn test_parse_set_thread_hg_id() {
    let cmd = GdbCommand::parse(b"Hg1").unwrap();
    assert!(matches!(cmd, GdbCommand::SetThread { for_continue: false, thread_id: 1 }));
}

#[test]
fn test_parse_thread_extra_info() {
    let cmd = GdbCommand::parse(b"qThreadExtraInfo:1").unwrap();
    match cmd {
        GdbCommand::Query(QueryCommand::ThreadExtraInfo(id)) => assert_eq!(id, "1"),
        _ => panic!("expected ThreadExtraInfo"),
    }
}

#[test]
fn parse_supported_features_are_split_on_semicolons() {
    match GdbCommand::parse(b"qSupported:multiprocess+;swbreak+").unwrap() {
        GdbCommand::Query(QueryCommand::Supported(f)) => {
            assert_eq!(f, vec!["multiprocess+".to_string(), "swbreak+".to_string()]);
        }
        other => panic!("unexpected {other:?}"),
    }
}

#[test]
fn parse_simple_commands() {
    assert_eq!(GdbCommand::parse(b"g").unwrap(), GdbCommand::ReadRegisters);
    assert_eq!(GdbCommand::parse(b"k").unwrap(), GdbCommand::Kill);
    assert_eq!(GdbCommand::parse(b"D").unwrap(), GdbCommand::Detach);
    assert_eq!(GdbCommand::parse(b"qC").unwrap(), GdbCommand::Query(QueryCommand::CurrentThread));
    assert_eq!(GdbCommand::parse(b"qAttached").unwrap(), GdbCommand::Query(QueryCommand::Attached));
    assert_eq!(GdbCommand::parse(b"qfThreadInfo").unwrap(), GdbCommand::Query(QueryCommand::FirstThreadInfo));
    assert_eq!(
        GdbCommand::parse(b"qsThreadInfo").unwrap(),
        GdbCommand::Query(QueryCommand::SubsequentThreadInfo)
    );
    assert_eq!(GdbCommand::parse(b"qOffsets").unwrap(), GdbCommand::Query(QueryCommand::Offsets));
    assert_eq!(GdbCommand::parse(b"vCont;c").unwrap(), GdbCommand::VCont(VContAction::Continue));
    assert_eq!(GdbCommand::parse(b"s").unwrap(), GdbCommand::Step { addr: None });
    assert_eq!(GdbCommand::parse(b"c8000").unwrap(), GdbCommand::Continue { addr: Some(0x8000) });
}

#[test]
fn parse_write_memory_and_registers() {
    assert_eq!(
        GdbCommand::parse(b"M40020000,4:11223344").unwrap(),
        GdbCommand::WriteMemory { addr: 0x4002_0000, data: vec![0x11, 0x22, 0x33, 0x44] }
    );
    assert_eq!(GdbCommand::parse(b"G0a0b").unwrap(), GdbCommand::WriteRegisters(vec![0x0a, 0x0b]));
}

#[test]
fn parse_set_value_and_remove_breakpoint() {
    assert_eq!(
        GdbCommand::parse(b"QStartNoAckMode:1").unwrap(),
        GdbCommand::SetValue("StartNoAckMode".to_string(), "1".to_string())
    );
    assert_eq!(
        GdbCommand::parse(b"z1,8000,4").unwrap(),
        GdbCommand::RemoveBreakpoint { bp_type: BreakpointType::Hardware, addr: 0x8000, kind: 4 }
    );
}

#[test]
fn parse_unknown_is_unsupported() {
    assert_eq!(GdbCommand::parse(b"?").unwrap(), GdbCommand::Unsupported("?".to_string()));
    assert_eq!(GdbCommand::parse(b"vMustReplyEmpty").unwrap(), GdbCommand::Unsupported("vMustReplyEmpty".to_string()));
}

#[test]
fn parse_errors() {
    assert!(matches!(GdbCommand::parse(b""), Err(CommandError::InvalidFormat(_))));
    assert!(matches!(GdbCommand::parse(&[0xff, 0xfe]), Err(CommandError::InvalidFormat(_))));
    assert!(matches!(GdbCommand::parse(b"m8000"), Err(CommandError::InvalidFormat(_))));
    assert!(matches!(GdbCommand::parse(b"Qnocolon"), Err(CommandError::InvalidFormat(_))));
    assert!(matches!(GdbCommand::parse(b"cxyz"), Err(CommandError::InvalidHex(_))));
    assert!(matches!(GdbCommand::parse(b"G0"), Err(CommandError::InvalidHex(_))));
    assert!(matches!(GdbCommand::parse(b"Z9,8000,2"), Err(CommandError::InvalidFormat(_))));
    assert!(matches!(GdbCommand::parse(b"Hx1"), Err(CommandError::InvalidFormat(_))));
}

#[test]
fn breakpoint_type_from_wire_number() {
    assert_eq!(BreakpointType::from_u8(0).unwrap(), BreakpointType::Software);
    assert_eq!(BreakpointType::from_u8(4).unwrap(), BreakpointType::AccessWatchpoint);
    match BreakpointType::from_u8(5) {
        Err(CommandError::InvalidFormat(m)) => assert_eq!(m, "Invalid breakpoint type: 5"),
        other => panic!("unexpected {other:?}"),
    }
}

#[test]
fn symbol_query_is_sliced_at_a_character_boundary() {
    // byte 7 after the `q` is the second byte of "é": the symbol starts after it
    assert_eq!(
        GdbCommand::parse("qSymbolé!".as_bytes()).unwrap(),
        GdbCommand::Query(QueryCommand::Symbol(Some("!".to_string())))
    );
    assert_eq!(
        GdbCommand::parse("qSymbol:é".as_bytes()).unwrap(),
        GdbCommand::Query(QueryCommand::Symbol(Some("é".to_string())))
    );
    assert_eq!(
        GdbCommand::parse(b"qSymbol::").unwrap(),
        GdbCommand::Query(QueryCommand::Symbol(Some(":".to_string())))
    );
    assert_eq!(GdbCommand::parse(b"qSymbol").unwrap(), GdbCommand::Query(QueryCommand::Symbol(None)));
}

#[test]
fn checksum_needs_two_hex_digits() {
    assert!(matches!(Packet::parse(b"$#+0"), Err(ProtocolError::InvalidFormat)));
    assert!(matches!(Packet::parse(b"$#-0"), Err(ProtocolError::InvalidFormat)));
    assert!(Packet::parse(b"$#00").is_ok());
}

#[test]
fn set_thread_error_quotes_the_mode() {
    match GdbCommand::parse(b"Hx1") {
        Err(CommandError::InvalidFormat(m)) => assert_eq!(m, "H: expected g or c, got 'x'"),
        other => panic!("unexpected {other:?}"),
    }
    match GdbCommand::parse(b"Hg") {
        Err(CommandError::InvalidFormat(m)) => assert_eq!(m, "H: missing thread id"),
        other => panic!("unexpected {other:?}"),
    }
}

#[test]
fn error_messages() {
    let e = ProtocolError::ChecksumMismatch { expected: 0x9a, actual: 0x0f };
    assert_eq!(e.message(), "Checksum mismatch: expected 9a, got 0f");
    assert_eq!(ProtocolError::InvalidFormat.message(), "Invalid packet format");
    assert_eq!(ProtocolError::IncompletePacket.message(), "Incomplete packet");
    assert_eq!(ProtocolError::UnknownCommand("x".into()).message(), "Unknown command: x");
    let io = ProtocolError::Io(std::io::Error::new(std::io::ErrorKind::Other, "boom"));
    assert_eq!(io.message(), "IO error: boom");
    assert_eq!(CommandError::InvalidFormat("Empty command".into()).message(), "Invalid command format: Empty command");
    assert_eq!(CommandError::InvalidHex("zz".into()).message(), "Invalid hex value: zz");
    let r = rsgdb::RsgdbError::Protocol(ProtocolError::IncompletePacket);
    assert_eq!(r.message(), "Protocol error: Incomplete packet");
    assert_eq!(rsgdb::RsgdbError::Timeout("t".into()).message(), "Operation timed out: t");
}
