use rsgdb::protocol::commands::GdbCommand;
use rsgdb::rtos::backend_reply::summarize_backend_thread_payload;
use rsgdb::rtos::summarize_stop_reply;
use rsgdb::svd::index::{layout_from_svd_text, ArrayLayout, DeviceLayout, FieldLayout, PeripheralLayout, RegisterLayout, SvdIndex, SvdLoadError};

#[test]
fn stop_reply_with_thread() {
    let s = summarize_stop_reply(b"T05thread:1;").expect("summary");
    assert!(s.contains("thread=1"), "{s}");
}

#[test]
fn stop_reply_minimal() {
    let s = summarize_stop_reply(b"T05").expect("summary");
    assert_eq!(s, "T stop reply");
}

#[test]
fn stop_reply_rejects_other_packets() {
    assert!(summarize_stop_reply(b"S05").is_none());
    assert!(summarize_stop_reply(b"T").is_none());
    assert!(summarize_stop_reply(&[0x54, 0xff]).is_none());
}

#[test]
fn thread_list_end() {
    assert_eq!(summarize_backend_thread_payload(b"l").as_deref(), Some("thread list: end (l)"));
}

#[test]
fn thread_list_ids() {
    let s = summarize_backend_thread_payload(b"m1,2,a").expect("summary");
    assert!(s.contains("3 id"), "{s}");
}

#[test]
fn current_thread_qc() {
    let s = summarize_backend_thread_payload(b"QC1").expect("summary");
    assert!(s.contains("QC1"), "{s}");
}

#[test]
fn thread_name_hex() {
    // "main" as UTF-8 hex: 6d61696e
    let s = summarize_backend_thread_payload(b"6d61696e").expect("summary");
    assert!(s.contains("main"), "{s}");
}

#[test]
fn t_packet_not_handled_here() {
    assert!(summarize_backend_thread_payload(b"T05").is_none());
}

#[test]
fn backend_reply_plain_ok_is_not_summarized() {
    assert!(summarize_backend_thread_payload(b"OK").is_none());
    assert!(summarize_backend_thread_payload(b"").is_none());
}

/// The register map of the minimal device: GPIOA at 0x40020000 with MODER
/// at offset 0 and BSRR at offset 0x18, both 32 bits wide.
fn minimal_device() -> DeviceLayout {
    DeviceLayout {
        default_size: None,
        peripherals: vec![PeripheralLayout {
            name: "GPIOA".to_string(),
            base_address: 0x4002_0000,
            derived_from: None,
            registers: Some(vec![
                RegisterLayout { name: "MODER".to_string(), address_offset: 0, size: Some(32), array: None, fields: vec![] },
                RegisterLayout { name: "BSRR".to_string(), address_offset: 0x18, size: Some(32), array: None, fields: vec![] },
            ]),
            default_size: None,
            array: None,
        }],
    }
}

const MINIMAL_SVD: &str = r#"<?xml version="1.0" encoding="utf-8"?>
<device schemaVersion="1.1" xmlns:xs="http://www.w3.org/2001/XMLSchema-instance" xs:noNamespaceSchemaLocation="CMSIS-SVD_Schema_1_1.xsd">
  <name>TESTMCU</name>
  <version>1.0</version>
  <description>Minimal fixture</description>
  <addressUnitBits>8</addressUnitBits>
  <width>32</width>
  <peripherals>
    <peripheral>
      <name>GPIOA</name>
      <baseAddress>0x40020000</baseAddress>
      <registers>
        <register>
          <name>MODER</name>
          <addressOffset>0x0</addressOffset>
          <size>32</size>
        </register>
        <register>
          <name>BSRR</name>
          <addressOffset>0x18</addressOffset>
          <size>32</size>
        </register>
      </registers>
    </peripheral>
  </peripherals>
</device>
"#;

/// The minimal device with bit fields on MODER and BSRR.
const FIELDS_SVD: &str = r#"<?xml version="1.0" encoding="utf-8"?>
<device schemaVersion="1.1" xmlns:xs="http://www.w3.org/2001/XMLSchema-instance" xs:noNamespaceSchemaLocation="CMSIS-SVD_Schema_1_1.xsd">
  <name>TESTMCU</name>
  <version>1.0</version>
  <description>Minimal fixture with fields</description>
  <addressUnitBits>8</addressUnitBits>
  <width>32</width>
  <peripherals>
    <peripheral>
      <name>GPIOA</name>
      <baseAddress>0x40020000</baseAddress>
      <registers>
        <register>
          <name>MODER</name>
          <addressOffset>0x0</addressOffset>
          <size>32</size>
          <fields>
            <field><name>MODE0</name><bitOffset>0</bitOffset><bitWidth>2</bitWidth></field>
            <field><name>MODE1</name><bitOffset>2</bitOffset><bitWidth>2</bitWidth></field>
          </fields>
        </register>
        <register>
          <name>BSRR</name>
          <addressOffset>0x18</addressOffset>
          <size>32</size>
          <fields>
            <field><name>BS0</name><bitOffset>0</bitOffset><bitWidth>1</bitWidth></field>
            <field><name>BR0</name><bitOffset>16</bitOffset><bitWidth>1</bitWidth></field>
          </fields>
        </register>
      </registers>
    </peripheral>
  </peripherals>
</device>
"#;

#[test]
fn parses_minimal_svd_and_looks_up_register() {
    let idx = SvdIndex::from_svd_text(MINIMAL_SVD).expect("parse fixture");
    assert_eq!(idx.lookup(0x4002_0000), Some("GPIOA.MODER"));
    assert_eq!(idx.lookup(0x4002_0018), Some("GPIOA.BSRR"));
    assert_eq!(idx.lookup(0x4002_0003), Some("GPIOA.MODER"));
    assert_eq!(idx.lookup(0x4001_FFFF), None);
    assert_eq!(idx.annotate_access(0x4002_0000, 4).as_deref(), Some("GPIOA.MODER (4 bytes)"));
}

#[test]
fn svd_load_from_fixture_file() {
    let idx = SvdIndex::from_svd_text(FIELDS_SVD).expect("load SVD");
    assert!(idx.register_count() >= 2);
    assert_eq!(idx.lookup(0x4002_0000), Some("GPIOA.MODER"));
}

#[test]
fn rsp_read_memory_m_packet_maps_to_register() {
    let idx = SvdIndex::from_svd_text(FIELDS_SVD).expect("load");
    let cmd = GdbCommand::parse(b"m40020000,4").expect("parse m");
    match cmd {
        GdbCommand::ReadMemory { addr, len } => {
            let note = idx.annotate_access(addr, len as u64).expect("expected SVD annotation");
            assert!(note.contains("GPIOA.MODER"), "annotation should name MODER: {note}");
            assert!(note.contains("MODE0") && note.contains("MODE1"), "annotation should list field names: {note}");
            assert_eq!(note, "GPIOA.MODER (4 bytes) fields: MODE0, MODE1");
        }
        other => panic!("expected ReadMemory, got {other:?}"),
    }
}

#[test]
fn rsp_write_memory_m_packet_maps_to_register() {
    let idx = SvdIndex::from_svd_text(FIELDS_SVD).expect("load");
    let cmd = GdbCommand::parse(b"M40020000,4:11223344").expect("parse M");
    match cmd {
        GdbCommand::WriteMemory { addr, data } => {
            assert_eq!(data, vec![0x11, 0x22, 0x33, 0x44]);
            let note = idx.annotate_access(addr, data.len() as u64).expect("expected SVD annotation");
            assert!(note.contains("GPIOA.MODER"), "annotation should name MODER: {note}");
            assert!(note.contains("MODE0"), "expected field overlap in note: {note}");
        }
        other => panic!("expected WriteMemory, got {other:?}"),
    }
}

#[test]
fn fields_are_listed_only_where_touched() {
    let idx = SvdIndex::from_svd_text(FIELDS_SVD).expect("load");
    // the upper half of BSRR holds BR0 only
    assert_eq!(idx.annotate_access(0x4002_001a, 2).as_deref(), Some("GPIOA.BSRR (2 bytes) fields: BR0"));
    // byte 1 of MODER holds no field
    assert_eq!(idx.annotate_access(0x4002_0001, 1).as_deref(), Some("GPIOA.MODER (1 bytes)"));
}

#[test]
fn svd_text_that_does_not_parse_is_a_parse_error() {
    assert!(matches!(SvdIndex::from_svd_text("<device>"), Err(SvdLoadError::Parse(_))));
    assert!(matches!(SvdIndex::from_svd_text(""), Err(SvdLoadError::Parse(_))));
}

#[test]
fn field_layout_spans_are_cut_to_the_register() {
    let device = DeviceLayout {
        default_size: None,
        peripherals: vec![PeripheralLayout {
            name: "P".to_string(),
            base_address: 0x100,
            derived_from: None,
            registers: Some(vec![RegisterLayout {
                name: "R".to_string(),
                address_offset: 0,
                size: Some(8),
                array: None,
                fields: vec![
                    FieldLayout { name: "LOW".to_string(), bit_offset: 0, bit_width: 4, array: None },
                    FieldLayout { name: "WIDE".to_string(), bit_offset: 4, bit_width: 12, array: None },
                    FieldLayout { name: "OUT".to_string(), bit_offset: 9, bit_width: 0, array: None },
                ],
            }]),
            default_size: None,
            array: None,
        }],
    };
    let idx = SvdIndex::from_layout(&device);
    assert_eq!(idx.annotate_access(0x100, 1).as_deref(), Some("P.R (1 bytes) fields: LOW, WIDE"));
}

#[test]
fn rsp_read_spanning_two_registers_notes_range() {
    let idx = SvdIndex::from_layout(&minimal_device());
    let cmd = GdbCommand::parse(b"m40020000,19").expect("parse m");
    match cmd {
        GdbCommand::ReadMemory { addr, len } => {
            let note = idx.annotate_access(addr, len as u64).expect("annotate");
            assert!(
                note.contains("GPIOA.MODER") && note.contains("GPIOA.BSRR"),
                "expected span across MODER and BSRR: {note}"
            );
            assert_eq!(note, "GPIOA.MODER .. GPIOA.BSRR (25 bytes)");
        }
        other => panic!("expected ReadMemory, got {other:?}"),
    }
}

#[test]
fn annotate_needs_both_ends_in_registers() {
    let idx = SvdIndex::from_layout(&minimal_device());
    assert_eq!(idx.register_count(), 2);
    assert_eq!(idx.annotate_access(0x4002_0000, 0), None);
    assert_eq!(idx.annotate_access(0x4002_0000, 8), None);
    assert_eq!(idx.annotate_access(0x4002_0004, 4), None);
}

#[test]
fn arrays_sizes_and_derived_peripherals() {
    let device = DeviceLayout {
        default_size: Some(16),
        peripherals: vec![
            PeripheralLayout {
                name: "TIM".to_string(),
                base_address: 0x2000,
                derived_from: None,
                registers: Some(vec![
                    RegisterLayout {
                        name: "CCR%s".to_string(),
                        address_offset: 0x10,
                        size: None,
                        array: Some(ArrayLayout {
                            dim_increment: 4,
                            names: vec!["CCR1".to_string(), "CCR2".to_string()],
                        }),
                        fields: vec![],
                    },
                    RegisterLayout { name: "SR".to_string(), address_offset: 0, size: Some(8), array: None, fields: vec![] },
                ]),
                default_size: None,
                array: None,
            },
            PeripheralLayout {
                name: "TIM2".to_string(),
                base_address: 0x3000,
                derived_from: Some("TIM".to_string()),
                registers: None,
                default_size: None,
                array: None,
            },
        ],
    };
    let idx = SvdIndex::from_layout(&device);
    assert_eq!(idx.register_count(), 3);
    assert_eq!(idx.lookup(0x2000), Some("TIM.SR"));
    assert_eq!(idx.lookup(0x2001), None);
    assert_eq!(idx.lookup(0x2011), Some("TIM.CCR1"));
    assert_eq!(idx.lookup(0x2012), None);
    assert_eq!(idx.lookup(0x2014), Some("TIM.CCR2"));
    assert_eq!(idx.lookup(0x3000), None);
}

#[test]
fn layout_that_overflows_is_rejected() {
    let device = DeviceLayout {
        default_size: None,
        peripherals: vec![PeripheralLayout {
            name: "TOP".to_string(),
            base_address: u64::MAX - 1,
            derived_from: None,
            registers: Some(vec![RegisterLayout {
                name: "R".to_string(),
                address_offset: 0,
                size: Some(32),
                array: None,
                fields: vec![],
            }]),
            default_size: None,
            array: None,
        }],
    };
    assert!(!SvdIndex::layout_fits(&device));
}

#[test]
fn overlapping_registers_resolve_in_address_order() {
    // R1 covers 4..12 and R2 covers 0..8; the index is ordered by start,
    // so an address in both resolves to R2 whatever the listing order.
    let device = DeviceLayout {
        default_size: None,
        peripherals: vec![PeripheralLayout {
            name: "P".to_string(),
            base_address: 0x1000,
            derived_from: None,
            registers: Some(vec![
                RegisterLayout { name: "R1".to_string(), address_offset: 4, size: Some(64), array: None, fields: vec![] },
                RegisterLayout { name: "R2".to_string(), address_offset: 0, size: Some(64), array: None, fields: vec![] },
            ]),
            default_size: None,
            array: None,
        }],
    };
    let idx = SvdIndex::from_layout(&device);
    assert_eq!(idx.lookup(0x1005), Some("P.R2"));
    assert_eq!(idx.lookup(0x1009), Some("P.R1"));
    assert_eq!(idx.annotate_access(0x1002, 8).as_deref(), Some("P.R2 .. P.R1 (8 bytes)"));
}

const ARRAYS_SVD: &str = r#"<?xml version="1.0" encoding="utf-8"?>
<device schemaVersion="1.1" xmlns:xs="http://www.w3.org/2001/XMLSchema-instance" xs:noNamespaceSchemaLocation="CMSIS-SVD_Schema_1_1.xsd">
  <name>ARRAYMCU</name>
  <version>1.0</version>
  <description>Peripheral and field arrays</description>
  <addressUnitBits>8</addressUnitBits>
  <width>32</width>
  <peripherals>
    <peripheral>
      <dim>2</dim>
      <dimIncrement>0x400</dimIncrement>
      <name>UART%s</name>
      <baseAddress>0x40001000</baseAddress>
      <registers>
        <register>
          <name>DR</name>
          <addressOffset>0x4</addressOffset>
          <size>32</size>
          <fields>
            <field>
              <dim>3</dim>
              <dimIncrement>8</dimIncrement>
              <name>B%s</name>
              <bitOffset>0</bitOffset>
              <bitWidth>8</bitWidth>
            </field>
          </fields>
        </register>
      </registers>
    </peripheral>
  </peripherals>
</device>
"#;

#[test]
fn svd_peripheral_and_field_arrays_are_expanded() {
    let idx = SvdIndex::from_svd_text(ARRAYS_SVD).expect("parse arrays");
    assert_eq!(idx.register_count(), 2);
    assert_eq!(idx.lookup(0x4000_1004), Some("UART0.DR"));
    assert_eq!(idx.lookup(0x4000_1404), Some("UART1.DR"));
    assert_eq!(idx.lookup(0x4000_1000), None);
    assert_eq!(idx.annotate_access(0x4000_1406, 1).as_deref(), Some("UART1.DR (1 bytes) fields: B2"));
    assert_eq!(idx.annotate_access(0x4000_1004, 2).as_deref(), Some("UART0.DR (2 bytes) fields: B0, B1"));
}

#[test]
fn svd_layout_keeps_arrays() {
    let layout = layout_from_svd_text(ARRAYS_SVD).expect("parse arrays");
    assert_eq!(layout.peripherals.len(), 1);
    let p = &layout.peripherals[0];
    assert_eq!(p.name, "UART%s");
    assert_eq!(p.base_address, 0x4000_1000);
    let a = p.array.as_ref().expect("peripheral array");
    assert_eq!(a.dim_increment, 0x400);
    assert_eq!(a.names, vec!["UART0".to_string(), "UART1".to_string()]);
    let regs = p.registers.as_ref().expect("registers");
    assert_eq!(regs.len(), 1);
    assert_eq!(regs[0].name, "DR");
    assert_eq!(regs[0].address_offset, 4);
    assert_eq!(regs[0].size, Some(32));
    let f = &regs[0].fields[0];
    assert_eq!((f.bit_offset, f.bit_width), (0, 8));
    assert_eq!(f.array.as_ref().map(|a| a.names.clone()), Some(vec!["B0".to_string(), "B1".to_string(), "B2".to_string()]));
}

const HIGH_ARRAY_SVD: &str = r#"<?xml version="1.0" encoding="utf-8"?>
<device schemaVersion="1.1" xmlns:xs="http://www.w3.org/2001/XMLSchema-instance" xs:noNamespaceSchemaLocation="CMSIS-SVD_Schema_1_1.xsd">
  <name>HIGHMCU</name>
  <version>1.0</version>
  <description>An array past the top of the address space</description>
  <addressUnitBits>8</addressUnitBits>
  <width>32</width>
  <peripherals>
    <peripheral>
      <dim>3</dim>
      <dimIncrement>0x80000000</dimIncrement>
      <name>TOP%s</name>
      <baseAddress>0xFFFFFFFF00000000</baseAddress>
      <registers>
        <register>
          <name>CR</name>
          <addressOffset>0x0</addressOffset>
          <size>32</size>
        </register>
      </registers>
    </peripheral>
  </peripherals>
</device>
"#;

#[test]
fn svd_array_past_the_address_space_is_a_parse_error() {
    assert!(layout_from_svd_text(HIGH_ARRAY_SVD).is_ok());
    match SvdIndex::from_svd_text(HIGH_ARRAY_SVD) {
        Err(SvdLoadError::Parse(m)) => assert_eq!(m, "register addresses do not fit in 64 bits"),
        other => panic!("unexpected: {:?}", other.map(|i| i.register_count())),
    }
}

const WIDE_FIELD_ARRAY_SVD: &str = r#"<?xml version="1.0" encoding="utf-8"?>
<device schemaVersion="1.1" xmlns:xs="http://www.w3.org/2001/XMLSchema-instance" xs:noNamespaceSchemaLocation="CMSIS-SVD_Schema_1_1.xsd">
  <name>WIDEMCU</name>
  <version>1.0</version>
  <description>A field array whose offsets run past 32 bits</description>
  <addressUnitBits>8</addressUnitBits>
  <width>32</width>
  <peripherals>
    <peripheral>
      <name>P</name>
      <baseAddress>0x1000</baseAddress>
      <registers>
        <register>
          <name>R</name>
          <addressOffset>0x0</addressOffset>
          <size>32</size>
          <fields>
            <field>
              <dim>3</dim>
              <dimIncrement>0x80000000</dimIncrement>
              <name>F%s</name>
              <bitOffset>0</bitOffset>
              <bitWidth>1</bitWidth>
            </field>
          </fields>
        </register>
      </registers>
    </peripheral>
  </peripherals>
</device>
"#;

#[test]
fn svd_field_array_past_the_register_touches_nothing() {
    let idx = SvdIndex::from_svd_text(WIDE_FIELD_ARRAY_SVD).expect("parse wide field array");
    assert_eq!(idx.lookup(0x1000), Some("P.R"));
    assert_eq!(idx.annotate_access(0x1000, 4).as_deref(), Some("P.R (4 bytes) fields: F0"));
}

#[test]
fn peripheral_array_layout_gives_one_span_per_instance() {
    let device = DeviceLayout {
        default_size: None,
        peripherals: vec![PeripheralLayout {
            name: "SPI%s".to_string(),
            base_address: 0x5000,
            derived_from: None,
            registers: Some(vec![RegisterLayout { name: "CR".to_string(), address_offset: 8, size: Some(16), array: None, fields: vec![] }]),
            default_size: None,
            array: Some(ArrayLayout { dim_increment: 0x100, names: vec!["SPI1".to_string(), "SPI2".to_string()] }),
        }],
    };
    assert!(SvdIndex::layout_fits(&device));
    let idx = SvdIndex::from_layout(&device);
    assert_eq!(idx.register_count(), 2);
    assert_eq!(idx.lookup(0x5009), Some("SPI1.CR"));
    assert_eq!(idx.lookup(0x5108), Some("SPI2.CR"));
    assert_eq!(idx.lookup(0x510A), None);
}
