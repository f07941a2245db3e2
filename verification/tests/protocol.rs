use cyberbeast::error::with_context;
use cyberbeast::param_cache::{FloatStep, FloatWait, ParamCache, ParamRead, WaitStep};
use cyberbeast::protocol::{
    big_endian_bytes_to_f32, decode_device_info_response, decode_error_response, decode_float_pair,
    decode_heartbeat, decode_json_desc_meta, decode_param_read_frame, encode_json_desc_read,
    encode_param_read_at, encode_param_write_bytes, is_param_write_ack, param_write_ack_id,
    seq_next, ModeState,
};
use cyberbeast::registers::register_table;
use cyberbeast::report::{
    error_text, frame_text, heartbeat_text, listing_line, mode_text, msg_type_name,
    payload_suffix, progress_line, version_text, LifeMonitor, Snapshot,
};
use cyberbeast::text::{same_text, trim};
use cyberbeast::{
    can_id_parts, make_can_id, Access, CanFrame, CyberBeastMotorState, EndpointEntry,
    EndpointKind, ErrorKind, MotorError, MsgType, ParamValue, ValueType,
};

#[test]
fn identifiers_round_trip() {
    for (priority, msg_type, dest, source, seq) in
        [(0, 0, 0, 0, 0), (7, 0xFF, 0xFF, 0xFF, 3), (6, 0x48, 1, 2, 1)]
    {
        let id = make_can_id(priority, msg_type, dest, source, seq);
        assert!(id < 1 << 29);
        let parts = can_id_parts(id);
        assert_eq!(
            (
                parts.priority,
                parts.msg_type,
                parts.dest,
                parts.source,
                parts.seq
            ),
            (priority, msg_type, dest, source, seq)
        );
    }
    assert!(can_id_parts(make_can_id(2, 0x83, 1, 1, 0)).is_broadcast);
    assert!(!can_id_parts(make_can_id(2, 0x84, 1, 1, 0)).is_broadcast);
    // Bits above the fields are dropped.
    assert_eq!(make_can_id(8, 1, 2, 3, 4), make_can_id(0, 1, 2, 3, 0));
    let mut seq = 0;
    let mut seen = Vec::new();
    for _ in 0..5 {
        seen.push(seq);
        seq = seq_next(seq);
    }
    assert_eq!(seen, vec![0, 1, 2, 3, 0]);
}

#[test]
fn captured_heartbeat_decodes() {
    let hb = decode_heartbeat(&[0xA0, 0x13, 0x4E, 0x00, 0x00, 0xFF, 0xFE, 0x00]).unwrap();
    assert_eq!(hb.life_counter, 5);
    assert_eq!(hb.error_flags, 0);
    assert_eq!(hb.motor_state, 1);
    assert_eq!(hb.control_mode, 3);
    assert_eq!(hb.motor_temp, 28);
    assert_eq!(hb.position_centiturns, 0);
    assert_eq!(hb.velocity_centiturns_per_s, -2);
    assert_eq!(hb.iq_half_amps, 0);
    assert_eq!(
        heartbeat_text(&hb),
        "  => life=5 errflags=0x00 state=1 mode=3 temp=28.0C pos=0.000turns vel=-0.020turns/s \
         iq=0.0A"
    );
    assert!(decode_heartbeat(&[0; 7]).is_none());
    let hb = decode_heartbeat(&[0x1F, 0, 0, 0x80, 0x00, 0x7F, 0xFF, 0x81]).unwrap();
    assert_eq!(
        heartbeat_text(&hb),
        format!(
            "  => life=0 errflags=0x1F state=0 mode=0 temp={:.1}C pos={:.3}turns \
             vel={:.3}turns/s iq={:.1}A",
            -50.0f32,
            -32768.0f32 / 100.0,
            32767.0f32 / 100.0,
            -127.0f32 * 0.5
        )
    );
}

#[test]
fn query_answers_are_big_endian() {
    let mut data = [0u8; 8];
    data[..4].copy_from_slice(&1.5f32.to_be_bytes());
    data[4..].copy_from_slice(&(-2.25f32).to_be_bytes());
    let (a, b) = decode_float_pair(&data);
    assert_eq!((f32::from_bits(a), f32::from_bits(b)), (1.5, -2.25));
    assert_eq!(f32::from_bits(big_endian_bytes_to_f32(&data, 4)), -2.25);
    let info = decode_device_info_response(&[0, 4, 2, 0x37, 0, 0, 6, 9]).unwrap();
    assert_eq!(version_text(info.hw_version), "4.2.55");
    assert_eq!(version_text(info.fw_version), "0.6.9");
    assert!(decode_device_info_response(&[0; 7]).is_none());
    assert_eq!(decode_error_response(&[1, 2, 3, 4, 5, 6, 7, 8]), Some(0x0506_0708));
    assert_eq!(decode_error_response(&[0; 4]), None);
}

#[test]
fn parameter_frames_have_the_documented_layout() {
    assert_eq!(
        encode_param_read_at(0x0186, 4),
        [0x00, 0x01, 0x86, 0x04, 0, 0, 0, 4]
    );
    assert_eq!(
        encode_param_read_at(0x00F7, 0x0102_0304),
        [0x00, 0x00, 0xF7, 0x04, 1, 2, 3, 4]
    );
    assert_eq!(
        encode_param_write_bytes(0x008F, &[8]),
        [0x00, 0x00, 0x8F, 0x01, 8, 0, 0, 0]
    );
    assert_eq!(
        encode_json_desc_read(20000),
        [0x20, 0x4E, 0x00, 0x00, 0, 0, 0, 0]
    );
    // Captured on hardware.
    let vbus = decode_param_read_frame(&[0x00, 0x00, 0x02, 0x04, 0x26, 0xB7, 0xB8, 0x41]).unwrap();
    assert_eq!((vbus.endpoint_id, vbus.data_len, vbus.more), (2, 4, false));
    assert!((f32::from_bits(vbus.as_f32().unwrap()) - 23.09).abs() < 0.01);
    let serial =
        decode_param_read_frame(&[0x80, 0x00, 0x05, 0x04, 0x50, 0x34, 0x66, 0x0D]).unwrap();
    assert!(serial.more);
    assert_eq!(serial.as_f32(), None);
    assert!(decode_param_read_frame(&[0, 0, 2, 5, 0, 0, 0, 0]).is_none());
    assert!(decode_param_read_frame(&[0; 7]).is_none());
    assert_eq!(param_write_ack_id(&[0, 0x01, 0x51]), Some(0x0151));
    assert_eq!(param_write_ack_id(&[0, 1]), None);
    assert!(is_param_write_ack(&[0, 0x01, 0x51], 0x0151));
    assert!(!is_param_write_ack(&[0, 0x01, 0x51], 0x0152));
    assert_eq!(
        decode_json_desc_meta(&[0x00, 0x00, 0x21, 0x96, 0x00, 0x00, 0x82, 0x3F]),
        Some((38433, 0x3F82))
    );
    assert_eq!(decode_json_desc_meta(&[0; 8]), None);
    assert_eq!(
        decode_json_desc_meta(&[0x00, 0x00, 0x00, 0x00, 0x00, 0x01, 0x82, 0x3F]),
        Some((0x0100_0000, 0x3F82))
    );
    assert_eq!(
        decode_json_desc_meta(&[0x00, 0x00, 0x21, 0x96, 0x10, 0x20, 0x82, 0x00]),
        Some((0x2010_9621, 0x0082))
    );
    // Text for offset 0 has no zero byte.
    assert_eq!(decode_json_desc_meta(b"\x00\x00[{\"nam"), None);
}

#[test]
fn values_round_trip_through_their_bytes() {
    for value in [
        ParamValue::F32(7.75f32.to_bits()),
        ParamValue::F64(7.75f64.to_bits()),
        ParamValue::U8(200),
        ParamValue::U16(0x1234),
        ParamValue::U32(0xDEAD_BEEF),
        ParamValue::U64(0x0123_4567_89AB_CDEF),
        ParamValue::I8(-1),
        ParamValue::I16(-300),
        ParamValue::I32(i32::MIN),
        ParamValue::I64(-2),
        ParamValue::Bool(true),
    ] {
        let bytes = value.to_write_bytes();
        let declared = [
            ValueType::F32,
            ValueType::F64,
            ValueType::U8,
            ValueType::U16,
            ValueType::U32,
            ValueType::U64,
            ValueType::I8,
            ValueType::I16,
            ValueType::I32,
            ValueType::I64,
            ValueType::Bool,
        ]
        .into_iter()
        .find(|declared| value.matches_type(*declared))
        .unwrap();
        assert_eq!(bytes.len(), declared.byte_width());
        assert_eq!(cyberbeast::decode_value(&bytes, declared).unwrap(), value);
    }
    assert_eq!(ParamValue::U16(0x1234).to_write_bytes(), vec![0x34, 0x12]);
    assert_eq!(ParamValue::I16(-2).to_write_bytes(), vec![0xFE, 0xFF]);
    assert_eq!(
        ParamValue::F32(7.75f32.to_bits()).to_write_bytes(),
        7.75f32.to_le_bytes()
    );
    assert_eq!(ParamValue::I64(i64::MIN).to_text(""), i64::MIN.to_string());
    assert_eq!(
        ParamValue::Bool(true).to_debug_text(""),
        format!("{:?}", ParamValue::Bool(true))
    );
    assert_eq!(
        ParamValue::I8(-5).to_debug_text(""),
        format!("{:?}", ParamValue::I8(-5))
    );
    let nan = ParamValue::F64(f64::NAN.to_bits());
    assert!(!nan.same_value(nan));
    assert!(ParamValue::F64(0.0f64.to_bits()).same_value(ParamValue::F64((-0.0f64).to_bits())));
    assert!(!ParamValue::U8(1).same_value(ParamValue::U16(1)));
}

#[test]
fn contexts_keep_the_kind() {
    let err = |text: &str| text.to_string();
    for (error, kind) in [
        (MotorError::InvalidArgument(err("x")), ErrorKind::InvalidArgument),
        (MotorError::Io(err("x")), ErrorKind::Io),
        (MotorError::Timeout(err("x")), ErrorKind::Timeout),
        (MotorError::Protocol(err("x")), ErrorKind::Protocol),
        (MotorError::Unsupported(err("x")), ErrorKind::Unsupported),
    ] {
        let wrapped = with_context(error, "reading: ");
        assert_eq!(wrapped.kind(), kind);
        assert_eq!(wrapped.message(), "reading: x");
    }
}

#[test]
fn answers_wait_for_their_read() {
    let mut cache = ParamCache::new();
    let response = decode_param_read_frame(&[0, 0, 9, 4, 0, 0, 0x80, 0x3F]).unwrap();
    cache.begin_read(9, 0);
    cache.record_read_frame(&response, 100);
    assert_eq!(cache.fresh_value(9, 150, 60), Some(1.0f32.to_bits()));
    assert_eq!(cache.fresh_value(9, 160, 60), None);
    assert_eq!(cache.unfit_shape(9), None);
    assert_eq!(cache.unfit_shape(10), None);
    assert_eq!(cache.fresh_value(8, 100, 60), None);
    // A new read forgets the answer, a continued one does not.
    cache.begin_read(9, 4);
    assert_eq!(cache.fresh_value(9, 100, 60), Some(1.0f32.to_bits()));
    cache.begin_read(9, 0);
    assert_eq!(cache.fresh_value(9, 100, 60), None);
    assert!(cache.read_answer(9).is_none());
    let wait = FloatWait {
        endpoint_id: 9,
        since_ms: 100,
        timeout_ms: 50,
    };
    assert!(matches!(wait.step(&cache, 150), FloatStep::Wait));
    match wait.step(&cache, 151) {
        FloatStep::Failed(err) => {
            assert_eq!(err.message(), "timeout waiting for param read 0x0009")
        }
        other => panic!("{other:?}"),
    }
    cache.record_write_ack(9, 100);
    assert!(cache.write_acked(9, 120, 50));
    assert!(!cache.write_acked(9, 150, 50));
    cache.begin_write(9);
    assert!(!cache.write_acked(9, 101, 50));
}

#[test]
fn answered_requests_are_not_repeated() {
    let mut cache = ParamCache::new();
    cache.begin_read(5, 0);
    let mut read = ParamRead::start(5, 1000, 0);
    assert!(matches!(read.step(&cache, 49), WaitStep::Wait));
    assert!(matches!(read.step(&cache, 50), WaitStep::Request(0)));
    assert_eq!(read.resent, 1);
    // An answer without bytes that says more follows is an answer.
    let empty = decode_param_read_frame(&[0x80, 0, 5, 0, 0, 0, 0, 0]).unwrap();
    cache.record_read_frame(&empty, 60);
    assert!(matches!(read.step(&cache, 500), WaitStep::Wait));
    let part = decode_param_read_frame(&[0x80, 0, 5, 3, 1, 2, 3, 0]).unwrap();
    cache.record_read_frame(&part, 501);
    assert!(matches!(read.step(&cache, 501), WaitStep::Request(3)));
    assert!(matches!(read.step(&cache, 502), WaitStep::Wait));
    assert!(matches!(read.step(&cache, 551), WaitStep::Request(3)));
    let last = decode_param_read_frame(&[0, 0, 5, 1, 4, 0, 0, 0]).unwrap();
    cache.record_read_frame(&last, 560);
    match read.step(&cache, 2000) {
        WaitStep::Done(bytes) => assert_eq!(bytes, vec![1, 2, 3, 4]),
        other => panic!("{other:?}"),
    }
    assert_eq!(read.resent, 2);
}

fn state(msg_type: MsgType) -> CyberBeastMotorState {
    CyberBeastMotorState {
        can_id_parts: can_id_parts(make_can_id(2, msg_type.code(), 1, 1, 0)),
        mode_state: 2,
        error_code: 0x1B,
        heartbeat_life: 6,
        error_flags: 3,
        ..CyberBeastMotorState::default()
    }
}

#[test]
fn lines_show_what_a_frame_carries() {
    assert_eq!(mode_text(&state(MsgType::MitControl)), "2(IDLE)");
    assert_eq!(error_text(&state(MsgType::MitControl)), "0x1B");
    assert_eq!(mode_text(&state(MsgType::Heartbeat)), "n/a(hb)");
    assert_eq!(error_text(&state(MsgType::Heartbeat)), "n/a(hb)");
    assert_eq!(ModeState::name(3), "CLOSED_LOOP");
    assert_eq!(ModeState::name(15), "UNKNOWN");
    assert_eq!(
        progress_line(&state(MsgType::MitControl), "1.0000", "2.0000", "3.000", "30.0"),
        "pos=1.0000 vel=2.0000 cur=3.000A err=0x1B mode=2(IDLE) temp=30.0C life=6 errflags=0x03"
    );
    let frame = CanFrame {
        arbitration_id: 0x1920_0404,
        data: [0xA0, 0x13, 0x4E, 0, 0, 0, 0, 0],
        dlc: 3,
        is_extended: true,
        is_rx: true,
    };
    assert_eq!(
        frame_text(&frame),
        "pri=6 mt=0x48(heartbeat) dest=1 src=1 seq=0 dlc=3 data=[A0 13 4E]"
    );
    assert!(payload_suffix(&frame, "", "").starts_with("  => life=5 errflags=0x00"));
    let mut query = frame;
    query.arbitration_id = make_can_id(6, 0x44, 1, 1, 0);
    query.dlc = 15;
    assert_eq!(
        payload_suffix(&query, "23.090000", "0.100000"),
        "  => vbus,ibus = 23.090000, 0.100000 (float32 BE)"
    );
    assert!(frame_text(&query).ends_with("dlc=15 data=[A0 13 4E 00 00 00 00 00]"));
    query.arbitration_id = make_can_id(6, 0x45, 1, 1, 0);
    assert_eq!(payload_suffix(&query, "1", "2"), "");
    assert_eq!(msg_type_name(0x62), "start-motor");
    assert_eq!(msg_type_name(0xC1), "fault-alert");
    assert_eq!(msg_type_name(0x99), "unknown");
}

#[test]
fn snapshots_latch_each_frame_type() {
    let mut snapshot = Snapshot::default();
    snapshot.latch(&state(MsgType::Heartbeat), "line 1".to_string());
    let mut mit = state(MsgType::MitControl);
    mit.current = 5;
    snapshot.latch(&mit, "line 2".to_string());
    let mut pos = state(MsgType::QueryPosVel);
    pos.pos = 7;
    pos.vel = 8;
    snapshot.latch(&pos, "line 3".to_string());
    let mut info = state(MsgType::QueryDeviceInfo);
    snapshot.latch(&info, "line 4".to_string());
    assert_eq!(snapshot.device_info, None);
    info.hw_version = Some(1);
    info.fw_version = Some(2);
    snapshot.latch(&info, "line 5".to_string());
    snapshot.latch(&state(MsgType::QueryBus), "line 6".to_string());
    assert_eq!(snapshot.heartbeat.as_deref(), Some("line 1"));
    assert_eq!(snapshot.mit, Some((2, 0x1B, 5, 0, 0)));
    assert_eq!(snapshot.pos_vel, Some((7, 8)));
    assert_eq!(snapshot.device_info, Some((1, 2)));
}

#[test]
fn life_counters_count_lost_heartbeats() {
    let mut monitor = LifeMonitor::new();
    for life in [6, 6, 7, 0, 0, 3] {
        monitor.observe(life);
    }
    assert_eq!(monitor.heartbeats, 6);
    assert_eq!(monitor.lost, 2);
    assert_eq!(monitor.prev_life, Some(3));
}

#[test]
fn listings_align_their_columns() {
    let entry = EndpointEntry {
        path: "axis0.motor.config.gear_ratio".to_string(),
        endpoint_id: 242,
        raw_type: "float".to_string(),
        kind: EndpointKind::Value(ValueType::F32),
        access: Access::ReadWrite,
    };
    assert_eq!(
        listing_line(&entry),
        format!(
            "  id=0x{:04X} ({:5}) {:<9} {:<4} {}",
            242, 242, "float", "rw", "axis0.motor.config.gear_ratio"
        )
    );
    let wide = EndpointEntry {
        path: "p".to_string(),
        endpoint_id: 65535,
        raw_type: "endpoint_reference".to_string(),
        kind: EndpointKind::Other,
        access: Access::Unknown,
    };
    assert_eq!(
        listing_line(&wide),
        format!(
            "  id=0x{:04X} ({:5}) {:<9} {:<4} {}",
            65535, 65535, "endpoint_reference", "-", "p"
        )
    );
}

#[test]
fn registers_are_the_verified_ones() {
    let table = register_table();
    assert_eq!(table.len(), 34);
    let torque = table
        .iter()
        .find(|info| info.endpoint_id == 0x0151)
        .unwrap();
    assert_eq!(torque.variable, "axis0.controller.config.mit_max_torque");
    assert_eq!(torque.value_type, "float rw");
    assert_eq!(table[0].variable, "odrv.error");
    assert_eq!(table[0].description, "Board (odrv) error flags");
    assert_eq!(table[33].endpoint_id, 0x0186);
    for pair in table.windows(2) {
        assert!(pair[0].endpoint_id < pair[1].endpoint_id);
    }
}

#[test]
fn text_helpers_match_the_standard_library() {
    for text in ["", "  ", " a b ", "\u{3000}x\u{2029}", "\u{200B}x", "\tq\r\n"] {
        assert_eq!(trim(text), text.trim());
    }
    assert!(same_text("abc", "abc"));
    assert!(!same_text("abc", "abd"));
}
