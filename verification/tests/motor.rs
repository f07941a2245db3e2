use cyberbeast::descriptor::JsonDescCache;
use cyberbeast::models::{
    find_model, mit_current_range_from, Feedback, PositionUnit, Scaled, DEFAULT_MIT_CURRENT_LIMIT,
};
use cyberbeast::motor::{decode_feedback, WarmUpStep};
use cyberbeast::protocol::{
    pack_mit_command, unpack_mit_command, unpack_mit_response, MitCommandParams, DEFAULT_MASTER_ID,
};
use cyberbeast::values::{resolve_cur_limit, DEFAULT_CMD_CURRENT_LIMIT};
use cyberbeast::{
    can_id_parts, make_can_id, model_limits, CanFrame, CyberBeastMotor, CyberBeastMotorState,
    ErrorKind, MitRanges, MsgType, Priority,
};

const PI: f32 = std::f32::consts::PI;

/// `clamp(trunc((x - offset) / span * (2^bits - 1)))`, without the clamp.
fn count(value: f32, min: f32, max: f32, bits: u32) -> i64 {
    ((value - min) / (max - min) * ((1u32 << bits) - 1) as f32) as i64
}

fn value(count: i64, min: f32, max: f32, bits: u32) -> f32 {
    count as f32 / ((1u32 << bits) - 1) as f32 * (max - min) + min
}

fn params(pos: f32, vel: f32, kp: f32, kd: f32, torque: f32, max: [f32; 5]) -> MitCommandParams {
    MitCommandParams {
        pos: count(pos, -max[0], max[0], 16),
        vel: count(vel, -max[1], max[1], 12),
        kp: count(kp, 0.0, max[2], 12),
        kd: count(kd, 0.0, max[3], 12),
        torque: count(torque, -max[4], max[4], 12),
    }
}

fn motor(id: u16) -> CyberBeastMotor {
    CyberBeastMotor::new(id, id, "odrive-default").unwrap()
}

fn rx(arbitration_id: u32, data: [u8; 8]) -> CanFrame {
    CanFrame {
        arbitration_id,
        data,
        dlc: 8,
        is_extended: true,
        is_rx: true,
    }
}

/// Scales feedback the way a bus loop does: motor-side radians everywhere.
fn scaled(motor: &CyberBeastMotor, frame: &CanFrame) -> Scaled {
    let ranges = motor.mit_ranges();
    let gear = f32::from_bits(motor.gear_ratio());
    let range = |bits: u32| f32::from_bits(bits);
    let (pos, vel, current, motor_temp, mos_temp) = match decode_feedback(frame) {
        Feedback::Mit(r) => (
            value(i64::from(r.pos), -range(ranges.pos), range(ranges.pos), 16) * gear,
            value(i64::from(r.vel), -range(ranges.vel), range(ranges.vel), 12) * gear,
            value(
                i64::from(r.current),
                -range(motor.mit_current_limit()),
                range(motor.mit_current_limit()),
                12,
            ),
            f32::from(r.motor_temp),
            f32::from(r.mos_temp),
        ),
        Feedback::Heartbeat(h) => (
            f32::from(h.position_centiturns) / 100.0 * 2.0 * PI,
            f32::from(h.velocity_centiturns_per_s) / 100.0 * 2.0 * PI,
            f32::from(h.iq_half_amps) * 0.5,
            f32::from(h.motor_temp),
            0.0,
        ),
        Feedback::PosVel(pos, vel) => (
            f32::from_bits(pos) * 2.0 * PI,
            f32::from_bits(vel) * 2.0 * PI,
            0.0,
            0.0,
            0.0,
        ),
        _ => (0.0, 0.0, 0.0, 0.0, 0.0),
    };
    Scaled {
        pos: pos.to_bits(),
        vel: vel.to_bits(),
        current: current.to_bits(),
        motor_temp: motor_temp.to_bits(),
        mos_temp: mos_temp.to_bits(),
    }
}

fn feed(motor: &mut CyberBeastMotor, frame: CanFrame, now_ms: u64) -> CyberBeastMotorState {
    let scaled = scaled(motor, &frame);
    motor.process_feedback_frame(&frame, &scaled, now_ms);
    motor.latest_state().unwrap_or_default()
}

#[test]
fn mit_current_range_follows_the_device_formula() {
    let range = |torque: f32, constant: f32| {
        mit_current_range_from(
            torque.to_bits(),
            constant.to_bits(),
            (torque / constant).to_bits(),
        )
        .map(f32::from_bits)
    };
    // Observed on hardware: mit_max_torque 50 Nm / torque_constant 0.0824 Nm/A = 606 A,
    // clamped to the documented 80 A ceiling.
    assert_eq!(range(50.0, 0.0824), Some(80.0));
    assert_eq!(range(5.0, 0.1), Some(50.0));
    assert_eq!(range(5.0, 0.0), None);
    assert_eq!(range(0.0, 0.1), None);
    assert_eq!(range(f32::NAN, 1.0), None);
    assert_eq!(range(1.0, f32::INFINITY), None);
    assert_eq!(range(-1.0, 1.0), None);
    assert_eq!(range(f32::MAX, f32::MIN_POSITIVE), Some(80.0));
}

#[test]
fn json_desc_cache_assembles_metadata_and_chunks() {
    // Frames captured on hardware: metadata first, then 6-byte JSON chunks.
    let mut cache = JsonDescCache::default();
    cache.reset();
    let meta = [0x00, 0x00, 0x21, 0x96, 0x00, 0x00, 0x82, 0x3F];
    assert!(cache.record(&meta));
    assert_eq!(cache.total_len(), Some(38433));
    assert_eq!(cache.version_crc(), Some(0x3F82));

    assert!(cache.record(&[0x00, 0x00, b'{', b'"', b'a', b'b', b'c', b'd']));
    assert!(cache.record(&[0x06, 0x00, b'e', b'f', b'g', b'h', b'i', b'j']));
    assert_eq!(cache.bytes(), b"{\"abcdefghij");

    // The device repeats the metadata frame after a continuation request; it must never be
    // stored as descriptor bytes (that would overwrite the start).
    assert!(cache.record(&meta));
    assert_eq!(cache.bytes(), b"{\"abcdefghij");
    assert_eq!(cache.total_len(), Some(38433));
}

#[test]
fn test_model_catalog() {
    let spec = find_model("odrive-default").unwrap();
    assert_eq!(spec.vendor, "cyberbeast");
    assert_eq!(spec.model, "odrive-default");
}

#[test]
fn test_unknown_model_rejected() {
    let result = CyberBeastMotor::new(0x01, 0x01, "nonexistent");
    assert!(result.is_err());
    let err = result.unwrap_err();
    assert_eq!(err.kind(), ErrorKind::InvalidArgument);
    assert_eq!(err.message(), "unknown cyberbeast model: nonexistent");
}

#[test]
fn test_can_id_roundtrip() {
    let id = make_can_id(2, 0x00, 0x01, 0x0A, 1);
    let parts = can_id_parts(id);
    assert_eq!(parts.priority, 2);
    assert_eq!(parts.msg_type, 0x00); // MIT_CONTROL
    assert_eq!(parts.dest, 0x01);
    assert_eq!(parts.source, 0x0A);
    assert_eq!(parts.seq, 1);
    assert!(!parts.is_broadcast);
}

#[test]
fn test_broadcast_detection() {
    let id = make_can_id(2, 0x80, 0xFF, 0x0A, 0);
    let parts = can_id_parts(id);
    assert!(parts.is_broadcast);
}

#[test]
fn test_mit_pack_unpack_roundtrip() {
    let max = [12.5, 50.0, 500.0, 100.0, 10.0];
    let packed = pack_mit_command(&params(1.5, 10.0, 100.0, 5.0, 0.5, max));
    let unpacked = unpack_mit_command(&packed);

    // Due to quantization, compare with tolerance
    assert!((value(unpacked.pos, -12.5, 12.5, 16) - 1.5).abs() < 0.01);
    assert!((value(unpacked.vel, -50.0, 50.0, 12) - 10.0).abs() < 0.1);
    assert!((value(unpacked.kp, 0.0, 500.0, 12) - 100.0).abs() < 1.0);
    assert!((value(unpacked.kd, 0.0, 100.0, 12) - 5.0).abs() < 0.1);
    assert!((value(unpacked.torque, -10.0, 10.0, 12) - 0.5).abs() < 0.01);
}

#[test]
fn test_mit_response_decode() {
    // A zero-filled MIT response decodes to defaults
    let resp = unpack_mit_response(&[0u8; 8]);
    assert_eq!(resp.error_code, 0);
    assert_eq!(resp.mode_state, 0);
    assert_eq!(value(i64::from(resp.pos), -12.5, 12.5, 16), -12.5);
    assert_eq!(value(i64::from(resp.vel), -50.0, 50.0, 12), -50.0);
    assert_eq!(value(i64::from(resp.current), -40.0, 40.0, 12), -40.0);
}

#[test]
fn test_accepts_frame() {
    let motor = motor(0x01);
    // Frame from our motor (source == motor_id)
    let id = make_can_id(2, 0x00, 0x0A, 0x01, 0); // source=0x01 matches motor_id=1
    assert!(motor.accepts_frame(&rx(id, [0u8; 8])));

    // Frame from a different motor
    let id2 = make_can_id(2, 0x00, 0x0A, 0x02, 0); // source=0x02
    assert!(!motor.accepts_frame(&rx(id2, [0u8; 8])));

    // TX frame should not be accepted
    let mut frame3 = rx(id, [0u8; 8]);
    frame3.is_rx = false;
    assert!(!motor.accepts_frame(&frame3));
}

#[test]
fn test_send_mit_command_encodes_correct_frame() {
    let mut motor = motor(0x01);
    let max = [4.0 * PI, 30.0, 500.0, 100.0, 18.0];
    let frame = motor.send_mit_command(&params(1.0, 0.5, 100.0, 10.0, 0.2, max));

    assert!(frame.is_extended);
    assert!(!frame.is_rx);

    // Verify CAN ID: Priority=2(HighCtrl), MsgType=0x00(MIT), dest=0x01, source=0x01
    let parts = can_id_parts(frame.arbitration_id);
    assert_eq!(parts.priority, Priority::HighCtrl.code());
    assert_eq!(parts.msg_type, MsgType::MitControl.code());
    assert_eq!(parts.dest, 0x01);
    assert_eq!(parts.source, DEFAULT_MASTER_ID);
}

#[test]
fn test_mit_response_process_updates_state() {
    let mut motor = motor(0x02);

    // pos=1.0 rad, vel=2.0 rad/s, current=3.0 A, error=0, mode=4(MIT)
    let max = [12.5, 50.0, 500.0, 100.0, 40.0];
    let packed = pack_mit_command(&params(1.0, 2.0, 0.0, 0.0, 3.0, max));

    let can_id = make_can_id(2, MsgType::MitControl.code(), 0x0A, 0x02, 0);
    let state = feed(&mut motor, rx(can_id, packed), 0);

    // With packed MIT command layout mapped to response decode, values won't match exactly,
    // but state should be populated
    assert!(
        f32::from_bits(state.pos) != 0.0
            || f32::from_bits(state.vel) != 0.0
            || f32::from_bits(state.current) != 0.0
    );
    assert_eq!(state.can_id_parts.source, 0x02);
}

fn heartbeat_payload() -> [u8; 8] {
    // Life=2 (0b010xxxxx), ErrorFlags=0x03 (AXIS|MOTOR)
    // State=0x3 (CLOSED_LOOP), Mode=0x1 (POSITION)
    // Motor Temp=80 (raw): actual 30 degrees
    // Position=5000 (raw int16): 50.0 turns
    // Velocity=200 (raw int16): 2.0 turns/s
    // Iq=20 (raw int8): 10.0 A
    let mut data = [0u8; 8];
    data[0] = (2 << 5) | 0x03;
    data[1] = (0x3 << 4) | 0x1;
    data[2] = 80;
    let pos_raw: i16 = 5000;
    data[3] = (pos_raw >> 8) as u8;
    data[4] = pos_raw as u8;
    let vel_raw: i16 = 200;
    data[5] = (vel_raw >> 8) as u8;
    data[6] = vel_raw as u8;
    data[7] = 20;
    data
}

#[test]
fn test_heartbeat_decode_updates_state() {
    let mut motor = motor(0x03);
    let can_id = make_can_id(6, MsgType::Heartbeat.code(), 0x01, 0x03, 0);
    let state = feed(&mut motor, rx(can_id, heartbeat_payload()), 0);

    assert_eq!(state.heartbeat_life, 2);
    assert_eq!(state.error_flags, 0x03); // AXIS|MOTOR
    assert!((f32::from_bits(state.motor_temp) - 30.0).abs() < 1.0);
    // Position: 50.0 turns are 50.0 * 2π rad
    assert!((f32::from_bits(state.pos) - 50.0 * 2.0 * PI).abs() < 1.0);
    // Velocity: 2.0 turns/s are 2.0 * 2π rad/s
    assert!((f32::from_bits(state.vel) - 2.0 * 2.0 * PI).abs() < 1.0);
    assert!((f32::from_bits(state.current) - 10.0).abs() < 0.5);
}

#[test]
fn test_process_mit_response_updates_core_fields() {
    let mut motor = motor(0x04);

    // Response: pos(16-bit), vel(12-bit)+error(4-bit), current(12-bit)+mode(4-bit),
    // motor_temp, mos_temp. Mid-range values, mode=3
    let buf: [u8; 8] = [
        0x80, 0x00, // pos mid-range
        0x80, 0x00, // vel mid-range + error=0
        0x80, 0x03, // current mid-range + mode=3 (CLOSED_LOOP)
        0x6E, // motor_temp=110: actual = 60 degrees
        0x6E, // mos_temp=110: actual = 60 degrees
    ];

    let can_id = make_can_id(2, MsgType::MitControl.code(), 0x01, 0x04, 0);
    let state = feed(&mut motor, rx(can_id, buf), 0);

    assert_eq!(state.mode_state, 3); // CLOSED_LOOP
    assert_eq!(state.error_code, 0);
    assert!((f32::from_bits(state.motor_temp) - 60.0).abs() < 1.0);
    assert!((f32::from_bits(state.mos_temp) - 60.0).abs() < 1.0);
}

#[test]
fn model_limits_are_the_catalog_values() {
    let limits = |model: &str| {
        model_limits(model).map(|(p, v, t)| {
            (
                f32::from_bits(p),
                f32::from_bits(v),
                f32::from_bits(t),
            )
        })
    };
    assert_eq!(limits("odrive-default"), Some((4.0 * PI, 100.0, 10.0)));
    assert_eq!(limits("odrive-pro"), Some((4.0 * PI, 150.0, 20.0)));
    assert_eq!(limits("odrive-high-torque"), Some((4.0 * PI, 60.0, 50.0)));
    assert_eq!(limits("odrive-high-speed"), Some((4.0 * PI, 300.0, 5.0)));
    assert_eq!(limits("odrive"), None);
    assert_eq!(motor(1).limits(), model_limits("odrive-default").unwrap());
}

#[test]
fn defaults_are_the_documented_ranges() {
    let ranges = MitRanges::default();
    assert_eq!(f32::from_bits(ranges.pos), 4.0 * PI);
    assert_eq!(f32::from_bits(ranges.vel), 30.0);
    assert_eq!(f32::from_bits(ranges.kp), 500.0);
    assert_eq!(f32::from_bits(ranges.kd), 100.0);
    assert_eq!(f32::from_bits(ranges.torque), 18.0);
    assert_eq!(f32::from_bits(DEFAULT_MIT_CURRENT_LIMIT), 40.0);
    let motor = motor(1);
    assert_eq!(f32::from_bits(motor.mit_current_limit()), 40.0);
    assert_eq!(f32::from_bits(motor.mit_torque_limit()), 18.0);
    assert_eq!(f32::from_bits(motor.gear_ratio()), 1.0);
    assert!(!motor.gear_ratio_from_device());
    assert!(!motor.mit_ranges_from_device());
    assert_eq!(motor.mit_ranges_note(), None);
    assert_eq!(motor.vendor(), "cyberbeast");
    assert_eq!(motor.model(), "odrive-default");
    assert_eq!(motor.feedback_id(), 1);
}

#[test]
fn zero_position_truncates_below_the_middle() {
    let max = [12.5, 65.0, 500.0, 5.0, 50.0];
    let packed = pack_mit_command(&params(0.0, 0.0, 0.0, 0.0, 0.0, max));
    assert_eq!(packed, [0x7F, 0xFF, 0x7F, 0xF0, 0x00, 0x00, 0x07, 0xFF]);
    // Counts outside their fields are clamped.
    let packed = pack_mit_command(&params(99.0, -99.0, 9999.0, -1.0, 99.0, max));
    assert_eq!(packed, [0xFF, 0xFF, 0x00, 0x0F, 0xFF, 0x00, 0x0F, 0xFF]);
}

#[test]
fn captured_frames_decode() {
    assert_eq!(make_can_id(6, 0x48, 1, 1, 0), 0x1920_0404);
    assert_eq!(make_can_id(5, 0x41, 1, 1, 0), 0x1504_0404);
    assert_eq!(make_can_id(4, 0x24, 1, 1, 0), 0x1090_0404);
    let resp = unpack_mit_response(&[0x7F, 0xFF, 0x7F, 0xF0, 0x80, 0x02, 0x4E, 0x50]);
    assert_eq!(resp.pos, 0x7FFF);
    assert_eq!(resp.vel, 0x7FF);
    assert_eq!(resp.error_code, 0);
    assert_eq!(resp.current, 0x800);
    assert_eq!(resp.mode_state, 2);
    assert_eq!((resp.motor_temp, resp.mos_temp), (28, 30));
}

#[test]
fn unspecified_current_limits_fall_back_to_the_default() {
    let resolved = |a: f32| f32::from_bits(resolve_cur_limit(a.to_bits()));
    assert_eq!(f32::from_bits(DEFAULT_CMD_CURRENT_LIMIT), 200.0);
    assert_eq!(resolved(0.0), 200.0);
    assert_eq!(resolved(-0.0), 200.0);
    assert_eq!(resolved(-3.5), 200.0);
    assert_eq!(resolved(f32::NAN), 200.0);
    assert_eq!(resolved(f32::NEG_INFINITY), 200.0);
    assert_eq!(resolved(12.5), 12.5);
    assert_eq!(resolved(f32::INFINITY), f32::INFINITY);
}

#[test]
fn commands_carry_priority_type_and_sequence() {
    let mut motor = motor(0x05).with_master_id(9);
    let frames = vec![
        (motor.send_start_motor(), 3, 0x62),
        (motor.send_stop_motor(), 3, 0x63),
        (motor.send_set_zero(), 4, 0x61),
        (motor.send_clear_errors(), 4, 0x65),
        (motor.send_query_status(), 5, 0x40),
        (motor.send_query_pos_vel(), 5, 0x41),
        (motor.send_query_current(), 5, 0x42),
        (motor.send_query_temperature(), 5, 0x43),
        (motor.send_query_bus(), 5, 0x44),
        (motor.send_query_device_info(), 5, 0x46),
        (motor.send_status_feedback(), 5, 0x49),
        (motor.send_config_reset(), 4, 0x23),
        (motor.send_reset_device(), 4, 0x64),
        (motor.store_parameters(), 4, 0x22),
        (motor.enable(), 3, 0x62),
        (motor.disable(), 3, 0x63),
    ];
    for (index, (frame, priority, msg_type)) in frames.iter().enumerate() {
        let parts = can_id_parts(frame.arbitration_id);
        assert_eq!(parts.priority, *priority);
        assert_eq!(parts.msg_type, *msg_type);
        assert_eq!(parts.dest, 5);
        assert_eq!(parts.source, 9);
        assert_eq!(usize::from(parts.seq), index % 4);
        assert_eq!(frame.data, [0u8; 8]);
        assert_eq!(frame.dlc, 8);
    }
    let error = motor.send_query_error(7);
    assert_eq!(can_id_parts(error.arbitration_id).msg_type, 0x45);
    assert_eq!(error.data, [7, 0, 0, 0, 0, 0, 0, 0]);
}

#[test]
fn estop_is_a_global_broadcast_and_reset_is_not_config_reset() {
    let mut motor = motor(0x05);
    let parts = can_id_parts(motor.send_estop().arbitration_id);
    assert_eq!(parts.priority, 0);
    assert_eq!(parts.msg_type, 0xC0);
    assert_eq!(parts.dest, 0xFF);
    assert!(parts.is_broadcast);
    let reset = can_id_parts(motor.send_reset_device().arbitration_id);
    assert_eq!(reset.msg_type, 0x64);
    assert_ne!(reset.msg_type, MsgType::ConfigReset.code());
}

#[test]
fn float_commands_are_big_endian() {
    let mut motor = motor(0x01);
    let pos = motor.send_pos_control(90.0f32.to_bits(), -300, 2000);
    assert_eq!(pos.data[..4], 90.0f32.to_be_bytes());
    assert_eq!(pos.data[4..6], (-300i16).to_be_bytes());
    assert_eq!(pos.data[6..], 2000i16.to_be_bytes());
    let vel = motor.send_vel_control((-12.5f32).to_bits(), 55);
    assert_eq!(vel.data[..4], (-12.5f32).to_be_bytes());
    assert_eq!(vel.data[4..], [0, 55, 0, 0]);
    let torque = motor.send_torque_control(0.25f32.to_bits());
    assert_eq!(torque.data[..4], 0.25f32.to_be_bytes());
    assert_eq!(torque.data[4..], [0; 4]);
    let current = motor.send_current_control(1.5f32.to_bits());
    assert_eq!(current.data[..4], 1.5f32.to_be_bytes());
    let parts = can_id_parts(current.arbitration_id);
    assert_eq!((parts.priority, parts.msg_type), (3, 0x04));
}

#[test]
fn unspecified_current_limits_never_reach_the_bus() {
    let mut motor = motor(1);
    for limit in [0i16, -1, i16::MIN] {
        let pos = motor.send_pos_control(0, 100, limit);
        assert_eq!(pos.data[4..], [0, 100, 0x07, 0xD0]);
        let vel = motor.send_vel_control(0, limit);
        assert_eq!(vel.data[4..], [0x07, 0xD0, 0, 0]);
    }
    assert_eq!(motor.send_pos_control(0, -1, 1).data[4..], [0xFF, 0xFF, 0, 1]);
    assert_eq!(motor.send_vel_control(0, 15).data[4..], [0, 15, 0, 0]);
}

#[test]
fn bare_messages_are_sent_on_their_own() {
    let mut motor = motor(7);
    for (msg_type, priority, dest) in [
        (MsgType::StartMotor, 3, 7),
        (MsgType::StopMotor, 3, 7),
        (MsgType::Estop, 0, 0xFF),
    ] {
        let frame = motor.send_bare(msg_type).unwrap();
        let parts = can_id_parts(frame.arbitration_id);
        assert_eq!(
            (parts.priority, parts.msg_type, parts.dest),
            (priority, msg_type.code(), dest)
        );
        assert_eq!(frame.data, [0; 8]);
    }
    for msg_type in [
        MsgType::SetZero,
        MsgType::ClearErrors,
        MsgType::ResetDevice,
        MsgType::QueryStatus,
        MsgType::QueryPosVel,
        MsgType::QueryDeviceInfo,
    ] {
        let frame = motor.send_bare(msg_type).unwrap();
        assert_eq!(can_id_parts(frame.arbitration_id).msg_type, msg_type.code());
    }
    assert!(motor.send_bare(MsgType::MitControl).is_none());
    assert!(motor.send_bare(MsgType::ParamWrite).is_none());
}

#[test]
fn broadcasts_reach_bitmap_members_only() {
    let bitmap = |dest: u8| rx(make_can_id(2, 0x80, dest, 0x0A, 0), [0; 8]);
    assert!(motor(3).accepts_frame(&bitmap(0b0000_1000)));
    assert!(!motor(3).accepts_frame(&bitmap(0b1111_0111)));
    assert!(!motor(9).accepts_frame(&bitmap(0b0000_0010)));
    assert!(motor(9).accepts_frame(&bitmap(0xFF)));
    assert!(motor(0).accepts_frame(&bitmap(0xFF)));
    assert!(motor(0x100).accepts_frame(&bitmap(0xFF)));
    // The lowest bit is device 0.
    assert!(motor(0).accepts_frame(&bitmap(0b0000_0001)));
    assert!(!motor(0).accepts_frame(&bitmap(0b1111_1110)));
    // A global destination is a broadcast whatever the message type is.
    assert!(motor(9).accepts_frame(&rx(make_can_id(0, 0xC0, 0xFF, 1, 0), [0; 8])));
}

#[test]
fn queries_update_their_own_fields() {
    let mut motor = motor(0x07);
    let id = |kind: MsgType| make_can_id(6, kind.code(), 1, 7, 0);
    let pair = |a: f32, b: f32| {
        let mut data = [0u8; 8];
        data[..4].copy_from_slice(&a.to_be_bytes());
        data[4..].copy_from_slice(&b.to_be_bytes());
        data
    };
    feed(&mut motor, rx(id(MsgType::Heartbeat), heartbeat_payload()), 0);
    let state = feed(&mut motor, rx(id(MsgType::QueryPosVel), pair(0.5, -1.0)), 1);
    assert_eq!(f32::from_bits(state.pos), PI);
    assert_eq!(f32::from_bits(state.vel), -2.0 * PI);
    assert_eq!(state.heartbeat_life, 2);
    // What a position answer does not carry stays as the heartbeat left it.
    let mut fresh = CyberBeastMotor::new(0x07, 0x07, "odrive-default").unwrap();
    let told = feed(&mut fresh, rx(id(MsgType::Heartbeat), heartbeat_payload()), 0);
    assert_eq!(state.current, told.current);
    assert_eq!(state.motor_temp, told.motor_temp);
    assert_eq!(state.error_flags, told.error_flags);
    let state = feed(&mut motor, rx(id(MsgType::QueryCurrent), pair(3.5, 9.0)), 2);
    assert_eq!(f32::from_bits(state.current), 3.5);
    let state = feed(&mut motor, rx(id(MsgType::QueryTemperature), pair(41.0, 42.0)), 3);
    assert_eq!(f32::from_bits(state.motor_temp), 41.0);
    assert_eq!(f32::from_bits(state.mos_temp), 42.0);
    let state = feed(
        &mut motor,
        rx(id(MsgType::QueryDeviceInfo), [0, 4, 2, 0x37, 0, 0, 6, 9]),
        4,
    );
    assert_eq!(state.hw_version, Some(0x0004_0237));
    assert_eq!(state.fw_version, Some(0x0000_0609));
    let state = feed(
        &mut motor,
        rx(id(MsgType::QueryError), [1, 0, 0, 0, 0, 0x10, 0, 0]),
        5,
    );
    assert_eq!(state.error_value, Some(0x0010_0000));
    let before = motor.latest_state();
    feed(&mut motor, rx(id(MsgType::QueryBus), pair(23.0, 0.1)), 6);
    feed(&mut motor, rx(id(MsgType::FaultAlert), [9; 8]), 7);
    assert_eq!(motor.latest_state(), before);
    // A heartbeat keeps what it does not carry.
    let state = feed(&mut motor, rx(id(MsgType::Heartbeat), heartbeat_payload()), 8);
    assert_eq!(f32::from_bits(state.mos_temp), 42.0);
    assert_eq!(state.hw_version, Some(0x0004_0237));
    assert_eq!(state.error_value, Some(0x0010_0000));
}

#[test]
fn heartbeats_and_position_answers_share_a_unit() {
    let unit = |kind: MsgType| {
        decode_feedback(&rx(make_can_id(6, kind.code(), 1, 7, 0), heartbeat_payload())).unit()
    };
    assert_eq!(unit(MsgType::Heartbeat), Some(PositionUnit::MotorTurns));
    assert_eq!(unit(MsgType::QueryPosVel), Some(PositionUnit::MotorTurns));
    assert_eq!(unit(MsgType::MitControl), Some(PositionUnit::OutputRadians));
    assert_eq!(unit(MsgType::QueryCurrent), None);
}

#[test]
fn mit_responses_keep_heartbeat_fields_and_apply_the_gear_ratio() {
    let mut motor = motor(0x04);
    let heartbeat = make_can_id(6, MsgType::Heartbeat.code(), 1, 4, 0);
    feed(&mut motor, rx(heartbeat, heartbeat_payload()), 0);
    let mit = make_can_id(2, MsgType::MitControl.code(), 1, 4, 0);
    let state = feed(
        &mut motor,
        rx(mit, [0x80, 0x00, 0x80, 0x05, 0x80, 0x03, 0x6E, 0x50]),
        1,
    );
    assert_eq!(state.error_flags, 0x03);
    assert_eq!(state.heartbeat_life, 2);
    assert_eq!(state.error_code, 5);
    assert_eq!(f32::from_bits(state.mos_temp), 30.0);
    assert_eq!(state.arbitration_id, mit);
}

#[test]
fn warm_up_repeats_lost_probes_and_then_stays_warm() {
    for lost in 0..4u32 {
        let mut motor = motor(0x01);
        let mut now = 1000;
        let mut warm_up = motor.warm_up(500, now);
        let mut probes = 0;
        let ready = loop {
            match motor.continue_warm_up(&mut warm_up, now) {
                WarmUpStep::Send(frame) => {
                    assert_eq!(can_id_parts(frame.arbitration_id).msg_type, 0x41);
                    probes += 1;
                    if probes > lost {
                        let id = make_can_id(5, 0x41, 1, 1, 0);
                        feed(&mut motor, rx(id, [0; 8]), now);
                    }
                }
                WarmUpStep::Wait => now += 10,
                WarmUpStep::Ready => break true,
                WarmUpStep::Failed(err) => panic!("{err:?}"),
            }
        };
        assert!(ready);
        assert_eq!(probes, lost + 1);
        assert_eq!(motor.tx_retries(), lost);
        // A second warm-up sends nothing.
        let mut again = motor.warm_up(500, now);
        assert!(matches!(
            motor.continue_warm_up(&mut again, now),
            WarmUpStep::Ready
        ));
    }
}

#[test]
fn warm_up_ignores_heartbeats_and_stale_answers() {
    let mut motor = motor(0x2A);
    feed(&mut motor, rx(make_can_id(5, 0x41, 1, 0x2A, 0), [0; 8]), 10);
    let mut now = 11;
    let mut warm_up = motor.warm_up(500, now);
    let mut probes = 0;
    let message = loop {
        match motor.continue_warm_up(&mut warm_up, now) {
            WarmUpStep::Send(_) => {
                probes += 1;
                let id = make_can_id(6, 0x48, 1, 0x2A, 0);
                feed(&mut motor, rx(id, heartbeat_payload()), now);
            }
            WarmUpStep::Wait => now += 10,
            WarmUpStep::Ready => panic!("nothing answered"),
            WarmUpStep::Failed(err) => {
                assert_eq!(err.kind(), ErrorKind::Timeout);
                break err.message().to_string();
            }
        }
    };
    assert_eq!(probes, 11);
    assert_eq!(
        message,
        "node 0x2A answered none of 11 warm-up probe(s) within 500ms"
    );
    // A clock that stands still does not make it endless.
    let mut stuck = motor.warm_up(0, u64::MAX);
    let mut sent = 0;
    while let WarmUpStep::Send(_) = motor.continue_warm_up(&mut stuck, u64::MAX) {
        sent += 1;
    }
    assert_eq!(sent, 2);
}
