//! End-to-end checks of the endpoint-map workflow, without a CAN device.
//!
//! An emulated node answers requests the way the firmware does; a rig carries frames
//! between it and the motors and advances the clock.

use cyberbeast::controller::ConnectStep;
use cyberbeast::models::Scaled;
use cyberbeast::motor::{DescriptorProgress, ProbeStep, RangeProbe, ReadProgress};
use cyberbeast::param_cache::{AckWait, FloatStep, FloatWait, ParamRead, WaitStep};
use cyberbeast::{
    can_id_parts, make_can_id, CanFrame, CyberBeastController, CyberBeastMotor, EndpointKind,
    ErrorKind, MitRanges, MotorError, MsgType, ParamReadout, ParamValue, ValueType,
};
use std::collections::HashMap;

const MOTOR_ID: u16 = 0x01;

/// Descriptor fixture in the device's own shape: nested `members`, a function under
/// `outputs`, and a `uint64` that needs a segmented read. Its length is above the 64-byte
/// minimum a metadata frame may declare.
const DESCRIPTOR: &str = r#"[{"name":"axis0","id":14,"type":"object","members":[
  {"name":"current_state","id":142,"type":"uint8","access":"r"},
  {"name":"motor","id":20,"type":"object","members":[{"name":"config","id":21,"type":"object","members":[
    {"name":"gear_ratio","id":242,"type":"float","access":"rw"},
    {"name":"serial_number","id":5,"type":"uint64","access":"r"}]}]}],
  "outputs":[{"name":"save_configuration","id":63,"type":"function"}]}]"#;

const RANGES: &str = r#"[{"name":"c","id":1,"type":"object","members":[
  {"name":"mit_max_pos","id":335,"type":"float","access":"rw"},
  {"name":"mit_max_vel","id":336,"type":"float","access":"rw"},
  {"name":"mit_max_torque","id":337,"type":"float","access":"rw"},
  {"name":"mit_max_kp","id":338,"type":"float","access":"rw"},
  {"name":"mit_max_kd","id":339,"type":"float","access":"rw"},
  {"name":"state","id":143,"type":"uint8","access":"rw"},
  {"name":"serial","id":5,"type":"uint64","access":"rw"},
  {"name":"gear_ratio","id":242,"type":"float","access":"rw"}]}]"#;

fn frame(msg_type: MsgType, data: [u8; 8], dlc: u8) -> CanFrame {
    CanFrame {
        arbitration_id: make_can_id(6, msg_type.code(), 0x01, MOTOR_ID as u8, 0),
        data,
        dlc,
        is_extended: true,
        is_rx: true,
    }
}

/// `[0x00, 0x00] | TotalLength (u32 LE) | VersionCRC (u16 LE)`
fn meta_frame(total_len: u32, version_crc: u16) -> CanFrame {
    let mut data = [0u8; 8];
    data[2..6].copy_from_slice(&total_len.to_le_bytes());
    data[6..8].copy_from_slice(&version_crc.to_le_bytes());
    frame(MsgType::JsonDescData, data, 8)
}

/// `ChunkOffset (u16 LE) | JSON bytes`
fn chunk_frame(offset: u16, chunk: &[u8]) -> CanFrame {
    let mut data = [0u8; 8];
    data[0..2].copy_from_slice(&offset.to_le_bytes());
    data[2..2 + chunk.len()].copy_from_slice(chunk);
    frame(MsgType::JsonDescData, data, (2 + chunk.len()) as u8)
}

/// `Flags | EndpointID (u16 BE) | DataLen | value (little-endian)`
fn param_read_frame(endpoint_id: u16, value: &[u8], more: bool) -> CanFrame {
    let mut data = [0u8; 8];
    data[0] = if more { 0x80 } else { 0x00 };
    data[1..3].copy_from_slice(&endpoint_id.to_be_bytes());
    data[3] = value.len() as u8;
    data[4..4 + value.len()].copy_from_slice(value);
    frame(MsgType::ParamRead, data, 8)
}

/// Data frames the firmware streams per continuation cycle (50 frames of 6 JSON bytes).
/// Reproducing the limit exercises the continuation path, and the firmware also repeats the
/// metadata frame on every cycle, which the host must ignore.
const CHUNKS_PER_CYCLE: usize = 50;

/// Emulates the node: it answers requests like the firmware does.
struct Device {
    descriptor: &'static str,
    version_crc: u16,
    params: HashMap<u16, Vec<u8>>,
    answering: bool,
    /// Number of the data frame (counted over the whole session) that gets lost.
    lose_chunk: Vec<usize>,
    /// Number of the parameter answer that gets lost.
    lose_param: Vec<usize>,
    chunks: usize,
    answers: usize,
    sent: Vec<CanFrame>,
}

impl Device {
    fn new(descriptor: &'static str) -> Self {
        Device {
            descriptor,
            version_crc: 0x3F82,
            params: HashMap::new(),
            answering: true,
            lose_chunk: Vec::new(),
            lose_param: Vec::new(),
            chunks: 0,
            answers: 0,
            sent: Vec::new(),
        }
    }

    fn answer(&mut self, request: &CanFrame) -> Vec<CanFrame> {
        self.sent.push(*request);
        let mut out = Vec::new();
        if !self.answering {
            return out;
        }
        let kind = can_id_parts(request.arbitration_id).msg_type;
        if kind == MsgType::JsonDescRead.code() {
            // The descriptor offset is little-endian.
            let offset = u32::from_le_bytes([
                request.data[0],
                request.data[1],
                request.data[2],
                request.data[3],
            ]);
            let bytes = self.descriptor.as_bytes();
            let start = (offset as usize).min(bytes.len());
            out.push(meta_frame(bytes.len() as u32, self.version_crc));
            for (index, chunk) in bytes[start..].chunks(6).take(CHUNKS_PER_CYCLE).enumerate() {
                if !self.lose_chunk.contains(&self.chunks) {
                    out.push(chunk_frame((start + index * 6) as u16, chunk));
                }
                self.chunks += 1;
            }
        } else if kind == MsgType::ParamRead.code() {
            let endpoint_id = ((request.data[1] as u16) << 8) | request.data[2] as u16;
            // The request offset is big-endian.
            let offset = u32::from_be_bytes([
                request.data[4],
                request.data[5],
                request.data[6],
                request.data[7],
            ]) as usize;
            if let Some(value) = self.params.get(&endpoint_id) {
                let start = offset.min(value.len());
                let end = (start + 4).min(value.len());
                if !self.lose_param.contains(&self.answers) {
                    out.push(param_read_frame(
                        endpoint_id,
                        &value[start..end],
                        end < value.len(),
                    ));
                }
                self.answers += 1;
            }
        } else if kind == MsgType::ParamWrite.code() {
            let endpoint_id = ((request.data[1] as u16) << 8) | request.data[2] as u16;
            let len = request.data[3] as usize;
            self.params
                .insert(endpoint_id, request.data[4..4 + len].to_vec());
            out.push(frame(MsgType::ParamWrite, request.data, 8));
        }
        out
    }

    fn requests(&self, kind: MsgType) -> usize {
        self.sent
            .iter()
            .filter(|frame| can_id_parts(frame.arbitration_id).msg_type == kind.code())
            .count()
    }
}

/// A node, a bus and a controller wired together.
struct TestRig {
    ctrl: CyberBeastController,
    device: Device,
    now: u64,
}

const UNSCALED: Scaled = Scaled {
    pos: 0,
    vel: 0,
    current: 0,
    motor_temp: 0,
    mos_temp: 0,
};

impl TestRig {
    fn new(descriptor: &'static str) -> Self {
        TestRig {
            ctrl: CyberBeastController::new(),
            device: Device::new(descriptor),
            now: 0,
        }
    }

    fn start() -> Self {
        Self::new(DESCRIPTOR)
    }

    /// Value the emulated node answers for `endpoint_id`.
    fn set_param(&mut self, endpoint_id: u16, value: &[u8]) {
        self.device.params.insert(endpoint_id, value.to_vec());
    }

    fn send(&mut self, request: CanFrame) {
        for answer in self.device.answer(&request) {
            for at in self.ctrl.accepting(&answer) {
                self.ctrl
                    .motor_at(at)
                    .process_feedback_frame(&answer, &UNSCALED, self.now);
            }
        }
    }

    fn load(&mut self, at: usize) -> Result<(), MotorError> {
        let started = self.ctrl.motor_at(at).ensure_endpoint_map(500, self.now);
        let Some((mut transfer, request)) = started else {
            return Ok(());
        };
        self.send(request);
        loop {
            let now = self.now;
            match self.ctrl.motor_at(at).continue_descriptor(&mut transfer, now) {
                DescriptorProgress::Wait => self.now += 2,
                DescriptorProgress::Send(request) => self.send(request),
                DescriptorProgress::Done(total_len, version_crc, bytes) => {
                    return self
                        .ctrl
                        .motor_at(at)
                        .load_endpoint_map(total_len, version_crc, bytes);
                }
                DescriptorProgress::Failed(err) => return Err(err),
            }
        }
    }

    fn add_motor(&mut self) -> Result<usize, MotorError> {
        let (at, mut transfer, request) =
            self.ctrl
                .add_motor(MOTOR_ID, MOTOR_ID, "odrive-default", self.now)?;
        self.send(request);
        loop {
            let now = self.now;
            match self.ctrl.continue_connect(at, &mut transfer, now) {
                ConnectStep::Wait => self.now += 2,
                ConnectStep::Send(request) => self.send(request),
                ConnectStep::Ready => return Ok(at),
                ConnectStep::Failed(err) => return Err(err),
            }
        }
    }

    fn connect(&mut self) -> usize {
        self.add_motor().expect("connecting loads the endpoint map")
    }

    fn motor(&self) -> &CyberBeastMotor {
        self.ctrl.get_motor(MOTOR_ID).expect("registered")
    }

    fn read_raw(
        &mut self,
        at: usize,
        endpoint_id: u16,
        timeout_ms: u64,
    ) -> Result<Vec<u8>, MotorError> {
        let now = self.now;
        let (mut read, request) = self
            .ctrl
            .motor_at(at)
            .read_param_raw(endpoint_id, timeout_ms, now);
        self.send(request);
        self.finish_read(at, &mut read)
    }

    fn finish_read(&mut self, at: usize, read: &mut ParamRead) -> Result<Vec<u8>, MotorError> {
        loop {
            let now = self.now;
            match self.ctrl.motor_at(at).continue_read(read, now) {
                ReadProgress::Wait => self.now += 2,
                ReadProgress::Send(request) => self.send(request),
                ReadProgress::Done(bytes) => return Ok(bytes),
                ReadProgress::Failed(err) => return Err(err),
            }
        }
    }

    fn read_param_value(
        &mut self,
        at: usize,
        endpoint_id: u16,
        timeout_ms: u64,
    ) -> Result<ParamReadout, MotorError> {
        let now = self.now;
        let (mut read, request) = self
            .ctrl
            .motor_at(at)
            .start_read_value(endpoint_id, timeout_ms, now)?;
        self.send(request);
        let raw = self.finish_read(at, &mut read)?;
        self.ctrl.motor_at(at).read_param_value(endpoint_id, raw)
    }
}

fn f32_value(value: f32) -> ParamValue {
    ParamValue::F32(value.to_bits())
}

#[test]
fn add_motor_loads_and_caches_the_endpoint_map() {
    let mut rig = TestRig::start();

    let at = rig.connect();

    let map = rig
        .motor()
        .endpoint_map()
        .expect("the map is cached on the handle");
    assert_eq!(map.len(), 7);
    assert_eq!(map.total_len(), DESCRIPTOR.len() as u32);
    assert_eq!(map.version_crc(), 0x3F82);
    assert_eq!(map.get(242).unwrap().path, "axis0.motor.config.gear_ratio");
    assert_eq!(map.get(242).unwrap().value_type(), Some(ValueType::F32));
    assert_eq!(map.get(5).unwrap().value_type(), Some(ValueType::U64));
    assert_eq!(map.get(63).unwrap().kind, EndpointKind::Function);
    assert_eq!(map.resolve("gear_ratio").unwrap().endpoint_id, 242);
    assert_eq!(map.json_text(), DESCRIPTOR);

    // The table belongs to the handle, so a later lookup needs no transfer at all.
    let registered = rig
        .ctrl
        .get_motor(MOTOR_ID)
        .expect("the node stays registered");
    assert_eq!(registered.endpoint_map().unwrap().version_crc(), 0x3F82);
    // The descriptor is longer than one stream cycle, so exactly one continuation request is
    // expected -- and no re-fetch beyond that.
    assert_eq!(
        rig.device.requests(MsgType::JsonDescRead),
        2,
        "one request plus one continuation for {} bytes",
        DESCRIPTOR.len()
    );
    rig.load(at).expect("already loaded");
    assert_eq!(rig.device.requests(MsgType::JsonDescRead), 2);
}

#[test]
fn read_param_value_uses_the_device_declared_type() {
    let mut rig = TestRig::start();
    rig.set_param(242, &[0x00, 0x00, 0xF8, 0x40]); // 7.75, the hardware value
    rig.set_param(5, &[0xEF, 0xCD, 0xAB, 0x89, 0x67, 0x45, 0x23, 0x01]);
    rig.set_param(142, &[0x01]);
    let at = rig.connect();

    let ratio = rig.read_param_value(at, 242, 200).expect("typed float read");
    assert_eq!(ratio.value, f32_value(7.75));
    assert_eq!(ratio.declared, "float");
    assert_eq!(ratio.access.label(), "rw");
    assert!(ratio.access.is_writable());
    assert_eq!(ratio.path.as_deref(), Some("axis0.motor.config.gear_ratio"));
    assert_eq!(ratio.raw, vec![0x00, 0x00, 0xF8, 0x40]);

    // uint64 needs two cycles: the first answer carries the More flag
    let serial = rig.read_param_value(at, 5, 200).expect("segmented read");
    assert_eq!(serial.value, ParamValue::U64(0x0123_4567_89AB_CDEF));
    assert_eq!(serial.raw.len(), 8);
    assert_eq!(serial.declared, "uint64");

    // uint8 stays a uint8 instead of being widened into a float
    let state = rig.read_param_value(at, 142, 200).expect("uint8 read");
    assert_eq!(state.value, ParamValue::U8(1));
    assert_eq!(state.access.label(), "r");
    assert!(!state.access.is_writable());
    assert_eq!(rig.motor().tx_retries(), 0);
}

#[test]
fn repeated_reads_return_fresh_values() {
    let mut rig = TestRig::start();
    rig.set_param(242, &[0x00, 0x00, 0xF8, 0x40]); // 7.75
    let at = rig.connect();

    let first = rig.read_param_value(at, 242, 200).expect("first read");
    assert_eq!(first.value, f32_value(7.75));

    rig.set_param(242, &[0x00, 0x00, 0x08, 0x41]); // 8.5
    let second = rig.read_param_value(at, 242, 200).expect("second read");
    assert_eq!(
        second.value,
        f32_value(8.5),
        "a second read must ask the device, not replay the cached answer"
    );

    // The request-then-wait pair the C ABI uses (and therefore Python) must not hand out the
    // previous read's value either.
    rig.set_param(242, &[0x00, 0x00, 0x18, 0x41]); // 9.5
    let request = rig.ctrl.motor_at(at).send_param_read(242);
    let wait = FloatWait {
        endpoint_id: 242,
        since_ms: rig.now,
        timeout_ms: 200,
    };
    assert!(matches!(
        rig.motor().get_param_f32(&wait, rig.now),
        FloatStep::Wait
    ));
    rig.send(request);
    match rig.motor().get_param_f32(&wait, rig.now) {
        FloatStep::Done(polled) => assert_eq!(
            f32::from_bits(polled),
            9.5,
            "the polled value must come from this request"
        ),
        other => panic!("{other:?}"),
    }
}

#[test]
fn read_param_value_reports_unknown_and_non_value_endpoints() {
    let mut rig = TestRig::start();
    let at = rig.connect();

    let unknown = rig.read_param_value(at, 999, 50).unwrap_err();
    assert!(
        unknown
            .message()
            .contains("is not in the device's endpoint map"),
        "{unknown:?}"
    );

    let function = rig.read_param_value(at, 63, 50).unwrap_err();
    assert!(
        function.message().contains("declared \"function\""),
        "{function:?}"
    );
    assert!(
        function.message().contains("save_configuration"),
        "{function:?}"
    );
    assert_eq!(rig.device.requests(MsgType::ParamRead), 0);
}

#[test]
fn add_motor_fails_when_the_node_does_not_describe_itself() {
    // No device: the bus stays silent.
    let mut rig = TestRig::start();
    rig.device.answering = false;

    let message = match rig.add_motor() {
        Ok(_) => panic!("a silent node must not produce a handle"),
        Err(err) => {
            assert_eq!(err.kind(), ErrorKind::Timeout);
            err.message().to_string()
        }
    };

    assert!(
        message.contains("loading the endpoint descriptor from node 0x01"),
        "{message}"
    );
    assert_eq!(
        message,
        "loading the endpoint descriptor from node 0x01: no JSON descriptor metadata from node \
         0x01 within 1s (wrong node id, silent node, or no access to the endpoint map?)"
    );
    assert!(
        rig.device.requests(MsgType::JsonDescRead) >= 1,
        "the descriptor must have been requested"
    );
    assert_eq!(rig.device.requests(MsgType::JsonDescRead), 5);
    // A wrong node id must fail quickly, not after 64 quiet windows.
    assert!(rig.now < 3000, "took {} ms", rig.now);
}

#[test]
fn add_motor_probe_stays_off_the_bus() {
    let mut rig = TestRig::start();

    rig.ctrl
        .add_motor_probe(MOTOR_ID, MOTOR_ID, "odrive-default")
        .expect("probe");

    assert!(rig.motor().endpoint_map().is_none());
    assert_eq!(rig.device.requests(MsgType::JsonDescRead), 0);
    assert!(rig.device.sent.is_empty());
}

#[test]
fn a_probed_motor_can_load_its_map_later() {
    let mut rig = TestRig::start();
    let at = rig
        .ctrl
        .add_motor_probe(MOTOR_ID, MOTOR_ID, "odrive-default")
        .expect("probe");
    rig.load(at).expect("the node answers");
    assert_eq!(rig.motor().endpoint_map().unwrap().json_text(), DESCRIPTOR);
    // The node pauses once within the descriptor, so it is asked twice.
    assert_eq!(rig.device.requests(MsgType::JsonDescRead), 2);
}

#[test]
fn refused_reads_send_nothing() {
    let mut rig = TestRig::start();
    let at = rig.connect();
    let before = rig.device.sent.len();
    // A function has no value, and an id outside the table has no type.
    assert!(rig.read_param_value(at, 63, 50).is_err());
    assert!(rig.read_param_value(at, 0x0FFF, 50).is_err());
    assert_eq!(rig.device.sent.len(), before);

    let mut unloaded = CyberBeastMotor::new(MOTOR_ID, MOTOR_ID, "odrive-default").expect("motor");
    let err = unloaded.start_read_value(242, 50, 0).unwrap_err();
    assert_eq!(err.kind(), ErrorKind::Unsupported);
}

#[test]
fn reading_without_a_loaded_map_is_reported_honestly() {
    let motor = CyberBeastMotor::new(MOTOR_ID, MOTOR_ID, "odrive-default").expect("motor");

    let err = motor.readable_type(242).unwrap_err();
    assert!(
        err.message()
            .contains("endpoint map of this motor is not loaded"),
        "{err:?}"
    );
    let err = motor.read_param_value(242, vec![0; 4]).unwrap_err();
    assert_eq!(err.kind(), ErrorKind::Unsupported);
    assert!(
        err.message()
            .contains("endpoint map of this motor is not loaded"),
        "{err:?}"
    );
}

#[test]
fn lost_chunks_are_asked_for_again() {
    for lost in [vec![0], vec![10], vec![49], vec![3, 60, 62]] {
        let mut rig = TestRig::start();
        rig.device.lose_chunk = lost;
        rig.connect();
        let map = rig.motor().endpoint_map().unwrap();
        assert_eq!(map.json_text(), DESCRIPTOR);
        assert_eq!(map.len(), 7);
    }
}

#[test]
fn a_node_that_never_fills_a_hole_is_reported() {
    let mut rig = TestRig::start();
    rig.device.lose_chunk = (0..100000).collect();
    let err = rig.add_motor().unwrap_err();
    assert_eq!(err.kind(), ErrorKind::Timeout);
    assert!(
        err.message()
            .contains("transfer stopped at byte 0 of 431: 3 requests brought no new byte"),
        "{err:?}"
    );
    assert_eq!(DESCRIPTOR.len(), 431);
    assert_eq!(rig.device.requests(MsgType::JsonDescRead), 3);
}

#[test]
fn lost_parameter_answers_are_asked_for_again() {
    let mut rig = TestRig::start();
    rig.set_param(242, &[0x00, 0x00, 0xF8, 0x40]);
    rig.set_param(5, &[1, 2, 3, 4, 5, 6, 7, 8]);
    let at = rig.connect();
    rig.device.lose_param = vec![0, 1];
    assert_eq!(
        rig.read_param_value(at, 242, 200).unwrap().value,
        f32_value(7.75)
    );
    assert_eq!(rig.motor().tx_retries(), 2);
    // The second answer of a segmented value is lost once.
    rig.device.lose_param = vec![4];
    assert_eq!(
        rig.read_param_value(at, 5, 200).unwrap().raw,
        vec![1, 2, 3, 4, 5, 6, 7, 8]
    );
    assert_eq!(rig.motor().tx_retries(), 3);
    // A node that never answers is reported, no bytes are made up.
    rig.device.answering = false;
    let err = rig.read_param_value(at, 242, 200).unwrap_err();
    assert_eq!(err.kind(), ErrorKind::Timeout);
    assert_eq!(err.message(), "timeout waiting for param read 0x00F2");
}

#[test]
fn writes_follow_the_declared_width() {
    let mut rig = TestRig::new(RANGES);
    let at = rig.connect();
    let request = rig
        .ctrl
        .motor_at(at)
        .set_param_value(143, ParamValue::U8(8), "")
        .unwrap();
    assert_eq!(request.data, [0, 0, 143, 1, 8, 0, 0, 0]);
    let wait = AckWait {
        endpoint_id: 143,
        since_ms: rig.now,
        timeout_ms: 200,
    };
    assert!(matches!(
        rig.motor().wait_for_write_ack(&wait, rig.now),
        WaitStep::Wait
    ));
    rig.send(request);
    assert!(matches!(
        rig.motor().wait_for_write_ack(&wait, rig.now),
        WaitStep::Done(_)
    ));
    assert_eq!(
        rig.read_param_value(at, 143, 200).unwrap().value,
        ParamValue::U8(8)
    );
    // The earlier acknowledgement does not count for the next write.
    let request = rig
        .ctrl
        .motor_at(at)
        .set_param_f32(242, 7.75f32.to_bits())
        .unwrap();
    assert_eq!(request.data, [0, 0, 242, 4, 0, 0, 0xF8, 0x40]);
    let wait = AckWait {
        endpoint_id: 242,
        since_ms: rig.now,
        timeout_ms: 200,
    };
    match rig.motor().wait_for_write_ack(&wait, rig.now + 201) {
        WaitStep::Failed(err) => {
            assert_eq!(err.message(), "timeout waiting for param write ack 0x00F2")
        }
        other => panic!("{other:?}"),
    }
    rig.send(request);
    assert_eq!(
        rig.read_param_value(at, 242, 200).unwrap().value,
        f32_value(7.75)
    );
    let request = rig
        .ctrl
        .motor_at(at)
        .set_param_bytes(143, &[8, 0])
        .unwrap();
    assert_eq!(request.data, [0, 0, 143, 2, 8, 0, 0, 0]);
}

#[test]
fn refused_writes_send_nothing() {
    let mut rig = TestRig::new(RANGES);
    let at = rig.connect();
    let sent = rig.device.sent.len();
    let motor = rig.ctrl.motor_at(at);
    let refuse = |result: Result<CanFrame, MotorError>| {
        let err = result.unwrap_err();
        (err.kind(), err.message().to_string())
    };
    assert_eq!(
        refuse(motor.set_param_bytes(143, &[0; 5])),
        (
            ErrorKind::InvalidArgument,
            "5 value bytes; a classic-CAN PARAM_WRITE carries at most 4".to_string()
        )
    );
    assert_eq!(
        refuse(motor.set_param_f32(999, 0)),
        (
            ErrorKind::InvalidArgument,
            "endpoint 0x03E7 (999) is not in the device's endpoint map (9 entries)".to_string()
        )
    );
    assert_eq!(
        refuse(motor.set_param_f32(143, 0)),
        (
            ErrorKind::InvalidArgument,
            "endpoint 0x008F (c.state) is declared \"uint8\", not \"float\"".to_string()
        )
    );
    assert_eq!(
        refuse(motor.set_param_value(143, f32_value(8.0), "8.0")),
        (
            ErrorKind::InvalidArgument,
            "endpoint 0x008F is declared \"uint8\" but the value to write is F32(8.0)".to_string()
        )
    );
    let wide = refuse(motor.set_param_value(5, ParamValue::U64(1), ""));
    assert_eq!(wide.0, ErrorKind::Unsupported);
    assert!(wide.1.starts_with("endpoint 0x0005 is declared uint64 (8 bytes); a classic-CAN"));
    assert_eq!(
        refuse(motor.set_param_f32(1, 0)),
        (
            ErrorKind::InvalidArgument,
            "endpoint 0x0001 (c) is declared access=\"-\"; refusing to write it".to_string()
        )
    );
    assert_eq!(rig.device.sent.len(), sent);

    let mut bare = CyberBeastMotor::new(2, 2, "odrive-pro").unwrap();
    assert!(bare.set_param_f32(999, 0).is_ok());
    let err = bare
        .set_param_value(999, ParamValue::U8(0), "")
        .unwrap_err();
    assert!(err.message().contains("is not loaded, so the width"));
}

#[test]
fn mit_ranges_come_from_the_device() {
    let mut rig = TestRig::new(RANGES);
    for (id, value) in [(335, 12.5f32), (336, 65.0), (337, 50.0), (338, 500.0), (339, 5.0)] {
        rig.set_param(id, &value.to_le_bytes());
    }
    let at = rig.connect();
    let mut probe = RangeProbe::new();
    let mut asked = Vec::new();
    let mut step = rig.ctrl.motor_at(at).probe_mit_ranges(&mut probe, None, "");
    let ranges = loop {
        match step {
            ProbeStep::Read(id) => {
                asked.push(id);
                let answer = rig.read_param_value(at, id, 150);
                step = rig
                    .ctrl
                    .motor_at(at)
                    .probe_mit_ranges(&mut probe, Some(answer), "");
            }
            ProbeStep::Done(ranges) => break ranges,
            ProbeStep::Failed(err) => panic!("{err:?}"),
        }
    };
    assert_eq!(asked, vec![335, 336, 338, 339, 337]);
    assert_eq!(f32::from_bits(ranges.pos), 12.5);
    assert_eq!(f32::from_bits(ranges.vel), 65.0);
    assert_eq!(f32::from_bits(ranges.kp), 500.0);
    assert_eq!(f32::from_bits(ranges.kd), 5.0);
    assert_eq!(f32::from_bits(ranges.torque), 50.0);
    assert!(rig.motor().mit_ranges_from_device());
    assert_eq!(rig.motor().mit_ranges(), ranges);
    rig.ctrl.motor_at(at).settle_mit_ranges(&Ok(ranges));
    assert_eq!(rig.motor().mit_ranges(), ranges);
    // A later failure puts the defaults back in force.
    let failure = Err(MotorError::Timeout("silent".to_string()));
    rig.ctrl.motor_at(at).settle_mit_ranges(&failure);
    assert!(!rig.motor().mit_ranges_from_device());
    assert_eq!(rig.motor().mit_ranges(), MitRanges::default());
    assert_eq!(rig.motor().mit_ranges_note(), Some("silent"));
    // An answer of another endpoint does not count.
    let mut probe = RangeProbe::new();
    let answer = rig.read_param_value(at, 336, 150);
    match rig
        .ctrl
        .motor_at(at)
        .probe_mit_ranges(&mut probe, Some(answer), "65")
    {
        ProbeStep::Failed(err) => {
            assert_eq!(err.kind(), ErrorKind::Protocol);
            assert_eq!(
                err.message(),
                "endpoint 0x014F was asked for, but the answer is of 0x0150"
            );
        }
        other => panic!("{other:?}"),
    }
    let answer = rig.read_param_value(at, 336, 150);
    let err = rig
        .ctrl
        .motor_at(at)
        .probe_gear_ratio(answer, "65")
        .unwrap_err();
    assert_eq!(
        err.message(),
        "endpoint 0x00F2 was asked for, but the answer is of 0x0150"
    );
    assert!(!rig.motor().gear_ratio_from_device());
}

#[test]
fn unusable_mit_ranges_are_named() {
    let mut rig = TestRig::new(RANGES);
    rig.set_param(335, &0.0f32.to_le_bytes());
    let at = rig.connect();
    let before = rig.motor().mit_ranges();
    let probe_once = |rig: &mut TestRig, text: &str| {
        let mut probe = RangeProbe::new();
        let answer = rig.read_param_value(at, 335, 100);
        match rig
            .ctrl
            .motor_at(at)
            .probe_mit_ranges(&mut probe, Some(answer), text)
        {
            ProbeStep::Failed(err) => err,
            other => panic!("{other:?}"),
        }
    };
    assert_eq!(
        probe_once(&mut rig, "0").message(),
        "endpoint mit_max_pos declares 0, which cannot scale an MIT field"
    );
    rig.device.answering = false;
    let err = probe_once(&mut rig, "");
    assert_eq!(err.kind(), ErrorKind::Timeout);
    assert_eq!(
        err.message(),
        "MIT range endpoint \"mit_max_pos\" (0x014F): timeout waiting for param read 0x014F"
    );
    assert_eq!(rig.motor().mit_ranges(), before);
    assert!(!rig.motor().mit_ranges_from_device());
    rig.ctrl
        .motor_at(at)
        .note_mit_ranges_failure(err.message().to_string());
    assert_eq!(rig.motor().mit_ranges_note(), Some(err.message()));
    // A device without such an endpoint, and a motor without a map.
    let mut plain = TestRig::start();
    let at = plain.connect();
    let mut probe = RangeProbe::new();
    match plain.ctrl.motor_at(at).probe_mit_ranges(&mut probe, None, "") {
        ProbeStep::Failed(err) => {
            assert_eq!(err.kind(), ErrorKind::Unsupported);
            assert!(err
                .message()
                .starts_with("MIT range endpoint \"mit_max_pos\": no endpoint matches"));
        }
        other => panic!("{other:?}"),
    }
    let mut bare = CyberBeastMotor::new(2, 2, "odrive-pro").unwrap();
    assert!(matches!(
        bare.probe_mit_ranges(&mut probe, None, ""),
        ProbeStep::Failed(_)
    ));
}

#[test]
fn gear_ratio_comes_from_the_device() {
    let mut rig = TestRig::start();
    rig.set_param(242, &7.75f32.to_le_bytes());
    let at = rig.connect();
    assert_eq!(rig.motor().gear_ratio_endpoint().unwrap(), 242);
    let answer = rig.read_param_value(at, 242, 200);
    let ratio = rig.ctrl.motor_at(at).probe_gear_ratio(answer, "7.75").unwrap();
    assert_eq!(f32::from_bits(ratio), 7.75);
    assert!(rig.motor().gear_ratio_from_device());
    rig.set_param(242, &f32::INFINITY.to_le_bytes());
    let answer = rig.read_param_value(at, 242, 200);
    let err = rig
        .ctrl
        .motor_at(at)
        .probe_gear_ratio(answer, "inf")
        .unwrap_err();
    assert_eq!(
        err.message(),
        "endpoint axis0.motor.config.gear_ratio declares inf, which cannot be a gear ratio"
    );
    assert_eq!(f32::from_bits(rig.motor().gear_ratio()), 7.75);
    rig.set_param(242, &[1, 2]);
    let answer = rig.read_param_value(at, 242, 200);
    let err = rig.ctrl.motor_at(at).probe_gear_ratio(answer, "").unwrap_err();
    assert_eq!(err.kind(), ErrorKind::Protocol);
    assert!(err
        .message()
        .starts_with("gear ratio endpoint \"axis0.motor.config.gear_ratio\" (0x00F2): endpoint is"));
}

#[test]
fn current_range_is_derived_or_falls_back() {
    let mut motor = CyberBeastMotor::new(1, 1, "odrive-default").unwrap();
    let raw = CyberBeastMotor::read_param_f32(0x0151, &50.0f32.to_le_bytes().to_vec()).unwrap();
    assert_eq!(f32::from_bits(raw), 50.0);
    let err = CyberBeastMotor::read_param_f32(0x0151, &vec![1]).unwrap_err();
    assert_eq!(
        err.message(),
        "endpoint 0x0151 returned 1 byte(s), expected 4 (float32)"
    );
    let range = motor
        .probe_mit_current_range(
            5.0f32.to_bits(),
            0.1f32.to_bits(),
            (5.0f32 / 0.1f32).to_bits(),
            "5",
            "0.1",
        )
        .unwrap();
    assert_eq!(f32::from_bits(range), 50.0);
    assert_eq!(f32::from_bits(motor.mit_current_limit()), 50.0);
    let err = motor
        .probe_mit_current_range(0, 0.1f32.to_bits(), 0, "0", "0.1")
        .unwrap_err();
    assert_eq!(
        err.message(),
        "cannot derive the MIT response current range from mit_max_torque=0 Nm and \
         torque_constant=0.1 Nm/A; keeping the 40 A fallback"
    );
    assert_eq!(f32::from_bits(motor.mit_current_limit()), 40.0);
}

#[test]
fn other_widths_are_reported_instead_of_a_timeout() {
    let mut rig = TestRig::start();
    rig.set_param(142, &[1]);
    rig.set_param(5, &[0; 8]);
    let at = rig.connect();
    for (id, text) in [
        (142u16, "endpoint 0x008E answered with 1 byte(s); get_param_f32"),
        (
            5,
            "endpoint 0x0005 answered with 4 byte(s) and the More flag set (segmented value); get",
        ),
    ] {
        let since_ms = rig.now;
        let request = rig.ctrl.motor_at(at).send_param_read(id);
        rig.send(request);
        let wait = FloatWait {
            endpoint_id: id,
            since_ms,
            timeout_ms: 200,
        };
        // The wait may also begin after the answer.
        let late = FloatWait {
            since_ms: since_ms + 10,
            timeout_ms: 50,
            ..wait
        };
        for (wait, now) in [(wait, since_ms + 201), (late, since_ms + 61)] {
            match rig.motor().get_param_f32(&wait, now) {
                FloatStep::Failed(err) => {
                    assert_eq!(err.kind(), ErrorKind::Unsupported);
                    assert!(err.message().starts_with(text), "{err:?}");
                }
                other => panic!("{other:?}"),
            }
        }
    }
    // A value that has grown too old is no answer, but no other width either.
    rig.set_param(242, &7.75f32.to_le_bytes());
    let since_ms = rig.now;
    let request = rig.ctrl.motor_at(at).send_param_read(242);
    rig.send(request);
    let wait = FloatWait {
        endpoint_id: 242,
        since_ms: since_ms + 1000,
        timeout_ms: 50,
    };
    match rig.motor().get_param_f32(&wait, since_ms + 1051) {
        FloatStep::Failed(err) => assert_eq!(err.kind(), ErrorKind::Timeout),
        other => panic!("{other:?}"),
    }
}

#[test]
fn descriptors_must_describe_something() {
    let mut motor = CyberBeastMotor::new(1, 1, "odrive-default").unwrap();
    let err = motor
        .load_endpoint_map(2, 0x12, b"[]".to_vec())
        .unwrap_err();
    assert_eq!(err.kind(), ErrorKind::Protocol);
    assert_eq!(
        err.message(),
        "endpoint descriptor (2 bytes, VersionCRC=0x0012) describes no endpoints"
    );
    let err = motor
        .load_endpoint_map(1, 0x12, vec![0xFF])
        .unwrap_err();
    assert!(err
        .message()
        .starts_with("endpoint descriptor is not valid UTF-8: invalid utf-8"));
    let err = motor
        .load_endpoint_map(1, 0x12, b"{".to_vec())
        .unwrap_err();
    assert!(err.message().contains("not valid JSON"));
    assert!(motor.endpoint_map().is_none());
    let (len, crc, json) =
        CyberBeastMotor::read_endpoint_descriptor(4, 7, "[\"é\"]".as_bytes().to_vec()).unwrap();
    assert_eq!((len, crc, json.as_str()), (4, 7, "[\"é\"]"));
}

#[test]
fn controllers_keep_node_ids_distinct() {
    let mut ctrl = CyberBeastController::new();
    assert_eq!(ctrl.add_motor_probe(1, 1, "odrive-pro").unwrap(), 0);
    let (at, _, request) = ctrl
        .add_motor_with_master(2, 2, "odrive-pro", 0x0A, 0)
        .unwrap();
    assert_eq!(at, 1);
    let asked = can_id_parts(request.arbitration_id);
    assert_eq!((asked.msg_type, asked.dest, asked.source), (0x24, 2, 0x0A));
    assert!(ctrl.add_motor(2, 2, "odrive-pro", 0).is_err());
    assert_eq!(ctrl.len(), 2);
    assert_eq!(
        ctrl.add_motor_probe(1, 1, "odrive-pro").unwrap_err().message(),
        "motor 0x01 is already registered"
    );
    assert!(ctrl.add_motor_probe(3, 3, "no-such-model").is_err());
    assert_eq!(
        ctrl.get_motor(3).unwrap_err().message(),
        "motor 0x03 is not registered"
    );
    assert_eq!(ctrl.get_motor(2).unwrap().master_id, 0x0A);
    let frames = ctrl.enable_all();
    let ids: Vec<(u8, u8, u8)> = frames
        .iter()
        .map(|frame| can_id_parts(frame.arbitration_id))
        .map(|parts| (parts.msg_type, parts.dest, parts.source))
        .collect();
    assert_eq!(ids, vec![(0x62, 1, 1), (0x62, 2, 0x0A)]);
    let seqs: Vec<u8> = ctrl
        .disable_all()
        .iter()
        .map(|frame| can_id_parts(frame.arbitration_id).seq)
        .collect();
    assert_eq!(seqs, vec![1, 2]);
    let mut heard = frame(MsgType::Heartbeat, [0; 8], 8);
    assert_eq!(ctrl.accepting(&heard), vec![0]);
    heard.arbitration_id = make_can_id(0, 0xC0, 0xFF, 9, 0);
    assert_eq!(ctrl.accepting(&heard), vec![0, 1]);
}
