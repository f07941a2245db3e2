//! Frames of the CyberBeast CAN protocol (version 2.4 and later), classic CAN.
//!
//! The 29-bit identifier is `Priority[28:26] | MsgType[25:18] | Dest[17:10] |
//! Source[9:2] | Seq[1:0]`; every payload is eight bytes. Numbers in control and query
//! frames are big-endian, parameter values and descriptor fields little-endian. A
//! float is carried as its IEEE 754 bit pattern, a scaled quantity as its raw count.

use vstd::prelude::*;

use crate::values;

verus! {

/// Destination address of a global broadcast.
pub const ADDR_BROADCAST: u8 = 0xFF;

/// Number of devices that a broadcast bitmap can address.
pub const MAX_BROADCAST_DEVICES: u8 = 8;

/// Node id that the host uses when none is given.
pub const DEFAULT_MASTER_ID: u8 = 1;

/// Longest descriptor that can be transferred: `ChunkOffset` has 16 bits.
pub const JSON_DESC_MAX_LEN: u32 = 65535;

/// Most bytes that data frames can fill: the last one starts at offset 65535 at the latest
/// and carries six bytes, of which some may lie behind the end of the descriptor.
pub const JSON_DESC_MAX_BYTES: usize = 65541;

/// Shortest descriptor length that a metadata frame may declare.
pub const JSON_DESC_MIN_BYTES: u32 = 64;

/// One classic CAN frame.
#[derive(Debug, Clone, Copy)]
pub struct CanFrame {
    pub arbitration_id: u32,
    pub data: [u8; 8],
    pub dlc: u8,
    pub is_extended: bool,
    pub is_rx: bool,
}

/// The mathematical content of a [`CanFrame`].
#[verifier::ext_equal]
pub struct FrameView {
    pub arbitration_id: u32,
    pub data: Seq<u8>,
    pub dlc: u8,
    pub is_extended: bool,
    pub is_rx: bool,
}

impl View for CanFrame {
    type V = FrameView;

    open spec fn view(&self) -> FrameView {
        FrameView {
            arbitration_id: self.arbitration_id,
            data: self.data@,
            dlc: self.dlc,
            is_extended: self.is_extended,
            is_rx: self.is_rx,
        }
    }
}

/// Priority field of the identifier; a lower value wins the bus.
#[derive(Debug, Clone, Copy, PartialEq, Eq, Structural)]
pub enum Priority {
    Critical,
    HighCtrl,
    Ctrl,
    Config,
    Query,
    Status,
}

impl Priority {
    /// The value of the priority field.
    pub open spec fn number(self) -> u8 {
        match self {
            Priority::Critical => 0,
            Priority::HighCtrl => 2,
            Priority::Ctrl => 3,
            Priority::Config => 4,
            Priority::Query => 5,
            Priority::Status => 6,
        }
    }

    /// The value of the priority field.
    pub fn code(self) -> (res: u8)
        ensures
            res == self.number(),
    {
        match self {
            Priority::Critical => 0,
            Priority::HighCtrl => 2,
            Priority::Ctrl => 3,
            Priority::Config => 4,
            Priority::Query => 5,
            Priority::Status => 6,
        }
    }
}

/// Message type field of the identifier.
#[derive(Debug, Clone, Copy, PartialEq, Eq, Structural)]
pub enum MsgType {
    MitControl,
    PosControl,
    VelControl,
    TorqueControl,
    CurrentControl,
    ParamRead,
    ParamWrite,
    ConfigSave,
    ConfigReset,
    JsonDescRead,
    JsonDescData,
    QueryStatus,
    QueryPosVel,
    QueryCurrent,
    QueryTemperature,
    QueryBus,
    QueryError,
    QueryDeviceInfo,
    QueryPower,
    Heartbeat,
    StatusFeedback,
    SetNodeId,
    SetZero,
    StartMotor,
    StopMotor,
    ResetDevice,
    ClearErrors,
    MitBroadcast,
    PosBroadcast,
    VelBroadcast,
    TorqueBroadcast,
    Estop,
    FaultAlert,
}

impl MsgType {
    /// The value of the message type field.
    pub open spec fn number(self) -> u8 {
        match self {
            MsgType::MitControl => 0x00,
            MsgType::PosControl => 0x01,
            MsgType::VelControl => 0x02,
            MsgType::TorqueControl => 0x03,
            MsgType::CurrentControl => 0x04,
            MsgType::ParamRead => 0x20,
            MsgType::ParamWrite => 0x21,
            MsgType::ConfigSave => 0x22,
            MsgType::ConfigReset => 0x23,
            MsgType::JsonDescRead => 0x24,
            MsgType::JsonDescData => 0x25,
            MsgType::QueryStatus => 0x40,
            MsgType::QueryPosVel => 0x41,
            MsgType::QueryCurrent => 0x42,
            MsgType::QueryTemperature => 0x43,
            MsgType::QueryBus => 0x44,
            MsgType::QueryError => 0x45,
            MsgType::QueryDeviceInfo => 0x46,
            MsgType::QueryPower => 0x47,
            MsgType::Heartbeat => 0x48,
            MsgType::StatusFeedback => 0x49,
            MsgType::SetNodeId => 0x60,
            MsgType::SetZero => 0x61,
            MsgType::StartMotor => 0x62,
            MsgType::StopMotor => 0x63,
            MsgType::ResetDevice => 0x64,
            MsgType::ClearErrors => 0x65,
            MsgType::MitBroadcast => 0x80,
            MsgType::PosBroadcast => 0x81,
            MsgType::VelBroadcast => 0x82,
            MsgType::TorqueBroadcast => 0x83,
            MsgType::Estop => 0xC0,
            MsgType::FaultAlert => 0xC1,
        }
    }

    /// The value of the message type field.
    pub fn code(self) -> (res: u8)
        ensures
            res == self.number(),
    {
        match self {
            MsgType::MitControl => 0x00,
            MsgType::PosControl => 0x01,
            MsgType::VelControl => 0x02,
            MsgType::TorqueControl => 0x03,
            MsgType::CurrentControl => 0x04,
            MsgType::ParamRead => 0x20,
            MsgType::ParamWrite => 0x21,
            MsgType::ConfigSave => 0x22,
            MsgType::ConfigReset => 0x23,
            MsgType::JsonDescRead => 0x24,
            MsgType::JsonDescData => 0x25,
            MsgType::QueryStatus => 0x40,
            MsgType::QueryPosVel => 0x41,
            MsgType::QueryCurrent => 0x42,
            MsgType::QueryTemperature => 0x43,
            MsgType::QueryBus => 0x44,
            MsgType::QueryError => 0x45,
            MsgType::QueryDeviceInfo => 0x46,
            MsgType::QueryPower => 0x47,
            MsgType::Heartbeat => 0x48,
            MsgType::StatusFeedback => 0x49,
            MsgType::SetNodeId => 0x60,
            MsgType::SetZero => 0x61,
            MsgType::StartMotor => 0x62,
            MsgType::StopMotor => 0x63,
            MsgType::ResetDevice => 0x64,
            MsgType::ClearErrors => 0x65,
            MsgType::MitBroadcast => 0x80,
            MsgType::PosBroadcast => 0x81,
            MsgType::VelBroadcast => 0x82,
            MsgType::TorqueBroadcast => 0x83,
            MsgType::Estop => 0xC0,
            MsgType::FaultAlert => 0xC1,
        }
    }
}

/// No two message types share a number.
pub proof fn law_message_types_are_distinct(a: MsgType, b: MsgType)
    requires
        a.number() == b.number(),
    ensures
        a == b,
{
}

/// The fields of an identifier.
#[derive(Debug, Clone, Copy, PartialEq, Eq, Structural)]
pub struct CyberBeastCanId {
    pub priority: u8,
    pub msg_type: u8,
    pub dest: u8,
    pub source: u8,
    pub seq: u8,
    /// Whether the frame addresses more than one device.
    pub is_broadcast: bool,
}

/// The identifier with the given fields; the priority has three bits and the sequence
/// number two, higher bits are dropped.
pub open spec fn can_id(priority: u8, msg_type: u8, dest: u8, source: u8, seq: u8) -> int {
    (priority % 8) * 0x400_0000 + msg_type * 0x4_0000 + dest * 0x400 + source * 4 + seq % 4
}

/// Whether a frame addresses more than one device: a global destination, or one of the
/// multicast control types.
pub open spec fn addresses_many(msg_type: u8, dest: u8) -> bool {
    dest == ADDR_BROADCAST || 0x80 <= msg_type <= 0x83
}

/// The fields of an identifier; bits above the 29th are ignored.
pub open spec fn id_fields(id: u32) -> CyberBeastCanId {
    let msg_type = (id / 0x4_0000 % 256) as u8;
    let dest = (id / 0x400 % 256) as u8;
    CyberBeastCanId {
        priority: (id / 0x400_0000 % 8) as u8,
        msg_type,
        dest,
        source: (id / 4 % 256) as u8,
        seq: (id % 4) as u8,
        is_broadcast: addresses_many(msg_type, dest),
    }
}

/// Build an identifier from its fields.
pub fn make_can_id(priority: u8, msg_type: u8, dest: u8, source: u8, seq: u8) -> (res: u32)
    ensures
        res == can_id(priority, msg_type, dest, source, seq),
        res < 0x2000_0000,
{
    (priority % 8) as u32 * 0x400_0000 + msg_type as u32 * 0x4_0000 + dest as u32 * 0x400
        + source as u32 * 4 + (seq % 4) as u32
}

/// Split an identifier into its fields.
pub fn can_id_parts(id: u32) -> (res: CyberBeastCanId)
    ensures
        res == id_fields(id),
{
    let msg_type: u8 = (id / 0x4_0000 % 256) as u8;
    let dest: u8 = (id / 0x400 % 256) as u8;
    CyberBeastCanId {
        priority: (id / 0x400_0000 % 8) as u8,
        msg_type,
        dest,
        source: (id / 4 % 256) as u8,
        seq: (id % 4) as u8,
        is_broadcast: dest == ADDR_BROADCAST || (0x80 <= msg_type && msg_type <= 0x83),
    }
}

/// Splitting an identifier gives back the fields it was built from.
pub proof fn law_can_id_round_trip(priority: u8, msg_type: u8, dest: u8, source: u8, seq: u8)
    requires
        priority < 8,
        seq < 4,
    ensures
        ({
            let parts = id_fields(can_id(priority, msg_type, dest, source, seq) as u32);
            &&& parts.priority == priority
            &&& parts.msg_type == msg_type
            &&& parts.dest == dest
            &&& parts.source == source
            &&& parts.seq == seq
            &&& parts.is_broadcast == addresses_many(msg_type, dest)
        }),
{
    let id = can_id(priority, msg_type, dest, source, seq);
    let low: int = source * 4 + seq;
    let mid: int = dest * 0x400 + low;
    let high: int = msg_type * 0x4_0000 + mid;
    assert(id == priority * 0x400_0000 + high && 0 <= high < 0x400_0000);
    assert(id / 0x400_0000 == priority);
    assert(id / 0x4_0000 == priority * 0x100 + msg_type) by {
        assert(id == (priority * 0x100 + msg_type) * 0x4_0000 + mid && 0 <= mid < 0x4_0000);
    }
    assert(id / 0x400 == (priority * 0x100 + msg_type) * 0x100 + dest) by {
        assert(id == ((priority * 0x100 + msg_type) * 0x100 + dest) * 0x400 + low && 0 <= low
            < 0x400);
    }
    assert(id / 4 == ((priority * 0x100 + msg_type) * 0x100 + dest) * 0x100 + source);
}

/// Building an identifier from the fields of one gives back its 29 bits.
pub proof fn law_can_id_is_determined_by_its_fields(id: u32)
    requires
        id < 0x2000_0000,
    ensures
        ({
            let parts = id_fields(id);
            can_id(parts.priority, parts.msg_type, parts.dest, parts.source, parts.seq) == id
        }),
{
    let words: int = id as int / 4;
    let dests: int = words / 0x100;
    let types: int = dests / 0x100;
    let top: int = types / 0x100;
    assert(id == words * 4 + id % 4);
    assert(words == dests * 0x100 + words % 0x100);
    assert(dests == types * 0x100 + dests % 0x100);
    assert(types == top * 0x100 + types % 0x100);
    assert(id / 0x400 == dests);
    assert(id / 0x4_0000 == types);
    assert(id / 0x400_0000 == top && 0 <= top < 8);
}

/// The sequence number after `seq`.
pub open spec fn next_seq_number(seq: u8) -> u8 {
    ((seq % 4 + 1) % 4) as u8
}

/// The sequence number after `seq`.
pub fn seq_next(seq: u8) -> (res: u8)
    ensures
        res == next_seq_number(seq),
        res < 4,
{
    (seq % 4 + 1) % 4
}

/// Sequence numbers repeat after four frames and not before.
pub proof fn law_seq_cycles_through_four(seq: u8)
    requires
        seq < 4,
    ensures
        next_seq_number(seq) != seq,
        next_seq_number(next_seq_number(seq)) != seq,
        next_seq_number(next_seq_number(next_seq_number(seq))) != seq,
        next_seq_number(next_seq_number(next_seq_number(next_seq_number(seq)))) == seq,
{
}

/// The 16-bit big-endian number at `at`.
pub open spec fn be16(data: Seq<u8>, at: int) -> int {
    data[at] * 0x100 + data[at + 1]
}

/// The 32-bit big-endian number at `at`.
pub open spec fn be32(data: Seq<u8>, at: int) -> int {
    be16(data, at) * 0x1_0000 + be16(data, at + 2)
}

/// The 16-bit little-endian number at `at`.
pub open spec fn le16(data: Seq<u8>, at: int) -> int {
    data[at] + data[at + 1] * 0x100
}

/// The 32-bit little-endian number at `at`.
pub open spec fn le32(data: Seq<u8>, at: int) -> int {
    le16(data, at) + le16(data, at + 2) * 0x1_0000
}

fn read_be16(data: &[u8], at: usize) -> (res: u16)
    requires
        at + 2 <= data@.len(),
    ensures
        res == be16(data@, at as int),
{
    data[at] as u16 * 0x100 + data[at + 1] as u16
}

fn read_be32(data: &[u8], at: usize) -> (res: u32)
    requires
        at + 4 <= data@.len(),
    ensures
        res == be32(data@, at as int),
{
    assert(at + 4 <= data.len());
    read_be16(data, at) as u32 * 0x1_0000 + read_be16(data, at + 2) as u32
}

/// The signed number that a 16-bit pattern stands for.
fn to_i16(raw: u16) -> (res: i16)
    ensures
        res == values::signed(raw as nat, 2),
{
    proof {
        reveal_with_fuel(values::span, 3);
    }
    if raw < 0x8000 {
        raw as i16
    } else {
        (raw as i32 - 0x1_0000) as i16
    }
}

/// The 16-bit pattern of a signed number.
fn from_i16(value: i16) -> (res: u16)
    ensures
        res == values::unsigned(value as int, 2),
{
    proof {
        reveal_with_fuel(values::span, 3);
    }
    if value < 0 {
        (value as i32 + 0x1_0000) as u16
    } else {
        value as u16
    }
}

/// The bit pattern of the big-endian `float32` at offset `at`.
pub fn big_endian_bytes_to_f32(data: &[u8], at: usize) -> (res: u32)
    requires
        at + 4 <= data@.len(),
    ensures
        res == be32(data@, at as int),
{
    read_be32(data, at)
}

/// Scaled MIT command fields, as counts of their ranges.
///
/// A count is the quotient `(value - offset) / span * (2^bits - 1)` truncated toward zero.
/// It need not fit its field: packing clamps it.
#[derive(Debug, Clone, Copy, PartialEq, Eq, Structural)]
pub struct MitCommandParams {
    pub pos: i64,
    pub vel: i64,
    pub kp: i64,
    pub kd: i64,
    pub torque: i64,
}

/// A count, clamped to a field whose largest value is `max`.
pub open spec fn clamped(count: int, max: int) -> int {
    if count < 0 {
        0
    } else if count > max {
        max
    } else {
        count
    }
}

/// The fields that a packed MIT command holds.
pub open spec fn mit_fields(params: MitCommandParams) -> MitCommandParams {
    MitCommandParams {
        pos: clamped(params.pos as int, 0xFFFF) as i64,
        vel: clamped(params.vel as int, 0xFFF) as i64,
        kp: clamped(params.kp as int, 0xFFF) as i64,
        kd: clamped(params.kd as int, 0xFFF) as i64,
        torque: clamped(params.torque as int, 0xFFF) as i64,
    }
}

/// The payload `Pos16 | Vel12 | Kp12 | Kd12 | Torque12`, most significant bit first.
pub open spec fn mit_payload(params: MitCommandParams) -> Seq<u8> {
    let f = mit_fields(params);
    seq![
        (f.pos / 0x100) as u8,
        (f.pos % 0x100) as u8,
        (f.vel / 0x10) as u8,
        (f.vel % 0x10 * 0x10 + f.kp / 0x100) as u8,
        (f.kp % 0x100) as u8,
        (f.kd / 0x10) as u8,
        (f.kd % 0x10 * 0x10 + f.torque / 0x100) as u8,
        (f.torque % 0x100) as u8,
    ]
}

/// The fields of an MIT command payload.
pub open spec fn mit_command_in(data: Seq<u8>) -> MitCommandParams {
    MitCommandParams {
        pos: (data[0] * 0x100 + data[1]) as i64,
        vel: (data[2] * 0x10 + data[3] / 0x10) as i64,
        kp: (data[3] % 0x10 * 0x100 + data[4]) as i64,
        kd: (data[5] * 0x10 + data[6] / 0x10) as i64,
        torque: (data[6] % 0x10 * 0x100 + data[7]) as i64,
    }
}

fn clamp_count(count: i64, max: i64) -> (res: i64)
    requires
        max >= 0,
    ensures
        res == clamped(count as int, max as int),
{
    if count < 0 {
        0
    } else if count > max {
        max
    } else {
        count
    }
}

/// Pack an MIT command, clamping each count to its field.
pub fn pack_mit_command(params: &MitCommandParams) -> (res: [u8; 8])
    ensures
        res@ == mit_payload(*params),
{
    let pos: i64 = clamp_count(params.pos, 0xFFFF);
    let vel: i64 = clamp_count(params.vel, 0xFFF);
    let kp: i64 = clamp_count(params.kp, 0xFFF);
    let kd: i64 = clamp_count(params.kd, 0xFFF);
    let torque: i64 = clamp_count(params.torque, 0xFFF);
    let data: [u8; 8] = [
        (pos / 0x100) as u8,
        (pos % 0x100) as u8,
        (vel / 0x10) as u8,
        (vel % 0x10 * 0x10 + kp / 0x100) as u8,
        (kp % 0x100) as u8,
        (kd / 0x10) as u8,
        (kd % 0x10 * 0x10 + torque / 0x100) as u8,
        (torque % 0x100) as u8,
    ];
    assert(data@ =~= mit_payload(*params));
    data
}

/// Unpack the fields of an MIT command payload.
pub fn unpack_mit_command(data: &[u8; 8]) -> (res: MitCommandParams)
    ensures
        res == mit_command_in(data@),
{
    MitCommandParams {
        pos: data[0] as i64 * 0x100 + data[1] as i64,
        vel: data[2] as i64 * 0x10 + (data[3] / 0x10) as i64,
        kp: (data[3] % 0x10) as i64 * 0x100 + data[4] as i64,
        kd: data[5] as i64 * 0x10 + (data[6] / 0x10) as i64,
        torque: (data[6] % 0x10) as i64 * 0x100 + data[7] as i64,
    }
}

/// Unpacking a packed MIT command gives the clamped counts; counts that fit their fields
/// come back unchanged.
pub proof fn law_mit_command_round_trip(params: MitCommandParams)
    ensures
        mit_command_in(mit_payload(params)) == mit_fields(params),
        0 <= params.pos <= 0xFFFF && 0 <= params.vel <= 0xFFF && 0 <= params.kp <= 0xFFF && 0
            <= params.kd <= 0xFFF && 0 <= params.torque <= 0xFFF ==> mit_fields(params) == params,
{
}

/// A decoded MIT response: position, velocity and current are counts of their ranges,
/// temperatures are degrees Celsius.
#[derive(Debug, Clone, Copy, PartialEq, Eq, Structural)]
pub struct MitResponse {
    pub pos: u16,
    pub vel: u16,
    pub error_code: u8,
    pub current: u16,
    pub mode_state: u8,
    pub motor_temp: i16,
    pub mos_temp: i16,
}

/// The fields of the payload `Pos16 | Vel12 | Err4 | Cur12 | Mode4 | MotorTemp | MosTemp`.
pub open spec fn mit_response_in(data: Seq<u8>) -> MitResponse {
    MitResponse {
        pos: (data[0] * 0x100 + data[1]) as u16,
        vel: (data[2] * 0x10 + data[3] / 0x10) as u16,
        error_code: (data[3] % 0x10) as u8,
        current: (data[4] * 0x10 + data[5] / 0x10) as u16,
        mode_state: (data[5] % 0x10) as u8,
        motor_temp: (data[6] - 50) as i16,
        mos_temp: (data[7] - 50) as i16,
    }
}

/// Unpack an MIT response payload.
pub fn unpack_mit_response(data: &[u8; 8]) -> (res: MitResponse)
    ensures
        res == mit_response_in(data@),
        res.vel <= 0xFFF,
        res.current <= 0xFFF,
        res.error_code <= 0xF,
        res.mode_state <= 0xF,
{
    MitResponse {
        pos: data[0] as u16 * 0x100 + data[1] as u16,
        vel: data[2] as u16 * 0x10 + (data[3] / 0x10) as u16,
        error_code: data[3] % 0x10,
        current: data[4] as u16 * 0x10 + (data[5] / 0x10) as u16,
        mode_state: data[5] % 0x10,
        motor_temp: data[6] as i16 - 50,
        mos_temp: data[7] as i16 - 50,
    }
}

/// A decoded heartbeat.
#[derive(Debug, Clone, Copy, PartialEq, Eq, Structural)]
pub struct Heartbeat {
    /// Three-bit counter that advances with every heartbeat.
    pub life_counter: u8,
    /// Five error flags.
    pub error_flags: u8,
    pub motor_state: u8,
    pub control_mode: u8,
    /// Motor temperature in degrees Celsius.
    pub motor_temp: i16,
    /// Position in hundredths of a motor-side turn.
    pub position_centiturns: i16,
    /// Velocity in hundredths of a motor-side turn per second.
    pub velocity_centiturns_per_s: i16,
    /// Iq current in half amperes.
    pub iq_half_amps: i8,
}

/// The fields of the payload `Life3 Err5 | State4 Mode4 | Temp8 | Pos16 | Vel16 | Iq8`.
pub open spec fn heartbeat_in(data: Seq<u8>) -> Heartbeat {
    Heartbeat {
        life_counter: (data[0] / 0x20) as u8,
        error_flags: (data[0] % 0x20) as u8,
        motor_state: (data[1] / 0x10) as u8,
        control_mode: (data[1] % 0x10) as u8,
        motor_temp: (data[2] - 50) as i16,
        position_centiturns: values::signed(be16(data, 3) as nat, 2) as i16,
        velocity_centiturns_per_s: values::signed(be16(data, 5) as nat, 2) as i16,
        iq_half_amps: values::signed(data[7] as nat, 1) as i8,
    }
}

/// Decode a heartbeat; `None` when the payload is shorter than eight bytes.
pub fn decode_heartbeat(data: &[u8]) -> (res: Option<Heartbeat>)
    ensures
        res == (if data@.len() >= 8 {
            Some(heartbeat_in(data@))
        } else {
            None
        }),
{
    if data.len() < 8 {
        return None;
    }
    proof {
        reveal_with_fuel(values::span, 3);
    }
    Some(
        Heartbeat {
            life_counter: data[0] / 0x20,
            error_flags: data[0] % 0x20,
            motor_state: data[1] / 0x10,
            control_mode: data[1] % 0x10,
            motor_temp: data[2] as i16 - 50,
            position_centiturns: to_i16(read_be16(data, 3)),
            velocity_centiturns_per_s: to_i16(read_be16(data, 5)),
            iq_half_amps: if data[7] < 0x80 {
                data[7] as i8
            } else {
                (data[7] as i16 - 0x100) as i8
            },
        },
    )
}

/// The two big-endian `float32` patterns of a query response (position and velocity, Iq
/// and Id current, motor and MOSFET temperature, bus voltage and current).
pub fn decode_float_pair(data: &[u8; 8]) -> (res: (u32, u32))
    ensures
        res.0 == be32(data@, 0),
        res.1 == be32(data@, 4),
{
    (read_be32(data, 0), read_be32(data, 4))
}

/// Versions from a device information response, each
/// `(MAJOR << 16) | (MINOR << 8) | VARIANT`.
#[derive(Debug, Clone, Copy, PartialEq, Eq, Structural)]
pub struct DeviceInfo {
    pub hw_version: u32,
    pub fw_version: u32,
}

/// Decode a device information response; `None` when it is shorter than eight bytes.
pub fn decode_device_info_response(data: &[u8]) -> (res: Option<DeviceInfo>)
    ensures
        match res {
            Some(info) => data@.len() >= 8 && info.hw_version == be32(data@, 0) && info.fw_version
                == be32(data@, 4),
            None => data@.len() < 8,
        },
{
    if data.len() < 8 {
        return None;
    }
    Some(DeviceInfo { hw_version: read_be32(data, 0), fw_version: read_be32(data, 4) })
}

/// Decode the value of an error query response; `None` when it is shorter than eight bytes.
pub fn decode_error_response(data: &[u8]) -> (res: Option<u32>)
    ensures
        match res {
            Some(value) => data@.len() >= 8 && value == be32(data@, 4),
            None => data@.len() < 8,
        },
{
    if data.len() < 8 {
        return None;
    }
    Some(read_be32(data, 4))
}

/// The payload of a position command: `float32` degrees, `int16` RPM, `int16` 0.1 A.
pub fn encode_pos_control(target_pos_deg: u32, vel_limit_rpm: i16, cur_limit_deciamps: i16) -> (res:
    [u8; 8])
    ensures
        be32(res@, 0) == target_pos_deg,
        be16(res@, 4) == values::unsigned(vel_limit_rpm as int, 2),
        be16(res@, 6) == values::unsigned(cur_limit_deciamps as int, 2),
{
    let vel: u16 = from_i16(vel_limit_rpm);
    let cur: u16 = from_i16(cur_limit_deciamps);
    let target: u32 = target_pos_deg;
    let data: [u8; 8] = [
        (target / 0x100_0000) as u8,
        (target / 0x1_0000 % 0x100) as u8,
        (target / 0x100 % 0x100) as u8,
        (target % 0x100) as u8,
        (vel / 0x100) as u8,
        (vel % 0x100) as u8,
        (cur / 0x100) as u8,
        (cur % 0x100) as u8,
    ];
    data
}

/// The payload of a velocity command: `float32` RPM, `int16` 0.1 A.
pub fn encode_vel_control(target_vel_rpm: u32, cur_limit_deciamps: i16) -> (res: [u8; 8])
    ensures
        be32(res@, 0) == target_vel_rpm,
        be16(res@, 4) == values::unsigned(cur_limit_deciamps as int, 2),
        be16(res@, 6) == 0,
{
    encode_pos_control(target_vel_rpm, cur_limit_deciamps, 0)
}

/// A payload with one `float32` at its start.
fn encode_float(value: u32) -> (res: [u8; 8])
    ensures
        be32(res@, 0) == value,
        be32(res@, 4) == 0,
{
    encode_pos_control(value, 0, 0)
}

/// The payload of a torque command: `float32` N·m.
pub fn encode_torque_control(target_torque_nm: u32) -> (res: [u8; 8])
    ensures
        be32(res@, 0) == target_torque_nm,
        be32(res@, 4) == 0,
{
    encode_float(target_torque_nm)
}

/// The payload of a current command: `float32` A.
pub fn encode_current_control(target_current_a: u32) -> (res: [u8; 8])
    ensures
        be32(res@, 0) == target_current_a,
        be32(res@, 4) == 0,
{
    encode_float(target_current_a)
}

/// Eight zero bytes: the payload of every message that carries nothing.
pub open spec fn empty_payload() -> Seq<u8> {
    seq![0u8, 0, 0, 0, 0, 0, 0, 0]
}

fn no_payload() -> (res: [u8; 8])
    ensures
        res@ == empty_payload(),
{
    let data: [u8; 8] = [0, 0, 0, 0, 0, 0, 0, 0];
    assert(data@ =~= empty_payload());
    data
}

/// The payload of a set-zero command.
pub fn encode_set_zero() -> (res: [u8; 8])
    ensures
        res@ == empty_payload(),
{
    no_payload()
}

/// The payload of a clear-errors command.
pub fn encode_clear_errors() -> (res: [u8; 8])
    ensures
        res@ == empty_payload(),
{
    no_payload()
}

/// The payload of a command that stores the configuration.
pub fn encode_config_save() -> (res: [u8; 8])
    ensures
        res@ == empty_payload(),
{
    no_payload()
}

/// The payload of a command that erases the configuration.
pub fn encode_config_reset() -> (res: [u8; 8])
    ensures
        res@ == empty_payload(),
{
    no_payload()
}

/// The payload of an error query for one subsystem.
pub fn encode_query_error(err_type: u8) -> (res: [u8; 8])
    ensures
        res@ == empty_payload().update(0, err_type),
{
    let data: [u8; 8] = [err_type, 0, 0, 0, 0, 0, 0, 0];
    assert(data@ =~= empty_payload().update(0, err_type));
    data
}

/// The payload of a parameter read: flags, endpoint id, requested length, value offset.
pub fn encode_param_read_at(endpoint_id: u16, offset: u32) -> (res: [u8; 8])
    ensures
        res@[0] == 0,
        be16(res@, 1) == endpoint_id,
        res@[3] == 4,
        be32(res@, 4) == offset,
{
    [
        0,
        (endpoint_id / 0x100) as u8,
        (endpoint_id % 0x100) as u8,
        4,
        (offset / 0x100_0000) as u8,
        (offset / 0x1_0000 % 0x100) as u8,
        (offset / 0x100 % 0x100) as u8,
        (offset % 0x100) as u8,
    ]
}

/// The payload of a parameter write: flags, endpoint id, length, little-endian value bytes
/// padded with zeros.
pub fn encode_param_write_bytes(endpoint_id: u16, value: &[u8]) -> (res: [u8; 8])
    requires
        value@.len() <= 4,
    ensures
        res@[0] == 0,
        be16(res@, 1) == endpoint_id,
        res@[3] == value@.len(),
        forall|i: int|
            0 <= i < 4 ==> #[trigger] res@[4 + i] == (if i < value@.len() {
                value@[i]
            } else {
                0
            }),
        res@.subrange(4, 4 + value@.len() as int) == value@,
{
    let len: usize = value.len();
    let data: [u8; 8] = [
        0,
        (endpoint_id / 0x100) as u8,
        (endpoint_id % 0x100) as u8,
        len as u8,
        if len > 0 { value[0] } else { 0 },
        if len > 1 { value[1] } else { 0 },
        if len > 2 { value[2] } else { 0 },
        if len > 3 { value[3] } else { 0 },
    ];
    assert(data@.subrange(4, 4 + len) =~= value@);
    data
}

/// The payload of a descriptor request: the byte offset, little-endian.
pub fn encode_json_desc_read(offset: u32) -> (res: [u8; 8])
    ensures
        le32(res@, 0) == offset,
        be32(res@, 4) == 0,
{
    [
        (offset % 0x100) as u8,
        (offset / 0x100 % 0x100) as u8,
        (offset / 0x1_0000 % 0x100) as u8,
        (offset / 0x100_0000) as u8,
        0,
        0,
        0,
        0,
    ]
}

/// One parameter read response.
#[derive(Debug, Clone, Copy)]
pub struct ParamReadResponse {
    pub endpoint_id: u16,
    /// Number of value bytes in this frame, at most four.
    pub data_len: u8,
    /// Whether the value continues after these bytes.
    pub more: bool,
    /// The value bytes, little-endian; those past `data_len` mean nothing.
    pub raw: [u8; 4],
}

/// The mathematical content of a [`ParamReadResponse`].
#[verifier::ext_equal]
pub struct ResponseView {
    pub endpoint_id: u16,
    pub data_len: u8,
    pub more: bool,
    /// The value bytes that count.
    pub bytes: Seq<u8>,
}

impl View for ParamReadResponse {
    type V = ResponseView;

    open spec fn view(&self) -> ResponseView {
        ResponseView {
            endpoint_id: self.endpoint_id,
            data_len: self.data_len,
            more: self.more,
            bytes: self.raw@.subrange(0, self.data_len as int),
        }
    }
}

impl ResponseView {
    /// The `float32` pattern of a response that carries a whole four-byte value.
    pub open spec fn float(self) -> Option<u32> {
        if self.data_len == 4 && !self.more {
            Some(values::le(self.bytes) as u32)
        } else {
            None
        }
    }
}

impl ParamReadResponse {
    /// The `float32` pattern of a response that carries a whole four-byte value.
    pub fn as_f32(&self) -> (res: Option<u32>)
        ensures
            res == self@.float(),
    {
        if self.data_len == 4 && !self.more {
            let low: u32 = self.raw[0] as u32 + self.raw[1] as u32 * 0x100;
            let high: u32 = self.raw[2] as u32 + self.raw[3] as u32 * 0x100;
            proof {
                reveal_with_fuel(values::le, 5);
                let raw = self@.bytes;
                assert(raw =~= self.raw@);
                assert(raw.drop_first()[0] == raw[1]);
                assert(raw.drop_first().drop_first()[0] == raw[2]);
                assert(raw.drop_first().drop_first().drop_first()[0] == raw[3]);
            }
            Some(low + high * 0x1_0000)
        } else {
            None
        }
    }
}

/// The parameter read response in a payload, if it is one: `Flags | EndpointID | DataLen |
/// value`, where bit 7 of the flags says that the value continues.
pub open spec fn param_read_in(data: Seq<u8>) -> Option<ResponseView> {
    if data.len() < 8 || data[3] > 4 {
        None
    } else {
        Some(
            ResponseView {
                endpoint_id: be16(data, 1) as u16,
                data_len: data[3],
                more: data[0] >= 0x80,
                bytes: data.subrange(4, 4 + data[3]),
            },
        )
    }
}

/// Decode a parameter read response; `None` when the payload is too short or declares more
/// value bytes than fit.
pub fn decode_param_read_frame(data: &[u8]) -> (res: Option<ParamReadResponse>)
    ensures
        match res {
            Some(response) => response.data_len <= 4 && param_read_in(data@) == Some(response@),
            None => param_read_in(data@) is None,
        },
{
    if data.len() < 8 || data[3] > 4 {
        return None;
    }
    let response = ParamReadResponse {
        endpoint_id: read_be16(data, 1),
        data_len: data[3],
        more: data[0] >= 0x80,
        raw: [data[4], data[5], data[6], data[7]],
    };
    assert(response@.bytes =~= data@.subrange(4, 4 + data@[3]));
    Some(response)
}

/// The endpoint id of a parameter write acknowledgement; `None` when it is too short.
pub fn param_write_ack_id(data: &[u8]) -> (res: Option<u16>)
    ensures
        match res {
            Some(id) => data@.len() >= 3 && id == be16(data@, 1),
            None => data@.len() < 3,
        },
{
    if data.len() < 3 {
        return None;
    }
    Some(read_be16(data, 1))
}

/// Whether a payload acknowledges a write to `endpoint_id`.
pub fn is_param_write_ack(data: &[u8], endpoint_id: u16) -> (res: bool)
    ensures
        res == (data@.len() >= 3 && be16(data@, 1) == endpoint_id),
{
    data.len() >= 3 && read_be16(data, 1) == endpoint_id
}

/// Whether one of the last six bytes of an eight-byte payload is zero.
pub open spec fn has_zero_byte(data: Seq<u8>) -> bool {
    data[2] == 0 || data[3] == 0 || data[4] == 0 || data[5] == 0 || data[6] == 0 || data[7] == 0
}

/// The descriptor length and version in a metadata frame, if the payload is one:
/// `0x00 0x00 | TotalLength (u32) | VersionCRC (u16)`.
///
/// A data frame for offset 0 starts with two zero bytes too, but then JSON text follows,
/// which has no zero byte: one of them tells the two apart.
pub open spec fn json_desc_meta_in(data: Seq<u8>) -> Option<(u32, u16)> {
    if data.len() >= 8 && data[0] == 0 && data[1] == 0 && has_zero_byte(data) && le32(data, 2)
        >= JSON_DESC_MIN_BYTES {
        Some((le32(data, 2) as u32, le16(data, 6) as u16))
    } else {
        None
    }
}

/// Decode a descriptor metadata frame.
pub fn decode_json_desc_meta(data: &[u8]) -> (res: Option<(u32, u16)>)
    ensures
        res == json_desc_meta_in(data@),
{
    if data.len() < 8 || data[0] != 0 || data[1] != 0 {
        return None;
    }
    if data[2] != 0 && data[3] != 0 && data[4] != 0 && data[5] != 0 && data[6] != 0 && data[7]
        != 0 {
        return None;
    }
    let total_len: u32 = data[2] as u32 + data[3] as u32 * 0x100 + data[4] as u32 * 0x1_0000
        + data[5] as u32 * 0x100_0000;
    if total_len < JSON_DESC_MIN_BYTES {
        return None;
    }
    Some((total_len, data[6] as u16 + data[7] as u16 * 0x100))
}

/// The offset and the bytes in a descriptor data frame: `ChunkOffset (u16) | JSON bytes`;
/// nothing when there is no byte.
pub open spec fn json_desc_chunk_in(data: Seq<u8>) -> Option<(u16, Seq<u8>)> {
    if data.len() > 2 {
        Some((le16(data, 0) as u16, data.skip(2)))
    } else {
        None
    }
}

/// The offset of a descriptor data frame; its bytes start at the third.
pub fn decode_json_desc_chunk(data: &[u8]) -> (res: Option<u16>)
    ensures
        match res {
            Some(offset) => json_desc_chunk_in(data@) == Some((offset, data@.skip(2))),
            None => json_desc_chunk_in(data@) is None,
        },
{
    if data.len() <= 2 {
        return None;
    }
    Some(data[0] as u16 + data[1] as u16 * 0x100)
}

/// A data frame that carries JSON text is never taken for a metadata frame.
pub proof fn law_text_frames_are_not_metadata(data: Seq<u8>)
    requires
        data.len() == 8,
        forall|i: int| 2 <= i < 8 ==> #[trigger] data[i] != 0,
    ensures
        json_desc_meta_in(data) is None,
{
    assert(data[2] != 0 && data[3] != 0 && data[4] != 0);
    assert(data[5] != 0 && data[6] != 0 && data[7] != 0);
}

/// Names of the mode that an MIT response reports.
pub struct ModeState;

/// The name of a mode.
pub open spec fn mode_name(mode: u8) -> Seq<char> {
    if mode == 2 {
        "IDLE"@
    } else if mode == 3 {
        "CLOSED_LOOP"@
    } else if mode == 4 {
        "MIT"@
    } else {
        "UNKNOWN"@
    }
}

impl ModeState {
    /// The name of a mode.
    pub fn name(mode: u8) -> (res: &'static str)
        ensures
            res@ == mode_name(mode),
    {
        match mode {
            2 => "IDLE",
            3 => "CLOSED_LOOP",
            4 => "MIT",
            _ => "UNKNOWN",
        }
    }
}

/// The numbers of the message types and of the priorities, as they stand on the bus.
pub proof fn law_message_types_have_their_numbers(msg_type: MsgType, priority: Priority)
    ensures
        msg_type is MitControl <==> msg_type.number() == 0x00,
        msg_type is PosControl <==> msg_type.number() == 0x01,
        msg_type is VelControl <==> msg_type.number() == 0x02,
        msg_type is TorqueControl <==> msg_type.number() == 0x03,
        msg_type is CurrentControl <==> msg_type.number() == 0x04,
        msg_type is ParamRead <==> msg_type.number() == 0x20,
        msg_type is ParamWrite <==> msg_type.number() == 0x21,
        msg_type is ConfigSave <==> msg_type.number() == 0x22,
        msg_type is ConfigReset <==> msg_type.number() == 0x23,
        msg_type is JsonDescRead <==> msg_type.number() == 0x24,
        msg_type is JsonDescData <==> msg_type.number() == 0x25,
        msg_type is QueryStatus <==> msg_type.number() == 0x40,
        msg_type is QueryPosVel <==> msg_type.number() == 0x41,
        msg_type is QueryCurrent <==> msg_type.number() == 0x42,
        msg_type is QueryTemperature <==> msg_type.number() == 0x43,
        msg_type is QueryBus <==> msg_type.number() == 0x44,
        msg_type is QueryError <==> msg_type.number() == 0x45,
        msg_type is QueryDeviceInfo <==> msg_type.number() == 0x46,
        msg_type is QueryPower <==> msg_type.number() == 0x47,
        msg_type is Heartbeat <==> msg_type.number() == 0x48,
        msg_type is StatusFeedback <==> msg_type.number() == 0x49,
        msg_type is SetNodeId <==> msg_type.number() == 0x60,
        msg_type is SetZero <==> msg_type.number() == 0x61,
        msg_type is StartMotor <==> msg_type.number() == 0x62,
        msg_type is StopMotor <==> msg_type.number() == 0x63,
        msg_type is ResetDevice <==> msg_type.number() == 0x64,
        msg_type is ClearErrors <==> msg_type.number() == 0x65,
        msg_type is MitBroadcast <==> msg_type.number() == 0x80,
        msg_type is PosBroadcast <==> msg_type.number() == 0x81,
        msg_type is VelBroadcast <==> msg_type.number() == 0x82,
        msg_type is TorqueBroadcast <==> msg_type.number() == 0x83,
        msg_type is Estop <==> msg_type.number() == 0xC0,
        msg_type is FaultAlert <==> msg_type.number() == 0xC1,
        priority is Critical <==> priority.number() == 0,
        priority is HighCtrl <==> priority.number() == 2,
        priority is Ctrl <==> priority.number() == 3,
        priority is Config <==> priority.number() == 4,
        priority is Query <==> priority.number() == 5,
        priority is Status <==> priority.number() == 6,
{
}

/// The fields of an identifier stand side by side, from bit 26, 18, 10, 2 and 0 on.
pub proof fn law_identifier_fields_are_bit_fields(
    priority: u8,
    msg_type: u8,
    dest: u8,
    source: u8,
    seq: u8,
)
    ensures
        can_id(priority, msg_type, dest, source, seq) == ((priority as u32 & 7) << 26) | (
        (msg_type as u32) << 18) | ((dest as u32) << 10) | ((source as u32) << 2) | (seq as u32 & 3),
{
    let (p, m, d, s, q) = (
        priority as u32,
        msg_type as u32,
        dest as u32,
        source as u32,
        seq as u32,
    );
    assert((p % 8) * 0x400_0000 + m * 0x4_0000 + d * 0x400 + s * 4 + q % 4 == ((p & 7) << 26) | (m
        << 18) | (d << 10) | (s << 2) | (q & 3)) by (bit_vector)
        requires
            p < 256,
            m < 256,
            d < 256,
            s < 256,
            q < 256,
    ;
}

/// Splitting an identifier takes the bits of each field; a frame addresses more than one device
/// when its destination is all ones or its message type is one of the four multicast ones.
pub proof fn law_identifiers_are_split_by_bits(id: u32)
    ensures
        ({
            let parts = id_fields(id);
            &&& parts.priority == (id >> 26) & 7
            &&& parts.msg_type == (id >> 18) & 0xFF
            &&& parts.dest == (id >> 10) & 0xFF
            &&& parts.source == (id >> 2) & 0xFF
            &&& parts.seq == id & 3
            &&& parts.is_broadcast <==> (id >> 10) & 0xFF == 0xFF || (id >> 18) & 0xFC == 0x80
        }),
{
    assert(id / 0x400_0000 % 8 == (id >> 26) & 7) by (bit_vector);
    assert(id / 0x4_0000 % 256 == (id >> 18) & 0xFF) by (bit_vector);
    assert(id / 0x400 % 256 == (id >> 10) & 0xFF) by (bit_vector);
    assert(id / 4 % 256 == (id >> 2) & 0xFF) by (bit_vector);
    assert(id % 4 == id & 3) by (bit_vector);
    assert((id >> 18) & 0xFC == 0x80 <==> 0x80 <= (id >> 18) & 0xFF && (id >> 18) & 0xFF <= 0x83)
        by (bit_vector);
}

/// The next sequence number is one more, and after the last one comes zero.
pub proof fn law_seq_numbers_count_up(seq: u8)
    ensures
        seq & 3 < 3 ==> next_seq_number(seq) == (seq & 3) + 1,
        seq & 3 == 3 ==> next_seq_number(seq) == 0,
{
    assert(seq & 3 == seq % 4) by (bit_vector);
}

/// Big-endian numbers have their highest byte first, little-endian ones their lowest.
pub proof fn law_byte_orders(data: Seq<u8>, at: int)
    ensures
        be16(data, at) == ((data[at] as u16) << 8) | data[at + 1] as u16,
        le16(data, at) == ((data[at + 1] as u16) << 8) | data[at] as u16,
        be32(data, at) == ((data[at] as u32) << 24) | ((data[at + 1] as u32) << 16) | ((data[at
            + 2] as u32) << 8) | data[at + 3] as u32,
        le32(data, at) == ((data[at + 3] as u32) << 24) | ((data[at + 2] as u32) << 16) | ((data[at
            + 1] as u32) << 8) | data[at] as u32,
{
    let (a, b, c, d) = (data[at], data[at + 1], data[at + 2], data[at + 3]);
    lemma_two_bytes(a, b);
    lemma_two_bytes(b, a);
    lemma_four_bytes(a, b, c, d);
    lemma_four_bytes(d, c, b, a);
}

proof fn lemma_two_bytes(high: u8, low: u8)
    ensures
        high * 0x100 + low == ((high as u16) << 8) | low as u16,
{
    assert((high as u16) * 0x100 + low as u16 == ((high as u16) << 8) | low as u16) by (bit_vector);
}

proof fn lemma_four_bytes(a: u8, b: u8, c: u8, d: u8)
    ensures
        (a * 0x100 + b) * 0x1_0000 + c * 0x100 + d == ((a as u32) << 24) | ((b as u32) << 16) | ((
        c as u32) << 8) | d as u32,
{
    assert(((a as u32) * 0x100 + b as u32) * 0x1_0000 + (c as u32) * 0x100 + d as u32 == ((a as u32)
        << 24) | ((b as u32) << 16) | ((c as u32) << 8) | d as u32) by (bit_vector);
}

/// A count is clamped to the nearest one that its field holds.
pub proof fn law_counts_are_clamped_to_the_nearest(count: int, max: int, other: int)
    requires
        0 <= other <= max,
    ensures
        0 <= clamped(count, max) <= max,
        0 <= count <= max ==> clamped(count, max) == count,
        count < 0 ==> clamped(count, max) <= other,
        count > max ==> clamped(count, max) >= other,
{
}

/// A packed command, read as one big-endian number, is its fields side by side: 16 bits of
/// position and 12 bits each of velocity, stiffness, damping and torque, every count clamped to
/// its field.
pub proof fn law_mit_commands_are_bit_fields(params: MitCommandParams)
    ensures
        mit_payload(params).len() == 8,
        be32(mit_payload(params), 0) * 0x1_0000_0000 + be32(mit_payload(params), 4) == clamped(
            params.pos as int,
            0xFFFF,
        ) * 0x1_0000_0000_0000 + clamped(params.vel as int, 0xFFF) * 0x10_0000_0000 + clamped(
            params.kp as int,
            0xFFF,
        ) * 0x100_0000 + clamped(params.kd as int, 0xFFF) * 0x1000 + clamped(
            params.torque as int,
            0xFFF,
        ),
{
}

/// The fields of a response, put side by side, are its payload: 16 bits of position, 12 of
/// velocity, 4 of error, 12 of current and 4 of mode, most significant first, then the two
/// temperatures with 50 degrees added.
pub proof fn law_mit_responses_are_bit_fields(data: Seq<u8>)
    requires
        data.len() == 8,
    ensures
        ({
            let r = mit_response_in(data);
            &&& be16(data, 0) == r.pos
            &&& be16(data, 2) == r.vel * 0x10 + r.error_code
            &&& be16(data, 4) == r.current * 0x10 + r.mode_state
            &&& data[6] == r.motor_temp + 50
            &&& data[7] == r.mos_temp + 50
            &&& r.vel <= 0xFFF && r.error_code <= 0xF && r.current <= 0xFFF && r.mode_state <= 0xF
        }),
{
}

/// The fields of a heartbeat, put side by side, are its payload: 3 bits of life counter and 5 of
/// error flags, 4 bits of state and 4 of mode, the temperature with 50 degrees added, and the
/// bits of position, velocity and current.
pub proof fn law_heartbeats_are_bit_fields(data: Seq<u8>)
    requires
        data.len() == 8,
    ensures
        ({
            let h = heartbeat_in(data);
            &&& data[0] == h.life_counter * 0x20 + h.error_flags
            &&& data[1] == h.motor_state * 0x10 + h.control_mode
            &&& data[2] == h.motor_temp + 50
            &&& be16(data, 3) == h.position_centiturns as u16
            &&& be16(data, 5) == h.velocity_centiturns_per_s as u16
            &&& data[7] == h.iq_half_amps as u8
            &&& h.life_counter <= 7 && h.error_flags <= 0x1F && h.motor_state <= 0xF
                && h.control_mode <= 0xF
        }),
{
    reveal_with_fuel(values::span, 3);
    let h = heartbeat_in(data);
    let (p, v, q) = (h.position_centiturns, h.velocity_centiturns_per_s, h.iq_half_amps);
    lemma_i16_bits(p);
    lemma_i16_bits(v);
    assert(q as u8 == if q < 0 { q + 0x100 } else { q as int }) by (bit_vector);
}

proof fn lemma_i16_bits(v: i16)
    ensures
        v as u16 == if v < 0 {
            v + 0x1_0000
        } else {
            v as int
        },
{
    assert(v as u16 == if v < 0 { v + 0x1_0000 } else { v as int }) by (bit_vector);
}

/// A parameter answer names its endpoint in bytes 1 and 2, its length in byte 3 and its value
/// from byte 4 on; the highest bit of byte 0 says that more follows. Answers that claim more than
/// four bytes, and shorter payloads, are none.
pub proof fn law_parameter_answers_have_their_layout(data: Seq<u8>)
    ensures
        param_read_in(data) is Some <==> data.len() >= 8 && data[3] <= 4,
        param_read_in(data) matches Some(response) ==> response.endpoint_id == ((data[1] as u16)
            << 8) | data[2] as u16,
        param_read_in(data) matches Some(response) ==> response.data_len == data[3]
            && response.bytes.len() == data[3] && (response.more <==> data[0] & 0x80 != 0),
        param_read_in(data) matches Some(response) ==> forall|i: int|
            0 <= i < response.bytes.len() ==> #[trigger] response.bytes[i] == data[4 + i],
{
    law_byte_orders(data, 1);
    let flags = data[0];
    assert(flags >= 0x80 <==> flags & 0x80 != 0) by (bit_vector);
}

/// A whole answer of four bytes is also a float, with its lowest byte first; no other answer is.
pub proof fn law_whole_four_byte_answers_are_floats(response: ResponseView)
    requires
        response.bytes.len() == response.data_len,
    ensures
        response.float() is Some <==> response.data_len == 4 && !response.more,
        response.float() matches Some(value) ==> value == ((response.bytes[3] as u32) << 24) | ((
        response.bytes[2] as u32) << 16) | ((response.bytes[1] as u32) << 8)
            | response.bytes[0] as u32,
{
    if response.data_len == 4 && !response.more {
        let raw = response.bytes;
        reveal_with_fuel(values::le, 5);
        assert(raw.drop_first()[0] == raw[1]);
        assert(raw.drop_first().drop_first()[0] == raw[2]);
        assert(raw.drop_first().drop_first().drop_first()[0] == raw[3]);
        law_byte_orders(raw, 0);
        assert(values::le(raw) == le32(raw, 0));
    }
}

/// A payload is metadata exactly when it starts with two zero bytes, holds another zero byte
/// among the six that follow, and declares at least 64 bytes; the length follows in four bytes
/// and the version in two, each with its lowest byte first.
pub proof fn law_metadata_has_its_layout(data: Seq<u8>)
    requires
        data.len() == 8,
    ensures
        ({
            let declared = ((data[5] as u32) << 24) | ((data[4] as u32) << 16) | ((data[3] as u32)
                << 8) | data[2] as u32;
            let version = ((data[7] as u16) << 8) | data[6] as u16;
            let zero = exists|i: int| 2 <= i < 8 && #[trigger] data[i] == 0;
            json_desc_meta_in(data) == if data[0] == 0 && data[1] == 0 && zero && declared >= 64 {
                Some((declared, version))
            } else {
                None
            }
        }),
{
    law_byte_orders(data, 2);
    law_byte_orders(data, 6);
    if exists|i: int| 2 <= i < 8 && #[trigger] data[i] == 0 {
        let i = choose|i: int| 2 <= i < 8 && #[trigger] data[i] == 0;
        assert(i == 2 || i == 3 || i == 4 || i == 5 || i == 6 || i == 7);
    }
}

/// A payload that is too short for metadata is none.
pub proof fn law_short_payloads_are_not_metadata(data: Seq<u8>)
    requires
        data.len() < 8,
    ensures
        json_desc_meta_in(data) is None,
{
}

/// A data frame starts with its offset, lowest byte first; all that follows are bytes of the
/// descriptor, at least one.
pub proof fn law_data_frames_have_their_layout(data: Seq<u8>)
    ensures
        json_desc_chunk_in(data) is Some <==> data.len() > 2,
        json_desc_chunk_in(data) matches Some((offset, chunk)) ==> offset == ((data[1] as u16) << 8)
            | data[0] as u16,
        json_desc_chunk_in(data) matches Some((offset, chunk)) ==> chunk.len() == data.len() - 2
            && forall|i: int| 0 <= i < chunk.len() ==> #[trigger] chunk[i] == data[i + 2],
{
    law_byte_orders(data, 0);
}

/// An empty payload is eight zero bytes.
pub proof fn law_empty_payloads_are_zero(i: int)
    requires
        0 <= i < 8,
    ensures
        empty_payload().len() == 8,
        empty_payload()[i] == 0,
{
}

/// Each mode has its own name, and every mode that has none is unknown.
pub proof fn law_modes_have_their_names(mode: u8)
    ensures
        mode_name(mode) == "IDLE"@ <==> mode == 2,
        mode_name(mode) == "CLOSED_LOOP"@ <==> mode == 3,
        mode_name(mode) == "MIT"@ <==> mode == 4,
        mode_name(mode) == "UNKNOWN"@ <==> mode < 2 || mode > 4,
{
    reveal_strlit("IDLE");
    reveal_strlit("CLOSED_LOOP");
    reveal_strlit("MIT");
    reveal_strlit("UNKNOWN");
    assert("IDLE"@.len() == 4 && "CLOSED_LOOP"@.len() == 11 && "MIT"@.len() == 3
        && "UNKNOWN"@.len() == 7);
}

} // verus!
