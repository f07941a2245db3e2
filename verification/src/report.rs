//! Text for traces, listings and progress lines.
//!
//! Where a line holds a float, its text is handed in: printing floats is left to the caller.

use vstd::prelude::*;
use vstd::string::*;

use crate::endpoint_map;
use crate::endpoint_map::{EndpointEntry, EntryView};
use crate::models::CyberBeastMotorState;
use crate::protocol;
use crate::protocol::{
    can_id_parts, decode_heartbeat, CanFrame, CyberBeastCanId, FrameView, Heartbeat, ModeState,
    MsgType,
};
use crate::text;
use crate::text::{push_dec, push_dec_int, push_hex};

verus! {

/// The name of a message type in a trace.
pub open spec fn message_name(msg_type: u8) -> Seq<char> {
    match msg_type {
        0x00 => "mit"@,
        0x01 => "pos"@,
        0x02 => "vel"@,
        0x03 => "torque"@,
        0x04 => "current"@,
        0x20 => "param-read"@,
        0x21 => "param-write"@,
        0x22 => "config-save"@,
        0x23 => "config-reset"@,
        0x24 => "json-desc-read"@,
        0x25 => "json-desc-data"@,
        0x40 => "query-status"@,
        0x41 => "query-posvel"@,
        0x42 => "query-current"@,
        0x43 => "query-temp"@,
        0x44 => "query-bus"@,
        0x45 => "query-error"@,
        0x46 => "query-devinfo"@,
        0x47 => "query-power"@,
        0x48 => "heartbeat"@,
        0x49 => "status-feedback"@,
        0x60 => "set-node-id"@,
        0x61 => "set-zero"@,
        0x62 => "start-motor"@,
        0x63 => "stop-motor"@,
        0x64 => "reset-device"@,
        0x65 => "clear-errors"@,
        0x80 => "mit-broadcast"@,
        0x81 => "pos-broadcast"@,
        0x82 => "vel-broadcast"@,
        0x83 => "torque-broadcast"@,
        0xC0 => "estop"@,
        0xC1 => "fault-alert"@,
        _ => "unknown"@,
    }
}

/// The name of a message type in a trace.
pub fn msg_type_name(msg_type: u8) -> (res: &'static str)
    ensures
        res@ == message_name(msg_type),
{
    match msg_type {
        0x00 => "mit",
        0x01 => "pos",
        0x02 => "vel",
        0x03 => "torque",
        0x04 => "current",
        0x20 => "param-read",
        0x21 => "param-write",
        0x22 => "config-save",
        0x23 => "config-reset",
        0x24 => "json-desc-read",
        0x25 => "json-desc-data",
        0x40 => "query-status",
        0x41 => "query-posvel",
        0x42 => "query-current",
        0x43 => "query-temp",
        0x44 => "query-bus",
        0x45 => "query-error",
        0x46 => "query-devinfo",
        0x47 => "query-power",
        0x48 => "heartbeat",
        0x49 => "status-feedback",
        0x60 => "set-node-id",
        0x61 => "set-zero",
        0x62 => "start-motor",
        0x63 => "stop-motor",
        0x64 => "reset-device",
        0x65 => "clear-errors",
        0x80 => "mit-broadcast",
        0x81 => "pos-broadcast",
        0x82 => "vel-broadcast",
        0x83 => "torque-broadcast",
        0xC0 => "estop",
        0xC1 => "fault-alert",
        _ => "unknown",
    }
}

/// Bytes as two-digit base-16 numbers with single spaces between them.
pub open spec fn bytes_text(bytes: Seq<u8>) -> Seq<char>
    decreases bytes.len(),
{
    if bytes.len() == 0 {
        Seq::empty()
    } else if bytes.len() == 1 {
        text::hex(bytes[0] as nat, 2)
    } else {
        bytes_text(bytes.drop_last()) + " "@ + text::hex(bytes.last() as nat, 2)
    }
}

/// Append the first `len` bytes as text.
fn push_bytes(out: &mut String, bytes: &[u8], len: usize)
    requires
        len <= bytes@.len(),
    ensures
        final(out)@ == old(out)@ + bytes_text(bytes@.take(len as int)),
{
    let mut i: usize = 0;
    assert(out@ =~= old(out)@ + bytes_text(bytes@.take(0)));
    while i < len
        invariant
            i <= len <= bytes@.len(),
            out@ == old(out)@ + bytes_text(bytes@.take(i as int)),
        decreases len - i,
    {
        proof {
            let next = bytes@.take(i + 1);
            assert(next.drop_last() =~= bytes@.take(i as int));
            assert(next.last() == bytes@[i as int]);
            if i == 0 {
                assert(bytes@.take(0) =~= Seq::<u8>::empty());
            }
        }
        if i > 0 {
            out.append(" ");
        }
        push_hex(out, bytes[i] as u64, 2);
        assert(out@ =~= old(out)@ + bytes_text(bytes@.take(i + 1)));
        i = i + 1;
    }
}

/// Bytes as two-digit base-16 numbers with single spaces between them.
pub fn hex_bytes(bytes: &[u8]) -> (res: String)
    ensures
        res@ == bytes_text(bytes@),
{
    let mut out = String::new();
    push_bytes(&mut out, bytes, bytes.len());
    assert(bytes@.take(bytes@.len() as int) =~= bytes@);
    assert(out@ =~= bytes_text(bytes@));
    out
}

/// The number of payload bytes that a frame declares, at most eight.
pub open spec fn payload_len(frame: FrameView) -> int {
    if frame.dlc <= 8 {
        frame.dlc as int
    } else {
        8
    }
}

/// A frame in one line: the fields of its identifier and its payload.
pub open spec fn frame_line(frame: FrameView) -> Seq<char> {
    let parts = protocol::id_fields(frame.arbitration_id);
    "pri="@ + text::dec(parts.priority as nat) + " mt=0x"@ + text::hex(parts.msg_type as nat, 2)
        + "("@ + message_name(parts.msg_type) + ") dest="@ + text::dec(parts.dest as nat) + " src="@
        + text::dec(parts.source as nat) + " seq="@ + text::dec(parts.seq as nat) + " dlc="@
        + text::dec(frame.dlc as nat) + " data=["@ + bytes_text(
        frame.data.take(payload_len(frame)),
    ) + "]"@
}

/// A frame in one line: the fields of its identifier and its payload.
pub fn frame_text(frame: &CanFrame) -> (res: String)
    ensures
        res@ == frame_line(frame@),
{
    let parts: CyberBeastCanId = can_id_parts(frame.arbitration_id);
    let len: usize = if frame.dlc <= 8 { frame.dlc as usize } else { 8 };
    let mut out: String = "pri=".to_owned();
    push_dec(&mut out, parts.priority as u64);
    out.append(" mt=0x");
    push_hex(&mut out, parts.msg_type as u64, 2);
    out.append("(");
    out.append(msg_type_name(parts.msg_type));
    out.append(") dest=");
    push_dec(&mut out, parts.dest as u64);
    out.append(" src=");
    push_dec(&mut out, parts.source as u64);
    out.append(" seq=");
    push_dec(&mut out, parts.seq as u64);
    out.append(" dlc=");
    push_dec(&mut out, frame.dlc as u64);
    out.append(" data=[");
    push_bytes(&mut out, &frame.data, len);
    out.append("]");
    out
}

/// The absolute value of a number.
pub open spec fn magnitude(n: int) -> nat {
    if n < 0 {
        (-n) as nat
    } else {
        n as nat
    }
}

/// The sign of a number, empty when it is not negative.
pub open spec fn sign_text(n: int) -> Seq<char> {
    if n < 0 {
        "-"@
    } else {
        ""@
    }
}

/// Hundredths as a number with three decimals.
pub open spec fn hundredths(n: int) -> Seq<char> {
    sign_text(n) + text::dec(magnitude(n) / 100) + "."@ + text::dec(magnitude(n) / 10 % 10)
        + text::dec(magnitude(n) % 10) + "0"@
}

/// Halves as a number with one decimal.
pub open spec fn halves(n: int) -> Seq<char> {
    sign_text(n) + text::dec(magnitude(n) / 2) + (if magnitude(n) % 2 == 1 {
        ".5"@
    } else {
        ".0"@
    })
}

fn push_hundredths(out: &mut String, n: i16)
    ensures
        final(out)@ == old(out)@ + hundredths(n as int),
{
    let size: u64 = if n < 0 { (-(n as i64)) as u64 } else { n as u64 };
    out.append(if n < 0 { "-" } else { "" });
    push_dec(out, size / 100);
    out.append(".");
    push_dec(out, size / 10 % 10);
    push_dec(out, size % 10);
    out.append("0");
    assert(out@ =~= old(out)@ + hundredths(n as int));
}

fn push_halves(out: &mut String, n: i8)
    ensures
        final(out)@ == old(out)@ + halves(n as int),
{
    let size: u64 = if n < 0 { (-(n as i64)) as u64 } else { n as u64 };
    out.append(if n < 0 { "-" } else { "" });
    push_dec(out, size / 2);
    out.append(if size % 2 == 1 { ".5" } else { ".0" });
    assert(out@ =~= old(out)@ + halves(n as int));
}

/// A heartbeat behind a trace line.
pub open spec fn heartbeat_line(heartbeat: Heartbeat) -> Seq<char> {
    "  => life="@ + text::dec(heartbeat.life_counter as nat) + " errflags=0x"@ + text::hex(
        heartbeat.error_flags as nat,
        2,
    ) + " state="@ + text::dec(heartbeat.motor_state as nat) + " mode="@ + text::dec(
        heartbeat.control_mode as nat,
    ) + " temp="@ + text::dec_int(heartbeat.motor_temp as int) + ".0C pos="@ + hundredths(
        heartbeat.position_centiturns as int,
    ) + "turns vel="@ + hundredths(heartbeat.velocity_centiturns_per_s as int) + "turns/s iq="@
        + halves(heartbeat.iq_half_amps as int) + "A"@
}

/// A heartbeat behind a trace line.
pub fn heartbeat_text(heartbeat: &Heartbeat) -> (res: String)
    ensures
        res@ == heartbeat_line(*heartbeat),
{
    let mut out: String = "  => life=".to_owned();
    push_dec(&mut out, heartbeat.life_counter as u64);
    out.append(" errflags=0x");
    push_hex(&mut out, heartbeat.error_flags as u64, 2);
    out.append(" state=");
    push_dec(&mut out, heartbeat.motor_state as u64);
    out.append(" mode=");
    push_dec(&mut out, heartbeat.control_mode as u64);
    out.append(" temp=");
    push_dec_int(&mut out, heartbeat.motor_temp as i64);
    out.append(".0C pos=");
    push_hundredths(&mut out, heartbeat.position_centiturns);
    out.append("turns vel=");
    push_hundredths(&mut out, heartbeat.velocity_centiturns_per_s);
    out.append("turns/s iq=");
    push_halves(&mut out, heartbeat.iq_half_amps);
    out.append("A");
    out
}

/// What the two floats of a query answer are.
pub open spec fn pair_name(msg_type: u8) -> Option<Seq<char>> {
    match msg_type {
        0x41 => Some("pos,vel"@),
        0x42 => Some("iq,id"@),
        0x43 => Some("motor_temp,fet_temp"@),
        0x44 => Some("vbus,ibus"@),
        _ => None,
    }
}

/// The decoding behind the trace line of a received frame.
pub open spec fn suffix(frame: FrameView, first: Seq<char>, second: Seq<char>) -> Seq<char> {
    let msg_type = protocol::id_fields(frame.arbitration_id).msg_type;
    if msg_type == MsgType::Heartbeat.number() {
        heartbeat_line(protocol::heartbeat_in(frame.data))
    } else {
        match pair_name(msg_type) {
            Some(name) => "  => "@ + name + " = "@ + first + ", "@ + second + " (float32 BE)"@,
            None => Seq::empty(),
        }
    }
}

/// The decoding behind the trace line of a received frame; empty for most types.
///
/// `first` and `second` are the texts of the two big-endian floats in the payload.
pub fn payload_suffix(frame: &CanFrame, first: &str, second: &str) -> (res: String)
    ensures
        res@ == suffix(frame@, first@, second@),
{
    let msg_type: u8 = can_id_parts(frame.arbitration_id).msg_type;
    if msg_type == MsgType::Heartbeat.code() {
        return match decode_heartbeat(&frame.data) {
            Some(heartbeat) => heartbeat_text(&heartbeat),
            None => String::new(),
        };
    }
    let name: &str = match msg_type {
        0x41 => "pos,vel",
        0x42 => "iq,id",
        0x43 => "motor_temp,fet_temp",
        0x44 => "vbus,ibus",
        _ => {
            return String::new();
        },
    };
    let mut out: String = "  => ".to_owned();
    out.append(name);
    out.append(" = ");
    out.append(first);
    out.append(", ");
    out.append(second);
    out.append(" (float32 BE)");
    out
}

/// Whether a state was last updated from a heartbeat, which carries no mode and no error
/// code.
pub open spec fn from_heartbeat(state: CyberBeastMotorState) -> bool {
    state.can_id_parts.msg_type == MsgType::Heartbeat.number()
}

/// The mode of a state.
pub open spec fn mode_shown(state: CyberBeastMotorState) -> Seq<char> {
    if from_heartbeat(state) {
        "n/a(hb)"@
    } else {
        text::dec(state.mode_state as nat) + "("@ + protocol::mode_name(state.mode_state) + ")"@
    }
}

/// The error code of a state.
pub open spec fn error_shown(state: CyberBeastMotorState) -> Seq<char> {
    if from_heartbeat(state) {
        "n/a(hb)"@
    } else {
        "0x"@ + text::hex(state.error_code as nat, 1)
    }
}

/// The mode of a state. A heartbeat leaves the mode of the last MIT response in place, so
/// after one the left-over value is not reported as current.
pub fn mode_text(state: &CyberBeastMotorState) -> (res: String)
    ensures
        res@ == mode_shown(*state),
{
    if state.can_id_parts.msg_type == MsgType::Heartbeat.code() {
        return "n/a(hb)".to_owned();
    }
    let mut out = String::new();
    push_dec(&mut out, state.mode_state as u64);
    out.append("(");
    out.append(ModeState::name(state.mode_state));
    out.append(")");
    assert(out@ =~= mode_shown(*state));
    out
}

/// The error code of a state, under the same rule as [`mode_text`].
pub fn error_text(state: &CyberBeastMotorState) -> (res: String)
    ensures
        res@ == error_shown(*state),
{
    if state.can_id_parts.msg_type == MsgType::Heartbeat.code() {
        return "n/a(hb)".to_owned();
    }
    let mut out: String = "0x".to_owned();
    push_hex(&mut out, state.error_code as u64, 1);
    out
}

/// A state in one line.
pub open spec fn progress(
    state: CyberBeastMotorState,
    pos: Seq<char>,
    vel: Seq<char>,
    current: Seq<char>,
    temp: Seq<char>,
) -> Seq<char> {
    "pos="@ + pos + " vel="@ + vel + " cur="@ + current + "A err="@ + error_shown(state) + " mode="@
        + mode_shown(state) + " temp="@ + temp + "C life="@ + text::dec(
        state.heartbeat_life as nat,
    ) + " errflags=0x"@ + text::hex(state.error_flags as nat, 2)
}

/// A state in one line; the texts are those of its position, velocity, current and motor
/// temperature.
pub fn progress_line(
    state: &CyberBeastMotorState,
    pos: &str,
    vel: &str,
    current: &str,
    temp: &str,
) -> (res: String)
    ensures
        res@ == progress(*state, pos@, vel@, current@, temp@),
{
    let mut out: String = "pos=".to_owned();
    out.append(pos);
    out.append(" vel=");
    out.append(vel);
    out.append(" cur=");
    out.append(current);
    out.append("A err=");
    out.append(error_text(state).as_str());
    out.append(" mode=");
    out.append(mode_text(state).as_str());
    out.append(" temp=");
    out.append(temp);
    out.append("C life=");
    push_dec(&mut out, state.heartbeat_life as u64);
    out.append(" errflags=0x");
    push_hex(&mut out, state.error_flags as u64, 2);
    out
}

/// Newest view of each frame type collected during a read window.
#[derive(Debug)]
pub struct Snapshot {
    /// The line of the last heartbeat.
    pub heartbeat: Option<String>,
    /// Mode, error code, current, motor and MOSFET temperature of the last MIT response.
    pub mit: Option<(u8, u8, u32, u32, u32)>,
    /// Position and velocity of the last position answer.
    pub pos_vel: Option<(u32, u32)>,
    /// Hardware and firmware version of the last device information.
    pub device_info: Option<(u32, u32)>,
}

/// The mathematical content of a [`Snapshot`].
#[verifier::ext_equal]
pub struct SnapshotView {
    pub heartbeat: Option<Seq<char>>,
    pub mit: Option<(u8, u8, u32, u32, u32)>,
    pub pos_vel: Option<(u32, u32)>,
    pub device_info: Option<(u32, u32)>,
}

impl View for Snapshot {
    type V = SnapshotView;

    open spec fn view(&self) -> SnapshotView {
        SnapshotView {
            heartbeat: match self.heartbeat {
                Some(line) => Some(line@),
                None => None,
            },
            mit: self.mit,
            pos_vel: self.pos_vel,
            device_info: self.device_info,
        }
    }
}

/// A snapshot after a state was seen: what the frame behind the state carries is taken
/// over, everything else stays.
pub open spec fn latched(
    snapshot: SnapshotView,
    state: CyberBeastMotorState,
    line: Seq<char>,
) -> SnapshotView {
    let msg_type = state.can_id_parts.msg_type;
    if msg_type == MsgType::Heartbeat.number() {
        SnapshotView { heartbeat: Some(line), ..snapshot }
    } else if msg_type == MsgType::MitControl.number() {
        SnapshotView {
            mit: Some(
                (
                    state.mode_state,
                    state.error_code,
                    state.current,
                    state.motor_temp,
                    state.mos_temp,
                ),
            ),
            ..snapshot
        }
    } else if msg_type == MsgType::QueryPosVel.number() {
        SnapshotView { pos_vel: Some((state.pos, state.vel)), ..snapshot }
    } else if msg_type == MsgType::QueryDeviceInfo.number() && state.hw_version is Some
        && state.fw_version is Some {
        SnapshotView {
            device_info: Some((state.hw_version->0, state.fw_version->0)),
            ..snapshot
        }
    } else {
        snapshot
    }
}

impl Default for Snapshot {
    fn default() -> (res: Self)
        ensures
            res@ == (SnapshotView {
                heartbeat: None,
                mit: None,
                pos_vel: None,
                device_info: None,
            }),
    {
        Snapshot { heartbeat: None, mit: None, pos_vel: None, device_info: None }
    }
}

impl Snapshot {
    /// Take over what the frame behind a state carries; `line` is the progress line of the
    /// state.
    pub fn latch(&mut self, state: &CyberBeastMotorState, line: String)
        ensures
            final(self)@ == latched(old(self)@, *state, line@),
    {
        let msg_type: u8 = state.can_id_parts.msg_type;
        if msg_type == MsgType::Heartbeat.code() {
            self.heartbeat = Some(line);
        } else if msg_type == MsgType::MitControl.code() {
            self.mit = Some(
                (
                    state.mode_state,
                    state.error_code,
                    state.current,
                    state.motor_temp,
                    state.mos_temp,
                ),
            );
        } else if msg_type == MsgType::QueryPosVel.code() {
            self.pos_vel = Some((state.pos, state.vel));
        } else if msg_type == MsgType::QueryDeviceInfo.code() {
            if let Some(hw) = state.hw_version {
                if let Some(fw) = state.fw_version {
                    self.device_info = Some((hw, fw));
                }
            }
        }
    }
}

/// A version `(MAJOR << 16) | (MINOR << 8) | VARIANT` with dots.
pub open spec fn version_line(version: u32) -> Seq<char> {
    text::dec((version / 0x1_0000 % 0x100) as nat) + "."@ + text::dec(
        (version / 0x100 % 0x100) as nat,
    ) + "."@ + text::dec((version % 0x100) as nat)
}

/// A version `(MAJOR << 16) | (MINOR << 8) | VARIANT` with dots.
pub fn version_text(version: u32) -> (res: String)
    ensures
        res@ == version_line(version),
{
    let mut out = String::new();
    push_dec(&mut out, (version / 0x1_0000 % 0x100) as u64);
    out.append(".");
    push_dec(&mut out, (version / 0x100 % 0x100) as u64);
    out.append(".");
    push_dec(&mut out, (version % 0x100) as u64);
    assert(out@ =~= version_line(version));
    out
}

/// A number of spaces.
pub open spec fn spaces(n: int) -> Seq<char> {
    if n <= 0 {
        Seq::empty()
    } else {
        Seq::new(n as nat, |i: int| ' ')
    }
}

fn push_spaces(out: &mut String, n: usize)
    ensures
        final(out)@ == old(out)@ + spaces(n as int),
{
    proof {
        reveal_strlit(" ");
    }
    let mut i: usize = 0;
    assert(out@ =~= old(out)@ + spaces(0));
    while i < n
        invariant
            i <= n,
            out@ == old(out)@ + spaces(i as int),
            " "@ == seq![' '],
        decreases n - i,
    {
        out.append(" ");
        assert(out@ =~= old(out)@ + spaces(i + 1));
        i = i + 1;
    }
}

/// Text padded on its right to a width.
pub open spec fn padded(s: Seq<char>, width: int) -> Seq<char> {
    s + spaces(width - s.len())
}

fn push_padded(out: &mut String, s: &str, width: usize)
    ensures
        final(out)@ == old(out)@ + padded(s@, width as int),
{
    let len: usize = text::chars_of(s).len();
    out.append(s);
    if len < width {
        push_spaces(out, width - len);
    }
    assert(out@ =~= old(out)@ + padded(s@, width as int));
}

/// An endpoint in a listing: id, declared type, access and path.
pub open spec fn listing(entry: EntryView) -> Seq<char> {
    let id = text::dec(entry.endpoint_id as nat);
    "  id=0x"@ + text::hex(entry.endpoint_id as nat, 4) + " ("@ + spaces(5 - id.len()) + id + ") "@
        + padded(entry.raw_type, 9) + " "@ + padded(entry.access.name(), 4) + " "@ + entry.path
}

/// An endpoint in a listing: id, declared type, access and path.
pub fn listing_line(entry: &EndpointEntry) -> (res: String)
    ensures
        res@ == listing(entry@),
{
    let id: String = text::dec_text(entry.endpoint_id as u64);
    let len: usize = text::chars_of(id.as_str()).len();
    let mut out: String = "  id=0x".to_owned();
    push_hex(&mut out, entry.endpoint_id as u64, 4);
    out.append(" (");
    let ghost head = out@;
    if len < 5 {
        push_spaces(&mut out, 5 - len);
    }
    assert(out@ =~= head + spaces(5 - id@.len()));
    out.append(id.as_str());
    out.append(") ");
    push_padded(&mut out, entry.raw_type.as_str(), 9);
    out.append(" ");
    push_padded(&mut out, entry.access.label(), 4);
    out.append(" ");
    out.append(entry.path.as_str());
    out
}

/// Counts heartbeats by their three-bit life counter.
#[derive(Debug, Clone, Copy, PartialEq, Eq, Structural)]
pub struct LifeMonitor {
    /// Heartbeats that the device has sent since the first one seen.
    pub heartbeats: u64,
    /// Heartbeats among them that were not seen.
    pub lost: u64,
    /// The last life counter seen.
    pub prev_life: Option<u8>,
}

/// How far the life counter has advanced.
pub open spec fn life_delta(prev: u8, life: u8) -> int {
    (life - prev) % 8
}

/// A sum that stays at the largest value.
pub open spec fn added(n: u64, more: int) -> u64 {
    if n + more <= u64::MAX {
        (n + more) as u64
    } else {
        u64::MAX
    }
}

/// The counts after a life counter was seen: one that has not advanced is the same
/// heartbeat seen again.
pub open spec fn observed(monitor: LifeMonitor, life: u8) -> LifeMonitor {
    match monitor.prev_life {
        Some(prev) => {
            let delta = life_delta(prev, life);
            if delta == 0 {
                monitor
            } else {
                LifeMonitor {
                    heartbeats: added(monitor.heartbeats, delta),
                    lost: added(monitor.lost, delta - 1),
                    prev_life: Some(life),
                }
            }
        },
        None => LifeMonitor {
            heartbeats: added(monitor.heartbeats, 1),
            prev_life: Some(life),
            ..monitor
        },
    }
}

fn add_up(n: u64, more: u64) -> (res: u64)
    ensures
        res == added(n, more as int),
{
    match n.checked_add(more) {
        Some(sum) => sum,
        None => u64::MAX,
    }
}

impl LifeMonitor {
    /// No heartbeat has been seen yet.
    pub fn new() -> (res: Self)
        ensures
            res == (LifeMonitor { heartbeats: 0, lost: 0, prev_life: None }),
    {
        LifeMonitor { heartbeats: 0, lost: 0, prev_life: None }
    }

    /// Note the life counter of the latest heartbeat.
    pub fn observe(&mut self, life: u8)
        ensures
            *final(self) == observed(*old(self), life),
    {
        match self.prev_life {
            Some(prev) => {
                let delta: u64 = ((life as i64 - prev as i64 + 256) % 8) as u64;
                assert(delta == life_delta(prev, life));
                if delta != 0 {
                    self.heartbeats = add_up(self.heartbeats, delta);
                    self.lost = add_up(self.lost, delta - 1);
                    self.prev_life = Some(life);
                }
            },
            None => {
                self.heartbeats = add_up(self.heartbeats, 1);
                self.prev_life = Some(life);
            },
        }
    }
}

/// Every heartbeat that is seen counts once: seen ones are those sent less those lost. A
/// device whose life counter advances by one loses none.
pub proof fn law_seen_heartbeats_add_up(monitor: LifeMonitor, life: u8)
    requires
        monitor.lost <= monitor.heartbeats < u64::MAX - 8,
        monitor.prev_life is Some,
    ensures
        ({
            let next = observed(monitor, life);
            let seen = next.heartbeats - next.lost;
            &&& seen == monitor.heartbeats - monitor.lost + (if life_delta(
                monitor.prev_life->0,
                life,
            ) == 0 {
                0int
            } else {
                1
            })
            &&& life_delta(monitor.prev_life->0, life) == 1 ==> next.lost == monitor.lost
        }),
{
}

/// Each message type is traced under its own name.
pub proof fn law_message_types_are_traced_by_name(msg_type: MsgType)
    ensures
        message_name(msg_type.number()) == (match msg_type {
            MsgType::MitControl => "mit"@,
            MsgType::PosControl => "pos"@,
            MsgType::VelControl => "vel"@,
            MsgType::TorqueControl => "torque"@,
            MsgType::CurrentControl => "current"@,
            MsgType::ParamRead => "param-read"@,
            MsgType::ParamWrite => "param-write"@,
            MsgType::ConfigSave => "config-save"@,
            MsgType::ConfigReset => "config-reset"@,
            MsgType::JsonDescRead => "json-desc-read"@,
            MsgType::JsonDescData => "json-desc-data"@,
            MsgType::QueryStatus => "query-status"@,
            MsgType::QueryPosVel => "query-posvel"@,
            MsgType::QueryCurrent => "query-current"@,
            MsgType::QueryTemperature => "query-temp"@,
            MsgType::QueryBus => "query-bus"@,
            MsgType::QueryError => "query-error"@,
            MsgType::QueryDeviceInfo => "query-devinfo"@,
            MsgType::QueryPower => "query-power"@,
            MsgType::Heartbeat => "heartbeat"@,
            MsgType::StatusFeedback => "status-feedback"@,
            MsgType::SetNodeId => "set-node-id"@,
            MsgType::SetZero => "set-zero"@,
            MsgType::StartMotor => "start-motor"@,
            MsgType::StopMotor => "stop-motor"@,
            MsgType::ResetDevice => "reset-device"@,
            MsgType::ClearErrors => "clear-errors"@,
            MsgType::MitBroadcast => "mit-broadcast"@,
            MsgType::PosBroadcast => "pos-broadcast"@,
            MsgType::VelBroadcast => "vel-broadcast"@,
            MsgType::TorqueBroadcast => "torque-broadcast"@,
            MsgType::Estop => "estop"@,
            MsgType::FaultAlert => "fault-alert"@,
        }),
{
}

/// A number that no message type has is traced as unknown.
pub proof fn law_other_numbers_are_unknown(number: u8)
    requires
        forall|msg_type: MsgType| #[trigger] msg_type.number() != number,
    ensures
        message_name(number) == "unknown"@,
{
    assert(MsgType::MitControl.number() != number && MsgType::PosControl.number() != number
        && MsgType::VelControl.number() != number && MsgType::TorqueControl.number() != number
        && MsgType::CurrentControl.number() != number && MsgType::ParamRead.number() != number
        && MsgType::ParamWrite.number() != number && MsgType::ConfigSave.number() != number
        && MsgType::ConfigReset.number() != number && MsgType::JsonDescRead.number() != number
        && MsgType::JsonDescData.number() != number && MsgType::QueryStatus.number() != number
        && MsgType::QueryPosVel.number() != number && MsgType::QueryCurrent.number() != number
        && MsgType::QueryTemperature.number() != number && MsgType::QueryBus.number() != number
        && MsgType::QueryError.number() != number && MsgType::QueryDeviceInfo.number() != number
        && MsgType::QueryPower.number() != number && MsgType::Heartbeat.number() != number);
    assert(MsgType::StatusFeedback.number() != number && MsgType::SetNodeId.number() != number
        && MsgType::SetZero.number() != number && MsgType::StartMotor.number() != number
        && MsgType::StopMotor.number() != number && MsgType::ResetDevice.number() != number
        && MsgType::ClearErrors.number() != number && MsgType::MitBroadcast.number() != number
        && MsgType::PosBroadcast.number() != number && MsgType::VelBroadcast.number() != number
        && MsgType::TorqueBroadcast.number() != number && MsgType::Estop.number() != number
        && MsgType::FaultAlert.number() != number);
}

/// A device that sends `sent` heartbeats between two that are seen, at most seven, advances its
/// three-bit counter by as many: all of them count as sent, and all but the last as lost. A
/// counter that has not advanced changes nothing, and the first one counts as one.
pub proof fn law_skipped_heartbeats_are_lost(monitor: LifeMonitor, prev: u8, sent: u8)
    requires
        sent <= 7,
        monitor.heartbeats < u64::MAX - 8,
        monitor.lost < u64::MAX - 8,
    ensures
        ({
            let seen = LifeMonitor { prev_life: Some((prev & 7) as u8), ..monitor };
            let life = ((prev + sent) % 8) as u8;
            let next = observed(seen, life);
            &&& sent == 0 ==> next == seen
            &&& sent > 0 ==> next == (LifeMonitor {
                heartbeats: (monitor.heartbeats + sent) as u64,
                lost: (monitor.lost + sent - 1) as u64,
                prev_life: Some(life),
            })
        }),
        ({
            let none = LifeMonitor { prev_life: None, ..monitor };
            observed(none, sent) == (LifeMonitor {
                heartbeats: (monitor.heartbeats + 1) as u64,
                lost: monitor.lost,
                prev_life: Some(sent),
            })
        }),
{
    assert(prev & 7 == prev % 8) by (bit_vector);
}

/// The mode and the error code are shown only when the state was not last updated by a heartbeat,
/// which carries neither.
pub proof fn law_left_over_modes_are_not_shown(state: CyberBeastMotorState)
    ensures
        state.can_id_parts.msg_type == 0x48 ==> mode_shown(state) == "n/a(hb)"@ && error_shown(state)
            == "n/a(hb)"@,
        state.can_id_parts.msg_type != 0x48 ==> mode_shown(state) == text::dec(
            state.mode_state as nat,
        ) + "("@ + protocol::mode_name(state.mode_state) + ")"@ && error_shown(state) == "0x"@
            + text::hex(state.error_code as nat, 1),
{
}

/// A snapshot takes over what the frame behind a state carries, by the number of its message type,
/// and keeps everything else.
pub proof fn law_snapshots_take_over_what_a_frame_carries(
    snapshot: SnapshotView,
    state: CyberBeastMotorState,
    line: Seq<char>,
)
    ensures
        ({
            let next = latched(snapshot, state, line);
            let kind = state.can_id_parts.msg_type;
            &&& next.heartbeat == if kind == 0x48 {
                Some(line)
            } else {
                snapshot.heartbeat
            }
            &&& next.mit == if kind == 0x00 {
                Some(
                    (
                        state.mode_state,
                        state.error_code,
                        state.current,
                        state.motor_temp,
                        state.mos_temp,
                    ),
                )
            } else {
                snapshot.mit
            }
            &&& next.pos_vel == if kind == 0x41 {
                Some((state.pos, state.vel))
            } else {
                snapshot.pos_vel
            }
            &&& kind == 0x46 && state.hw_version is Some && state.fw_version is Some
                ==> next.device_info == Some((state.hw_version->0, state.fw_version->0))
            &&& kind != 0x46 ==> next.device_info == snapshot.device_info
        }),
{
}

/// A version is shown as its three bytes with dots between them, the highest first.
pub proof fn law_versions_have_three_parts(major: u8, minor: u8, variant: u8)
    ensures
        version_line((major * 0x1_0000 + minor * 0x100 + variant) as u32) == text::dec(major as nat)
            + "."@ + text::dec(minor as nat) + "."@ + text::dec(variant as nat),
{
    let version: int = major * 0x1_0000 + minor * 0x100 + variant;
    assert(version / 0x1_0000 == major) by {
        assert(0 <= minor * 0x100 + variant < 0x1_0000);
    }
    assert(version / 0x100 == major * 0x100 + minor);
}

/// Bytes are listed in order, each with two digits, and a blank between two of them.
pub proof fn law_byte_listings_are_joined_by_blanks(first: Seq<u8>, second: Seq<u8>)
    requires
        first.len() > 0,
        second.len() > 0,
    ensures
        bytes_text(first + second) == bytes_text(first) + seq![' '] + bytes_text(second),
        first.len() == 1 ==> bytes_text(first) == text::hex(first[0] as nat, 2),
    decreases second.len(),
{
    reveal_strlit(" ");
    assert(" "@ =~= seq![' ']);
    let whole = first + second;
    if second.len() == 1 {
        assert(whole.drop_last() =~= first);
    } else {
        let rest = second.drop_last();
        law_byte_listings_are_joined_by_blanks(first, rest);
        assert(whole.drop_last() =~= first + rest);
        assert(bytes_text(whole) =~= bytes_text(first) + seq![' '] + bytes_text(second));
    }
}

/// A text is padded with blanks up to its width, and never cut.
pub proof fn law_padding_only_adds_blanks(s: Seq<char>, width: int)
    ensures
        s.is_prefix_of(padded(s, width)),
        padded(s, width).len() == if width > s.len() {
            width
        } else {
            s.len() as int
        },
        forall|i: int| s.len() <= i < padded(s, width).len() ==> padded(s, width)[i] == ' ',
{
    assert(padded(s, width).subrange(0, s.len() as int) =~= s);
}

/// The listing of an endpoint starts with its id in base 16 and ends with its path.
pub proof fn law_listings_name_id_and_path(entry: EntryView)
    ensures
        ("  id=0x"@ + text::hex(entry.endpoint_id as nat, 4)).is_prefix_of(listing(entry)),
        exists|before: Seq<char>| listing(entry) == #[trigger] (before + entry.path),
        text::contains_text(listing(entry), entry.raw_type),
        text::contains_text(listing(entry), entry.access.name()),
{
    let id = text::dec(entry.endpoint_id as nat);
    let head = "  id=0x"@ + text::hex(entry.endpoint_id as nat, 4);
    let a = head + " ("@ + spaces(5 - id.len()) + id + ") "@;
    let b = spaces(9 - entry.raw_type.len()) + " "@;
    let c = spaces(4 - entry.access.name().len()) + " "@ + entry.path;
    let line = listing(entry);
    assert(line =~= a + entry.raw_type + b + entry.access.name() + c);
    assert(line.subrange(0, head.len() as int) =~= head);
    let before = line.take(line.len() - entry.path.len());
    assert(line =~= before + entry.path);
    assert(line =~= a + entry.raw_type + (b + entry.access.name() + c));
    text::law_contained_texts_stand_between_two_others(line, entry.raw_type);
    assert(line =~= (a + entry.raw_type + b) + entry.access.name() + c);
    text::law_contained_texts_stand_between_two_others(line, entry.access.name());
}

/// The trace line of a frame names the priority, type, destination, source and sequence number
/// that the bits of its identifier hold, and lists the bytes that it declares, at most eight.
pub proof fn law_frame_lines_show_the_fields(frame: FrameView)
    requires
        frame.data.len() == 8,
    ensures
        ({
            let id = frame.arbitration_id;
            let kind = ((id >> 18) & 0xFF) as u8;
            let shown: int = if frame.dlc < 8 {
                frame.dlc as int
            } else {
                8
            };
            frame_line(frame) == "pri="@ + text::dec(((id >> 26) & 7) as nat) + " mt=0x"@ + text::hex(
                kind as nat,
                2,
            ) + "("@ + message_name(kind) + ") dest="@ + text::dec(((id >> 10) & 0xFF) as nat)
                + " src="@ + text::dec(((id >> 2) & 0xFF) as nat) + " seq="@ + text::dec(
                (id & 3) as nat,
            ) + " dlc="@ + text::dec(frame.dlc as nat) + " data=["@ + bytes_text(
                frame.data.take(shown),
            ) + "]"@
        }),
{
    protocol::law_identifiers_are_split_by_bits(frame.arbitration_id);
}

/// Hundredths are shown with their sign, as a number with a dot before its last three digits, of
/// which the last one is zero: the digits before it are those of the number.
pub proof fn law_hundredths_keep_their_digits(n: nat)
    ensures
        ({
            let whole = text::dec(n / 100);
            let tens = text::dec(n / 10 % 10);
            let ones = text::dec(n % 10);
            &&& hundredths(n as int) == whole + seq!['.'] + tens + ones + seq!['0']
            &&& n > 0 ==> hundredths(-n) == seq!['-'] + hundredths(n as int)
            &&& endpoint_map::number_of(whole + tens + ones, 10) == n
            &&& tens.len() == 1 && ones.len() == 1
        }),
{
    reveal_strlit("");
    reveal_strlit("-");
    reveal_strlit(".");
    reveal_strlit("0");
    assert("-"@ =~= seq!['-']);
    assert("."@ =~= seq!['.']);
    assert("0"@ =~= seq!['0']);
    let whole = text::dec(n / 100);
    let tens = text::dec(n / 10 % 10);
    let ones = text::dec(n % 10);
    assert(hundredths(n as int) =~= whole + seq!['.'] + tens + ones + seq!['0']);
    if n > 0 {
        assert(hundredths(-n) =~= seq!['-'] + hundredths(n as int));
    }
    endpoint_map::law_written_numbers_are_read_back(n / 100, 0);
    endpoint_map::law_written_numbers_are_read_back(n / 10 % 10, 0);
    endpoint_map::law_written_numbers_are_read_back(n % 10, 0);
    endpoint_map::law_digits_count_by_position(whole, tens, 10);
    endpoint_map::law_digits_count_by_position(whole + tens, ones, 10);
    vstd::arithmetic::power::lemma_pow1(10);
}

/// Halves are shown with their sign, as a number with one decimal.
pub proof fn law_halves_have_one_decimal(n: nat)
    ensures
        halves(2 * n as int) == text::dec(n) + seq!['.', '0'],
        halves(2 * n as int + 1) == text::dec(n) + seq!['.', '5'],
        n > 0 ==> halves(-(n as int)) == seq!['-'] + halves(n as int),
{
    reveal_strlit("");
    reveal_strlit("-");
    reveal_strlit(".0");
    reveal_strlit(".5");
    assert("-"@ =~= seq!['-']);
    assert(".0"@ =~= seq!['.', '0']);
    assert(".5"@ =~= seq!['.', '5']);
    assert(halves(2 * n as int) =~= text::dec(n) + seq!['.', '0']);
    assert(halves(2 * n as int + 1) =~= text::dec(n) + seq!['.', '5']);
    if n > 0 {
        assert(halves(-(n as int)) =~= seq!['-'] + halves(n as int));
    }
}

/// A heartbeat is decoded behind its trace line, and so are the answers to the queries for
/// position, current, temperature and bus, with their two floats in order; nothing else is.
pub proof fn law_traces_decode_feedback(frame: FrameView, first: Seq<char>, second: Seq<char>)
    ensures
        ({
            let kind = protocol::id_fields(frame.arbitration_id).msg_type;
            let line = suffix(frame, first, second);
            let pair = first + ", "@ + second;
            &&& kind == 0x48 ==> line == heartbeat_line(protocol::heartbeat_in(frame.data))
            &&& kind == 0x41 ==> line == "  => pos,vel = "@ + pair + " (float32 BE)"@
            &&& kind == 0x42 ==> line == "  => iq,id = "@ + pair + " (float32 BE)"@
            &&& kind == 0x43 ==> line == "  => motor_temp,fet_temp = "@ + pair + " (float32 BE)"@
            &&& kind == 0x44 ==> line == "  => vbus,ibus = "@ + pair + " (float32 BE)"@
            &&& kind != 0x48 && !(0x41 <= kind <= 0x44) ==> line.len() == 0
        }),
{
    reveal_strlit("  => ");
    reveal_strlit(" = ");
    reveal_strlit("pos,vel");
    reveal_strlit("iq,id");
    reveal_strlit("motor_temp,fet_temp");
    reveal_strlit("vbus,ibus");
    reveal_strlit("  => pos,vel = ");
    reveal_strlit("  => iq,id = ");
    reveal_strlit("  => motor_temp,fet_temp = ");
    reveal_strlit("  => vbus,ibus = ");
    assert("  => pos,vel = "@ =~= "  => "@ + "pos,vel"@ + " = "@);
    assert("  => iq,id = "@ =~= "  => "@ + "iq,id"@ + " = "@);
    assert("  => motor_temp,fet_temp = "@ =~= "  => "@ + "motor_temp,fet_temp"@ + " = "@);
    assert("  => vbus,ibus = "@ =~= "  => "@ + "vbus,ibus"@ + " = "@);
    let kind = protocol::id_fields(frame.arbitration_id).msg_type;
    let line = suffix(frame, first, second);
    let end = first + ", "@ + second + " (float32 BE)"@;
    if kind == 0x41 {
        assert(line =~= "  => pos,vel = "@ + end);
        assert(line =~= "  => pos,vel = "@ + (first + ", "@ + second) + " (float32 BE)"@);
    } else if kind == 0x42 {
        assert(line =~= "  => iq,id = "@ + (first + ", "@ + second) + " (float32 BE)"@);
    } else if kind == 0x43 {
        assert(line =~= "  => motor_temp,fet_temp = "@ + (first + ", "@ + second)
            + " (float32 BE)"@);
    } else if kind == 0x44 {
        assert(line =~= "  => vbus,ibus = "@ + (first + ", "@ + second) + " (float32 BE)"@);
    }
}

/// The line of a state starts with its position, velocity and current, and ends with the life
/// counter and the flags of the last heartbeat; error code, mode and temperature stand between.
pub proof fn law_progress_lines_show_the_state(
    state: CyberBeastMotorState,
    pos: Seq<char>,
    vel: Seq<char>,
    current: Seq<char>,
    temp: Seq<char>,
)
    ensures
        ({
            let line = progress(state, pos, vel, current, temp);
            let start = "pos="@ + pos + " vel="@ + vel + " cur="@ + current + "A err="@ + error_shown(
                state,
            );
            let middle = " mode="@ + mode_shown(state) + " temp="@ + temp;
            let end = "C life="@ + text::dec(state.heartbeat_life as nat) + " errflags=0x"@
                + text::hex(state.error_flags as nat, 2);
            line == start + middle + end
        }),
{
    let line = progress(state, pos, vel, current, temp);
    let start = "pos="@ + pos + " vel="@ + vel + " cur="@ + current + "A err="@ + error_shown(state);
    let middle = " mode="@ + mode_shown(state) + " temp="@ + temp;
    let end = "C life="@ + text::dec(state.heartbeat_life as nat) + " errflags=0x"@ + text::hex(
        state.error_flags as nat,
        2,
    );
    assert(line =~= start + middle + end);
}

/// The line of a heartbeat shows each field under its label: first the counter and the flags, then
/// state, mode and temperature, then position, velocity and current.
pub proof fn law_heartbeat_lines_show_the_fields(heartbeat: Heartbeat)
    ensures
        ({
            let start = "  => life="@ + text::dec(heartbeat.life_counter as nat) + " errflags=0x"@
                + text::hex(heartbeat.error_flags as nat, 2);
            let middle = " state="@ + text::dec(heartbeat.motor_state as nat) + " mode="@
                + text::dec(heartbeat.control_mode as nat) + " temp="@ + text::dec_int(
                heartbeat.motor_temp as int,
            );
            let end = ".0C pos="@ + hundredths(heartbeat.position_centiturns as int) + "turns vel="@
                + hundredths(heartbeat.velocity_centiturns_per_s as int) + "turns/s iq="@ + halves(
                heartbeat.iq_half_amps as int,
            ) + "A"@;
            heartbeat_line(heartbeat) == start + middle + end
        }),
{
    let start = "  => life="@ + text::dec(heartbeat.life_counter as nat) + " errflags=0x"@
        + text::hex(heartbeat.error_flags as nat, 2);
    let middle = " state="@ + text::dec(heartbeat.motor_state as nat) + " mode="@ + text::dec(
        heartbeat.control_mode as nat,
    ) + " temp="@ + text::dec_int(heartbeat.motor_temp as int);
    let end = ".0C pos="@ + hundredths(heartbeat.position_centiturns as int) + "turns vel="@
        + hundredths(heartbeat.velocity_centiturns_per_s as int) + "turns/s iq="@ + halves(
        heartbeat.iq_half_amps as int,
    ) + "A"@;
    assert(heartbeat_line(heartbeat) =~= start + middle + end);
}

} // verus!
