//! Motor models, MIT scaling ranges and the cached motor state.
//!
//! Every float is an IEEE 754 single-precision bit pattern.

use vstd::prelude::*;
use vstd::string::*;

use crate::protocol;
use crate::protocol::CyberBeastCanId;
use crate::text::same_text;
use crate::values;

verus! {

/// Limits of one motor model: position (rad), velocity (rad/s) and torque (N·m).
#[derive(Debug, Clone, Copy)]
pub struct MotorModelSpec {
    pub vendor: &'static str,
    pub model: &'static str,
    pub pmax: u32,
    pub vmax: u32,
    pub tmax: u32,
}

/// The limits of a model, if there is one of that name.
pub open spec fn limits_of(model: Seq<char>) -> Option<(u32, u32, u32)> {
    if model == "odrive-default"@ {
        // 4π, 100 and 10
        Some((0x4149_0FDB, 0x42C8_0000, 0x4120_0000))
    } else if model == "odrive-pro"@ {
        // 4π, 150 and 20
        Some((0x4149_0FDB, 0x4316_0000, 0x41A0_0000))
    } else if model == "odrive-high-torque"@ {
        // 4π, 60 and 50
        Some((0x4149_0FDB, 0x4270_0000, 0x4248_0000))
    } else if model == "odrive-high-speed"@ {
        // 4π, 300 and 5
        Some((0x4149_0FDB, 0x4396_0000, 0x40A0_0000))
    } else {
        None
    }
}

/// Look a model up by its name.
pub fn find_model(model: &str) -> (res: Option<MotorModelSpec>)
    ensures
        match res {
            Some(spec) => spec.vendor@ == "cyberbeast"@ && spec.model@ == model@ && limits_of(
                model@,
            ) == Some((spec.pmax, spec.vmax, spec.tmax)),
            None => limits_of(model@) is None,
        },
{
    let vendor: &'static str = "cyberbeast";
    if same_text(model, "odrive-default") {
        Some(
            MotorModelSpec {
                vendor,
                model: "odrive-default",
                pmax: 0x4149_0FDB,
                vmax: 0x42C8_0000,
                tmax: 0x4120_0000,
            },
        )
    } else if same_text(model, "odrive-pro") {
        Some(
            MotorModelSpec {
                vendor,
                model: "odrive-pro",
                pmax: 0x4149_0FDB,
                vmax: 0x4316_0000,
                tmax: 0x41A0_0000,
            },
        )
    } else if same_text(model, "odrive-high-torque") {
        Some(
            MotorModelSpec {
                vendor,
                model: "odrive-high-torque",
                pmax: 0x4149_0FDB,
                vmax: 0x4270_0000,
                tmax: 0x4248_0000,
            },
        )
    } else if same_text(model, "odrive-high-speed") {
        Some(
            MotorModelSpec {
                vendor,
                model: "odrive-high-speed",
                pmax: 0x4149_0FDB,
                vmax: 0x4396_0000,
                tmax: 0x40A0_0000,
            },
        )
    } else {
        None
    }
}

/// The position, velocity and torque limits of a model.
pub fn model_limits(model: &str) -> (res: Option<(u32, u32, u32)>)
    ensures
        res == limits_of(model@),
{
    match find_model(model) {
        Some(spec) => Some((spec.pmax, spec.vmax, spec.tmax)),
        None => None,
    }
}

/// Control mode of an axis.
#[derive(Debug, Clone, Copy, PartialEq, Eq, Structural)]
pub enum ControlMode {
    Mit,
    Position,
    Velocity,
    Torque,
    Current,
}

/// Current range of an MIT response when the device declares none: 40 A.
pub const DEFAULT_MIT_CURRENT_LIMIT: u32 = 0x4220_0000;

/// Largest current range of an MIT response: 80 A.
pub const MAX_MIT_CURRENT_RANGE_A: u32 = 0x42A0_0000;

/// The number one, the gear ratio of a device that declares none.
pub const UNIT_RATIO: u32 = 0x3F80_0000;

/// Ranges that scale the MIT command and response bit fields.
///
/// The fields are relative to the device's own maxima, which may differ from the protocol
/// defaults, so a connected motor replaces these by what the device declares.
#[derive(Debug, Clone, Copy, PartialEq, Eq, Structural)]
pub struct MitRanges {
    pub pos: u32,
    pub vel: u32,
    pub kp: u32,
    pub kd: u32,
    pub torque: u32,
}

/// The protocol defaults: 4π rad, 30 rad/s, Kp 500, Kd 100 and 18 N·m.
pub open spec fn default_ranges() -> MitRanges {
    MitRanges {
        pos: 0x4149_0FDB,
        vel: 0x41F0_0000,
        kp: 0x43FA_0000,
        kd: 0x42C8_0000,
        torque: 0x4190_0000,
    }
}

impl Default for MitRanges {
    fn default() -> (res: Self)
        ensures
            res == default_ranges(),
    {
        MitRanges {
            pos: 0x4149_0FDB,
            vel: 0x41F0_0000,
            kp: 0x43FA_0000,
            kd: 0x42C8_0000,
            torque: 0x4190_0000,
        }
    }
}

/// The name of the endpoint with which the device declares a range, in the order of the
/// [`MitRanges`] fields.
pub open spec fn range_name(index: int) -> Seq<char> {
    if index == 0 {
        "mit_max_pos"@
    } else if index == 1 {
        "mit_max_vel"@
    } else if index == 2 {
        "mit_max_kp"@
    } else if index == 3 {
        "mit_max_kd"@
    } else {
        "mit_max_torque"@
    }
}

/// Number of MIT ranges.
pub const MIT_RANGE_COUNT: usize = 5;

impl MitRanges {
    /// The name of the endpoint with which the device declares a range, in the order of
    /// the fields (pos, vel, kp, kd, torque).
    pub fn endpoint_name(index: usize) -> (res: &'static str)
        requires
            index < MIT_RANGE_COUNT,
        ensures
            res@ == range_name(index as int),
    {
        match index {
            0 => "mit_max_pos",
            1 => "mit_max_vel",
            2 => "mit_max_kp",
            3 => "mit_max_kd",
            _ => "mit_max_torque",
        }
    }
}

/// The current range of an MIT response, given the quotient of the two settings.
pub open spec fn current_range(mit_max_torque: u32, torque_constant: u32, quotient: u32) -> Option<
    u32,
> {
    if !values::f32_positive_finite(mit_max_torque) || !values::f32_positive_finite(
        torque_constant,
    ) {
        None
    } else if quotient > MAX_MIT_CURRENT_RANGE_A {
        Some(MAX_MIT_CURRENT_RANGE_A)
    } else {
        Some(quotient)
    }
}

/// MIT response current range: `mit_max_torque / torque_constant`, at most 80 A.
///
/// `quotient` is that quotient; of two positive numbers it is positive, and the patterns of
/// positive floats are ordered like the numbers. `None` when the device configuration
/// cannot be used (values that are not positive or not finite).
pub fn mit_current_range_from(mit_max_torque: u32, torque_constant: u32, quotient: u32) -> (res:
    Option<u32>)
    ensures
        res == current_range(mit_max_torque, torque_constant, quotient),
        res matches Some(range) ==> range <= MAX_MIT_CURRENT_RANGE_A,
{
    if mit_max_torque == 0 || mit_max_torque >= 0x7F80_0000 || torque_constant == 0
        || torque_constant >= 0x7F80_0000 {
        return None;
    }
    if quotient > MAX_MIT_CURRENT_RANGE_A {
        Some(MAX_MIT_CURRENT_RANGE_A)
    } else {
        Some(quotient)
    }
}

/// Latest state of a motor, merged from all feedback frames.
#[derive(Debug, Clone, Copy, PartialEq, Eq, Structural)]
pub struct CyberBeastMotorState {
    /// The identifier of the frame this state was last updated from.
    pub arbitration_id: u32,
    /// The fields of that identifier.
    pub can_id_parts: CyberBeastCanId,
    /// Position in motor-side radians.
    pub pos: u32,
    /// Velocity in motor-side radians per second.
    pub vel: u32,
    /// Motor current in amperes.
    pub current: u32,
    /// Error code from the last MIT response.
    pub error_code: u8,
    /// Mode from the last MIT response.
    pub mode_state: u8,
    /// Motor temperature in degrees Celsius.
    pub motor_temp: u32,
    /// MOSFET temperature in degrees Celsius.
    pub mos_temp: u32,
    /// Error flags of the last heartbeat (0 if none was received).
    pub error_flags: u8,
    /// Life counter of the last heartbeat.
    pub heartbeat_life: u8,
    /// Hardware version, if queried.
    pub hw_version: Option<u32>,
    /// Firmware version, if queried.
    pub fw_version: Option<u32>,
    /// Subsystem error value, if queried.
    pub error_value: Option<u32>,
}

/// The state before any frame arrived.
pub open spec fn initial_state() -> CyberBeastMotorState {
    CyberBeastMotorState {
        arbitration_id: 0,
        can_id_parts: CyberBeastCanId {
            priority: 0,
            msg_type: 0,
            dest: 0,
            source: 0,
            seq: 0,
            is_broadcast: false,
        },
        pos: 0,
        vel: 0,
        current: 0,
        error_code: 0,
        mode_state: 0,
        motor_temp: 0,
        mos_temp: 0,
        error_flags: 0,
        heartbeat_life: 0,
        hw_version: None,
        fw_version: None,
        error_value: None,
    }
}

impl Default for CyberBeastMotorState {
    fn default() -> (res: Self)
        ensures
            res == initial_state(),
    {
        CyberBeastMotorState {
            arbitration_id: 0,
            can_id_parts: CyberBeastCanId {
                priority: 0,
                msg_type: 0,
                dest: 0,
                source: 0,
                seq: 0,
                is_broadcast: false,
            },
            pos: 0,
            vel: 0,
            current: 0,
            error_code: 0,
            mode_state: 0,
            motor_temp: 0,
            mos_temp: 0,
            error_flags: 0,
            heartbeat_life: 0,
            hw_version: None,
            fw_version: None,
            error_value: None,
        }
    }
}

/// The physical quantities of a feedback frame, scaled from its counts.
#[derive(Debug, Clone, Copy, PartialEq, Eq, Structural)]
pub struct Scaled {
    /// Position in motor-side radians.
    pub pos: u32,
    /// Velocity in motor-side radians per second.
    pub vel: u32,
    /// Current in amperes.
    pub current: u32,
    /// Motor temperature in degrees Celsius.
    pub motor_temp: u32,
    /// MOSFET temperature in degrees Celsius.
    pub mos_temp: u32,
}

/// What a feedback frame carries, before scaling.
#[derive(Debug, Clone, Copy)]
pub enum Feedback {
    Mit(protocol::MitResponse),
    Heartbeat(protocol::Heartbeat),
    /// Motor-side turns and turns per second.
    PosVel(u32, u32),
    /// Iq and Id current in amperes.
    Current(u32, u32),
    /// Motor and MOSFET temperature in degrees Celsius.
    Temperature(u32, u32),
    /// Bus voltage and current.
    Bus(u32, u32),
    DeviceInfo(u32, u32),
    ErrorValue(u32),
    ParamRead(protocol::ParamReadResponse),
    WriteAck(u16),
    /// A frame of a descriptor transfer.
    Descriptor,
    /// Nothing this library uses.
    Ignored,
}

/// The unit in which a feedback frame carries position and velocity.
#[derive(Debug, Clone, Copy, PartialEq, Eq, Structural)]
pub enum PositionUnit {
    /// Turns of the motor: 2π makes them motor-side radians.
    MotorTurns,
    /// Radians of the output shaft: the gear ratio makes them motor-side radians.
    OutputRadians,
}

/// The unit in which a feedback frame carries position and velocity, if it does.
pub open spec fn position_unit(feedback: Feedback) -> Option<PositionUnit> {
    match feedback {
        Feedback::Mit(_) => Some(PositionUnit::OutputRadians),
        Feedback::Heartbeat(_) | Feedback::PosVel(_, _) => Some(PositionUnit::MotorTurns),
        _ => None,
    }
}

impl Feedback {
    /// The unit in which this frame carries position and velocity, if it does.
    pub fn unit(&self) -> (res: Option<PositionUnit>)
        ensures
            res == position_unit(*self),
    {
        match self {
            Feedback::Mit(_) => Some(PositionUnit::OutputRadians),
            Feedback::Heartbeat(_) | Feedback::PosVel(_, _) => Some(PositionUnit::MotorTurns),
            _ => None,
        }
    }
}

/// The catalog has four models, each with 4π rad and its own velocity and torque.
pub proof fn law_models_have_their_limits(model: Seq<char>)
    ensures
        limits_of(model) == Some((0x4149_0FDBu32, 0x42C8_0000u32, 0x4120_0000u32)) <==> model
            == "odrive-default"@,
        limits_of(model) == Some((0x4149_0FDBu32, 0x4316_0000u32, 0x41A0_0000u32)) <==> model
            == "odrive-pro"@,
        limits_of(model) == Some((0x4149_0FDBu32, 0x4270_0000u32, 0x4248_0000u32)) <==> model
            == "odrive-high-torque"@,
        limits_of(model) == Some((0x4149_0FDBu32, 0x4396_0000u32, 0x40A0_0000u32)) <==> model
            == "odrive-high-speed"@,
        limits_of(model) is None <==> model != "odrive-default"@ && model != "odrive-pro"@ && model
            != "odrive-high-torque"@ && model != "odrive-high-speed"@,
{
    reveal_strlit("odrive-default");
    reveal_strlit("odrive-pro");
    reveal_strlit("odrive-high-torque");
    reveal_strlit("odrive-high-speed");
    assert("odrive-default"@.len() == 14 && "odrive-pro"@.len() == 10 && "odrive-high-torque"@.len()
        == 18 && "odrive-high-speed"@.len() == 17);
}

/// The current range is the quotient, but never more than 80 A, and only for two settings that
/// are positive and finite.
pub proof fn law_current_ranges_are_capped(torque: u32, constant: u32, quotient: u32)
    ensures
        current_range(torque, constant, quotient) is Some <==> 0 < torque < 0x7F80_0000 && 0
            < constant < 0x7F80_0000,
        current_range(torque, constant, quotient) matches Some(range) ==> range <= 0x42A0_0000
            && range <= quotient && (range == quotient || range == 0x42A0_0000),
{
}

/// Without a declaration of the device, an MIT field spans 4π rad, 30 rad/s, 500, 100 and
/// 18 N·m.
pub proof fn law_default_ranges_are_those_of_the_protocol()
    ensures
        default_ranges() == (MitRanges {
            pos: 0x4149_0FDB,
            vel: 0x41F0_0000,
            kp: 0x43FA_0000,
            kd: 0x42C8_0000,
            torque: 0x4190_0000,
        }),
{
}

} // verus!
