//! One motor on the bus: its state, the frames it is sent and the frames it sends.
//!
//! A [`CyberBeastMotor`] does no input or output. A command returns the frame to send, a
//! received frame is handed in together with the time, and what takes several frames
//! (reading a parameter, the descriptor transfer, warming up a link) is a step function
//! that says what to do next. Floats are single-precision bit patterns; scaling counts
//! into them and back is left to the caller.

use vstd::prelude::*;
use vstd::string::*;

use crate::descriptor;
use crate::descriptor::{
    descriptor_text, read_map, CacheView, DescriptorTransfer, JsonDescCache, TransferStep,
};
use crate::endpoint_map;
use crate::endpoint_map::{
    Access, EndpointEntry, EndpointMap, EntryView, MapView, ParamReadout,
};
use crate::error;
use crate::error::{with_context, MotorError};
use crate::models;
use crate::models::{
    find_model, mit_current_range_from, CyberBeastMotorState, Feedback, MitRanges, PositionUnit,
    Scaled, DEFAULT_MIT_CURRENT_LIMIT, MIT_RANGE_COUNT, UNIT_RATIO,
};
use crate::param_cache;
use crate::param_cache::{
    AckWait, AnswersView, FloatStep, FloatWait, ParamCache, ParamRead, WaitStep,
};
use crate::protocol;
use crate::protocol::{
    can_id_parts, make_can_id, pack_mit_command, seq_next, CanFrame, CyberBeastCanId, FrameView,
    MitCommandParams, MsgType, Priority, ADDR_BROADCAST, DEFAULT_MASTER_ID, MAX_BROADCAST_DEVICES,
};
use crate::text;
use crate::text::{push_dec, push_hex};
use crate::values;
use crate::values::{decode_value, ParamValue, ValueType};

verus! {

/// One motor on the bus.
#[derive(Debug)]
pub struct CyberBeastMotor {
    /// Node id of the device: destination of commands, source of responses.
    pub motor_id: u16,
    /// Node id of the host: source of commands.
    pub master_id: u8,
    /// Model name, one of the catalog.
    pub model: String,
    state: Option<CyberBeastMotorState>,
    tx_seq: u8,
    limits: (u32, u32, u32),
    mit_ranges: MitRanges,
    mit_ranges_from_device: bool,
    mit_ranges_note: Option<String>,
    gear_ratio: u32,
    gear_ratio_from_device: bool,
    mit_current_limit: u32,
    params: ParamCache,
    json_desc: JsonDescCache,
    endpoint_map: Option<EndpointMap>,
    pos_vel_ms: Option<u64>,
    warm: bool,
    tx_retries: u32,
}

/// The mathematical content of a [`CyberBeastMotor`].
#[verifier::ext_equal]
pub struct MotorView {
    pub motor_id: u16,
    pub master_id: u8,
    pub model: Seq<char>,
    /// Latest state, once a frame has arrived.
    pub state: Option<CyberBeastMotorState>,
    /// Sequence number of the next frame.
    pub tx_seq: u8,
    /// Position, velocity and torque limits of the model.
    pub limits: (u32, u32, u32),
    pub mit_ranges: MitRanges,
    pub mit_ranges_from_device: bool,
    pub mit_ranges_note: Option<Seq<char>>,
    pub gear_ratio: u32,
    pub gear_ratio_from_device: bool,
    pub mit_current_limit: u32,
    /// Answers to parameter requests.
    pub params: AnswersView,
    /// Frames of a descriptor transfer.
    pub json_desc: CacheView,
    /// The endpoint map of this node, once loaded.
    pub endpoint_map: Option<MapView>,
    /// When the last answer to a position query arrived.
    pub pos_vel_ms: Option<u64>,
    /// Whether the link is known to carry requests and answers.
    pub warm: bool,
    /// How many requests had to be repeated.
    pub tx_retries: u32,
}

impl View for CyberBeastMotor {
    type V = MotorView;

    closed spec fn view(&self) -> MotorView {
        MotorView {
            motor_id: self.motor_id,
            master_id: self.master_id,
            model: self.model@,
            state: self.state,
            tx_seq: self.tx_seq,
            limits: self.limits,
            mit_ranges: self.mit_ranges,
            mit_ranges_from_device: self.mit_ranges_from_device,
            mit_ranges_note: match self.mit_ranges_note {
                Some(note) => Some(note@),
                None => None,
            },
            gear_ratio: self.gear_ratio,
            gear_ratio_from_device: self.gear_ratio_from_device,
            mit_current_limit: self.mit_current_limit,
            params: self.params@,
            json_desc: self.json_desc@,
            endpoint_map: match self.endpoint_map {
                Some(map) => Some(map@),
                None => None,
            },
            pos_vel_ms: self.pos_vel_ms,
            warm: self.warm,
            tx_retries: self.tx_retries,
        }
    }
}

/// A motor that has just been created.
pub open spec fn new_motor(motor_id: u16, model: Seq<char>) -> Result<MotorView, error::Fault> {
    match models::limits_of(model) {
        Some(limits) => Ok(
            MotorView {
                motor_id,
                master_id: DEFAULT_MASTER_ID,
                model,
                state: None,
                tx_seq: 0,
                limits,
                mit_ranges: models::default_ranges(),
                mit_ranges_from_device: false,
                mit_ranges_note: None,
                gear_ratio: UNIT_RATIO,
                gear_ratio_from_device: false,
                mit_current_limit: DEFAULT_MIT_CURRENT_LIMIT,
                params: param_cache::no_answers(),
                json_desc: descriptor::fresh(),
                endpoint_map: None,
                pos_vel_ms: None,
                warm: false,
                tx_retries: 0,
            },
        ),
        None => Err(error::invalid("unknown cyberbeast model: "@ + model)),
    }
}

/// The address of a node: the low byte of its id.
pub open spec fn address(motor_id: u16) -> u8 {
    (motor_id % 256) as u8
}

/// A frame that the host sends.
pub open spec fn outgoing(
    motor: MotorView,
    priority: Priority,
    msg_type: MsgType,
    dest: u8,
    data: Seq<u8>,
) -> FrameView {
    FrameView {
        arbitration_id: protocol::can_id(
            priority.number(),
            msg_type.number(),
            dest,
            motor.master_id,
            motor.tx_seq,
        ) as u32,
        data,
        dlc: 8,
        is_extended: true,
        is_rx: false,
    }
}

/// A frame that the host sends to this motor.
pub open spec fn command(
    motor: MotorView,
    priority: Priority,
    msg_type: MsgType,
    data: Seq<u8>,
) -> FrameView {
    outgoing(motor, priority, msg_type, address(motor.motor_id), data)
}

/// The motor after a frame was sent: the next one has the next sequence number.
pub open spec fn sent(motor: MotorView) -> MotorView {
    MotorView { tx_seq: protocol::next_seq_number(motor.tx_seq), ..motor }
}

/// The motor when the device's MIT ranges could not be read: the protocol defaults are in
/// force, with a note why.
pub open spec fn after_ranges_failure(motor: MotorView, reason: Seq<char>) -> MotorView {
    MotorView {
        mit_ranges: models::default_ranges(),
        mit_ranges_from_device: false,
        mit_ranges_note: Some(reason),
        ..motor
    }
}

/// Current limit of a command that specifies none, in tenths of an ampere: 200 A.
pub const DEFAULT_CMD_CURRENT_DECIAMPS: i16 = 2000;

/// The current limit that a command puts on the bus: one that is not greater than zero
/// counts as unspecified.
pub open spec fn limit_field(cur_limit_deciamps: i16) -> i16 {
    if cur_limit_deciamps > 0 {
        cur_limit_deciamps
    } else {
        DEFAULT_CMD_CURRENT_DECIAMPS
    }
}

/// The current limit that a command puts on the bus.
///
/// The firmware turns this field into the torque limit of every control mode, so a zero
/// would disable the axis until it is power-cycled.
fn limit_on_bus(cur_limit_deciamps: i16) -> (res: i16)
    ensures
        res == limit_field(cur_limit_deciamps),
{
    if cur_limit_deciamps > 0 {
        cur_limit_deciamps
    } else {
        DEFAULT_CMD_CURRENT_DECIAMPS
    }
}

impl CyberBeastMotor {
    /// A motor of a known model; nothing is sent.
    ///
    /// Feedback frames carry the motor's own node id, so the feedback id is not used.
    pub fn new(motor_id: u16, _feedback_id: u16, model: &str) -> (res: Result<Self, MotorError>)
        ensures
            match res {
                Ok(motor) => new_motor(motor_id, model@) == Ok::<MotorView, error::Fault>(motor@),
                Err(err) => new_motor(motor_id, model@) == Err::<MotorView, error::Fault>(err@),
            },
    {
        match find_model(model) {
            Some(spec) => Ok(
                CyberBeastMotor {
                    motor_id,
                    master_id: DEFAULT_MASTER_ID,
                    model: model.to_owned(),
                    state: None,
                    tx_seq: 0,
                    limits: (spec.pmax, spec.vmax, spec.tmax),
                    mit_ranges: MitRanges::default(),
                    mit_ranges_from_device: false,
                    mit_ranges_note: None,
                    gear_ratio: UNIT_RATIO,
                    gear_ratio_from_device: false,
                    mit_current_limit: DEFAULT_MIT_CURRENT_LIMIT,
                    params: ParamCache::new(),
                    json_desc: JsonDescCache::default(),
                    endpoint_map: None,
                    pos_vel_ms: None,
                    warm: false,
                    tx_retries: 0,
                },
            ),
            None => {
                let mut message: String = "unknown cyberbeast model: ".to_owned();
                message.append(model);
                Err(MotorError::InvalidArgument(message))
            },
        }
    }

    /// The motor with another host id.
    pub fn with_master_id(self, master_id: u8) -> (res: Self)
        ensures
            res@ == (MotorView { master_id, ..self@ }),
    {
        let mut motor = self;
        motor.master_id = master_id;
        motor
    }

    /// Use another host id from now on.
    pub fn set_master_id(&mut self, master_id: u8)
        ensures
            final(self)@ == (MotorView { master_id, ..old(self)@ }),
    {
        self.master_id = master_id;
    }

    /// The latest state, once a frame has arrived.
    pub fn latest_state(&self) -> (res: Option<CyberBeastMotorState>)
        ensures
            res == self@.state,
    {
        self.state
    }

    /// The vendor name.
    pub fn vendor(&self) -> (res: &'static str)
        ensures
            res@ == "cyberbeast"@,
    {
        "cyberbeast"
    }

    /// The model name.
    pub fn model(&self) -> (res: &str)
        ensures
            res@ == self@.model,
    {
        self.model.as_str()
    }

    /// The node id.
    pub fn motor_id(&self) -> (res: u16)
        ensures
            res == self@.motor_id,
    {
        self.motor_id
    }

    /// The id that feedback frames carry as their source: the node id.
    pub fn feedback_id(&self) -> (res: u16)
        ensures
            res == self@.motor_id,
    {
        self.motor_id
    }

    /// Position, velocity and torque limits of the model.
    pub fn limits(&self) -> (res: (u32, u32, u32))
        ensures
            res == self@.limits,
    {
        self.limits
    }

    /// Current range used to decode MIT response current values (A).
    pub fn mit_current_limit(&self) -> (res: u32)
        ensures
            res == self@.mit_current_limit,
    {
        self.mit_current_limit
    }

    /// MIT ranges currently used to encode commands and decode responses.
    pub fn mit_ranges(&self) -> (res: MitRanges)
        ensures
            res == self@.mit_ranges,
    {
        self.mit_ranges
    }

    /// Whether [`Self::mit_ranges`] came from the device's own declarations.
    pub fn mit_ranges_from_device(&self) -> (res: bool)
        ensures
            res == self@.mit_ranges_from_device,
    {
        self.mit_ranges_from_device
    }

    /// Why the device's MIT ranges are not in force, when reading them did not succeed.
    pub fn mit_ranges_note(&self) -> (res: Option<&str>)
        ensures
            match res {
                Some(note) => self@.mit_ranges_note == Some(note@),
                None => self@.mit_ranges_note is None,
            },
    {
        match &self.mit_ranges_note {
            Some(note) => Some(note.as_str()),
            None => None,
        }
    }

    /// The torque maximum used to scale MIT commands (N·m).
    pub fn mit_torque_limit(&self) -> (res: u32)
        ensures
            res == self@.mit_ranges.torque,
    {
        self.mit_ranges.torque
    }

    /// Gear ratio between the motor and the output shaft; one if the device declares none.
    pub fn gear_ratio(&self) -> (res: u32)
        ensures
            res == self@.gear_ratio,
    {
        self.gear_ratio
    }

    /// Whether [`Self::gear_ratio`] came from the device.
    pub fn gear_ratio_from_device(&self) -> (res: bool)
        ensures
            res == self@.gear_ratio_from_device,
    {
        self.gear_ratio_from_device
    }

    /// The cached endpoint map, if one has been loaded.
    pub fn endpoint_map(&self) -> (res: Option<&EndpointMap>)
        ensures
            match res {
                Some(map) => self@.endpoint_map == Some(map@),
                None => self@.endpoint_map is None,
            },
    {
        match &self.endpoint_map {
            Some(map) => Some(map),
            None => None,
        }
    }

    /// How many requests had to be repeated.
    pub fn tx_retries(&self) -> (res: u32)
        ensures
            res == self@.tx_retries,
    {
        self.tx_retries
    }

    /// Put the protocol's MIT ranges in force and record why the device's are not used.
    pub fn note_mit_ranges_failure(&mut self, reason: String)
        ensures
            final(self)@ == after_ranges_failure(old(self)@, reason@),
    {
        self.mit_ranges = MitRanges::default();
        self.mit_ranges_from_device = false;
        self.mit_ranges_note = Some(reason);
    }

    /// Override the MIT response current range (A) without asking the device.
    pub fn set_mit_current_limit(&mut self, limit_a: u32)
        ensures
            final(self)@ == (MotorView { mit_current_limit: limit_a, ..old(self)@ }),
    {
        self.mit_current_limit = limit_a;
    }

    fn frame_to(&mut self, priority: Priority, msg_type: MsgType, dest: u8, data: [u8; 8]) -> (res:
        CanFrame)
        ensures
            final(self)@ == sent(old(self)@),
            res@ == outgoing(old(self)@, priority, msg_type, dest, data@),
            protocol::id_fields(res@.arbitration_id).msg_type == msg_type.number(),
    {
        proof {
            protocol::law_can_id_round_trip(
                priority.number(),
                msg_type.number(),
                dest,
                self.master_id,
                (self.tx_seq % 4) as u8,
            );
        }
        let seq: u8 = self.tx_seq;
        self.tx_seq = seq_next(seq);
        CanFrame {
            arbitration_id: make_can_id(
                priority.code(),
                msg_type.code(),
                dest,
                self.master_id,
                seq,
            ),
            data,
            dlc: 8,
            is_extended: true,
            is_rx: false,
        }
    }

    fn frame(&mut self, priority: Priority, msg_type: MsgType, data: [u8; 8]) -> (res: CanFrame)
        ensures
            final(self)@ == sent(old(self)@),
            res@ == command(old(self)@, priority, msg_type, data@),
            protocol::id_fields(res@.arbitration_id).msg_type == msg_type.number(),
    {
        let dest: u8 = (self.motor_id % 256) as u8;
        self.frame_to(priority, msg_type, dest, data)
    }

    fn bare_frame(&mut self, priority: Priority, msg_type: MsgType) -> (res: CanFrame)
        ensures
            final(self)@ == sent(old(self)@),
            res@ == command(old(self)@, priority, msg_type, protocol::empty_payload()),
            protocol::id_fields(res@.arbitration_id).msg_type == msg_type.number(),
    {
        self.frame(priority, msg_type, protocol::encode_set_zero())
    }

    /// The MIT (force-position-velocity) command with these counts of the ranges in force.
    pub fn send_mit_command(&mut self, params: &MitCommandParams) -> (res: CanFrame)
        ensures
            final(self)@ == sent(old(self)@),
            res@ == command(
                old(self)@,
                Priority::HighCtrl,
                MsgType::MitControl,
                protocol::mit_payload(*params),
            ),
            protocol::id_fields(res@.arbitration_id).msg_type == 0x00,
    {
        self.frame(Priority::HighCtrl, MsgType::MitControl, pack_mit_command(params))
    }

    /// The position command: degrees, RPM and tenths of an ampere, all output-side.
    ///
    /// A current limit that is not greater than zero is replaced by 200 A.
    pub fn send_pos_control(
        &mut self,
        target_pos_deg: u32,
        vel_limit_rpm: i16,
        cur_limit_deciamps: i16,
    ) -> (res: CanFrame)
        ensures
            final(self)@ == sent(old(self)@),
            res@ == command(old(self)@, Priority::Ctrl, MsgType::PosControl, res@.data),
            protocol::be32(res@.data, 0) == target_pos_deg,
            protocol::be16(res@.data, 4) == values::unsigned(vel_limit_rpm as int, 2),
            protocol::be16(res@.data, 6) == values::unsigned(
                limit_field(cur_limit_deciamps) as int,
                2,
            ),
            protocol::id_fields(res@.arbitration_id).msg_type == 0x01,
            ((res@.data[4] as u16) << 8) | res@.data[5] as u16 == vel_limit_rpm as u16,
            ((res@.data[6] as u16) << 8) | res@.data[7] as u16 == (if cur_limit_deciamps > 0 {
                cur_limit_deciamps
            } else {
                2000
            }) as u16,
    {
        let data: [u8; 8] = protocol::encode_pos_control(
            target_pos_deg,
            vel_limit_rpm,
            limit_on_bus(cur_limit_deciamps),
        );
        proof {
            protocol::law_byte_orders(data@, 4);
            protocol::law_byte_orders(data@, 6);
            values::law_two_s_complement_keeps_the_bits(0, vel_limit_rpm as i64);
            values::law_two_s_complement_keeps_the_bits(0, limit_field(cur_limit_deciamps) as i64);
        }
        self.frame(Priority::Ctrl, MsgType::PosControl, data)
    }

    /// The velocity command: RPM and tenths of an ampere, output-side.
    ///
    /// A current limit that is not greater than zero is replaced by 200 A.
    pub fn send_vel_control(&mut self, target_vel_rpm: u32, cur_limit_deciamps: i16) -> (res:
        CanFrame)
        ensures
            final(self)@ == sent(old(self)@),
            res@ == command(old(self)@, Priority::Ctrl, MsgType::VelControl, res@.data),
            protocol::be32(res@.data, 0) == target_vel_rpm,
            protocol::be16(res@.data, 4) == values::unsigned(
                limit_field(cur_limit_deciamps) as int,
                2,
            ),
            protocol::be16(res@.data, 6) == 0,
            protocol::id_fields(res@.arbitration_id).msg_type == 0x02,
            ((res@.data[4] as u16) << 8) | res@.data[5] as u16 == (if cur_limit_deciamps > 0 {
                cur_limit_deciamps
            } else {
                2000
            }) as u16,
    {
        let data: [u8; 8] = protocol::encode_vel_control(
            target_vel_rpm,
            limit_on_bus(cur_limit_deciamps),
        );
        proof {
            protocol::law_byte_orders(data@, 4);
            values::law_two_s_complement_keeps_the_bits(0, limit_field(cur_limit_deciamps) as i64);
        }
        self.frame(Priority::Ctrl, MsgType::VelControl, data)
    }

    /// The torque command, in N·m.
    pub fn send_torque_control(&mut self, target_torque_nm: u32) -> (res: CanFrame)
        ensures
            final(self)@ == sent(old(self)@),
            res@ == command(old(self)@, Priority::Ctrl, MsgType::TorqueControl, res@.data),
            protocol::be32(res@.data, 0) == target_torque_nm,
            protocol::be32(res@.data, 4) == 0,
            protocol::id_fields(res@.arbitration_id).msg_type == 0x03,
    {
        let data: [u8; 8] = protocol::encode_torque_control(target_torque_nm);
        self.frame(Priority::Ctrl, MsgType::TorqueControl, data)
    }

    /// The current command, in amperes.
    pub fn send_current_control(&mut self, target_current_a: u32) -> (res: CanFrame)
        ensures
            final(self)@ == sent(old(self)@),
            res@ == command(old(self)@, Priority::Ctrl, MsgType::CurrentControl, res@.data),
            protocol::be32(res@.data, 0) == target_current_a,
            protocol::be32(res@.data, 4) == 0,
            protocol::id_fields(res@.arbitration_id).msg_type == 0x04,
    {
        let data: [u8; 8] = protocol::encode_current_control(target_current_a);
        self.frame(Priority::Ctrl, MsgType::CurrentControl, data)
    }

    /// The start command: the axis enters closed-loop control.
    pub fn send_start_motor(&mut self) -> (res: CanFrame)
        ensures
            final(self)@ == sent(old(self)@),
            res@ == command(
                old(self)@,
                Priority::Ctrl,
                MsgType::StartMotor,
                protocol::empty_payload(),
            ),
            protocol::id_fields(res@.arbitration_id).msg_type == 0x62,
    {
        self.bare_frame(Priority::Ctrl, MsgType::StartMotor)
    }

    /// The stop command: the axis returns to idle.
    pub fn send_stop_motor(&mut self) -> (res: CanFrame)
        ensures
            final(self)@ == sent(old(self)@),
            res@ == command(
                old(self)@,
                Priority::Ctrl,
                MsgType::StopMotor,
                protocol::empty_payload(),
            ),
            protocol::id_fields(res@.arbitration_id).msg_type == 0x63,
    {
        self.bare_frame(Priority::Ctrl, MsgType::StopMotor)
    }

    /// Enable the axis.
    pub fn enable(&mut self) -> (res: CanFrame)
        ensures
            final(self)@ == sent(old(self)@),
            res@ == command(
                old(self)@,
                Priority::Ctrl,
                MsgType::StartMotor,
                protocol::empty_payload(),
            ),
            protocol::id_fields(res@.arbitration_id).msg_type == 0x62,
    {
        self.send_start_motor()
    }

    /// Disable the axis.
    pub fn disable(&mut self) -> (res: CanFrame)
        ensures
            final(self)@ == sent(old(self)@),
            res@ == command(
                old(self)@,
                Priority::Ctrl,
                MsgType::StopMotor,
                protocol::empty_payload(),
            ),
            protocol::id_fields(res@.arbitration_id).msg_type == 0x63,
    {
        self.send_stop_motor()
    }

    /// The command that makes the current position the zero position.
    pub fn send_set_zero(&mut self) -> (res: CanFrame)
        ensures
            final(self)@ == sent(old(self)@),
            res@ == command(
                old(self)@,
                Priority::Config,
                MsgType::SetZero,
                protocol::empty_payload(),
            ),
            protocol::id_fields(res@.arbitration_id).msg_type == 0x61,
    {
        self.frame(Priority::Config, MsgType::SetZero, protocol::encode_set_zero())
    }

    /// The command that clears latched errors.
    pub fn send_clear_errors(&mut self) -> (res: CanFrame)
        ensures
            final(self)@ == sent(old(self)@),
            res@ == command(
                old(self)@,
                Priority::Config,
                MsgType::ClearErrors,
                protocol::empty_payload(),
            ),
            protocol::id_fields(res@.arbitration_id).msg_type == 0x65,
    {
        self.frame(Priority::Config, MsgType::ClearErrors, protocol::encode_clear_errors())
    }

    /// The emergency stop: a global broadcast at the highest priority.
    ///
    /// Every device on the bus goes idle and latches an error that needs a clear-errors
    /// command or a reset.
    pub fn send_estop(&mut self) -> (res: CanFrame)
        ensures
            final(self)@ == sent(old(self)@),
            res@ == outgoing(
                old(self)@,
                Priority::Critical,
                MsgType::Estop,
                ADDR_BROADCAST,
                protocol::empty_payload(),
            ),
            protocol::id_fields(res@.arbitration_id).msg_type == 0xC0,
    {
        let data: [u8; 8] = protocol::encode_clear_errors();
        self.frame_to(Priority::Critical, MsgType::Estop, ADDR_BROADCAST, data)
    }

    /// The command that restarts the firmware.
    ///
    /// Configuration and calibration survive it; the position reference does not. This is
    /// not [`Self::send_config_reset`], after which the motor has to be calibrated again.
    pub fn send_reset_device(&mut self) -> (res: CanFrame)
        ensures
            final(self)@ == sent(old(self)@),
            res@ == command(
                old(self)@,
                Priority::Config,
                MsgType::ResetDevice,
                protocol::empty_payload(),
            ),
            protocol::id_fields(res@.arbitration_id).msg_type == 0x64,
    {
        self.bare_frame(Priority::Config, MsgType::ResetDevice)
    }

    /// The status query, answered with an MIT response.
    pub fn send_query_status(&mut self) -> (res: CanFrame)
        ensures
            final(self)@ == sent(old(self)@),
            res@ == command(
                old(self)@,
                Priority::Query,
                MsgType::QueryStatus,
                protocol::empty_payload(),
            ),
            protocol::id_fields(res@.arbitration_id).msg_type == 0x40,
    {
        self.bare_frame(Priority::Query, MsgType::QueryStatus)
    }

    /// The position and velocity query.
    pub fn send_query_pos_vel(&mut self) -> (res: CanFrame)
        ensures
            final(self)@ == sent(old(self)@),
            res@ == command(
                old(self)@,
                Priority::Query,
                MsgType::QueryPosVel,
                protocol::empty_payload(),
            ),
            protocol::id_fields(res@.arbitration_id).msg_type == 0x41,
    {
        self.bare_frame(Priority::Query, MsgType::QueryPosVel)
    }

    /// The current query (Iq and Id).
    pub fn send_query_current(&mut self) -> (res: CanFrame)
        ensures
            final(self)@ == sent(old(self)@),
            res@ == command(
                old(self)@,
                Priority::Query,
                MsgType::QueryCurrent,
                protocol::empty_payload(),
            ),
            protocol::id_fields(res@.arbitration_id).msg_type == 0x42,
    {
        self.bare_frame(Priority::Query, MsgType::QueryCurrent)
    }

    /// The temperature query (motor and MOSFET).
    pub fn send_query_temperature(&mut self) -> (res: CanFrame)
        ensures
            final(self)@ == sent(old(self)@),
            res@ == command(
                old(self)@,
                Priority::Query,
                MsgType::QueryTemperature,
                protocol::empty_payload(),
            ),
            protocol::id_fields(res@.arbitration_id).msg_type == 0x43,
    {
        self.bare_frame(Priority::Query, MsgType::QueryTemperature)
    }

    /// The bus voltage and current query.
    pub fn send_query_bus(&mut self) -> (res: CanFrame)
        ensures
            final(self)@ == sent(old(self)@),
            res@ == command(
                old(self)@,
                Priority::Query,
                MsgType::QueryBus,
                protocol::empty_payload(),
            ),
            protocol::id_fields(res@.arbitration_id).msg_type == 0x44,
    {
        self.bare_frame(Priority::Query, MsgType::QueryBus)
    }

    /// The device information query (hardware and firmware version).
    pub fn send_query_device_info(&mut self) -> (res: CanFrame)
        ensures
            final(self)@ == sent(old(self)@),
            res@ == command(
                old(self)@,
                Priority::Query,
                MsgType::QueryDeviceInfo,
                protocol::empty_payload(),
            ),
            protocol::id_fields(res@.arbitration_id).msg_type == 0x46,
    {
        self.bare_frame(Priority::Query, MsgType::QueryDeviceInfo)
    }

    /// The detailed error query for a subsystem.
    pub fn send_query_error(&mut self, err_type: u8) -> (res: CanFrame)
        ensures
            final(self)@ == sent(old(self)@),
            res@ == command(
                old(self)@,
                Priority::Query,
                MsgType::QueryError,
                protocol::empty_payload().update(0, err_type),
            ),
            protocol::id_fields(res@.arbitration_id).msg_type == 0x45,
    {
        self.frame(Priority::Query, MsgType::QueryError, protocol::encode_query_error(err_type))
    }

    /// The request for an immediate status feedback, answered with an MIT response.
    pub fn send_status_feedback(&mut self) -> (res: CanFrame)
        ensures
            final(self)@ == sent(old(self)@),
            res@ == command(
                old(self)@,
                Priority::Query,
                MsgType::StatusFeedback,
                protocol::empty_payload(),
            ),
            protocol::id_fields(res@.arbitration_id).msg_type == 0x49,
    {
        self.bare_frame(Priority::Query, MsgType::StatusFeedback)
    }

    /// The command that erases the configuration and restarts the firmware.
    pub fn send_config_reset(&mut self) -> (res: CanFrame)
        ensures
            final(self)@ == sent(old(self)@),
            res@ == command(
                old(self)@,
                Priority::Config,
                MsgType::ConfigReset,
                protocol::empty_payload(),
            ),
            protocol::id_fields(res@.arbitration_id).msg_type == 0x23,
    {
        self.frame(Priority::Config, MsgType::ConfigReset, protocol::encode_config_reset())
    }

    /// The command that stores the parameters in flash memory.
    pub fn store_parameters(&mut self) -> (res: CanFrame)
        ensures
            final(self)@ == sent(old(self)@),
            res@ == command(
                old(self)@,
                Priority::Config,
                MsgType::ConfigSave,
                protocol::empty_payload(),
            ),
            protocol::id_fields(res@.arbitration_id).msg_type == 0x22,
    {
        self.frame(Priority::Config, MsgType::ConfigSave, protocol::encode_config_save())
    }
}

/// The frame of a message that carries no payload and is sent on its own.
pub open spec fn bare_command(motor: MotorView, msg_type: MsgType) -> Option<FrameView> {
    let data = protocol::empty_payload();
    match msg_type {
        MsgType::StartMotor | MsgType::StopMotor => Some(
            command(motor, Priority::Ctrl, msg_type, data),
        ),
        MsgType::SetZero | MsgType::ClearErrors | MsgType::ResetDevice => Some(
            command(motor, Priority::Config, msg_type, data),
        ),
        MsgType::QueryStatus | MsgType::QueryPosVel | MsgType::QueryDeviceInfo => Some(
            command(motor, Priority::Query, msg_type, data),
        ),
        MsgType::Estop => Some(
            outgoing(motor, Priority::Critical, msg_type, ADDR_BROADCAST, data),
        ),
        _ => None,
    }
}

impl CyberBeastMotor {
    /// The frame of a message that carries no payload and is sent on its own; nothing for any
    /// other message.
    pub fn send_bare(&mut self, msg_type: MsgType) -> (res: Option<CanFrame>)
        ensures
            match res {
                Some(frame) => bare_command(old(self)@, msg_type) == Some(frame@) && final(self)@
                    == sent(old(self)@),
                None => bare_command(old(self)@, msg_type) is None && final(self)@ == old(self)@,
            },
    {
        match msg_type {
            MsgType::StartMotor => Some(self.send_start_motor()),
            MsgType::StopMotor => Some(self.send_stop_motor()),
            MsgType::SetZero => Some(self.send_set_zero()),
            MsgType::ClearErrors => Some(self.send_clear_errors()),
            MsgType::ResetDevice => Some(self.send_reset_device()),
            MsgType::QueryStatus => Some(self.send_query_status()),
            MsgType::QueryPosVel => Some(self.send_query_pos_vel()),
            MsgType::QueryDeviceInfo => Some(self.send_query_device_info()),
            MsgType::Estop => Some(self.send_estop()),
            _ => None,
        }
    }
}

/// An emergency stop has the highest priority and reaches every device.
pub proof fn law_estop_is_a_global_broadcast(motor: MotorView, data: Seq<u8>)
    ensures
        ({
            let parts = protocol::id_fields(
                outgoing(motor, Priority::Critical, MsgType::Estop, ADDR_BROADCAST, data)
                    .arbitration_id,
            );
            &&& parts.priority == 0
            &&& parts.msg_type == 0xC0
            &&& parts.dest == 0xFF
            &&& parts.is_broadcast
        }),
{
    protocol::law_can_id_round_trip(
        0,
        0xC0,
        ADDR_BROADCAST,
        motor.master_id,
        (motor.tx_seq % 4) as u8,
    );
}

/// A frame sent to a motor names that motor as its destination, the host as its source, and
/// the message type and priority of the command; consecutive frames differ in their
/// sequence number.
pub proof fn law_commands_address_their_motor(
    motor: MotorView,
    priority: Priority,
    msg_type: MsgType,
    data: Seq<u8>,
)
    ensures
        ({
            let parts = protocol::id_fields(
                command(motor, priority, msg_type, data).arbitration_id,
            );
            &&& parts.priority == priority.number()
            &&& parts.msg_type == msg_type.number()
            &&& parts.dest == address(motor.motor_id)
            &&& parts.source == motor.master_id
            &&& parts.seq == motor.tx_seq % 4
            &&& protocol::id_fields(
                command(sent(motor), priority, msg_type, data).arbitration_id,
            ).seq != parts.seq
        }),
{
    protocol::law_can_id_round_trip(
        priority.number(),
        msg_type.number(),
        address(motor.motor_id),
        motor.master_id,
        (motor.tx_seq % 4) as u8,
    );
    protocol::law_can_id_round_trip(
        priority.number(),
        msg_type.number(),
        address(motor.motor_id),
        motor.master_id,
        protocol::next_seq_number(motor.tx_seq),
    );
}

/// Restarting the firmware and erasing the configuration are different messages.
pub proof fn law_reset_is_not_config_reset(motor: MotorView, data: Seq<u8>)
    ensures
        command(motor, Priority::Config, MsgType::ResetDevice, data).arbitration_id != command(
            motor,
            Priority::Config,
            MsgType::ConfigReset,
            data,
        ).arbitration_id,
{
}

/// Whether a broadcast with this destination reaches a device.
///
/// `0xFF` reaches every device; any other destination is a bitmap of the devices 0 to 7,
/// with device 0 in the lowest bit.
pub open spec fn in_broadcast(device: u8, dest: u8) -> bool {
    dest == ADDR_BROADCAST || (device < MAX_BROADCAST_DEVICES && (dest >> device) & 1u8 == 1)
}

/// Whether a frame concerns the motor: a received frame that names the motor as its source,
/// or a broadcast that reaches it.
pub open spec fn accepted(motor_id: u16, frame: FrameView) -> bool {
    let parts = protocol::id_fields(frame.arbitration_id);
    frame.is_rx && (if parts.is_broadcast {
        in_broadcast(address(motor_id), parts.dest)
    } else {
        parts.source == address(motor_id)
    })
}

impl CyberBeastMotor {
    /// Whether a broadcast frame targets this motor.
    pub fn is_broadcast_slot_for_me(&self, parts: &CyberBeastCanId) -> (res: bool)
        ensures
            res == in_broadcast(address(self@.motor_id), parts.dest),
    {
        let device: u8 = (self.motor_id % 256) as u8;
        if parts.dest == ADDR_BROADCAST {
            return true;
        }
        if device >= MAX_BROADCAST_DEVICES {
            return false;
        }
        (parts.dest >> device) & 1u8 == 1
    }

    /// Whether a frame concerns this motor.
    pub fn accepts_frame(&self, frame: &CanFrame) -> (res: bool)
        ensures
            res == accepted(self@.motor_id, frame@),
    {
        if !frame.is_rx {
            return false;
        }
        let parts: CyberBeastCanId = can_id_parts(frame.arbitration_id);
        if !parts.is_broadcast {
            return parts.source == (self.motor_id % 256) as u8;
        }
        self.is_broadcast_slot_for_me(&parts)
    }
}

/// What a frame that was sent by a motor carries.
pub open spec fn carries(feedback: Feedback, frame: FrameView) -> bool {
    let kind = protocol::id_fields(frame.arbitration_id).msg_type;
    let data = frame.data;
    if kind == MsgType::MitControl.number() {
        feedback == Feedback::Mit(protocol::mit_response_in(data))
    } else if kind == MsgType::Heartbeat.number() {
        feedback == Feedback::Heartbeat(protocol::heartbeat_in(data))
    } else if kind == MsgType::QueryPosVel.number() {
        feedback == Feedback::PosVel(protocol::be32(data, 0) as u32, protocol::be32(data, 4) as u32)
    } else if kind == MsgType::QueryCurrent.number() {
        feedback == Feedback::Current(
            protocol::be32(data, 0) as u32,
            protocol::be32(data, 4) as u32,
        )
    } else if kind == MsgType::QueryTemperature.number() {
        feedback == Feedback::Temperature(
            protocol::be32(data, 0) as u32,
            protocol::be32(data, 4) as u32,
        )
    } else if kind == MsgType::QueryBus.number() {
        feedback == Feedback::Bus(protocol::be32(data, 0) as u32, protocol::be32(data, 4) as u32)
    } else if kind == MsgType::QueryDeviceInfo.number() {
        feedback == Feedback::DeviceInfo(
            protocol::be32(data, 0) as u32,
            protocol::be32(data, 4) as u32,
        )
    } else if kind == MsgType::QueryError.number() {
        feedback == Feedback::ErrorValue(protocol::be32(data, 4) as u32)
    } else if kind == MsgType::ParamRead.number() {
        match protocol::param_read_in(data) {
            Some(response) => feedback matches Feedback::ParamRead(found) && found@ == response
                && found.data_len <= 4,
            None => feedback is Ignored,
        }
    } else if kind == MsgType::ParamWrite.number() {
        feedback == Feedback::WriteAck(protocol::be16(data, 1) as u16)
    } else if kind == MsgType::JsonDescData.number() {
        feedback is Descriptor
    } else {
        feedback is Ignored
    }
}

/// Decode a frame that was sent by a motor.
pub fn decode_feedback(frame: &CanFrame) -> (res: Feedback)
    ensures
        carries(res, frame@),
{
    let kind: u8 = can_id_parts(frame.arbitration_id).msg_type;
    let pair: (u32, u32) = protocol::decode_float_pair(&frame.data);
    if kind == MsgType::MitControl.code() {
        Feedback::Mit(protocol::unpack_mit_response(&frame.data))
    } else if kind == MsgType::Heartbeat.code() {
        match protocol::decode_heartbeat(&frame.data) {
            Some(heartbeat) => Feedback::Heartbeat(heartbeat),
            None => Feedback::Ignored,
        }
    } else if kind == MsgType::QueryPosVel.code() {
        Feedback::PosVel(pair.0, pair.1)
    } else if kind == MsgType::QueryCurrent.code() {
        Feedback::Current(pair.0, pair.1)
    } else if kind == MsgType::QueryTemperature.code() {
        Feedback::Temperature(pair.0, pair.1)
    } else if kind == MsgType::QueryBus.code() {
        Feedback::Bus(pair.0, pair.1)
    } else if kind == MsgType::QueryDeviceInfo.code() {
        match protocol::decode_device_info_response(&frame.data) {
            Some(info) => Feedback::DeviceInfo(info.hw_version, info.fw_version),
            None => Feedback::Ignored,
        }
    } else if kind == MsgType::QueryError.code() {
        match protocol::decode_error_response(&frame.data) {
            Some(value) => Feedback::ErrorValue(value),
            None => Feedback::Ignored,
        }
    } else if kind == MsgType::ParamRead.code() {
        match protocol::decode_param_read_frame(&frame.data) {
            Some(response) => Feedback::ParamRead(response),
            None => Feedback::Ignored,
        }
    } else if kind == MsgType::ParamWrite.code() {
        match protocol::param_write_ack_id(&frame.data) {
            Some(id) => Feedback::WriteAck(id),
            None => Feedback::Ignored,
        }
    } else if kind == MsgType::JsonDescData.code() {
        Feedback::Descriptor
    } else {
        Feedback::Ignored
    }
}

/// The state that a frame updates: the fields it does not carry stay.
pub open spec fn base_state(motor: MotorView, frame: FrameView) -> CyberBeastMotorState {
    CyberBeastMotorState {
        arbitration_id: frame.arbitration_id,
        can_id_parts: protocol::id_fields(frame.arbitration_id),
        ..match motor.state {
            Some(state) => state,
            None => models::initial_state(),
        }
    }
}

/// The motor after a frame that it sent. `scaled` holds the quantities of an MIT response,
/// a heartbeat or a position answer, scaled from their counts.
pub open spec fn after_feedback(
    motor: MotorView,
    frame: FrameView,
    scaled: Scaled,
    now_ms: u64,
) -> MotorView {
    let kind = protocol::id_fields(frame.arbitration_id).msg_type;
    let data = frame.data;
    let base = base_state(motor, frame);
    if kind == MsgType::MitControl.number() {
        let response = protocol::mit_response_in(data);
        MotorView {
            state: Some(
                CyberBeastMotorState {
                    pos: scaled.pos,
                    vel: scaled.vel,
                    current: scaled.current,
                    error_code: response.error_code,
                    mode_state: response.mode_state,
                    motor_temp: scaled.motor_temp,
                    mos_temp: scaled.mos_temp,
                    ..base
                },
            ),
            ..motor
        }
    } else if kind == MsgType::Heartbeat.number() {
        let heartbeat = protocol::heartbeat_in(data);
        MotorView {
            state: Some(
                CyberBeastMotorState {
                    pos: scaled.pos,
                    vel: scaled.vel,
                    current: scaled.current,
                    motor_temp: scaled.motor_temp,
                    error_flags: heartbeat.error_flags,
                    heartbeat_life: heartbeat.life_counter,
                    ..base
                },
            ),
            ..motor
        }
    } else if kind == MsgType::QueryPosVel.number() {
        MotorView {
            state: Some(CyberBeastMotorState { pos: scaled.pos, vel: scaled.vel, ..base }),
            pos_vel_ms: Some(now_ms),
            ..motor
        }
    } else if kind == MsgType::QueryCurrent.number() {
        MotorView {
            state: Some(
                CyberBeastMotorState { current: protocol::be32(data, 0) as u32, ..base },
            ),
            ..motor
        }
    } else if kind == MsgType::QueryTemperature.number() {
        MotorView {
            state: Some(
                CyberBeastMotorState {
                    motor_temp: protocol::be32(data, 0) as u32,
                    mos_temp: protocol::be32(data, 4) as u32,
                    ..base
                },
            ),
            ..motor
        }
    } else if kind == MsgType::QueryDeviceInfo.number() {
        MotorView {
            state: Some(
                CyberBeastMotorState {
                    hw_version: Some(protocol::be32(data, 0) as u32),
                    fw_version: Some(protocol::be32(data, 4) as u32),
                    ..base
                },
            ),
            ..motor
        }
    } else if kind == MsgType::QueryError.number() {
        MotorView {
            state: Some(
                CyberBeastMotorState {
                    error_value: Some(protocol::be32(data, 4) as u32),
                    ..base
                },
            ),
            ..motor
        }
    } else if kind == MsgType::ParamRead.number() {
        match protocol::param_read_in(data) {
            Some(response) => MotorView {
                params: param_cache::after_response(motor.params, response, now_ms),
                ..motor
            },
            None => motor,
        }
    } else if kind == MsgType::ParamWrite.number() {
        MotorView {
            params: param_cache::after_ack(motor.params, protocol::be16(data, 1) as u16, now_ms),
            ..motor
        }
    } else if kind == MsgType::JsonDescData.number() {
        MotorView { json_desc: descriptor::after_frame(motor.json_desc, data).0, ..motor }
    } else {
        motor
    }
}

impl CyberBeastMotor {
    fn updated(&self, frame: &CanFrame) -> (res: CyberBeastMotorState)
        ensures
            res == base_state(self@, frame@),
    {
        let existing: CyberBeastMotorState = match self.state {
            Some(state) => state,
            None => CyberBeastMotorState::default(),
        };
        CyberBeastMotorState {
            arbitration_id: frame.arbitration_id,
            can_id_parts: can_id_parts(frame.arbitration_id),
            ..existing
        }
    }

    /// Process a frame sent by the motor: MIT response, heartbeat, query answer, parameter
    /// answer or descriptor data.
    ///
    /// Feedback is reported in motor-side turns by heartbeats and position answers, and in
    /// output-side radians by MIT responses; `scaled` is motor-side radians in every case,
    /// so the cached state never changes its unit with the frame that arrived last.
    pub fn process_feedback_frame(&mut self, frame: &CanFrame, scaled: &Scaled, now_ms: u64)
        ensures
            final(self)@ == after_feedback(old(self)@, frame@, *scaled, now_ms),
    {
        let base: CyberBeastMotorState = self.updated(frame);
        match decode_feedback(frame) {
            Feedback::Mit(response) => {
                self.state = Some(
                    CyberBeastMotorState {
                        pos: scaled.pos,
                        vel: scaled.vel,
                        current: scaled.current,
                        error_code: response.error_code,
                        mode_state: response.mode_state,
                        motor_temp: scaled.motor_temp,
                        mos_temp: scaled.mos_temp,
                        ..base
                    },
                );
            },
            Feedback::Heartbeat(heartbeat) => {
                self.state = Some(
                    CyberBeastMotorState {
                        pos: scaled.pos,
                        vel: scaled.vel,
                        current: scaled.current,
                        motor_temp: scaled.motor_temp,
                        error_flags: heartbeat.error_flags,
                        heartbeat_life: heartbeat.life_counter,
                        ..base
                    },
                );
            },
            Feedback::PosVel(_, _) => {
                self.state = Some(
                    CyberBeastMotorState { pos: scaled.pos, vel: scaled.vel, ..base },
                );
                self.pos_vel_ms = Some(now_ms);
            },
            Feedback::Current(iq, _) => {
                self.state = Some(CyberBeastMotorState { current: iq, ..base });
            },
            Feedback::Temperature(motor_temp, mos_temp) => {
                self.state = Some(CyberBeastMotorState { motor_temp, mos_temp, ..base });
            },
            Feedback::DeviceInfo(hw_version, fw_version) => {
                self.state = Some(
                    CyberBeastMotorState {
                        hw_version: Some(hw_version),
                        fw_version: Some(fw_version),
                        ..base
                    },
                );
            },
            Feedback::ErrorValue(value) => {
                self.state = Some(CyberBeastMotorState { error_value: Some(value), ..base });
            },
            Feedback::ParamRead(response) => {
                self.params.record_read_frame(&response, now_ms);
            },
            Feedback::WriteAck(endpoint_id) => {
                self.params.record_write_ack(endpoint_id, now_ms);
            },
            Feedback::Descriptor => {
                self.json_desc.record(&frame.data);
            },
            Feedback::Bus(_, _) | Feedback::Ignored => {},
        }
    }
}

/// A heartbeat leaves the mode and error code of the last MIT response, the MOSFET
/// temperature and everything that was queried alone; an MIT response leaves the life
/// counter and error flags of the last heartbeat and everything that was queried alone; an
/// answer to a position query changes the identifier, its fields, the position and the
/// velocity, and nothing else.
pub proof fn law_frames_keep_what_they_do_not_carry(
    motor: MotorView,
    frame: FrameView,
    scaled: Scaled,
    now_ms: u64,
)
    requires
        motor.state is Some,
    ensures
        ({
            let kind = protocol::id_fields(frame.arbitration_id).msg_type;
            let old_state = motor.state->0;
            let next = after_feedback(motor, frame, scaled, now_ms);
            let state = next.state->0;
            &&& next.state is Some
            &&& next.tx_seq == motor.tx_seq
            &&& next.endpoint_map == motor.endpoint_map
            &&& kind == MsgType::Heartbeat.number() ==> state.error_code == old_state.error_code
                && state.mode_state == old_state.mode_state && state.mos_temp
                == old_state.mos_temp && state.hw_version == old_state.hw_version
                && state.fw_version == old_state.fw_version && state.error_value
                == old_state.error_value
            &&& kind == MsgType::MitControl.number() ==> state.error_flags
                == old_state.error_flags && state.heartbeat_life == old_state.heartbeat_life
                && state.hw_version == old_state.hw_version && state.fw_version
                == old_state.fw_version && state.error_value == old_state.error_value
            &&& kind == MsgType::QueryPosVel.number() ==> state == (CyberBeastMotorState {
                arbitration_id: frame.arbitration_id,
                can_id_parts: protocol::id_fields(frame.arbitration_id),
                pos: scaled.pos,
                vel: scaled.vel,
                ..old_state
            })
            &&& kind != MsgType::JsonDescData.number() ==> next.json_desc == motor.json_desc
            &&& kind != MsgType::ParamRead.number() && kind != MsgType::ParamWrite.number()
                ==> next.params == motor.params
        }),
{
}

/// The unit of the cached position and velocity does not depend on which frame arrived last:
/// heartbeats and position answers carry them in one unit, so one factor turns both into
/// motor-side radians, and the same quantities give the same position and velocity after
/// either.
pub proof fn law_position_units_agree(
    motor: MotorView,
    heartbeat: FrameView,
    answer: FrameView,
    carried: Feedback,
    answered: Feedback,
    scaled: Scaled,
    now_ms: u64,
)
    requires
        protocol::id_fields(heartbeat.arbitration_id).msg_type == MsgType::Heartbeat.number(),
        protocol::id_fields(answer.arbitration_id).msg_type == MsgType::QueryPosVel.number(),
        carries(carried, heartbeat),
        carries(answered, answer),
    ensures
        models::position_unit(carried) == Some(PositionUnit::MotorTurns),
        models::position_unit(answered) == Some(PositionUnit::MotorTurns),
        ({
            let after_heartbeat = after_feedback(motor, heartbeat, scaled, now_ms).state->0;
            let after_answer = after_feedback(motor, answer, scaled, now_ms).state->0;
            &&& after_heartbeat.pos == scaled.pos && after_heartbeat.vel == scaled.vel
            &&& after_answer.pos == scaled.pos && after_answer.vel == scaled.vel
        }),
{
}

/// A motor accepts the frames of its own node and every global broadcast, and never a frame
/// that the host sent.
pub proof fn law_frames_reach_their_motor(motor_id: u16, frame: FrameView)
    ensures
        ({
            let parts = protocol::id_fields(frame.arbitration_id);
            &&& !frame.is_rx ==> !accepted(motor_id, frame)
            &&& frame.is_rx && parts.dest == ADDR_BROADCAST ==> accepted(motor_id, frame)
            &&& frame.is_rx && !parts.is_broadcast ==> (accepted(motor_id, frame) <==> parts.source
                == address(motor_id))
        }),
{
}

/// The motor after a parameter read request for `offset`.
pub open spec fn after_read_request(motor: MotorView, endpoint_id: u16, offset: u32) -> MotorView {
    MotorView {
        params: param_cache::reading(motor.params, endpoint_id, offset),
        ..sent(motor)
    }
}

/// Whether a payload is a parameter read request.
pub open spec fn is_read_request(data: Seq<u8>, endpoint_id: u16, offset: u32) -> bool {
    &&& data.len() == 8
    &&& data[0] == 0
    &&& protocol::be16(data, 1) == endpoint_id
    &&& data[3] == 4
    &&& protocol::be32(data, 4) == offset
}

/// The motor after a parameter write request.
pub open spec fn after_write_request(motor: MotorView, endpoint_id: u16) -> MotorView {
    MotorView { params: param_cache::writing(motor.params, endpoint_id), ..sent(motor) }
}

/// Whether a payload is a parameter write request with these value bytes.
pub open spec fn is_write_request(data: Seq<u8>, endpoint_id: u16, value: Seq<u8>) -> bool {
    &&& data.len() == 8
    &&& data[0] == 0
    &&& protocol::be16(data, 1) == endpoint_id
    &&& data[3] == value.len()
    &&& data.subrange(4, 4 + value.len() as int) == value
    &&& forall|i: int| 4 + value.len() <= i < 8 ==> #[trigger] data[i] == 0
}

/// The error for an endpoint that the device does not have, when it is to be read.
pub open spec fn unknown_endpoint(map: MapView, endpoint_id: u16) -> error::Fault {
    error::invalid(
        endpoint_map::unknown_id_text(endpoint_id, map.entries.len(), map.version_crc),
    )
}

/// The entry of an endpoint that can be read, or why it cannot.
pub open spec fn readable(map: Option<MapView>, endpoint_id: u16) -> Result<
    (EntryView, ValueType),
    error::Fault,
> {
    match map {
        None => Err(
            error::unsupported(
                "the endpoint map of this motor is not loaded; add it through CyberBeastController::add_motor (or call load_endpoint_map) before reading parameters"@,
            ),
        ),
        Some(map) => match endpoint_map::id_position(map.entries, endpoint_id) {
            None => Err(unknown_endpoint(map, endpoint_id)),
            Some(i) => {
                let entry = map.entries[i];
                match entry.kind.value_type() {
                    Some(value_type) => Ok((entry, value_type)),
                    None => Err(
                        error::unsupported(
                            "endpoint 0x"@ + text::hex(endpoint_id as nat, 4) + " ("@ + entry.path
                                + ") is declared \""@ + entry.raw_type
                                + "\" and cannot be read with PARAM_READ"@,
                        ),
                    ),
                }
            },
        },
    }
}

/// The mathematical content of a [`ParamReadout`].
pub struct ReadoutView {
    pub endpoint_id: u16,
    pub path: Option<Seq<char>>,
    pub declared: Seq<char>,
    pub access: Access,
    pub value: ParamValue,
    pub raw: Seq<u8>,
}

impl View for ParamReadout {
    type V = ReadoutView;

    open spec fn view(&self) -> ReadoutView {
        ReadoutView {
            endpoint_id: self.endpoint_id,
            path: match self.path {
                Some(path) => Some(path@),
                None => None,
            },
            declared: self.declared@,
            access: self.access,
            value: self.value,
            raw: self.raw@,
        }
    }
}

/// The typed result of a read, given the bytes that the device answered with.
pub open spec fn readout(map: Option<MapView>, endpoint_id: u16, raw: Seq<u8>) -> Result<
    ReadoutView,
    error::Fault,
> {
    match readable(map, endpoint_id) {
        Err(fault) => Err(fault),
        Ok((entry, value_type)) => match values::decoded(raw, value_type) {
            Err(fault) => Err(fault),
            Ok(value) => Ok(
                ReadoutView {
                    endpoint_id,
                    path: Some(entry.path),
                    declared: entry.raw_type,
                    access: entry.access,
                    value,
                    raw,
                },
            ),
        },
    }
}

/// The declared type of an endpoint that may be written (`None` when no map is loaded), or
/// why it may not. An `expected` type has to be the declared one.
pub open spec fn writable(
    map: Option<MapView>,
    endpoint_id: u16,
    expected: Option<ValueType>,
) -> Result<Option<ValueType>, error::Fault> {
    match map {
        None => Ok(None),
        Some(map) => match endpoint_map::id_position(map.entries, endpoint_id) {
            None => Err(
                error::invalid(
                    "endpoint 0x"@ + text::hex(endpoint_id as nat, 4) + " ("@ + text::dec(
                        endpoint_id as nat,
                    ) + ") is not in the device's endpoint map ("@ + text::dec(map.entries.len())
                        + " entries)"@,
                ),
            ),
            Some(i) => {
                let entry = map.entries[i];
                if entry.access != Access::ReadWrite {
                    Err(
                        error::invalid(
                            "endpoint 0x"@ + text::hex(endpoint_id as nat, 4) + " ("@ + entry.path
                                + ") is declared access=\""@ + entry.access.name()
                                + "\"; refusing to write it"@,
                        ),
                    )
                } else {
                    match entry.kind.value_type() {
                        None => Err(
                            error::unsupported(
                                "endpoint 0x"@ + text::hex(endpoint_id as nat, 4) + " ("@
                                    + entry.path + ") is declared \""@ + entry.raw_type
                                    + "\" and cannot be written with PARAM_WRITE"@,
                            ),
                        ),
                        Some(declared) => match expected {
                            Some(wanted) => if declared == wanted {
                                Ok(Some(declared))
                            } else {
                                Err(
                                    error::invalid(
                                        "endpoint 0x"@ + text::hex(endpoint_id as nat, 4) + " ("@
                                            + entry.path + ") is declared \""@ + declared.name()
                                            + "\", not \""@ + wanted.name() + "\""@,
                                    ),
                                )
                            },
                            None => Ok(Some(declared)),
                        },
                    }
                }
            },
        },
    }
}

/// The bytes that writing a typed value puts on the bus, or why it is not written.
pub open spec fn value_write(
    map: Option<MapView>,
    endpoint_id: u16,
    value: ParamValue,
    float_text: Seq<char>,
) -> Result<Seq<u8>, error::Fault> {
    match writable(map, endpoint_id, None) {
        Err(fault) => Err(fault),
        Ok(None) => Err(
            error::unsupported(
                "the endpoint map of this motor is not loaded, so the width the device \n                 declares for this endpoint is unknown; connect through \n                 CyberBeastController::add_motor or use set_param_f32"@,
            ),
        ),
        Ok(Some(declared)) => if value.type_of() != declared {
            Err(
                error::invalid(
                    "endpoint 0x"@ + text::hex(endpoint_id as nat, 4) + " is declared \""@
                        + declared.name() + "\" but the value to write is "@ + (value.variant()
                        + "("@ + value.shown(float_text) + ")"@),
                ),
            )
        } else if declared.width() > 4 {
            Err(
                error::unsupported(
                    "endpoint 0x"@ + text::hex(endpoint_id as nat, 4) + " is declared "@
                        + declared.name() + " ("@ + text::dec(declared.width())
                        + " bytes); a classic-CAN \n                 PARAM_WRITE carries at most 4 value bytes"@,
                ),
            )
        } else {
            Ok(values::le_bytes(value.code(), declared.width()))
        },
    }
}

/// The bytes that writing explicit bytes puts on the bus, or why they are not written.
pub open spec fn bytes_write(map: Option<MapView>, endpoint_id: u16, raw: Seq<u8>) -> Result<
    Seq<u8>,
    error::Fault,
> {
    if raw.len() > 4 {
        Err(
            error::invalid(
                text::dec(raw.len())
                    + " value bytes; a classic-CAN PARAM_WRITE carries at most 4"@,
            ),
        )
    } else {
        match writable(map, endpoint_id, None) {
            Err(fault) => Err(fault),
            Ok(_) => Ok(raw),
        }
    }
}

/// The bytes that writing a `float32` puts on the bus, or why it is not written.
pub open spec fn float_write(map: Option<MapView>, endpoint_id: u16, value: u32) -> Result<
    Seq<u8>,
    error::Fault,
> {
    match writable(map, endpoint_id, Some(ValueType::F32)) {
        Err(fault) => Err(fault),
        Ok(_) => Ok(values::le_bytes(value as nat, 4)),
    }
}

/// What a write comes to: a frame and a motor that waits for its acknowledgement, or an
/// error and an unchanged motor.
pub open spec fn write_outcome(
    before: MotorView,
    after: MotorView,
    endpoint_id: u16,
    bytes: Result<Seq<u8>, error::Fault>,
    res: Result<CanFrame, MotorError>,
) -> bool {
    match res {
        Ok(frame) => bytes is Ok && after == after_write_request(before, endpoint_id) && frame@
            == command(before, Priority::Config, MsgType::ParamWrite, frame@.data)
            && is_write_request(frame@.data, endpoint_id, bytes->Ok_0),
        Err(err) => bytes == Err::<Seq<u8>, error::Fault>(err@) && after == before,
    }
}

impl CyberBeastMotor {
    /// The read request for an endpoint.
    pub fn send_param_read(&mut self, endpoint_id: u16) -> (res: CanFrame)
        ensures
            final(self)@ == after_read_request(old(self)@, endpoint_id, 0),
            res@ == command(old(self)@, Priority::Config, MsgType::ParamRead, res@.data),
            is_read_request(res@.data, endpoint_id, 0),
            protocol::id_fields(res@.arbitration_id).msg_type == 0x20,
    {
        self.send_param_read_at(endpoint_id, 0)
    }

    /// The read request for a byte offset inside the value of an endpoint.
    ///
    /// Offset 0 starts a new read and drops everything the previous read assembled, so an
    /// earlier answer is never mistaken for the answer to this request. Later offsets
    /// continue a segmented read.
    pub fn send_param_read_at(&mut self, endpoint_id: u16, offset: u32) -> (res: CanFrame)
        ensures
            final(self)@ == after_read_request(old(self)@, endpoint_id, offset),
            res@ == command(old(self)@, Priority::Config, MsgType::ParamRead, res@.data),
            is_read_request(res@.data, endpoint_id, offset),
            protocol::id_fields(res@.arbitration_id).msg_type == 0x20,
    {
        self.params.begin_read(endpoint_id, offset);
        let data: [u8; 8] = protocol::encode_param_read_at(endpoint_id, offset);
        self.frame(Priority::Config, MsgType::ParamRead, data)
    }

    /// The write request for an endpoint with these value bytes, little-endian.
    pub fn send_param_write_bytes(&mut self, endpoint_id: u16, value: &[u8]) -> (res: CanFrame)
        requires
            value@.len() <= 4,
        ensures
            final(self)@ == after_write_request(old(self)@, endpoint_id),
            res@ == command(old(self)@, Priority::Config, MsgType::ParamWrite, res@.data),
            is_write_request(res@.data, endpoint_id, value@),
            protocol::id_fields(res@.arbitration_id).msg_type == 0x21,
    {
        self.params.begin_write(endpoint_id);
        let data: [u8; 8] = protocol::encode_param_write_bytes(endpoint_id, value);
        assert forall|i: int| 4 + value@.len() <= i < 8 implies #[trigger] data@[i] == 0 by {
            assert(data@[4 + (i - 4)] == 0);
        }
        self.frame(Priority::Config, MsgType::ParamWrite, data)
    }

    /// The write request for a `float32` endpoint.
    pub fn send_param_write(&mut self, endpoint_id: u16, value: u32) -> (res: CanFrame)
        ensures
            final(self)@ == after_write_request(old(self)@, endpoint_id),
            res@ == command(old(self)@, Priority::Config, MsgType::ParamWrite, res@.data),
            is_write_request(res@.data, endpoint_id, values::le_bytes(value as nat, 4)),
            protocol::id_fields(res@.arbitration_id).msg_type == 0x21,
    {
        let bytes: Vec<u8> = ParamValue::F32(value).to_write_bytes();
        self.send_param_write_bytes(endpoint_id, bytes.as_slice())
    }

    /// Check the device's own table before a write, when it is loaded.
    ///
    /// Returns the declared type, `None` when no map is loaded. Enforces existence,
    /// writability and, when `expected` is given, the declared type.
    pub fn check_writable(&self, endpoint_id: u16, expected: Option<ValueType>) -> (res: Result<
        Option<ValueType>,
        MotorError,
    >)
        ensures
            match res {
                Ok(declared) => writable(self@.endpoint_map, endpoint_id, expected) == Ok::<
                    Option<ValueType>,
                    error::Fault,
                >(declared),
                Err(err) => writable(self@.endpoint_map, endpoint_id, expected) == Err::<
                    Option<ValueType>,
                    error::Fault,
                >(err@),
            },
    {
        let map: &EndpointMap = match &self.endpoint_map {
            None => {
                return Ok(None);
            },
            Some(map) => map,
        };
        let mut message: String = "endpoint 0x".to_owned();
        push_hex(&mut message, endpoint_id as u64, 4);
        message.append(" (");
        let entry = match map.get(endpoint_id) {
            None => {
                push_dec(&mut message, endpoint_id as u64);
                message.append(") is not in the device's endpoint map (");
                push_dec(&mut message, map.len() as u64);
                message.append(" entries)");
                return Err(MotorError::InvalidArgument(message));
            },
            Some(entry) => entry,
        };
        message.append(entry.path.as_str());
        if !entry.access.is_writable() {
            message.append(") is declared access=\"");
            message.append(entry.access.label());
            message.append("\"; refusing to write it");
            return Err(MotorError::InvalidArgument(message));
        }
        message.append(") is declared \"");
        match entry.value_type() {
            None => {
                message.append(entry.raw_type.as_str());
                message.append("\" and cannot be written with PARAM_WRITE");
                Err(MotorError::Unsupported(message))
            },
            Some(declared) => {
                if let Some(wanted) = expected {
                    if declared != wanted {
                        message.append(declared.label());
                        message.append("\", not \"");
                        message.append(wanted.label());
                        message.append("\"");
                        return Err(MotorError::InvalidArgument(message));
                    }
                }
                Ok(Some(declared))
            },
        }
    }

    /// The write request with explicit value bytes, if the endpoint may be written.
    ///
    /// The caller decides the payload, the device's table whether the endpoint may be
    /// written. At most four value bytes fit in a classic CAN frame.
    pub fn set_param_bytes(&mut self, endpoint_id: u16, raw: &[u8]) -> (res: Result<
        CanFrame,
        MotorError,
    >)
        ensures
            write_outcome(
                old(self)@,
                final(self)@,
                endpoint_id,
                bytes_write(old(self)@.endpoint_map, endpoint_id, raw@),
                res,
            ),
    {
        if raw.len() > 4 {
            let mut message: String = String::new();
            push_dec(&mut message, raw.len() as u64);
            message.append(" value bytes; a classic-CAN PARAM_WRITE carries at most 4");
            assert(message@ =~= text::dec(raw@.len())
                + " value bytes; a classic-CAN PARAM_WRITE carries at most 4"@);
            return Err(MotorError::InvalidArgument(message));
        }
        match self.check_writable(endpoint_id, None) {
            Ok(_) => Ok(self.send_param_write_bytes(endpoint_id, raw)),
            Err(err) => Err(err),
        }
    }

    /// The write request for a `float32` endpoint, if the device's table allows it.
    pub fn set_param_f32(&mut self, endpoint_id: u16, value: u32) -> (res: Result<
        CanFrame,
        MotorError,
    >)
        ensures
            write_outcome(
                old(self)@,
                final(self)@,
                endpoint_id,
                float_write(old(self)@.endpoint_map, endpoint_id, value),
                res,
            ),
    {
        match self.check_writable(endpoint_id, Some(ValueType::F32)) {
            Ok(_) => Ok(self.send_param_write(endpoint_id, value)),
            Err(err) => Err(err),
        }
    }

    /// The write request for a value with the width that the device declares.
    ///
    /// The declared type has to match the value, and the endpoint map has to be loaded,
    /// because the width comes from the device's own declaration. `float_text` is the text
    /// of the number when the value is a float.
    pub fn set_param_value(&mut self, endpoint_id: u16, value: ParamValue, float_text: &str) -> (res:
        Result<CanFrame, MotorError>)
        ensures
            write_outcome(
                old(self)@,
                final(self)@,
                endpoint_id,
                value_write(old(self)@.endpoint_map, endpoint_id, value, float_text@),
                res,
            ),
    {
        let declared: ValueType = match self.check_writable(endpoint_id, None) {
            Err(err) => {
                return Err(err);
            },
            Ok(None) => {
                return Err(
                    MotorError::Unsupported(
                        "the endpoint map of this motor is not loaded, so the width the device \n                 declares for this endpoint is unknown; connect through \n                 CyberBeastController::add_motor or use set_param_f32".to_owned(),
                    ),
                );
            },
            Ok(Some(declared)) => declared,
        };
        let mut message: String = "endpoint 0x".to_owned();
        push_hex(&mut message, endpoint_id as u64, 4);
        if !value.matches_type(declared) {
            message.append(" is declared \"");
            message.append(declared.label());
            message.append("\" but the value to write is ");
            message.append(value.to_debug_text(float_text).as_str());
            return Err(MotorError::InvalidArgument(message));
        }
        if declared.byte_width() > 4 {
            message.append(" is declared ");
            message.append(declared.label());
            message.append(" (");
            push_dec(&mut message, declared.byte_width() as u64);
            message.append(
                " bytes); a classic-CAN \n                 PARAM_WRITE carries at most 4 value bytes",
            );
            return Err(MotorError::Unsupported(message));
        }
        let bytes: Vec<u8> = value.to_write_bytes();
        Ok(self.send_param_write_bytes(endpoint_id, bytes.as_slice()))
    }

    fn readable_entry(&self, endpoint_id: u16) -> (res: Result<
        (&EndpointEntry, ValueType),
        MotorError,
    >)
        ensures
            match res {
                Ok((entry, value_type)) => readable(self@.endpoint_map, endpoint_id) == Ok::<
                    (EntryView, ValueType),
                    error::Fault,
                >((entry@, value_type)),
                Err(err) => readable(self@.endpoint_map, endpoint_id) == Err::<
                    (EntryView, ValueType),
                    error::Fault,
                >(err@),
            },
    {
        match &self.endpoint_map {
            None => Err(
                MotorError::Unsupported(
                    "the endpoint map of this motor is not loaded; add it through CyberBeastController::add_motor (or call load_endpoint_map) before reading parameters".to_owned(),
                ),
            ),
            Some(map) => {
                let mut message: String = "endpoint 0x".to_owned();
                push_hex(&mut message, endpoint_id as u64, 4);
                message.append(" (");
                match map.get(endpoint_id) {
                    None => {
                        push_dec(&mut message, endpoint_id as u64);
                        message.append(") is not in the device's endpoint map (");
                        push_dec(&mut message, map.len() as u64);
                        message.append(" entries, VersionCRC=0x");
                        push_hex(&mut message, map.version_crc() as u64, 4);
                        message.append(")");
                        Err(MotorError::InvalidArgument(message))
                    },
                    Some(entry) => match entry.value_type() {
                        Some(value_type) => Ok((entry, value_type)),
                        None => {
                            message.append(entry.path.as_str());
                            message.append(") is declared \"");
                            message.append(entry.raw_type.as_str());
                            message.append("\" and cannot be read with PARAM_READ");
                            Err(MotorError::Unsupported(message))
                        },
                    },
                }
            },
        }
    }

    /// Whether an endpoint can be read, and with which type.
    pub fn readable_type(&self, endpoint_id: u16) -> (res: Result<ValueType, MotorError>)
        ensures
            match res {
                Ok(value_type) => readable(self@.endpoint_map, endpoint_id) matches Ok(found)
                    && found.1 == value_type,
                Err(err) => readable(self@.endpoint_map, endpoint_id) == Err::<
                    (EntryView, ValueType),
                    error::Fault,
                >(err@),
            },
    {
        match self.readable_entry(endpoint_id) {
            Ok((_, value_type)) => Ok(value_type),
            Err(err) => Err(err),
        }
    }

    /// The typed result of a read, given the bytes that the device answered with.
    ///
    /// The endpoint map supplies the value type and the dotted path, so the result is typed
    /// instead of guessed. [`Self::start_read_value`] asks the device for the bytes.
    pub fn read_param_value(&self, endpoint_id: u16, raw: Vec<u8>) -> (res: Result<
        ParamReadout,
        MotorError,
    >)
        ensures
            match res {
                Ok(found) => readout(self@.endpoint_map, endpoint_id, raw@) == Ok::<
                    ReadoutView,
                    error::Fault,
                >(found@),
                Err(err) => readout(self@.endpoint_map, endpoint_id, raw@) == Err::<
                    ReadoutView,
                    error::Fault,
                >(err@),
            },
    {
        match self.readable_entry(endpoint_id) {
            Err(err) => Err(err),
            Ok((entry, value_type)) => match decode_value(raw.as_slice(), value_type) {
                Err(err) => Err(err),
                Ok(value) => Ok(
                    ParamReadout {
                        endpoint_id,
                        path: Some(entry.path.clone()),
                        declared: entry.raw_type.clone(),
                        access: entry.access,
                        value,
                        raw,
                    },
                ),
            },
        }
    }
}

/// A write that the device's table refuses puts no frame on the bus and changes nothing: an
/// endpoint that the device does not have, does not declare writable, or declares with no
/// value type is never written.
pub proof fn law_refused_writes_send_nothing(
    map: MapView,
    endpoint_id: u16,
    value: ParamValue,
    raw: Seq<u8>,
    float_text: Seq<char>,
)
    requires
        match endpoint_map::id_position(map.entries, endpoint_id) {
            Some(i) => map.entries[i].access != Access::ReadWrite
                || map.entries[i].kind.value_type() is None,
            None => true,
        },
    ensures
        value_write(Some(map), endpoint_id, value, float_text) is Err,
        bytes_write(Some(map), endpoint_id, raw) is Err,
        value is F32 ==> float_write(Some(map), endpoint_id, value->F32_0) is Err,
{
}

/// What a read of an endpoint gives back of a write: if the device answers a read with the
/// bytes of an accepted write, the typed result is the value that was written.
pub proof fn law_a_read_gives_back_a_write(
    map: MapView,
    endpoint_id: u16,
    value: ParamValue,
    float_text: Seq<char>,
)
    requires
        value_write(Some(map), endpoint_id, value, float_text) is Ok,
    ensures
        readout(
            Some(map),
            endpoint_id,
            value_write(Some(map), endpoint_id, value, float_text)->Ok_0,
        ) matches Ok(found) && found.value == value && found.endpoint_id == endpoint_id,
{
    values::law_decode_undoes_write(value);
}

/// What a read of a parameter comes to.
#[derive(Debug)]
pub enum ReadProgress {
    /// Nothing yet: wait for frames.
    Wait,
    /// Send this frame.
    Send(CanFrame),
    /// The little-endian bytes of the value.
    Done(Vec<u8>),
    /// There will be no answer.
    Failed(MotorError),
}

/// The motor after a step of a read; a repeated request is counted.
pub open spec fn after_read_step(
    motor: MotorView,
    read: ParamRead,
    next: ParamRead,
    step: param_cache::WaitView,
) -> MotorView {
    match step {
        param_cache::WaitView::Request(offset) => MotorView {
            tx_retries: if next.offset == read.offset {
                descriptor::counted(motor.tx_retries)
            } else {
                motor.tx_retries
            },
            ..after_read_request(motor, read.endpoint_id, offset)
        },
        _ => motor,
    }
}

/// Whether a step of a read is carried out as it was decided.
pub open spec fn carries_out_read(
    motor: MotorView,
    endpoint_id: u16,
    step: param_cache::WaitView,
    res: ReadProgress,
) -> bool {
    match step {
        param_cache::WaitView::Wait => res is Wait,
        param_cache::WaitView::Request(offset) => res matches ReadProgress::Send(frame) && frame@
            == command(motor, Priority::Config, MsgType::ParamRead, frame@.data)
            && is_read_request(frame@.data, endpoint_id, offset),
        param_cache::WaitView::Done(bytes) => res matches ReadProgress::Done(found) && found@
            == bytes,
        param_cache::WaitView::Failed(fault) => res matches ReadProgress::Failed(err) && err@
            == fault,
    }
}

/// The `float32` in the bytes of a value, or why there is none.
pub open spec fn float_in_raw(endpoint_id: u16, raw: Seq<u8>) -> Result<u32, error::Fault> {
    if raw.len() == 4 {
        Ok(values::le(raw) as u32)
    } else {
        Err(
            error::unsupported(
                "endpoint 0x"@ + text::hex(endpoint_id as nat, 4) + " returned "@ + text::dec(
                    raw.len(),
                ) + " byte(s), expected 4 (float32)"@,
            ),
        )
    }
}

impl CyberBeastMotor {
    /// Start a read of any value width: the read and its first request.
    pub fn read_param_raw(&mut self, endpoint_id: u16, timeout_ms: u64, now_ms: u64) -> (res: (
        ParamRead,
        CanFrame,
    ))
        ensures
            final(self)@ == after_read_request(old(self)@, endpoint_id, 0),
            res.0 == param_cache::new_read(endpoint_id, timeout_ms, now_ms),
            res.1@ == command(old(self)@, Priority::Config, MsgType::ParamRead, res.1@.data),
            is_read_request(res.1@.data, endpoint_id, 0),
    {
        let frame: CanFrame = self.send_param_read(endpoint_id);
        (ParamRead::start(endpoint_id, timeout_ms, now_ms), frame)
    }

    /// Start a read of an endpoint with the type that the device declares for it: the read
    /// and its first request, or why the endpoint cannot be read, in which case nothing is
    /// sent. [`Self::read_param_value`] turns the bytes of the answer into the typed result.
    pub fn start_read_value(&mut self, endpoint_id: u16, timeout_ms: u64, now_ms: u64) -> (res:
        Result<(ParamRead, CanFrame), MotorError>)
        ensures
            match res {
                Ok((read, frame)) => readable(old(self)@.endpoint_map, endpoint_id) is Ok
                    && final(self)@ == after_read_request(old(self)@, endpoint_id, 0) && read
                    == param_cache::new_read(endpoint_id, timeout_ms, now_ms) && frame@ == command(
                    old(self)@,
                    Priority::Config,
                    MsgType::ParamRead,
                    frame@.data,
                ) && is_read_request(frame@.data, endpoint_id, 0),
                Err(err) => readable(old(self)@.endpoint_map, endpoint_id) == Err::<
                    (EntryView, ValueType),
                    error::Fault,
                >(err@) && final(self)@ == old(self)@,
            },
    {
        match self.readable_type(endpoint_id) {
            Ok(_) => Ok(self.read_param_raw(endpoint_id, timeout_ms, now_ms)),
            Err(err) => Err(err),
        }
    }

    /// Take the next step of a read.
    pub fn continue_read(&mut self, read: &mut ParamRead, now_ms: u64) -> (res: ReadProgress)
        ensures
            ({
                let (next, step) = param_cache::read_step(*old(read), old(self)@.params, now_ms);
                &&& *final(read) == next
                &&& final(self)@ == after_read_step(old(self)@, *old(read), next, step)
                &&& carries_out_read(old(self)@, old(read).endpoint_id, step, res)
            }),
    {
        let before: u64 = read.offset;
        match read.step(&self.params, now_ms) {
            WaitStep::Wait => ReadProgress::Wait,
            WaitStep::Request(offset) => {
                if read.offset == before && self.tx_retries < u32::MAX {
                    self.tx_retries = self.tx_retries + 1;
                }
                ReadProgress::Send(self.send_param_read_at(read.endpoint_id, offset))
            },
            WaitStep::Done(bytes) => ReadProgress::Done(bytes),
            WaitStep::Failed(err) => ReadProgress::Failed(err),
        }
    }

    /// The `float32` in the bytes of a value, or why there is none.
    pub fn read_param_f32(endpoint_id: u16, raw: &Vec<u8>) -> (res: Result<u32, MotorError>)
        ensures
            match res {
                Ok(value) => float_in_raw(endpoint_id, raw@) == Ok::<u32, error::Fault>(value),
                Err(err) => float_in_raw(endpoint_id, raw@) == Err::<u32, error::Fault>(err@),
            },
    {
        match decode_value(raw.as_slice(), ValueType::F32) {
            Ok(ParamValue::F32(value)) => Ok(value),
            _ => {
                let mut message: String = "endpoint 0x".to_owned();
                push_hex(&mut message, endpoint_id as u64, 4);
                message.append(" returned ");
                push_dec(&mut message, raw.len() as u64);
                message.append(" byte(s), expected 4 (float32)");
                Err(MotorError::Unsupported(message))
            },
        }
    }

    /// Whether the value of a `float32` endpoint that has been requested is there.
    ///
    /// Nothing is sent: without a preceding [`Self::send_param_read`] this times out. An
    /// endpoint that answers with another width, or with a segmented value, is reported as
    /// such instead.
    pub fn get_param_f32(&self, wait: &FloatWait, now_ms: u64) -> (res: FloatStep)
        ensures
            res@ == param_cache::float_step(*wait, self@.params, now_ms),
    {
        wait.step(&self.params, now_ms)
    }

    /// Whether a write has been acknowledged.
    pub fn wait_for_write_ack(&self, wait: &AckWait, now_ms: u64) -> (res: WaitStep)
        ensures
            res@ == param_cache::ack_step(*wait, self@.params, now_ms),
    {
        wait.step(&self.params, now_ms)
    }
}

/// A request that was answered is never repeated: once bytes behind the offset of the last
/// request are there, or any answer to the first request, no request is sent again.
pub proof fn law_answered_requests_are_not_repeated(
    motor: MotorView,
    read: ParamRead,
    now_ms: u64,
)
    requires
        param_cache::answer(motor.params, read.endpoint_id) is Some,
        read.offset == 0 || param_cache::bytes_of(motor.params, read.endpoint_id).len()
            > read.offset,
        param_cache::bytes_of(motor.params, read.endpoint_id).len() <= u64::MAX,
    ensures
        ({
            let (next, step) = param_cache::read_step(read, motor.params, now_ms);
            next.resent == read.resent && after_read_step(motor, read, next, step).tx_retries
                == motor.tx_retries
        }),
{
}

/// What a descriptor transfer comes to.
#[derive(Debug)]
pub enum DescriptorProgress {
    /// Nothing yet: wait for frames.
    Wait,
    /// Send this frame.
    Send(CanFrame),
    /// The complete descriptor: its length, its version and its bytes.
    Done(u32, u16, Vec<u8>),
    /// The descriptor cannot be read.
    Failed(MotorError),
}

/// Whether a payload is a descriptor request.
pub open spec fn is_descriptor_request(data: Seq<u8>, offset: u32) -> bool {
    &&& data.len() == 8
    &&& protocol::le32(data, 0) == offset
    &&& protocol::be32(data, 4) == 0
}

/// The motor after a step of a descriptor transfer.
pub open spec fn after_transfer_step(
    motor: MotorView,
    cache: CacheView,
    step: descriptor::StepView,
) -> MotorView {
    match step {
        descriptor::StepView::Request(_) => MotorView { json_desc: cache, ..sent(motor) },
        _ => MotorView { json_desc: cache, ..motor },
    }
}

/// Whether a step of a descriptor transfer is carried out as it was decided.
pub open spec fn carries_out_transfer(
    motor: MotorView,
    step: descriptor::StepView,
    res: DescriptorProgress,
) -> bool {
    match step {
        descriptor::StepView::Wait => res is Wait,
        descriptor::StepView::Request(offset) => res matches DescriptorProgress::Send(frame)
            && frame@ == command(motor, Priority::Config, MsgType::JsonDescRead, frame@.data)
            && is_descriptor_request(frame@.data, offset),
        descriptor::StepView::Done(total_len, version_crc, bytes) => res matches
            DescriptorProgress::Done(len, crc, found) && len == total_len && crc == version_crc
            && found@ == bytes,
        descriptor::StepView::Failed(fault) => res matches DescriptorProgress::Failed(err) && err@
            == fault,
    }
}

/// Whether a transfer was started: with a fresh cache, and a request for the first byte.
pub open spec fn transfer_started(
    before: MotorView,
    after: MotorView,
    timeout_ms: u64,
    now_ms: u64,
    transfer: DescriptorTransfer,
    frame: FrameView,
) -> bool {
    &&& after == (MotorView { json_desc: descriptor::fresh(), ..sent(before) })
    &&& transfer == (DescriptorTransfer {
        motor_id: before.motor_id,
        timeout_ms,
        deadline_ms: descriptor::window_end(now_ms, descriptor::metadata_window(timeout_ms)),
        requests: 1,
        retries: 0,
        restarts: 0,
        stalled: 1,
        received: 0,
    })
    &&& frame == command(before, Priority::Config, MsgType::JsonDescRead, frame.data)
    &&& is_descriptor_request(frame.data, 0)
}

impl CyberBeastMotor {
    /// The descriptor request for a byte offset.
    pub fn send_json_desc_read(&mut self, offset: u32) -> (res: CanFrame)
        ensures
            final(self)@ == sent(old(self)@),
            res@ == command(old(self)@, Priority::Config, MsgType::JsonDescRead, res@.data),
            is_descriptor_request(res@.data, offset),
            protocol::id_fields(res@.arbitration_id).msg_type == 0x24,
    {
        let data: [u8; 8] = protocol::encode_json_desc_read(offset);
        self.frame(Priority::Config, MsgType::JsonDescRead, data)
    }

    /// Start to read the device's JSON endpoint descriptor: the transfer and its first
    /// request. `timeout_ms` bounds the quiet windows, not the whole transfer.
    pub fn read_endpoint_descriptor_raw(&mut self, timeout_ms: u64, now_ms: u64) -> (res: (
        DescriptorTransfer,
        CanFrame,
    ))
        ensures
            transfer_started(old(self)@, final(self)@, timeout_ms, now_ms, res.0, res.1@),
    {
        self.json_desc.reset();
        let frame: CanFrame = self.send_json_desc_read(0);
        (DescriptorTransfer::start(self.motor_id, timeout_ms, now_ms), frame)
    }

    /// Take the next step of a descriptor transfer.
    pub fn continue_descriptor(&mut self, transfer: &mut DescriptorTransfer, now_ms: u64) -> (res:
        DescriptorProgress)
        ensures
            ({
                let (next, cache, step) = descriptor::next_step(
                    *old(transfer),
                    old(self)@.json_desc,
                    now_ms,
                );
                &&& *final(transfer) == next
                &&& final(self)@ == after_transfer_step(old(self)@, cache, step)
                &&& carries_out_transfer(old(self)@, step, res)
            }),
    {
        match transfer.step(&mut self.json_desc, now_ms) {
            TransferStep::Wait => DescriptorProgress::Wait,
            TransferStep::Request(offset) => DescriptorProgress::Send(
                self.send_json_desc_read(offset),
            ),
            TransferStep::Done(total_len, version_crc, bytes) => DescriptorProgress::Done(
                total_len,
                version_crc,
                bytes,
            ),
            TransferStep::Failed(err) => DescriptorProgress::Failed(err),
        }
    }

    /// The text of a complete descriptor, with its length and version.
    pub fn read_endpoint_descriptor(total_len: u32, version_crc: u16, bytes: Vec<u8>) -> (res:
        Result<(u32, u16, String), MotorError>)
        ensures
            match res {
                Ok((len, crc, json)) => len == total_len && crc == version_crc
                    && descriptor::text_of(bytes@) == Ok::<Seq<char>, error::Fault>(json@),
                Err(err) => descriptor::text_of(bytes@) == Err::<Seq<char>, error::Fault>(err@),
            },
    {
        match descriptor_text(bytes) {
            Ok(json) => Ok((total_len, version_crc, json)),
            Err(err) => Err(err),
        }
    }

    /// Parse a complete descriptor and cache the resulting table; an error leaves the
    /// table as it is.
    pub fn load_endpoint_map(&mut self, total_len: u32, version_crc: u16, bytes: Vec<u8>) -> (res:
        Result<(), MotorError>)
        ensures
            match res {
                Ok(_) => descriptor::map_in(bytes@, total_len, version_crc) matches Ok(map)
                    && final(self)@ == (MotorView { endpoint_map: Some(map), ..old(self)@ }),
                Err(err) => descriptor::map_in(bytes@, total_len, version_crc) == Err::<
                    MapView,
                    error::Fault,
                >(err@) && final(self)@ == old(self)@,
            },
    {
        match read_map(total_len, version_crc, bytes) {
            Ok(map) => {
                self.endpoint_map = Some(map);
                Ok(())
            },
            Err(err) => Err(err),
        }
    }

    /// Start to load the endpoint map unless it is already there.
    pub fn ensure_endpoint_map(&mut self, timeout_ms: u64, now_ms: u64) -> (res: Option<
        (DescriptorTransfer, CanFrame),
    >)
        ensures
            match res {
                Some((transfer, frame)) => old(self)@.endpoint_map is None && transfer_started(
                    old(self)@,
                    final(self)@,
                    timeout_ms,
                    now_ms,
                    transfer,
                    frame@,
                ),
                None => old(self)@.endpoint_map is Some && final(self)@ == old(self)@,
            },
    {
        match &self.endpoint_map {
            Some(_) => None,
            None => Some(self.read_endpoint_descriptor_raw(timeout_ms, now_ms)),
        }
    }
}

/// From the first request on, whatever a device sends and however the frames are lost or
/// mixed with older ones of the same device: a transfer that completes hands out exactly
/// the device's descriptor.
pub proof fn law_transfers_deliver_the_descriptor(
    motor: MotorView,
    frame: FrameView,
    scaled: Scaled,
    transfer: DescriptorTransfer,
    now_ms: u64,
    descriptor: Seq<u8>,
    version_crc: u16,
)
    requires
        descriptor::follows(motor.json_desc, descriptor),
        protocol::id_fields(frame.arbitration_id).msg_type == MsgType::JsonDescData.number() ==>
            descriptor::sent_for(frame.data, descriptor, version_crc),
    ensures
        descriptor::follows(descriptor::fresh(), descriptor),
        descriptor::follows(
            after_feedback(motor, frame, scaled, now_ms).json_desc,
            descriptor,
        ),
        descriptor::follows(
            descriptor::next_step(transfer, motor.json_desc, now_ms).1,
            descriptor,
        ),
        descriptor::next_step(transfer, motor.json_desc, now_ms).2 matches
            descriptor::StepView::Done(_, _, bytes) ==> bytes == descriptor,
{
    if protocol::id_fields(frame.arbitration_id).msg_type == MsgType::JsonDescData.number() {
        descriptor::law_reassembly_follows_the_descriptor(
            motor.json_desc,
            frame.data,
            descriptor,
            version_crc,
        );
    }
    descriptor::law_done_is_the_whole_descriptor(transfer, motor.json_desc, now_ms, descriptor);
}

/// The endpoint with which the device declares its gear ratio, or why there is none.
pub open spec fn gear_endpoint(map: Option<MapView>) -> Result<EntryView, error::Fault> {
    match map {
        None => Err(
            error::unsupported(
                "the endpoint map of this motor is not loaded, so the gear ratio cannot be \n                 resolved by name"@,
            ),
        ),
        Some(map) => match endpoint_map::resolved(map, "gear_ratio"@) {
            Ok(i) => Ok(map.entries[i]),
            Err(fault) => Err(error::unsupported("gear ratio endpoint: "@ + fault.text)),
        },
    }
}

/// The error for an answer that belongs to another endpoint than the one asked for.
pub open spec fn foreign_answer(asked: u16, answered: u16) -> error::Fault {
    error::broken(
        "endpoint 0x"@ + text::hex(asked as nat, 4) + " was asked for, but the answer is of 0x"@
            + text::hex(answered as nat, 4),
    )
}

fn foreign_answer_error(asked: u16, answered: u16) -> (res: MotorError)
    ensures
        res@ == foreign_answer(asked, answered),
{
    let mut message: String = "endpoint 0x".to_owned();
    push_hex(&mut message, asked as u64, 4);
    message.append(" was asked for, but the answer is of 0x");
    push_hex(&mut message, answered as u64, 4);
    MotorError::Protocol(message)
}

/// The gear ratio in the answer to a read of its endpoint, or why it cannot be used.
pub open spec fn gear_in(
    entry: EntryView,
    answer: Result<ReadoutView, error::Fault>,
    float_text: Seq<char>,
) -> Result<u32, error::Fault> {
    match answer {
        Err(fault) => Err(
            error::prefixed(
                fault,
                "gear ratio endpoint \""@ + entry.path + "\" (0x"@ + text::hex(
                    entry.endpoint_id as nat,
                    4,
                ) + "): "@,
            ),
        ),
        Ok(found) => if found.endpoint_id != entry.endpoint_id {
            Err(foreign_answer(entry.endpoint_id, found.endpoint_id))
        } else {
            match found.value {
                ParamValue::F32(ratio) => if values::f32_positive_finite(ratio) {
                    Ok(ratio)
                } else {
                    Err(
                        error::unsupported(
                            "endpoint "@ + entry.path + " declares "@ + float_text
                                + ", which cannot be a gear ratio"@,
                        ),
                    )
                },
                _ => Err(
                    error::unsupported(
                        "endpoint "@ + entry.path + " is declared \""@ + found.declared
                            + "\", not a float"@,
                    ),
                ),
            }
        },
    }
}

/// The answer to a read, as mathematical content.
pub open spec fn answer_view(answer: Result<ParamReadout, MotorError>) -> Result<
    ReadoutView,
    error::Fault,
> {
    match answer {
        Ok(found) => Ok(found@),
        Err(err) => Err(err@),
    }
}

impl CyberBeastMotor {
    fn gear_entry(&self) -> (res: Result<&EndpointEntry, MotorError>)
        ensures
            match res {
                Ok(entry) => gear_endpoint(self@.endpoint_map) == Ok::<EntryView, error::Fault>(
                    entry@,
                ),
                Err(err) => gear_endpoint(self@.endpoint_map) == Err::<EntryView, error::Fault>(
                    err@,
                ),
            },
    {
        match &self.endpoint_map {
            None => Err(
                MotorError::Unsupported(
                    "the endpoint map of this motor is not loaded, so the gear ratio cannot be \n                 resolved by name".to_owned(),
                ),
            ),
            Some(map) => match map.resolve("gear_ratio") {
                Ok(entry) => Ok(entry),
                Err(err) => {
                    let mut message: String = "gear ratio endpoint: ".to_owned();
                    message.append(err.message());
                    Err(MotorError::Unsupported(message))
                },
            },
        }
    }

    /// The id of the endpoint with which the device declares its gear ratio.
    ///
    /// The endpoint is found by its name in the loaded map.
    pub fn gear_ratio_endpoint(&self) -> (res: Result<u16, MotorError>)
        ensures
            match res {
                Ok(id) => gear_endpoint(self@.endpoint_map) matches Ok(entry) && entry.endpoint_id
                    == id,
                Err(err) => gear_endpoint(self@.endpoint_map) == Err::<EntryView, error::Fault>(
                    err@,
                ),
            },
    {
        match self.gear_entry() {
            Ok(entry) => Ok(entry.endpoint_id),
            Err(err) => Err(err),
        }
    }

    /// Use the gear ratio that a read of [`Self::gear_ratio_endpoint`] gave.
    ///
    /// `float_text` is the text of the number. An unusable answer leaves the ratio as it is.
    pub fn probe_gear_ratio(
        &mut self,
        answer: Result<ParamReadout, MotorError>,
        float_text: &str,
    ) -> (res: Result<u32, MotorError>)
        ensures
            ({
                let outcome = match gear_endpoint(old(self)@.endpoint_map) {
                    Ok(entry) => gear_in(entry, answer_view(answer), float_text@),
                    Err(fault) => Err(fault),
                };
                match res {
                    Ok(ratio) => outcome == Ok::<u32, error::Fault>(ratio) && final(self)@ == (
                    MotorView {
                        gear_ratio: ratio,
                        gear_ratio_from_device: true,
                        ..old(self)@
                    }),
                    Err(err) => outcome == Err::<u32, error::Fault>(err@) && final(self)@ == old(
                        self,
                    )@,
                }
            }),
    {
        let ratio: u32 = match self.gear_entry() {
            Err(err) => {
                return Err(err);
            },
            Ok(entry) => match answer {
                Err(err) => {
                    let mut prefix: String = "gear ratio endpoint \"".to_owned();
                    prefix.append(entry.path.as_str());
                    prefix.append("\" (0x");
                    push_hex(&mut prefix, entry.endpoint_id as u64, 4);
                    prefix.append("): ");
                    return Err(with_context(err, prefix.as_str()));
                },
                Ok(found) => {
                    if found.endpoint_id != entry.endpoint_id {
                        return Err(foreign_answer_error(entry.endpoint_id, found.endpoint_id));
                    }
                    let mut message: String = "endpoint ".to_owned();
                    message.append(entry.path.as_str());
                    match found.value {
                        ParamValue::F32(ratio) => {
                            if ratio == 0 || ratio >= 0x7F80_0000 {
                                message.append(" declares ");
                                message.append(float_text);
                                message.append(", which cannot be a gear ratio");
                                return Err(MotorError::Unsupported(message));
                            }
                            ratio
                        },
                        _ => {
                            message.append(" is declared \"");
                            message.append(found.declared.as_str());
                            message.append("\", not a float");
                            return Err(MotorError::Unsupported(message));
                        },
                    }
                },
            },
        };
        self.gear_ratio = ratio;
        self.gear_ratio_from_device = true;
        Ok(ratio)
    }
}

/// The endpoint with which the device declares an MIT range, or why there is none.
pub open spec fn range_endpoint(map: Option<MapView>, index: int) -> Result<
    EntryView,
    error::Fault,
> {
    match map {
        None => Err(
            error::unsupported(
                "the endpoint map of this motor is not loaded, so the MIT ranges cannot be \n                 resolved by name"@,
            ),
        ),
        Some(map) => match endpoint_map::resolved(map, models::range_name(index)) {
            Ok(i) => Ok(map.entries[i]),
            Err(fault) => Err(
                error::unsupported(
                    "MIT range endpoint \""@ + models::range_name(index) + "\": "@ + fault.text,
                ),
            ),
        },
    }
}

/// The MIT range in the answer to a read of its endpoint, or why it cannot be used.
pub open spec fn range_in(
    entry: EntryView,
    index: int,
    answer: Result<ReadoutView, error::Fault>,
    float_text: Seq<char>,
) -> Result<u32, error::Fault> {
    let name = models::range_name(index);
    match answer {
        Err(fault) => Err(
            error::prefixed(
                fault,
                "MIT range endpoint \""@ + name + "\" (0x"@ + text::hex(
                    entry.endpoint_id as nat,
                    4,
                ) + "): "@,
            ),
        ),
        Ok(found) => if found.endpoint_id != entry.endpoint_id {
            Err(foreign_answer(entry.endpoint_id, found.endpoint_id))
        } else {
            match found.value {
                ParamValue::F32(value) => if values::f32_positive_finite(value) {
                    Ok(value)
                } else {
                    Err(
                        error::unsupported(
                            "endpoint "@ + name + " declares "@ + float_text
                                + ", which cannot scale an MIT field"@,
                        ),
                    )
                },
                _ => Err(
                    error::unsupported(
                        "endpoint "@ + name + " is declared \""@ + found.declared
                            + "\", not a float, so it cannot scale the MIT fields"@,
                    ),
                ),
            }
        },
    }
}

/// What reading the MIT ranges does next.
#[derive(Debug)]
pub enum ProbeStep {
    /// Read this endpoint and come back with the answer.
    Read(u16),
    /// All ranges are declared; they are in force now.
    Done(MitRanges),
    /// A range cannot be used; the ranges in force stay.
    Failed(MotorError),
}

/// The mathematical content of a [`ProbeStep`].
pub enum ProbeView {
    Read(u16),
    Done(MitRanges),
    Failed(error::Fault),
}

impl View for ProbeStep {
    type V = ProbeView;

    open spec fn view(&self) -> ProbeView {
        match *self {
            ProbeStep::Read(id) => ProbeView::Read(id),
            ProbeStep::Done(ranges) => ProbeView::Done(ranges),
            ProbeStep::Failed(err) => ProbeView::Failed(err@),
        }
    }
}

/// The ranges that five declared values stand for.
pub open spec fn ranges_of(declared: Seq<u32>) -> MitRanges {
    MitRanges {
        pos: declared[0],
        vel: declared[1],
        kp: declared[2],
        kd: declared[3],
        torque: declared[4],
    }
}

/// Go on with `declared` ranges: use them if they are complete, else ask for the next one.
pub open spec fn probe_next(motor: MotorView, declared: Seq<u32>) -> (MotorView, ProbeView) {
    if declared.len() >= MIT_RANGE_COUNT {
        (
            MotorView {
                mit_ranges: ranges_of(declared),
                mit_ranges_from_device: true,
                mit_ranges_note: None,
                ..motor
            },
            ProbeView::Done(ranges_of(declared)),
        )
    } else {
        (
            motor,
            match range_endpoint(motor.endpoint_map, declared.len() as int) {
                Ok(entry) => ProbeView::Read(entry.endpoint_id),
                Err(fault) => ProbeView::Failed(fault),
            },
        )
    }
}

/// What reading the MIT ranges does next, given the answer to the last read.
pub open spec fn probe_step(
    motor: MotorView,
    declared: Seq<u32>,
    answer: Option<Result<ReadoutView, error::Fault>>,
    float_text: Seq<char>,
) -> (MotorView, Seq<u32>, ProbeView) {
    if answer is None || declared.len() >= MIT_RANGE_COUNT {
        let (next, step) = probe_next(motor, declared);
        (next, declared, step)
    } else {
        match range_endpoint(motor.endpoint_map, declared.len() as int) {
            Err(fault) => (motor, declared, ProbeView::Failed(fault)),
            Ok(entry) => match range_in(entry, declared.len() as int, answer->0, float_text) {
                Err(fault) => (motor, declared, ProbeView::Failed(fault)),
                Ok(value) => {
                    let (next, step) = probe_next(motor, declared.push(value));
                    (next, declared.push(value), step)
                },
            },
        }
    }
}

/// The ranges that the device has declared so far, all of them usable.
#[derive(Debug)]
pub struct RangeProbe {
    declared: Vec<u32>,
}

impl View for RangeProbe {
    type V = Seq<u32>;

    closed spec fn view(&self) -> Seq<u32> {
        self.declared@
    }
}

/// Whether every declared range can scale a field.
pub open spec fn usable_ranges(declared: Seq<u32>) -> bool {
    forall|i: int|
        0 <= i < declared.len() ==> values::f32_positive_finite(#[trigger] declared[i])
}

/// Whether every range can scale a field.
pub open spec fn usable(ranges: MitRanges) -> bool {
    &&& values::f32_positive_finite(ranges.pos)
    &&& values::f32_positive_finite(ranges.vel)
    &&& values::f32_positive_finite(ranges.kp)
    &&& values::f32_positive_finite(ranges.kd)
    &&& values::f32_positive_finite(ranges.torque)
}

impl RangeProbe {
    #[verifier::type_invariant]
    spec fn well_formed(self) -> bool {
        usable_ranges(self.declared@)
    }

    /// Nothing is declared yet.
    pub fn new() -> (res: Self)
        ensures
            res@ == Seq::<u32>::empty(),
    {
        RangeProbe { declared: Vec::new() }
    }

    fn declare(&mut self, value: u32)
        requires
            values::f32_positive_finite(value),
        ensures
            final(self)@ == old(self)@.push(value),
    {
        proof {
            use_type_invariant(&*self);
        }
        let mut declared: Vec<u32> = Vec::new();
        std::mem::swap(&mut declared, &mut self.declared);
        declared.push(value);
        self.declared = declared;
    }
}

impl CyberBeastMotor {
    fn range_entry(&self, index: usize) -> (res: Result<&EndpointEntry, MotorError>)
        requires
            index < MIT_RANGE_COUNT,
        ensures
            match res {
                Ok(entry) => range_endpoint(self@.endpoint_map, index as int) == Ok::<
                    EntryView,
                    error::Fault,
                >(entry@),
                Err(err) => range_endpoint(self@.endpoint_map, index as int) == Err::<
                    EntryView,
                    error::Fault,
                >(err@),
            },
    {
        let name: &str = MitRanges::endpoint_name(index);
        match &self.endpoint_map {
            None => Err(
                MotorError::Unsupported(
                    "the endpoint map of this motor is not loaded, so the MIT ranges cannot be \n                 resolved by name".to_owned(),
                ),
            ),
            Some(map) => match map.resolve(name) {
                Ok(entry) => Ok(entry),
                Err(err) => {
                    let mut message: String = "MIT range endpoint \"".to_owned();
                    message.append(name);
                    message.append("\": ");
                    message.append(err.message());
                    Err(MotorError::Unsupported(message))
                },
            },
        }
    }

    fn range_value(
        entry: &EndpointEntry,
        index: usize,
        answer: Result<ParamReadout, MotorError>,
        float_text: &str,
    ) -> (res: Result<u32, MotorError>)
        requires
            index < MIT_RANGE_COUNT,
        ensures
            match res {
                Ok(value) => range_in(
                    entry@,
                    index as int,
                    answer_view(answer),
                    float_text@,
                ) == Ok::<u32, error::Fault>(value),
                Err(err) => range_in(
                    entry@,
                    index as int,
                    answer_view(answer),
                    float_text@,
                ) == Err::<u32, error::Fault>(err@),
            },
    {
        let name: &str = MitRanges::endpoint_name(index);
        match answer {
            Err(err) => {
                let mut prefix: String = "MIT range endpoint \"".to_owned();
                prefix.append(name);
                prefix.append("\" (0x");
                push_hex(&mut prefix, entry.endpoint_id as u64, 4);
                prefix.append("): ");
                Err(with_context(err, prefix.as_str()))
            },
            Ok(found) => {
                if found.endpoint_id != entry.endpoint_id {
                    return Err(foreign_answer_error(entry.endpoint_id, found.endpoint_id));
                }
                let mut message: String = "endpoint ".to_owned();
                message.append(name);
                match found.value {
                    ParamValue::F32(value) => {
                        if value == 0 || value >= 0x7F80_0000 {
                            message.append(" declares ");
                            message.append(float_text);
                            message.append(", which cannot scale an MIT field");
                            return Err(MotorError::Unsupported(message));
                        }
                        Ok(value)
                    },
                    _ => {
                        message.append(" is declared \"");
                        message.append(found.declared.as_str());
                        message.append("\", not a float, so it cannot scale the MIT fields");
                        Err(MotorError::Unsupported(message))
                    },
                }
            },
        }
    }

    fn go_on_probing(&mut self, probe: &RangeProbe) -> (res: ProbeStep)
        ensures
            (final(self)@, res@) == probe_next(old(self)@, probe@),
            res matches ProbeStep::Done(ranges) ==> usable(ranges),
    {
        let count: usize = probe.declared.len();
        if count < MIT_RANGE_COUNT {
            return match self.range_entry(count) {
                Ok(entry) => ProbeStep::Read(entry.endpoint_id),
                Err(err) => ProbeStep::Failed(err),
            };
        }
        proof {
            use_type_invariant(probe);
        }
        let ranges = MitRanges {
            pos: probe.declared[0],
            vel: probe.declared[1],
            kp: probe.declared[2],
            kd: probe.declared[3],
            torque: probe.declared[4],
        };
        self.mit_ranges = ranges;
        self.mit_ranges_from_device = true;
        self.mit_ranges_note = None;
        ProbeStep::Done(ranges)
    }

    /// Read the device's declared MIT ranges, one endpoint after the other.
    ///
    /// The endpoints are found by their names in the loaded map, and all five have to be
    /// declared and usable; otherwise the ranges in force stay. The first call has no
    /// answer; each later one brings the answer to the read that the last one asked for,
    /// with the text of the number.
    pub fn probe_mit_ranges(
        &mut self,
        probe: &mut RangeProbe,
        answer: Option<Result<ParamReadout, MotorError>>,
        float_text: &str,
    ) -> (res: ProbeStep)
        ensures
            (final(self)@, final(probe)@, res@) == probe_step(
                old(self)@,
                old(probe)@,
                match answer {
                    Some(found) => Some(answer_view(found)),
                    None => None,
                },
                float_text@,
            ),
            res matches ProbeStep::Done(ranges) ==> usable(ranges),
    {
        let count: usize = probe.declared.len();
        if count < MIT_RANGE_COUNT {
            if let Some(answer) = answer {
                let value: u32 = match self.range_entry(count) {
                    Err(err) => {
                        return ProbeStep::Failed(err);
                    },
                    Ok(entry) => match CyberBeastMotor::range_value(
                        entry,
                        count,
                        answer,
                        float_text,
                    ) {
                        Err(err) => {
                            return ProbeStep::Failed(err);
                        },
                        Ok(value) => value,
                    },
                };
                probe.declare(value);
            }
        }
        self.go_on_probing(probe)
    }
}

/// MIT ranges come into force only when the device declares all five as positive, finite
/// numbers; in every other case the ranges in force stay.
pub proof fn law_only_usable_ranges_come_into_force(
    motor: MotorView,
    declared: Seq<u32>,
    answer: Option<Result<ReadoutView, error::Fault>>,
    float_text: Seq<char>,
)
    requires
        usable_ranges(declared),
    ensures
        ({
            let (next, found, step) = probe_step(motor, declared, answer, float_text);
            &&& usable_ranges(found)
            &&& step !is Done ==> next == motor
            &&& step matches ProbeView::Done(ranges) ==> next.mit_ranges == ranges
                && next.mit_ranges_from_device && usable(ranges)
        }),
{
    let (next, found, step) = probe_step(motor, declared, answer, float_text);
    assert forall|i: int| 0 <= i < found.len() implies values::f32_positive_finite(
        #[trigger] found[i],
    ) by {
        if i < declared.len() {
            assert(found[i] == declared[i]);
        }
    }
}

impl CyberBeastMotor {
    /// Conclude reading the MIT ranges of a motor that is being connected: a failure puts the
    /// protocol's ranges in force and is noted, but is no reason not to connect.
    pub fn settle_mit_ranges(&mut self, outcome: &Result<MitRanges, MotorError>)
        ensures
            final(self)@ == (match *outcome {
                Ok(_) => old(self)@,
                Err(err) => after_ranges_failure(old(self)@, err@.text),
            }),
    {
        if let Err(err) = outcome {
            self.note_mit_ranges_failure(err.message().to_owned());
        }
    }
}

/// Whether a motor says truly where its MIT ranges come from: those that are not the
/// device's are the protocol defaults.
pub open spec fn ranges_told_truly(motor: MotorView) -> bool {
    motor.mit_ranges_from_device || motor.mit_ranges == models::default_ranges()
}

/// A motor that does not use the device's MIT ranges uses the protocol defaults: so it is
/// when it is created, and so it stays whether reading the ranges succeeds or fails and
/// whatever frames arrive.
pub proof fn law_without_device_ranges_the_defaults_hold(
    motor: MotorView,
    motor_id: u16,
    model: Seq<char>,
    reason: Seq<char>,
    declared: Seq<u32>,
    answer: Option<Result<ReadoutView, error::Fault>>,
    float_text: Seq<char>,
    frame: FrameView,
    scaled: Scaled,
    now_ms: u64,
)
    requires
        ranges_told_truly(motor),
    ensures
        new_motor(motor_id, model) matches Ok(created) ==> ranges_told_truly(created),
        ranges_told_truly(after_ranges_failure(motor, reason)),
        ranges_told_truly(probe_step(motor, declared, answer, float_text).0),
        ranges_told_truly(after_feedback(motor, frame, scaled, now_ms)),
{
}

/// Endpoint that declares the MIT torque range.
pub const ENDPOINT_MIT_MAX_TORQUE: u16 = 0x0151;

/// Endpoint that declares the torque constant of the motor.
pub const ENDPOINT_MOTOR_TORQUE_CONSTANT: u16 = 0x00F7;

/// The error for settings from which no current range follows.
pub open spec fn no_current_range(torque_text: Seq<char>, constant_text: Seq<char>) -> error::Fault {
    error::unsupported(
        "cannot derive the MIT response current range from mit_max_torque="@ + torque_text
            + " Nm and torque_constant="@ + constant_text + " Nm/A; keeping the 40 A fallback"@,
    )
}

impl CyberBeastMotor {
    /// Derive the MIT response current range from the values of
    /// [`ENDPOINT_MIT_MAX_TORQUE`] and [`ENDPOINT_MOTOR_TORQUE_CONSTANT`] and their quotient.
    ///
    /// Values that cannot be used put the 40 A default in force. The texts are those of the
    /// two values.
    pub fn probe_mit_current_range(
        &mut self,
        mit_max_torque: u32,
        torque_constant: u32,
        quotient: u32,
        torque_text: &str,
        constant_text: &str,
    ) -> (res: Result<u32, MotorError>)
        ensures
            match models::current_range(mit_max_torque, torque_constant, quotient) {
                Some(range) => res matches Ok(found) && found == range && final(self)@ == (
                MotorView { mit_current_limit: range, ..old(self)@ }),
                None => res matches Err(err) && err@ == no_current_range(
                    torque_text@,
                    constant_text@,
                ) && final(self)@ == (MotorView {
                    mit_current_limit: DEFAULT_MIT_CURRENT_LIMIT,
                    ..old(self)@
                }),
            },
    {
        match mit_current_range_from(mit_max_torque, torque_constant, quotient) {
            Some(range) => {
                self.set_mit_current_limit(range);
                Ok(range)
            },
            None => {
                self.set_mit_current_limit(DEFAULT_MIT_CURRENT_LIMIT);
                let mut message: String =
                    "cannot derive the MIT response current range from mit_max_torque=".to_owned();
                message.append(torque_text);
                message.append(" Nm and torque_constant=");
                message.append(constant_text);
                message.append(" Nm/A; keeping the 40 A fallback");
                Err(MotorError::Unsupported(message))
            },
        }
    }
}

/// Time that one warm-up probe is given, in milliseconds.
pub const WARMUP_ATTEMPT_MS: u64 = 50;

/// The start of a session: probes the link until the node answers.
#[derive(Debug, Clone, Copy, PartialEq, Eq, Structural)]
pub struct WarmUp {
    /// When the warm-up started; only later answers count.
    pub since_ms: u64,
    /// Time given to the whole warm-up.
    pub budget_ms: u64,
    /// When the next probe is due.
    pub next_ms: u64,
    /// Probes sent so far.
    pub rounds: u64,
}

/// What a warm-up does next.
#[derive(Debug)]
pub enum WarmUpStep {
    /// Nothing yet: wait for frames.
    Wait,
    /// Send this frame.
    Send(CanFrame),
    /// The node answers.
    Ready,
    /// The node does not answer.
    Failed(MotorError),
}

/// Largest number of probes of one warm-up, whatever the clock does.
pub open spec fn max_probes(budget_ms: u64) -> int {
    budget_ms / WARMUP_ATTEMPT_MS + 2
}

/// The error for a node that answers no probe.
pub open spec fn not_warm(motor_id: u16, rounds: u64, budget_ms: u64) -> error::Fault {
    error::timed_out(
        "node 0x"@ + text::hex(motor_id as nat, 2) + " answered none of "@ + text::dec(
            rounds as nat,
        ) + " warm-up probe(s) within "@ + descriptor::duration_text(budget_ms as nat),
    )
}

/// Whether the node has answered a position query since the warm-up started.
pub open spec fn answered_since(motor: MotorView, since_ms: u64) -> bool {
    motor.pos_vel_ms matches Some(at) && at >= since_ms
}

/// Whether a warm-up has to give up.
pub open spec fn probes_spent(warm_up: WarmUp, now_ms: u64) -> bool {
    warm_up.rounds >= max_probes(warm_up.budget_ms) || (warm_up.rounds > 0 && now_ms
        > descriptor::window_end(warm_up.since_ms, warm_up.budget_ms))
}

/// The warm-up and the motor after a step.
pub open spec fn after_warm_up_step(motor: MotorView, warm_up: WarmUp, now_ms: u64) -> (
    WarmUp,
    MotorView,
) {
    if motor.warm {
        (warm_up, motor)
    } else if answered_since(motor, warm_up.since_ms) {
        (warm_up, MotorView { warm: true, ..motor })
    } else if now_ms < warm_up.next_ms || probes_spent(warm_up, now_ms) {
        (warm_up, motor)
    } else {
        (
            WarmUp {
                rounds: (warm_up.rounds + 1) as u64,
                next_ms: descriptor::window_end(now_ms, WARMUP_ATTEMPT_MS),
                ..warm_up
            },
            MotorView {
                tx_retries: if warm_up.rounds > 0 {
                    descriptor::counted(motor.tx_retries)
                } else {
                    motor.tx_retries
                },
                ..sent(motor)
            },
        )
    }
}

/// Whether a step of a warm-up says what is to be done: ready once the node has answered,
/// another probe when one is due, an error when the probes are spent.
pub open spec fn carries_out_warm_up(
    motor: MotorView,
    warm_up: WarmUp,
    now_ms: u64,
    res: WarmUpStep,
) -> bool {
    if motor.warm || answered_since(motor, warm_up.since_ms) {
        res is Ready
    } else if now_ms < warm_up.next_ms {
        res is Wait
    } else if probes_spent(warm_up, now_ms) {
        res matches WarmUpStep::Failed(err) && err@ == not_warm(
            motor.motor_id,
            warm_up.rounds,
            warm_up.budget_ms,
        )
    } else {
        res matches WarmUpStep::Send(frame) && frame@ == command(
            motor,
            Priority::Query,
            MsgType::QueryPosVel,
            protocol::empty_payload(),
        )
    }
}

impl CyberBeastMotor {
    /// Start a warm-up of at most `budget_ms`.
    pub fn warm_up(&self, budget_ms: u64, now_ms: u64) -> (res: WarmUp)
        ensures
            res == (WarmUp { since_ms: now_ms, budget_ms, next_ms: now_ms, rounds: 0 }),
    {
        WarmUp { since_ms: now_ms, budget_ms, next_ms: now_ms, rounds: 0 }
    }

    /// Take the next step of a warm-up.
    ///
    /// The probe is a position query, which changes nothing on the device and may be
    /// repeated. Only an answer that arrived after the start counts, a heartbeat does not.
    /// Once the node has answered, a further warm-up is ready at once.
    pub fn continue_warm_up(&mut self, warm_up: &mut WarmUp, now_ms: u64) -> (res: WarmUpStep)
        ensures
            (*final(warm_up), final(self)@) == after_warm_up_step(
                old(self)@,
                *old(warm_up),
                now_ms,
            ),
            carries_out_warm_up(old(self)@, *old(warm_up), now_ms, res),
    {
        if self.warm {
            return WarmUpStep::Ready;
        }
        if let Some(at) = self.pos_vel_ms {
            if at >= warm_up.since_ms {
                self.warm = true;
                return WarmUpStep::Ready;
            }
        }
        if now_ms < warm_up.next_ms {
            return WarmUpStep::Wait;
        }
        let limit: u64 = warm_up.budget_ms / WARMUP_ATTEMPT_MS + 2;
        let late: bool = now_ms > descriptor::end_of_window(warm_up.since_ms, warm_up.budget_ms);
        if warm_up.rounds >= limit || (warm_up.rounds > 0 && late) {
            let mut message: String = "node 0x".to_owned();
            push_hex(&mut message, self.motor_id as u64, 2);
            message.append(" answered none of ");
            push_dec(&mut message, warm_up.rounds);
            message.append(" warm-up probe(s) within ");
            descriptor::push_duration(&mut message, warm_up.budget_ms);
            return WarmUpStep::Failed(MotorError::Timeout(message));
        }
        if warm_up.rounds > 0 && self.tx_retries < u32::MAX {
            self.tx_retries = self.tx_retries + 1;
        }
        warm_up.rounds = warm_up.rounds + 1;
        warm_up.next_ms = descriptor::end_of_window(now_ms, WARMUP_ATTEMPT_MS);
        WarmUpStep::Send(self.send_query_pos_vel())
    }
}

/// A warm-up sends a bounded number of probes even if the clock stands still, and neither a
/// heartbeat nor an answer from before its start makes it succeed.
pub proof fn law_warm_up_is_bounded_and_needs_a_fresh_answer(
    motor: MotorView,
    warm_up: WarmUp,
    now_ms: u64,
    frame: FrameView,
    scaled: Scaled,
)
    requires
        warm_up.rounds <= max_probes(warm_up.budget_ms),
        !motor.warm,
        motor.pos_vel_ms matches Some(at) ==> at < warm_up.since_ms,
        protocol::id_fields(frame.arbitration_id).msg_type != MsgType::QueryPosVel.number(),
    ensures
        after_warm_up_step(motor, warm_up, now_ms).0.rounds <= max_probes(warm_up.budget_ms),
        !after_warm_up_step(motor, warm_up, now_ms).1.warm,
        !after_warm_up_step(
            after_feedback(motor, frame, scaled, now_ms),
            warm_up,
            now_ms,
        ).1.warm,
{
}

/// An answer to a position query that arrives after the start makes a warm-up succeed, and
/// from then on a warm-up sends nothing.
pub proof fn law_a_fresh_answer_ends_the_warm_up(
    motor: MotorView,
    warm_up: WarmUp,
    frame: FrameView,
    scaled: Scaled,
    now_ms: u64,
    later: WarmUp,
)
    requires
        now_ms >= warm_up.since_ms,
        protocol::id_fields(frame.arbitration_id).msg_type == MsgType::QueryPosVel.number(),
    ensures
        ({
            let answered = after_feedback(motor, frame, scaled, now_ms);
            let ready = after_warm_up_step(answered, warm_up, now_ms).1;
            &&& ready.warm
            &&& ready.tx_seq == motor.tx_seq
            &&& after_warm_up_step(ready, later, now_ms) == (later, ready)
        }),
{
}

/// Whether a map has an endpoint as its first one with that id.
pub open spec fn has_endpoint(map: MapView, endpoint_id: u16, i: int) -> bool {
    &&& 0 <= i < map.entries.len()
    &&& map.entries[i].endpoint_id == endpoint_id
    &&& forall|k: int| 0 <= k < i ==> (#[trigger] map.entries[k]).endpoint_id != endpoint_id
}

proof fn lemma_endpoint_position(map: MapView, endpoint_id: u16)
    ensures
        forall|i: int|
            #[trigger] has_endpoint(map, endpoint_id, i) ==> endpoint_map::id_position(
                map.entries,
                endpoint_id,
            ) == Some(i),
        endpoint_map::id_position(map.entries, endpoint_id) matches Some(i) ==> has_endpoint(
            map,
            endpoint_id,
            i,
        ),
{
    endpoint_map::law_repeated_ids_keep_the_first_occurrence(map.entries, endpoint_id);
    assert forall|i: int| #[trigger] has_endpoint(map, endpoint_id, i) implies
        endpoint_map::id_position(map.entries, endpoint_id) == Some(i) by {
        let at = endpoint_map::id_position(map.entries, endpoint_id)->0;
        if at < i {
            assert(map.entries[at].endpoint_id == endpoint_id);
        }
        assert(map.entries[i].endpoint_id == endpoint_id);
    }
}

/// A typed write succeeds exactly when the table has the endpoint, declares it writable and
/// with the type of the value, and the type has at most four bytes; it then carries the bytes of
/// the value, and decoding them gives the value back.
pub proof fn law_typed_writes_succeed_exactly_when_they_may(
    map: MapView,
    endpoint_id: u16,
    value: ParamValue,
    float_text: Seq<char>,
)
    ensures
        ({
            let written = value_write(Some(map), endpoint_id, value, float_text);
            let may = exists|i: int| #[trigger]
                has_endpoint(map, endpoint_id, i) && map.entries[i].access == Access::ReadWrite
                    && map.entries[i].kind == endpoint_map::EndpointKind::Value(value.type_of());
            let narrow = !(value is F64 || value is U64 || value is I64);
            &&& written is Ok <==> may && narrow
            &&& written matches Ok(bytes) ==> 1 <= bytes.len() <= 4 && bytes.len()
                == value.type_of().width() && values::le(bytes) == value.code() && values::decoded(
                bytes,
                value.type_of(),
            ) == Ok::<ParamValue, error::Fault>(value)
            &&& may && !narrow ==> (written matches Err(fault) && fault.kind
                == error::ErrorKind::Unsupported)
        }),
        value_write(None, endpoint_id, value, float_text) matches Err(fault) && fault.kind
            == error::ErrorKind::Unsupported,
{
    lemma_endpoint_position(map, endpoint_id);
    values::law_types_are_as_wide_as_their_values(value.type_of());
    values::law_values_have_the_type_they_are_read_with(value);
    values::law_values_are_written_as_their_bits(value);
    values::law_types_are_as_wide_as_their_values(ValueType::U8);
    values::law_decode_undoes_write(value);
    let written = value_write(Some(map), endpoint_id, value, float_text);
    if written is Ok {
        let i = endpoint_map::id_position(map.entries, endpoint_id)->0;
        assert(has_endpoint(map, endpoint_id, i));
        values::law_le_bytes_round_trip(value.code(), value.type_of().width());
    }
}

/// Explicit bytes are written as they are when there are at most four and the table, where one
/// is loaded, has the endpoint as a writable value; the type of the value does not matter.
pub proof fn law_explicit_bytes_are_written_as_they_are(map: MapView, endpoint_id: u16, raw: Seq<u8>)
    ensures
        bytes_write(Some(map), endpoint_id, raw) is Ok <==> raw.len() <= 4 && exists|i: int|
            #[trigger]
            has_endpoint(map, endpoint_id, i) && map.entries[i].access == Access::ReadWrite
                && map.entries[i].kind is Value,
        bytes_write(None, endpoint_id, raw) is Ok <==> raw.len() <= 4,
        bytes_write(Some(map), endpoint_id, raw) matches Ok(bytes) ==> bytes == raw,
        bytes_write(None, endpoint_id, raw) matches Ok(bytes) ==> bytes == raw,
{
    lemma_endpoint_position(map, endpoint_id);
    if bytes_write(Some(map), endpoint_id, raw) is Ok {
        let i = endpoint_map::id_position(map.entries, endpoint_id)->0;
        assert(has_endpoint(map, endpoint_id, i));
    }
}

/// A float is written, lowest byte first, when no table is loaded or the table has the endpoint
/// as a writable single-precision float.
pub proof fn law_floats_are_written_to_float_endpoints(map: MapView, endpoint_id: u16, value: u32)
    ensures
        float_write(Some(map), endpoint_id, value) is Ok <==> exists|i: int| #[trigger]
            has_endpoint(map, endpoint_id, i) && map.entries[i].access == Access::ReadWrite
                && map.entries[i].kind == endpoint_map::EndpointKind::Value(ValueType::F32),
        float_write(None, endpoint_id, value) is Ok,
        float_write(Some(map), endpoint_id, value) is Ok ==> float_write(
            Some(map),
            endpoint_id,
            value,
        ) == float_write(None, endpoint_id, value),
        float_write(None, endpoint_id, value) matches Ok(bytes) ==> bytes.len() == 4
            && protocol::le32(bytes, 0) == value,
{
    lemma_endpoint_position(map, endpoint_id);
    if float_write(Some(map), endpoint_id, value) is Ok {
        let i = endpoint_map::id_position(map.entries, endpoint_id)->0;
        assert(has_endpoint(map, endpoint_id, i));
    }
    reveal_with_fuel(values::le_bytes, 5);
}

/// An endpoint can be read exactly when the table is loaded and has it as a value, whatever its
/// access; it is then read with the declared type.
pub proof fn law_values_can_be_read(map: MapView, endpoint_id: u16)
    ensures
        readable(Some(map), endpoint_id) is Ok <==> exists|i: int| #[trigger]
            has_endpoint(map, endpoint_id, i) && map.entries[i].kind is Value,
        readable(Some(map), endpoint_id) matches Ok((entry, value_type)) ==> entry.kind
            == endpoint_map::EndpointKind::Value(value_type) && entry.endpoint_id == endpoint_id
            && map.entries.contains(entry),
        readable(None, endpoint_id) is Err,
{
    lemma_endpoint_position(map, endpoint_id);
    if readable(Some(map), endpoint_id) is Ok {
        let i = endpoint_map::id_position(map.entries, endpoint_id)->0;
        assert(has_endpoint(map, endpoint_id, i));
        assert(map.entries[i] == readable(Some(map), endpoint_id)->Ok_0.0);
    }
}

/// The result of a read names the endpoint with its path, declared type and access, and holds
/// the bytes and what they mean for that type; it fails only where the endpoint cannot be read or
/// the bytes do not fit its type.
pub proof fn law_readouts_tell_the_endpoint_and_its_value(
    map: MapView,
    endpoint_id: u16,
    raw: Seq<u8>,
)
    ensures
        readout(Some(map), endpoint_id, raw) is Ok <==> readable(Some(map), endpoint_id) is Ok
            && values::decoded(raw, readable(Some(map), endpoint_id)->Ok_0.1) is Ok,
        readout(Some(map), endpoint_id, raw) matches Ok(found) ==> ({
            let (entry, value_type) = readable(Some(map), endpoint_id)->Ok_0;
            &&& found.endpoint_id == endpoint_id
            &&& found.path == Some(entry.path)
            &&& found.declared == entry.raw_type
            &&& found.access == entry.access
            &&& found.raw == raw
            &&& values::decoded(raw, value_type) == Ok::<ParamValue, error::Fault>(found.value)
        }),
{
}

/// The address of a node is the low byte of its id.
pub proof fn law_addresses_are_the_low_byte(motor_id: u16)
    ensures
        address(motor_id) == motor_id & 0xFF,
{
    assert(motor_id % 256 == motor_id & 0xFF) by (bit_vector);
}

/// The messages that are sent without a payload are nine, and each is sent as itself: to the
/// motor, except for the emergency stop, which is sent to all, and with the priority of its
/// kind.
pub proof fn law_bare_messages_are_sent_as_themselves(motor: MotorView, msg_type: MsgType)
    ensures
        bare_command(motor, msg_type) is Some <==> [
            MsgType::StartMotor,
            MsgType::StopMotor,
            MsgType::SetZero,
            MsgType::ClearErrors,
            MsgType::ResetDevice,
            MsgType::QueryStatus,
            MsgType::QueryPosVel,
            MsgType::QueryDeviceInfo,
            MsgType::Estop,
        ]@.contains(msg_type),
        bare_command(motor, msg_type) matches Some(frame) ==> ({
            let parts = protocol::id_fields(frame.arbitration_id);
            &&& parts.msg_type == msg_type.number()
            &&& parts.source == motor.master_id
            &&& parts.dest == if msg_type is Estop {
                0xFFu8
            } else {
                address(motor.motor_id)
            }
            &&& parts.priority == (match msg_type {
                MsgType::Estop => 0u8,
                MsgType::StartMotor | MsgType::StopMotor => 3,
                MsgType::SetZero | MsgType::ClearErrors | MsgType::ResetDevice => 4,
                _ => 5,
            })
            &&& frame.data == seq![0u8, 0, 0, 0, 0, 0, 0, 0]
            &&& frame.dlc == 8 && frame.is_extended && !frame.is_rx
        }),
{
    let list = [
        MsgType::StartMotor,
        MsgType::StopMotor,
        MsgType::SetZero,
        MsgType::ClearErrors,
        MsgType::ResetDevice,
        MsgType::QueryStatus,
        MsgType::QueryPosVel,
        MsgType::QueryDeviceInfo,
        MsgType::Estop,
    ]@;
    assert(list[0] is StartMotor && list[1] is StopMotor && list[2] is SetZero && list[3] is ClearErrors
        && list[4] is ResetDevice && list[5] is QueryStatus && list[6] is QueryPosVel
        && list[7] is QueryDeviceInfo && list[8] is Estop);
    law_commands_address_their_motor(motor, Priority::Ctrl, msg_type, protocol::empty_payload());
    law_commands_address_their_motor(motor, Priority::Config, msg_type, protocol::empty_payload());
    law_commands_address_their_motor(motor, Priority::Query, msg_type, protocol::empty_payload());
    law_estop_is_a_global_broadcast(motor, protocol::empty_payload());
    protocol::law_can_id_round_trip(
        0,
        0xC0,
        0xFF,
        motor.master_id,
        (motor.tx_seq % 4) as u8,
    );
}

/// A current limit that is greater than zero is sent as it is; every other one is sent as 200 A.
pub proof fn law_limits_on_the_bus_are_positive(limit: i16)
    ensures
        limit > 0 ==> limit_field(limit) == limit,
        limit <= 0 ==> limit_field(limit) == 2000,
        limit_field(limit) > 0,
{
}

/// A multicast frame with a bitmap reaches exactly the devices whose bit is set, and no device
/// above the seventh; a frame to a single device concerns the motor that sent it.
pub proof fn law_bitmaps_select_devices(motor_id: u16, frame: FrameView)
    requires
        frame.is_rx,
    ensures
        ({
            let parts = protocol::id_fields(frame.arbitration_id);
            let device = motor_id & 0xFF;
            &&& parts.dest != 0xFF && 0x80 <= parts.msg_type <= 0x83 ==> (accepted(motor_id, frame)
                <==> device < 8 && (parts.dest as u16 & (1u16 << device)) != 0)
            &&& parts.dest == 0xFF ==> accepted(motor_id, frame)
            &&& parts.dest != 0xFF && !(0x80 <= parts.msg_type <= 0x83) ==> (accepted(
                motor_id,
                frame,
            ) <==> parts.source == device)
        }),
{
    law_addresses_are_the_low_byte(motor_id);
    let parts = protocol::id_fields(frame.arbitration_id);
    let dest = parts.dest;
    let device = address(motor_id);
    if device < 8 {
        assert((dest >> device) & 1u8 == 1 <==> (dest as u16 & (1u16 << (device as u16))) != 0)
            by (bit_vector)
            requires
                device < 8,
        ;
    }
}

/// What a frame says is what the cached state says afterwards, by the number of its message
/// type; whatever else the state holds stays, and a frame that carries no state leaves the state
/// alone.
pub proof fn law_feedback_is_cached(
    motor: MotorView,
    frame: FrameView,
    scaled: Scaled,
    now_ms: u64,
)
    requires
        frame.data.len() == 8,
        motor.state is Some,
    ensures
        ({
            let kind = (frame.arbitration_id >> 18) & 0xFF;
            let data = frame.data;
            let next = after_feedback(motor, frame, scaled, now_ms);
            let state = next.state->0;
            let named = CyberBeastMotorState {
                arbitration_id: frame.arbitration_id,
                can_id_parts: protocol::id_fields(frame.arbitration_id),
                ..motor.state->0
            };
            &&& next.state is Some
            &&& kind == 0x00 ==> state == (CyberBeastMotorState {
                pos: scaled.pos,
                vel: scaled.vel,
                current: scaled.current,
                error_code: data[3] & 0xF,
                mode_state: data[5] & 0xF,
                motor_temp: scaled.motor_temp,
                mos_temp: scaled.mos_temp,
                ..named
            })
            &&& kind == 0x48 ==> state == (CyberBeastMotorState {
                pos: scaled.pos,
                vel: scaled.vel,
                current: scaled.current,
                motor_temp: scaled.motor_temp,
                error_flags: data[0] & 0x1F,
                heartbeat_life: data[0] >> 5,
                ..named
            })
            &&& kind == 0x41 ==> state == (CyberBeastMotorState {
                pos: scaled.pos,
                vel: scaled.vel,
                ..named
            })
            &&& next.pos_vel_ms == if kind == 0x41 {
                Some(now_ms)
            } else {
                motor.pos_vel_ms
            }
            &&& kind == 0x42 ==> state == (CyberBeastMotorState {
                current: protocol::be32(data, 0) as u32,
                ..named
            })
            &&& kind == 0x43 ==> state == (CyberBeastMotorState {
                motor_temp: protocol::be32(data, 0) as u32,
                mos_temp: protocol::be32(data, 4) as u32,
                ..named
            })
            &&& kind == 0x46 ==> state == (CyberBeastMotorState {
                hw_version: Some(protocol::be32(data, 0) as u32),
                fw_version: Some(protocol::be32(data, 4) as u32),
                ..named
            })
            &&& kind == 0x45 ==> state == (CyberBeastMotorState {
                error_value: Some(protocol::be32(data, 4) as u32),
                ..named
            })
            &&& kind != 0x00 && !(0x41 <= kind <= 0x43) && kind != 0x45 && kind != 0x46 && kind
                != 0x48 ==> next.state == motor.state
            &&& kind == 0x21 ==> next.params == param_cache::after_ack(
                motor.params,
                protocol::be16(data, 1) as u16,
                now_ms,
            )
            &&& kind == 0x20 ==> (protocol::param_read_in(data) matches Some(response)
                ==> next.params == param_cache::after_response(motor.params, response, now_ms))
            &&& kind == 0x25 ==> next.json_desc == descriptor::after_frame(motor.json_desc, data).0
            &&& next.mit_ranges == motor.mit_ranges && next.gear_ratio == motor.gear_ratio
                && next.warm == motor.warm && next.motor_id == motor.motor_id
                && next.mit_current_limit == motor.mit_current_limit && next.tx_retries
                == motor.tx_retries
        }),
{
    protocol::law_identifiers_are_split_by_bits(frame.arbitration_id);
    let (a, b, c) = (frame.data[0], frame.data[3], frame.data[5]);
    assert(a % 0x20 == a & 0x1F && a / 0x20 == a >> 5) by (bit_vector);
    assert(b % 0x10 == b & 0xF && c % 0x10 == c & 0xF) by (bit_vector);
}

/// The first frame of a motor is cached as if every field that it does not carry were zero or
/// unknown.
pub proof fn law_the_first_frame_starts_from_nothing(
    motor: MotorView,
    frame: FrameView,
    scaled: Scaled,
    now_ms: u64,
)
    requires
        motor.state is None,
    ensures
        base_state(motor, frame) == (CyberBeastMotorState {
            arbitration_id: frame.arbitration_id,
            can_id_parts: protocol::id_fields(frame.arbitration_id),
            pos: 0,
            vel: 0,
            current: 0,
            error_code: 0,
            mode_state: 0,
            motor_temp: 0,
            mos_temp: 0,
            error_flags: 0,
            heartbeat_life: 0,
            hw_version: None,
            fw_version: None,
            error_value: None,
        }),
{
}

/// What a frame carries goes by the number of its message type, and position and velocity are
/// turns of the motor in every frame but an MIT response, which has radians of the output.
pub proof fn law_frames_are_decoded_by_their_number(frame: FrameView, feedback: Feedback)
    requires
        frame.data.len() == 8,
        carries(feedback, frame),
    ensures
        ({
            let kind = (frame.arbitration_id >> 18) & 0xFF;
            let high = protocol::be32(frame.data, 0);
            let low = protocol::be32(frame.data, 4);
            &&& kind == 0x00 <==> feedback is Mit
            &&& kind == 0x48 <==> feedback is Heartbeat
            &&& kind == 0x41 <==> feedback is PosVel
            &&& kind == 0x42 <==> feedback is Current
            &&& kind == 0x43 <==> feedback is Temperature
            &&& kind == 0x44 <==> feedback is Bus
            &&& kind == 0x46 <==> feedback is DeviceInfo
            &&& kind == 0x45 <==> feedback is ErrorValue
            &&& kind == 0x21 <==> feedback is WriteAck
            &&& kind == 0x25 <==> feedback is Descriptor
            &&& feedback is ParamRead ==> kind == 0x20
            &&& feedback matches Feedback::Mit(found) ==> found == protocol::mit_response_in(
                frame.data,
            )
            &&& feedback matches Feedback::Heartbeat(found) ==> found == protocol::heartbeat_in(
                frame.data,
            )
            &&& feedback matches Feedback::PosVel(pos, vel) ==> pos == high && vel == low
            &&& feedback matches Feedback::Current(iq, id) ==> iq == high && id == low
            &&& feedback matches Feedback::Temperature(motor, mos) ==> motor == high && mos == low
            &&& feedback matches Feedback::Bus(voltage, current) ==> voltage == high && current
                == low
            &&& feedback matches Feedback::DeviceInfo(hw, fw) ==> hw == high && fw == low
            &&& feedback matches Feedback::ErrorValue(value) ==> value == low
            &&& feedback matches Feedback::WriteAck(id) ==> id == protocol::be16(frame.data, 1)
            &&& models::position_unit(feedback) == Some(PositionUnit::OutputRadians) <==> kind
                == 0x00
            &&& models::position_unit(feedback) == Some(PositionUnit::MotorTurns) <==> kind == 0x41
                || kind == 0x48
        }),
{
    protocol::law_identifiers_are_split_by_bits(frame.arbitration_id);
}

/// A read request for the start of a value, and one for its rest, name the endpoint and the
/// offset, highest byte first; a write names the endpoint, the number of bytes and the bytes.
pub proof fn law_requests_name_their_endpoint(
    data: Seq<u8>,
    endpoint_id: u16,
    offset: u32,
    value: Seq<u8>,
)
    ensures
        is_read_request(data, endpoint_id, offset) ==> data[0] == 0 && data[3] == 4 && ((data[1] as u16)
            << 8) | data[2] as u16 == endpoint_id && ((data[4] as u32) << 24) | ((data[5] as u32)
            << 16) | ((data[6] as u32) << 8) | data[7] as u32 == offset,
        is_write_request(data, endpoint_id, value) && value.len() <= 4 ==> data[0] == 0 && data[3]
            == value.len() && ((data[1] as u16) << 8) | data[2] as u16 == endpoint_id && forall|i: int|
            0 <= i < 4 ==> #[trigger] data[4 + i] == if i < value.len() {
                value[i]
            } else {
                0
            },
        is_descriptor_request(data, offset) ==> ((data[3] as u32) << 24) | ((data[2] as u32) << 16)
            | ((data[1] as u32) << 8) | data[0] as u32 == offset,
{
    protocol::law_byte_orders(data, 0);
    protocol::law_byte_orders(data, 1);
    protocol::law_byte_orders(data, 4);
    if is_write_request(data, endpoint_id, value) && value.len() <= 4 {
        assert forall|i: int| 0 <= i < 4 implies #[trigger] data[4 + i] == if i < value.len() {
            value[i]
        } else {
            0
        } by {
            if i < value.len() {
                assert(data.subrange(4, 4 + value.len() as int)[i] == value[i]);
            }
        }
    }
}

/// A motor is created only for a model of the catalog; it starts with the protocol's ranges, a
/// gear ratio of one, a current range of 40 A, sequence number zero and no table, and speaks as
/// host 1.
pub proof fn law_motors_start_with_the_defaults(motor_id: u16, model: Seq<char>)
    ensures
        new_motor(motor_id, model) is Ok <==> models::limits_of(model) is Some,
        new_motor(motor_id, model) matches Ok(motor) ==> motor.motor_id == motor_id && motor.model
            == model && motor.master_id == 1 && motor.state is None && motor.tx_seq == 0
            && motor.endpoint_map is None && !motor.warm && !motor.mit_ranges_from_device
            && !motor.gear_ratio_from_device && motor.gear_ratio == 0x3F80_0000
            && motor.mit_current_limit == 0x4220_0000 && Some(motor.limits) == models::limits_of(
            model,
        ) && motor.pos_vel_ms is None && motor.tx_retries == 0 && param_cache::answer(
            motor.params,
            motor_id,
        ) is None && motor.json_desc.bytes.len() == 0,
{
}

/// Each MIT range is declared by the endpoint of its own name.
pub proof fn law_ranges_are_declared_by_their_names(map: MapView, index: int)
    requires
        0 <= index < 5,
    ensures
        ({
            let name = seq![
                "mit_max_pos"@,
                "mit_max_vel"@,
                "mit_max_kp"@,
                "mit_max_kd"@,
                "mit_max_torque"@,
            ][index];
            match endpoint_map::resolved(map, name) {
                Ok(i) => range_endpoint(Some(map), index) == Ok::<EntryView, error::Fault>(
                    map.entries[i],
                ),
                Err(_) => range_endpoint(Some(map), index) is Err,
            }
        }),
        range_endpoint(None, index) is Err,
{
}

/// Reading the ranges asks for the endpoint of the next one until all five are there; they then
/// come into force as position, velocity, stiffness, damping and torque, in this order, and the
/// answer that completes them is one of a positive finite float from the endpoint that was asked.
pub proof fn law_ranges_are_read_in_order(
    motor: MotorView,
    declared: Seq<u32>,
    found: ReadoutView,
    bits: u32,
    float_text: Seq<char>,
)
    requires
        declared.len() < 5,
        range_endpoint(motor.endpoint_map, declared.len() as int) matches Ok(entry)
            && entry.endpoint_id == found.endpoint_id,
        found.value == ParamValue::F32(bits),
        0 < bits < 0x7F80_0000,
    ensures
        ({
            let (next, now, step) = probe_step(motor, declared, Some(Ok(found)), float_text);
            let (_, first, asked) = probe_step(motor, declared, None, float_text);
            &&& asked == ProbeView::Read(found.endpoint_id)
            &&& first == declared
            &&& now == declared.push(bits)
            &&& declared.len() == 4 ==> next.mit_ranges == (MitRanges {
                pos: declared[0],
                vel: declared[1],
                kp: declared[2],
                kd: declared[3],
                torque: bits,
            }) && step == ProbeView::Done(next.mit_ranges) && next.mit_ranges_from_device
                && next.mit_ranges_note is None
            &&& declared.len() < 4 ==> next == motor && match range_endpoint(
                motor.endpoint_map,
                declared.len() as int + 1,
            ) {
                Ok(entry) => step == ProbeView::Read(entry.endpoint_id),
                Err(fault) => step == ProbeView::Failed(fault),
            }
        }),
{
}

/// An answer that is an error, belongs to another endpoint, is no float, or is a float that is
/// not positive and finite, ends the reading of the ranges without changing anything.
pub proof fn law_unusable_ranges_are_refused(
    motor: MotorView,
    declared: Seq<u32>,
    answer: Result<ReadoutView, error::Fault>,
    float_text: Seq<char>,
)
    requires
        declared.len() < 5,
        range_endpoint(motor.endpoint_map, declared.len() as int) matches Ok(entry) && (
        answer matches Ok(found) ==> found.endpoint_id != entry.endpoint_id || !(found.value is F32)
            || found.value->F32_0 == 0 || found.value->F32_0 >= 0x7F80_0000),
    ensures
        ({
            let (next, now, step) = probe_step(motor, declared, Some(answer), float_text);
            step is Failed && next == motor && now == declared
        }),
{
}

/// The gear ratio is the value of the endpoint `gear_ratio`, if that is a positive finite float
/// and the answer comes from that endpoint; every other answer is refused.
pub proof fn law_gear_ratios_are_positive_floats(
    map: MapView,
    entry: EntryView,
    answer: Result<ReadoutView, error::Fault>,
    float_text: Seq<char>,
)
    ensures
        match endpoint_map::resolved(map, "gear_ratio"@) {
            Ok(i) => gear_endpoint(Some(map)) == Ok::<EntryView, error::Fault>(map.entries[i]),
            Err(_) => gear_endpoint(Some(map)) is Err,
        },
        gear_endpoint(None) is Err,
        gear_in(entry, answer, float_text) is Ok <==> (answer matches Ok(found) && found.endpoint_id
            == entry.endpoint_id && found.value is F32 && 0 < found.value->F32_0 < 0x7F80_0000),
        gear_in(entry, answer, float_text) matches Ok(ratio) ==> answer->Ok_0.value
            == ParamValue::F32(ratio),
{
}

/// Four bytes are a float, lowest byte first; any other number of bytes is refused.
pub proof fn law_four_bytes_are_a_float(endpoint_id: u16, raw: Seq<u8>)
    ensures
        float_in_raw(endpoint_id, raw) is Ok <==> raw.len() == 4,
        float_in_raw(endpoint_id, raw) matches Ok(value) ==> value == protocol::le32(raw, 0),
        float_in_raw(endpoint_id, raw) matches Err(fault) ==> fault.kind
            == error::ErrorKind::Unsupported,
{
    if raw.len() == 4 {
        reveal_with_fuel(values::le, 5);
        assert(raw.drop_first()[0] == raw[1]);
        assert(raw.drop_first().drop_first()[0] == raw[2]);
        assert(raw.drop_first().drop_first().drop_first()[0] == raw[3]);
    }
}

/// A warm-up probes at once, again 50 ms after each probe that is not answered, and gives up
/// when its budget is over and at least one probe was sent; while a probe is out it waits.
pub proof fn law_warm_up_probes_every_50_ms(
    motor: MotorView,
    warm_up: WarmUp,
    now_ms: u64,
    res: WarmUpStep,
)
    requires
        !motor.warm,
        motor.pos_vel_ms matches Some(at) ==> at < warm_up.since_ms,
        warm_up.since_ms + warm_up.budget_ms <= u64::MAX,
        now_ms + 50 <= u64::MAX,
        warm_up.rounds * 50 <= warm_up.budget_ms + 50,
        carries_out_warm_up(motor, warm_up, now_ms, res),
    ensures
        res is Wait <==> now_ms < warm_up.next_ms,
        res is Send <==> now_ms >= warm_up.next_ms && (warm_up.rounds == 0 || now_ms
            <= warm_up.since_ms + warm_up.budget_ms),
        res is Failed <==> now_ms >= warm_up.next_ms && warm_up.rounds > 0 && now_ms
            > warm_up.since_ms + warm_up.budget_ms,
        res is Send ==> after_warm_up_step(motor, warm_up, now_ms).0 == (WarmUp {
            rounds: (warm_up.rounds + 1) as u64,
            next_ms: (now_ms + 50) as u64,
            ..warm_up
        }),
        res matches WarmUpStep::Failed(err) ==> err@.kind == error::ErrorKind::Timeout,
        res matches WarmUpStep::Send(frame) ==> protocol::id_fields(
            frame@.arbitration_id,
        ).msg_type == 0x41,
{
    law_commands_address_their_motor(
        motor,
        Priority::Query,
        MsgType::QueryPosVel,
        protocol::empty_payload(),
    );
}

/// Only the first probe of a warm-up, and the first request for an offset, are not counted as
/// repeated.
pub proof fn law_repeated_requests_are_counted(
    motor: MotorView,
    warm_up: WarmUp,
    read: ParamRead,
    now_ms: u64,
)
    requires
        motor.tx_retries < u32::MAX,
    ensures
        ({
            let (next, after) = after_warm_up_step(motor, warm_up, now_ms);
            after.tx_retries == motor.tx_retries + (if next.rounds != warm_up.rounds
                && warm_up.rounds > 0 {
                1int
            } else {
                0
            })
        }),
        ({
            let (next, step) = param_cache::read_step(read, motor.params, now_ms);
            let after = after_read_step(motor, read, next, step);
            &&& after.tx_retries == motor.tx_retries + (if step is Request && next.offset
                == read.offset {
                1int
            } else {
                0
            })
            &&& step !is Request ==> after == motor
        }),
{
}

/// A failure to read the ranges puts the protocol's ranges in force and notes the reason; nothing
/// else changes.
pub proof fn law_range_failures_are_noted(motor: MotorView, reason: Seq<char>)
    ensures
        ({
            let after = after_ranges_failure(motor, reason);
            &&& after.mit_ranges == models::default_ranges()
            &&& !after.mit_ranges_from_device
            &&& after.mit_ranges_note == Some(reason)
            &&& after.gear_ratio == motor.gear_ratio && after.state == motor.state
                && after.endpoint_map == motor.endpoint_map && after.tx_seq == motor.tx_seq
        }),
{
}

/// Sending a frame changes the sequence number of the motor and nothing else; a request also
/// changes what is known of its endpoint.
pub proof fn law_sending_changes_the_sequence_number_only(
    motor: MotorView,
    endpoint_id: u16,
    offset: u32,
)
    ensures
        sent(motor) == (MotorView { tx_seq: sent(motor).tx_seq, ..motor }),
        sent(motor).tx_seq == (motor.tx_seq + 1) % 4,
        after_read_request(motor, endpoint_id, offset) == (MotorView {
            params: param_cache::reading(motor.params, endpoint_id, offset),
            tx_seq: sent(motor).tx_seq,
            ..motor
        }),
        after_write_request(motor, endpoint_id) == (MotorView {
            params: param_cache::writing(motor.params, endpoint_id),
            tx_seq: sent(motor).tx_seq,
            ..motor
        }),
{
}

/// The two endpoints from which the current range follows are those that the table of verified
/// endpoints knows as the MIT torque range and the torque constant.
pub proof fn law_current_range_endpoints_are_registers(i: int)
    requires
        0 <= i < crate::registers::registers().len(),
    ensures
        ({
            let register = crate::registers::registers()[i];
            &&& register.endpoint_id == ENDPOINT_MIT_MAX_TORQUE <==> i == 30
            &&& register.endpoint_id == ENDPOINT_MOTOR_TORQUE_CONSTANT <==> i == 20
            &&& i == 30 ==> register.variable == "axis0.controller.config.mit_max_torque"@
            &&& i == 20 ==> register.variable == "axis0.motor.config.torque_constant"@
        }),
{
    crate::registers::law_registers_are_those_of_the_firmware(i, 30);
    crate::registers::law_registers_are_those_of_the_firmware(i, 20);
    crate::registers::law_registers_are_those_of_the_firmware(20, i);
    crate::registers::law_registers_are_those_of_the_firmware(30, i);
}

/// The default of a current limit is the same number on the bus, in tenths of an ampere, and as a
/// float in amperes.
pub proof fn law_default_limits_agree()
    ensures
        ({
            let bits = values::DEFAULT_CMD_CURRENT_LIMIT;
            let exponent = bits / 0x80_0000 - 127;
            let mantissa = bits % 0x80_0000 + 0x80_0000;
            &&& exponent == 7
            &&& mantissa * 10 == DEFAULT_CMD_CURRENT_DECIAMPS * 0x1_0000
            &&& values::f32_positive(bits)
        }),
{
}

} // verus!
