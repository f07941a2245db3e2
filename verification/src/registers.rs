//! Verified endpoints of a CyberBeast node.
//!
//! The ids are assigned by the firmware and follow no scheme. The full map is read from
//! the device; this table holds the endpoints that tools refer to, as firmware 0.6.9
//! reports them (descriptor length 38433, VersionCRC 0x3F82, 554 endpoints).

use vstd::prelude::*;

verus! {

/// One endpoint of the table.
#[derive(Debug, Clone, Copy)]
pub struct RegisterInfo {
    /// Endpoint id.
    pub endpoint_id: u16,
    /// Dotted path.
    pub variable: &'static str,
    /// Description.
    pub description: &'static str,
    /// Declared value type and access, as the device reports them.
    pub value_type: &'static str,
}

/// The mathematical content of a [`RegisterInfo`].
pub struct RegisterView {
    pub endpoint_id: u16,
    pub variable: Seq<char>,
    pub description: Seq<char>,
    pub value_type: Seq<char>,
}

impl View for RegisterInfo {
    type V = RegisterView;

    open spec fn view(&self) -> RegisterView {
        RegisterView {
            endpoint_id: self.endpoint_id,
            variable: self.variable@,
            description: self.description@,
            value_type: self.value_type@,
        }
    }
}

/// The endpoints of the table, by ascending id.
pub open spec fn registers() -> Seq<RegisterView> {
    seq![
        RegisterView {
            endpoint_id: 0x0001,
            variable: "odrv.error"@,
            description: "Board (odrv) error flags"@,
            value_type: "uint8 rw"@,
        },
        RegisterView {
            endpoint_id: 0x0002,
            variable: "odrv.vbus_voltage"@,
            description: "DC bus voltage (V)"@,
            value_type: "float r"@,
        },
        RegisterView {
            endpoint_id: 0x0003,
            variable: "odrv.ibus"@,
            description: "DC bus current (A)"@,
            value_type: "float r"@,
        },
        RegisterView {
            endpoint_id: 0x0005,
            variable: "odrv.serial_number"@,
            description: "MCU unique serial number (needs a segmented read)"@,
            value_type: "uint64 r"@,
        },
        RegisterView {
            endpoint_id: 0x0044,
            variable: "can.error"@,
            description: "CAN error flags"@,
            value_type: "uint8 rw"@,
        },
        RegisterView {
            endpoint_id: 0x0045,
            variable: "can.config.baud_rate"@,
            description: "CAN bitrate (bit/s)"@,
            value_type: "uint32 rw"@,
        },
        RegisterView {
            endpoint_id: 0x0046,
            variable: "can.config.protocol"@,
            description: "CAN protocol variant"@,
            value_type: "uint16 rw"@,
        },
        RegisterView {
            endpoint_id: 0x0049,
            variable: "can.config.break_timeout"@,
            description: "CAN break timeout (ms)"@,
            value_type: "uint16 rw"@,
        },
        RegisterView {
            endpoint_id: 0x004A,
            variable: "can.config.auto_bus_off"@,
            description: "Enable automatic bus-off recovery"@,
            value_type: "bool rw"@,
        },
        RegisterView {
            endpoint_id: 0x004B,
            variable: "can.config.auto_retransmission"@,
            description: "Enable CAN automatic retransmission"@,
            value_type: "bool rw"@,
        },
        RegisterView {
            endpoint_id: 0x008E,
            variable: "axis0.current_state"@,
            description: "Current axis state (AXIS_STATE_*)"@,
            value_type: "uint8 r"@,
        },
        RegisterView {
            endpoint_id: 0x008F,
            variable: "axis0.requested_state"@,
            description: "Requested axis state (8 = CLOSED_LOOP_CONTROL)"@,
            value_type: "uint8 rw"@,
        },
        RegisterView {
            endpoint_id: 0x0099,
            variable: "axis0.config.watchdog_timeout"@,
            description: "Axis watchdog timeout (s)"@,
            value_type: "float rw"@,
        },
        RegisterView {
            endpoint_id: 0x009A,
            variable: "axis0.config.enable_watchdog"@,
            description: "Enable the axis watchdog"@,
            value_type: "bool rw"@,
        },
        RegisterView {
            endpoint_id: 0x00B4,
            variable: "axis0.config.can.node_id"@,
            description: "CAN node id of this axis"@,
            value_type: "uint32 rw"@,
        },
        RegisterView {
            endpoint_id: 0x00B5,
            variable: "axis0.config.can.is_extended"@,
            description: "Use 29-bit extended CAN ids"@,
            value_type: "bool rw"@,
        },
        RegisterView {
            endpoint_id: 0x00B6,
            variable: "axis0.config.can.heartbeat_rate_ms"@,
            description: "Heartbeat period (ms)"@,
            value_type: "uint32 rw"@,
        },
        RegisterView {
            endpoint_id: 0x00CC,
            variable: "axis0.motor.effective_current_lim"@,
            description: "Effective current limit after clamping (A)"@,
            value_type: "float r"@,
        },
        RegisterView {
            endpoint_id: 0x00F1,
            variable: "axis0.motor.config.pole_pairs"@,
            description: "Motor pole pairs"@,
            value_type: "int32 rw"@,
        },
        RegisterView {
            endpoint_id: 0x00F3,
            variable: "axis0.motor.config.calibration_current"@,
            description: "Calibration current (A)"@,
            value_type: "float rw"@,
        },
        RegisterView {
            endpoint_id: 0x00F7,
            variable: "axis0.motor.config.torque_constant"@,
            description: "Torque constant (Nm/A)"@,
            value_type: "float rw"@,
        },
        RegisterView {
            endpoint_id: 0x00F9,
            variable: "axis0.motor.config.current_lim"@,
            description: "Configured current limit (A)"@,
            value_type: "float rw"@,
        },
        RegisterView {
            endpoint_id: 0x00FB,
            variable: "axis0.motor.config.torque_lim"@,
            description: "Torque limit (Nm)"@,
            value_type: "float rw"@,
        },
        RegisterView {
            endpoint_id: 0x011F,
            variable: "axis0.controller.config.control_mode"@,
            description: "Control mode (see firmware CONTROL_MODE enum)"@,
            value_type: "uint8 rw"@,
        },
        RegisterView {
            endpoint_id: 0x0120,
            variable: "axis0.controller.config.input_mode"@,
            description: "Input mode (see firmware INPUT_MODE enum)"@,
            value_type: "uint8 rw"@,
        },
        RegisterView {
            endpoint_id: 0x0123,
            variable: "axis0.controller.config.pos_gain"@,
            description: "Position gain (turns/s per turn)"@,
            value_type: "float rw"@,
        },
        RegisterView {
            endpoint_id: 0x0127,
            variable: "axis0.controller.config.vel_gain"@,
            description: "Velocity gain (Nm per turn/s)"@,
            value_type: "float rw"@,
        },
        RegisterView {
            endpoint_id: 0x012D,
            variable: "axis0.controller.config.vel_limit"@,
            description: "Velocity limit (turns/s)"@,
            value_type: "float rw"@,
        },
        RegisterView {
            endpoint_id: 0x014F,
            variable: "axis0.controller.config.mit_max_pos"@,
            description: "MIT max position (rad)"@,
            value_type: "float rw"@,
        },
        RegisterView {
            endpoint_id: 0x0150,
            variable: "axis0.controller.config.mit_max_vel"@,
            description: "MIT max velocity (rad/s)"@,
            value_type: "float rw"@,
        },
        RegisterView {
            endpoint_id: 0x0151,
            variable: "axis0.controller.config.mit_max_torque"@,
            description: "MIT max torque (Nm); with torque_constant it sets the MIT response current range"@,
            value_type: "float rw"@,
        },
        RegisterView {
            endpoint_id: 0x0152,
            variable: "axis0.controller.config.mit_max_kp"@,
            description: "MIT max Kp"@,
            value_type: "float rw"@,
        },
        RegisterView {
            endpoint_id: 0x0153,
            variable: "axis0.controller.config.mit_max_kd"@,
            description: "MIT max Kd"@,
            value_type: "float rw"@,
        },
        RegisterView {
            endpoint_id: 0x0186,
            variable: "axis0.encoder.config.cpr"@,
            description: "Encoder counts per revolution"@,
            value_type: "int32 rw"@,
        },
    ]
}

/// The endpoints of the table, by ascending id.
pub fn register_table() -> (res: [RegisterInfo; 34])
    ensures
        res@.map_values(|info: RegisterInfo| info@) == registers(),
{
    let table: [RegisterInfo; 34] = [
        RegisterInfo {
            endpoint_id: 0x0001,
            variable: "odrv.error",
            description: "Board (odrv) error flags",
            value_type: "uint8 rw",
        },
        RegisterInfo {
            endpoint_id: 0x0002,
            variable: "odrv.vbus_voltage",
            description: "DC bus voltage (V)",
            value_type: "float r",
        },
        RegisterInfo {
            endpoint_id: 0x0003,
            variable: "odrv.ibus",
            description: "DC bus current (A)",
            value_type: "float r",
        },
        RegisterInfo {
            endpoint_id: 0x0005,
            variable: "odrv.serial_number",
            description: "MCU unique serial number (needs a segmented read)",
            value_type: "uint64 r",
        },
        RegisterInfo {
            endpoint_id: 0x0044,
            variable: "can.error",
            description: "CAN error flags",
            value_type: "uint8 rw",
        },
        RegisterInfo {
            endpoint_id: 0x0045,
            variable: "can.config.baud_rate",
            description: "CAN bitrate (bit/s)",
            value_type: "uint32 rw",
        },
        RegisterInfo {
            endpoint_id: 0x0046,
            variable: "can.config.protocol",
            description: "CAN protocol variant",
            value_type: "uint16 rw",
        },
        RegisterInfo {
            endpoint_id: 0x0049,
            variable: "can.config.break_timeout",
            description: "CAN break timeout (ms)",
            value_type: "uint16 rw",
        },
        RegisterInfo {
            endpoint_id: 0x004A,
            variable: "can.config.auto_bus_off",
            description: "Enable automatic bus-off recovery",
            value_type: "bool rw",
        },
        RegisterInfo {
            endpoint_id: 0x004B,
            variable: "can.config.auto_retransmission",
            description: "Enable CAN automatic retransmission",
            value_type: "bool rw",
        },
        RegisterInfo {
            endpoint_id: 0x008E,
            variable: "axis0.current_state",
            description: "Current axis state (AXIS_STATE_*)",
            value_type: "uint8 r",
        },
        RegisterInfo {
            endpoint_id: 0x008F,
            variable: "axis0.requested_state",
            description: "Requested axis state (8 = CLOSED_LOOP_CONTROL)",
            value_type: "uint8 rw",
        },
        RegisterInfo {
            endpoint_id: 0x0099,
            variable: "axis0.config.watchdog_timeout",
            description: "Axis watchdog timeout (s)",
            value_type: "float rw",
        },
        RegisterInfo {
            endpoint_id: 0x009A,
            variable: "axis0.config.enable_watchdog",
            description: "Enable the axis watchdog",
            value_type: "bool rw",
        },
        RegisterInfo {
            endpoint_id: 0x00B4,
            variable: "axis0.config.can.node_id",
            description: "CAN node id of this axis",
            value_type: "uint32 rw",
        },
        RegisterInfo {
            endpoint_id: 0x00B5,
            variable: "axis0.config.can.is_extended",
            description: "Use 29-bit extended CAN ids",
            value_type: "bool rw",
        },
        RegisterInfo {
            endpoint_id: 0x00B6,
            variable: "axis0.config.can.heartbeat_rate_ms",
            description: "Heartbeat period (ms)",
            value_type: "uint32 rw",
        },
        RegisterInfo {
            endpoint_id: 0x00CC,
            variable: "axis0.motor.effective_current_lim",
            description: "Effective current limit after clamping (A)",
            value_type: "float r",
        },
        RegisterInfo {
            endpoint_id: 0x00F1,
            variable: "axis0.motor.config.pole_pairs",
            description: "Motor pole pairs",
            value_type: "int32 rw",
        },
        RegisterInfo {
            endpoint_id: 0x00F3,
            variable: "axis0.motor.config.calibration_current",
            description: "Calibration current (A)",
            value_type: "float rw",
        },
        RegisterInfo {
            endpoint_id: 0x00F7,
            variable: "axis0.motor.config.torque_constant",
            description: "Torque constant (Nm/A)",
            value_type: "float rw",
        },
        RegisterInfo {
            endpoint_id: 0x00F9,
            variable: "axis0.motor.config.current_lim",
            description: "Configured current limit (A)",
            value_type: "float rw",
        },
        RegisterInfo {
            endpoint_id: 0x00FB,
            variable: "axis0.motor.config.torque_lim",
            description: "Torque limit (Nm)",
            value_type: "float rw",
        },
        RegisterInfo {
            endpoint_id: 0x011F,
            variable: "axis0.controller.config.control_mode",
            description: "Control mode (see firmware CONTROL_MODE enum)",
            value_type: "uint8 rw",
        },
        RegisterInfo {
            endpoint_id: 0x0120,
            variable: "axis0.controller.config.input_mode",
            description: "Input mode (see firmware INPUT_MODE enum)",
            value_type: "uint8 rw",
        },
        RegisterInfo {
            endpoint_id: 0x0123,
            variable: "axis0.controller.config.pos_gain",
            description: "Position gain (turns/s per turn)",
            value_type: "float rw",
        },
        RegisterInfo {
            endpoint_id: 0x0127,
            variable: "axis0.controller.config.vel_gain",
            description: "Velocity gain (Nm per turn/s)",
            value_type: "float rw",
        },
        RegisterInfo {
            endpoint_id: 0x012D,
            variable: "axis0.controller.config.vel_limit",
            description: "Velocity limit (turns/s)",
            value_type: "float rw",
        },
        RegisterInfo {
            endpoint_id: 0x014F,
            variable: "axis0.controller.config.mit_max_pos",
            description: "MIT max position (rad)",
            value_type: "float rw",
        },
        RegisterInfo {
            endpoint_id: 0x0150,
            variable: "axis0.controller.config.mit_max_vel",
            description: "MIT max velocity (rad/s)",
            value_type: "float rw",
        },
        RegisterInfo {
            endpoint_id: 0x0151,
            variable: "axis0.controller.config.mit_max_torque",
            description: "MIT max torque (Nm); with torque_constant it sets the MIT response current range",
            value_type: "float rw",
        },
        RegisterInfo {
            endpoint_id: 0x0152,
            variable: "axis0.controller.config.mit_max_kp",
            description: "MIT max Kp",
            value_type: "float rw",
        },
        RegisterInfo {
            endpoint_id: 0x0153,
            variable: "axis0.controller.config.mit_max_kd",
            description: "MIT max Kd",
            value_type: "float rw",
        },
        RegisterInfo {
            endpoint_id: 0x0186,
            variable: "axis0.encoder.config.cpr",
            description: "Encoder counts per revolution",
            value_type: "int32 rw",
        },
    ];
    assert(table@.map_values(|info: RegisterInfo| info@) =~= registers());
    table
}

/// The table has 34 endpoints by strictly ascending id, and each id belongs to its path and type
/// as the firmware declares them.
pub proof fn law_registers_are_those_of_the_firmware(i: int, j: int)
    requires
        0 <= i < registers().len(),
    ensures
        registers().len() == 34,
        i < j < registers().len() ==> registers()[i].endpoint_id < registers()[j].endpoint_id,
        ({
            let r = registers()[i];
            match r.endpoint_id {
                0x0001 => r.variable == "odrv.error"@ && r.value_type == "uint8 rw"@,
                0x0002 => r.variable == "odrv.vbus_voltage"@ && r.value_type == "float r"@,
                0x0003 => r.variable == "odrv.ibus"@ && r.value_type == "float r"@,
                0x0005 => r.variable == "odrv.serial_number"@ && r.value_type == "uint64 r"@,
                0x0044 => r.variable == "can.error"@ && r.value_type == "uint8 rw"@,
                0x0045 => r.variable == "can.config.baud_rate"@ && r.value_type == "uint32 rw"@,
                0x0046 => r.variable == "can.config.protocol"@ && r.value_type == "uint16 rw"@,
                0x0049 => r.variable == "can.config.break_timeout"@ && r.value_type == "uint16 rw"@,
                0x004A => r.variable == "can.config.auto_bus_off"@ && r.value_type == "bool rw"@,
                0x004B => r.variable == "can.config.auto_retransmission"@ && r.value_type == "bool rw"@,
                0x008E => r.variable == "axis0.current_state"@ && r.value_type == "uint8 r"@,
                0x008F => r.variable == "axis0.requested_state"@ && r.value_type == "uint8 rw"@,
                0x0099 => r.variable == "axis0.config.watchdog_timeout"@ && r.value_type == "float rw"@,
                0x009A => r.variable == "axis0.config.enable_watchdog"@ && r.value_type == "bool rw"@,
                0x00B4 => r.variable == "axis0.config.can.node_id"@ && r.value_type == "uint32 rw"@,
                0x00B5 => r.variable == "axis0.config.can.is_extended"@ && r.value_type == "bool rw"@,
                0x00B6 => r.variable == "axis0.config.can.heartbeat_rate_ms"@ && r.value_type == "uint32 rw"@,
                0x00CC => r.variable == "axis0.motor.effective_current_lim"@ && r.value_type == "float r"@,
                0x00F1 => r.variable == "axis0.motor.config.pole_pairs"@ && r.value_type == "int32 rw"@,
                0x00F3 => r.variable == "axis0.motor.config.calibration_current"@ && r.value_type == "float rw"@,
                0x00F7 => r.variable == "axis0.motor.config.torque_constant"@ && r.value_type == "float rw"@,
                0x00F9 => r.variable == "axis0.motor.config.current_lim"@ && r.value_type == "float rw"@,
                0x00FB => r.variable == "axis0.motor.config.torque_lim"@ && r.value_type == "float rw"@,
                0x011F => r.variable == "axis0.controller.config.control_mode"@ && r.value_type == "uint8 rw"@,
                0x0120 => r.variable == "axis0.controller.config.input_mode"@ && r.value_type == "uint8 rw"@,
                0x0123 => r.variable == "axis0.controller.config.pos_gain"@ && r.value_type == "float rw"@,
                0x0127 => r.variable == "axis0.controller.config.vel_gain"@ && r.value_type == "float rw"@,
                0x012D => r.variable == "axis0.controller.config.vel_limit"@ && r.value_type == "float rw"@,
                0x014F => r.variable == "axis0.controller.config.mit_max_pos"@ && r.value_type == "float rw"@,
                0x0150 => r.variable == "axis0.controller.config.mit_max_vel"@ && r.value_type == "float rw"@,
                0x0151 => r.variable == "axis0.controller.config.mit_max_torque"@ && r.value_type == "float rw"@,
                0x0152 => r.variable == "axis0.controller.config.mit_max_kp"@ && r.value_type == "float rw"@,
                0x0153 => r.variable == "axis0.controller.config.mit_max_kd"@ && r.value_type == "float rw"@,
                0x0186 => r.variable == "axis0.encoder.config.cpr"@ && r.value_type == "int32 rw"@,
                _ => false,
            }
        }),
{
    lemma_register_ids();
}

proof fn lemma_register_ids()
    ensures
        registers().len() == 34,
        forall|i: int, j: int|
            0 <= i < j < 34 ==> (#[trigger] registers()[i]).endpoint_id < (#[trigger] registers()[j]).endpoint_id,
{
    assert forall|i: int| 0 <= i < 33 implies (#[trigger] registers()[i]).endpoint_id
        < registers()[i + 1].endpoint_id by {}
}

} // verus!
