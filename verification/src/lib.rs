//! Host side of the CyberBeast motor protocol.
//!
//! The library holds everything that is decided or computed: the frames of the protocol,
//! the endpoint map that a device reports of itself, the state of a motor, the rules for
//! waiting and asking again, and the rules of the command-line tool. It does no input or
//! output and no floating-point arithmetic: frames and times are handed in, frames to send
//! are handed out, and floats are carried as IEEE 754 bit patterns.

pub mod cli;
pub mod controller;
pub mod descriptor;
pub mod endpoint_map;
pub mod error;
pub mod json;
pub mod loops;
pub mod models;
pub mod motor;
pub mod param_cache;
pub mod protocol;
pub mod registers;
pub mod report;
pub mod text;
pub mod values;

pub use crate::controller::CyberBeastController;
pub use crate::endpoint_map::{Access, EndpointEntry, EndpointKind, EndpointMap, ParamReadout};
pub use crate::error::{ErrorKind, MotorError};
pub use crate::models::{model_limits, ControlMode, CyberBeastMotorState, MitRanges};
pub use crate::motor::CyberBeastMotor;
pub use crate::protocol::{can_id_parts, make_can_id, CanFrame, MsgType, Priority};
pub use crate::values::{decode_value, ParamValue, ValueType};
