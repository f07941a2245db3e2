//! The error type of the library.

use vstd::prelude::*;
use vstd::string::*;

use crate::text;
use crate::text::push_hex;

verus! {

/// What went wrong, without the message.
#[derive(Debug, Clone, Copy, PartialEq, Eq, Structural)]
pub enum ErrorKind {
    InvalidArgument,
    Io,
    Timeout,
    Protocol,
    Unsupported,
}

/// An error of the motor stack: a kind and a message for the user.
#[derive(Debug, Clone)]
pub enum MotorError {
    /// The caller asked for something that does not exist or is not allowed.
    InvalidArgument(String),
    /// The transport failed.
    Io(String),
    /// The device did not answer in time.
    Timeout(String),
    /// The device answered with something that does not follow the protocol.
    Protocol(String),
    /// The request is understood but cannot be carried out.
    Unsupported(String),
}

/// The mathematical content of a [`MotorError`].
pub struct Fault {
    pub kind: ErrorKind,
    pub text: Seq<char>,
}

impl View for MotorError {
    type V = Fault;

    open spec fn view(&self) -> Fault {
        match *self {
            MotorError::InvalidArgument(m) => Fault { kind: ErrorKind::InvalidArgument, text: m@ },
            MotorError::Io(m) => Fault { kind: ErrorKind::Io, text: m@ },
            MotorError::Timeout(m) => Fault { kind: ErrorKind::Timeout, text: m@ },
            MotorError::Protocol(m) => Fault { kind: ErrorKind::Protocol, text: m@ },
            MotorError::Unsupported(m) => Fault { kind: ErrorKind::Unsupported, text: m@ },
        }
    }
}

/// An [`ErrorKind::InvalidArgument`] fault.
pub open spec fn invalid(text: Seq<char>) -> Fault {
    Fault { kind: ErrorKind::InvalidArgument, text }
}

/// An [`ErrorKind::Timeout`] fault.
pub open spec fn timed_out(text: Seq<char>) -> Fault {
    Fault { kind: ErrorKind::Timeout, text }
}

/// An [`ErrorKind::Protocol`] fault.
pub open spec fn broken(text: Seq<char>) -> Fault {
    Fault { kind: ErrorKind::Protocol, text }
}

/// An [`ErrorKind::Unsupported`] fault.
pub open spec fn unsupported(text: Seq<char>) -> Fault {
    Fault { kind: ErrorKind::Unsupported, text }
}

/// `fault` with `prefix` in front of its text.
pub open spec fn prefixed(fault: Fault, prefix: Seq<char>) -> Fault {
    Fault { kind: fault.kind, text: prefix + fault.text }
}

impl MotorError {
    /// The kind of this error.
    pub fn kind(&self) -> (res: ErrorKind)
        ensures
            res == self@.kind,
    {
        match self {
            MotorError::InvalidArgument(_) => ErrorKind::InvalidArgument,
            MotorError::Io(_) => ErrorKind::Io,
            MotorError::Timeout(_) => ErrorKind::Timeout,
            MotorError::Protocol(_) => ErrorKind::Protocol,
            MotorError::Unsupported(_) => ErrorKind::Unsupported,
        }
    }

    /// The message of this error.
    pub fn message(&self) -> (res: &str)
        ensures
            res@ == self@.text,
    {
        match self {
            MotorError::InvalidArgument(m) => m.as_str(),
            MotorError::Io(m) => m.as_str(),
            MotorError::Timeout(m) => m.as_str(),
            MotorError::Protocol(m) => m.as_str(),
            MotorError::Unsupported(m) => m.as_str(),
        }
    }
}

/// Prefix an error message while keeping the error kind.
pub fn with_context(err: MotorError, prefix: &str) -> (res: MotorError)
    ensures
        res@ == prefixed(err@, prefix@),
{
    let text: String = prefix.to_owned().concat(err.message());
    match err.kind() {
        ErrorKind::InvalidArgument => MotorError::InvalidArgument(text),
        ErrorKind::Io => MotorError::Io(text),
        ErrorKind::Timeout => MotorError::Timeout(text),
        ErrorKind::Protocol => MotorError::Protocol(text),
        ErrorKind::Unsupported => MotorError::Unsupported(text),
    }
}

/// The prefix that [`node_context`] puts in front of a message.
pub open spec fn node_prefix(motor_id: u16) -> Seq<char> {
    "loading the endpoint descriptor from node 0x"@ + text::hex(motor_id as nat, 2) + ": "@
}

/// Prefix an error with the node it happened on, keeping the error kind.
pub fn node_context(err: MotorError, motor_id: u16) -> (res: MotorError)
    ensures
        res@ == prefixed(err@, node_prefix(motor_id)),
{
    let mut prefix: String = "loading the endpoint descriptor from node 0x".to_owned();
    push_hex(&mut prefix, motor_id as u64, 2);
    prefix.append(": ");
    with_context(err, prefix.as_str())
}

/// Adding context never changes what kind of error is reported, and two prefixes add up.
pub proof fn law_context_keeps_the_kind(fault: Fault, inner: Seq<char>, outer: Seq<char>)
    ensures
        prefixed(fault, inner).kind == fault.kind,
        prefixed(prefixed(fault, inner), outer) == prefixed(fault, outer + inner),
{
    assert(outer + (inner + fault.text) =~= (outer + inner) + fault.text);
}

/// Each constructor of a fault gives its own kind and keeps the text; a prefix stands in front of
/// the text.
pub proof fn law_faults_keep_their_kind_and_text(text: Seq<char>, prefix: Seq<char>)
    ensures
        invalid(text).kind is InvalidArgument && invalid(text).text == text,
        timed_out(text).kind is Timeout && timed_out(text).text == text,
        broken(text).kind is Protocol && broken(text).text == text,
        unsupported(text).kind is Unsupported && unsupported(text).text == text,
        prefixed(broken(text), prefix).text == prefix + text,
{
}

} // verus!
