//! The motors on one bus.

use vstd::prelude::*;
use vstd::string::*;

use crate::descriptor;
use crate::descriptor::DescriptorTransfer;
use crate::error;
use crate::error::{node_context, MotorError};
use crate::motor;
use crate::motor::{CyberBeastMotor, DescriptorProgress, MotorView};
use crate::protocol;
use crate::protocol::{CanFrame, FrameView, MsgType, Priority};
use crate::text;
use crate::text::push_hex;

verus! {

/// Quiet window used while loading the endpoint map, in milliseconds.
///
/// The device streams a burst of descriptor frames and then pauses, so this bounds the gap
/// between bursts, not the whole transfer.
pub const DEFAULT_ENDPOINT_MAP_TIMEOUT_MS: u64 = 500;

/// Timeout of each MIT range read when a motor is connected, in milliseconds.
///
/// Short on purpose: a device that answers does so in milliseconds, and one that does not
/// must not add full response timeouts to every connect.
pub const DEFAULT_MIT_RANGE_PROBE_TIMEOUT_MS: u64 = 150;

/// The motors on one bus, each node id at most once.
#[derive(Debug)]
pub struct CyberBeastController {
    motors: Vec<CyberBeastMotor>,
}

impl View for CyberBeastController {
    type V = Seq<MotorView>;

    closed spec fn view(&self) -> Seq<MotorView> {
        self.motors@.map_values(|motor: CyberBeastMotor| motor@)
    }
}

/// The position of the first of the first `n` motors with a node id.
pub open spec fn first_motor(motors: Seq<MotorView>, motor_id: u16, n: nat) -> Option<int>
    decreases n,
{
    if n == 0 || n > motors.len() {
        None
    } else {
        match first_motor(motors, motor_id, (n - 1) as nat) {
            Some(i) => Some(i),
            None => if motors[n - 1].motor_id == motor_id {
                Some(n - 1)
            } else {
                None
            },
        }
    }
}

/// The position of the motor with a node id.
pub open spec fn motor_position(motors: Seq<MotorView>, motor_id: u16) -> Option<int> {
    first_motor(motors, motor_id, motors.len())
}

/// Whether no node id occurs twice.
pub open spec fn distinct_ids(motors: Seq<MotorView>) -> bool {
    forall|i: int, j: int|
        0 <= i < j < motors.len() ==> (#[trigger] motors[i]).motor_id != (
        #[trigger] motors[j]).motor_id
}

/// What adding a motor comes to: the motor, or why it is not added.
pub open spec fn addition(motors: Seq<MotorView>, motor_id: u16, model: Seq<char>) -> Result<
    MotorView,
    error::Fault,
> {
    if motor_position(motors, motor_id) is Some {
        Err(
            error::invalid(
                "motor 0x"@ + text::hex(motor_id as nat, 2) + " is already registered"@,
            ),
        )
    } else {
        motor::new_motor(motor_id, model)
    }
}

/// Whether a motor was added and its endpoint map asked for, or neither.
pub open spec fn connecting(
    before: Seq<MotorView>,
    after: Seq<MotorView>,
    added: Result<MotorView, error::Fault>,
    now_ms: u64,
    res: Result<(usize, DescriptorTransfer, CanFrame), MotorError>,
) -> bool {
    match res {
        Ok((at, transfer, frame)) => added is Ok && at == before.len() && after.len()
            == before.len() + 1 && after.drop_last() == before && motor::transfer_started(
            added->Ok_0,
            after.last(),
            DEFAULT_ENDPOINT_MAP_TIMEOUT_MS,
            now_ms,
            transfer,
            frame@,
        ),
        Err(err) => added == Err::<MotorView, error::Fault>(err@) && after == before,
    }
}

/// What connecting a motor does next.
#[derive(Debug)]
pub enum ConnectStep {
    /// Nothing yet: wait for frames.
    Wait,
    /// Send this frame.
    Send(CanFrame),
    /// The endpoint map is loaded.
    Ready,
    /// The endpoint map cannot be loaded.
    Failed(MotorError),
}

/// The transfer and the motor after a step of connecting; a complete descriptor becomes the
/// endpoint map of the motor.
pub open spec fn after_connect_step(
    motor: MotorView,
    transfer: DescriptorTransfer,
    now_ms: u64,
) -> (DescriptorTransfer, MotorView) {
    let (next, cache, step) = descriptor::next_step(transfer, motor.json_desc, now_ms);
    let moved = motor::after_transfer_step(motor, cache, step);
    (
        next,
        match step {
            descriptor::StepView::Done(total_len, version_crc, bytes) => match descriptor::map_in(
                bytes,
                total_len,
                version_crc,
            ) {
                Ok(map) => MotorView { endpoint_map: Some(map), ..moved },
                Err(_) => moved,
            },
            _ => moved,
        },
    )
}

/// Whether a step of connecting says what is to be done; an error names the node.
pub open spec fn carries_out_connect(
    motor: MotorView,
    transfer: DescriptorTransfer,
    now_ms: u64,
    res: ConnectStep,
) -> bool {
    match descriptor::next_step(transfer, motor.json_desc, now_ms).2 {
        descriptor::StepView::Wait => res is Wait,
        descriptor::StepView::Request(offset) => res matches ConnectStep::Send(frame) && frame@
            == motor::command(motor, Priority::Config, MsgType::JsonDescRead, frame@.data)
            && motor::is_descriptor_request(frame@.data, offset),
        descriptor::StepView::Done(total_len, version_crc, bytes) => match descriptor::map_in(
            bytes,
            total_len,
            version_crc,
        ) {
            Ok(_) => res is Ready,
            Err(fault) => res matches ConnectStep::Failed(err) && err@ == error::prefixed(
                fault,
                error::node_prefix(motor.motor_id),
            ),
        },
        descriptor::StepView::Failed(fault) => res matches ConnectStep::Failed(err) && err@
            == error::prefixed(fault, error::node_prefix(motor.motor_id)),
    }
}

/// The positions, in order, of those of the first `n` motors that accept a frame.
pub open spec fn accepting_among(motors: Seq<MotorView>, frame: FrameView, n: nat) -> Seq<int>
    decreases n,
{
    if n == 0 || n > motors.len() {
        Seq::empty()
    } else {
        let found = accepting_among(motors, frame, (n - 1) as nat);
        if motor::accepted(motors[n - 1].motor_id, frame) {
            found.push(n - 1)
        } else {
            found
        }
    }
}

/// Whether each motor was sent the same message, and nothing else changed.
pub open spec fn told_all(
    before: Seq<MotorView>,
    after: Seq<MotorView>,
    msg_type: MsgType,
    frames: Seq<CanFrame>,
) -> bool {
    &&& frames.len() == before.len()
    &&& after.len() == before.len()
    &&& forall|i: int|
        0 <= i < before.len() ==> (#[trigger] frames[i])@ == motor::command(
            before[i],
            Priority::Ctrl,
            msg_type,
            protocol::empty_payload(),
        ) && after[i] == motor::sent(before[i])
}

impl CyberBeastController {
    /// A bus without motors.
    pub fn new() -> (res: Self)
        ensures
            res@ == Seq::<MotorView>::empty(),
    {
        let res = CyberBeastController { motors: Vec::new() };
        assert(res@ =~= Seq::<MotorView>::empty());
        res
    }

    /// Number of motors.
    pub fn len(&self) -> (res: usize)
        ensures
            res == self@.len(),
    {
        self.motors.len()
    }

    /// The position of the motor with a node id.
    pub fn position(&self, motor_id: u16) -> (res: Option<usize>)
        ensures
            match res {
                Some(i) => motor_position(self@, motor_id) == Some(i as int) && i < self@.len(),
                None => motor_position(self@, motor_id) is None,
            },
    {
        let ghost all = self@;
        let mut i: usize = 0;
        while i < self.motors.len()
            invariant
                i <= self.motors@.len(),
                all == self@,
                all.len() == self.motors@.len(),
                first_motor(all, motor_id, i as nat) is None,
            decreases self.motors@.len() - i,
        {
            assert(all[i as int] == self.motors@[i as int]@);
            if self.motors[i].motor_id() == motor_id {
                proof {
                    assert(first_motor(all, motor_id, (i + 1) as nat) == Some(i as int));
                    lemma_first_motor_stays(all, motor_id, (i + 1) as nat, all.len());
                }
                return Some(i);
            }
            i = i + 1;
        }
        None
    }

    /// Add a motor without sending anything on the bus; its position is returned.
    ///
    /// For scanning, where most node ids are silent and a descriptor transfer for each of
    /// them would be wasted. A motor that is to be used also has its endpoint map loaded.
    pub fn add_motor_probe(&mut self, motor_id: u16, feedback_id: u16, model: &str) -> (res: Result<
        usize,
        MotorError,
    >)
        ensures
            match res {
                Ok(i) => i == old(self)@.len() && (addition(old(self)@, motor_id, model@) matches Ok(
                    motor,
                ) && final(self)@ == old(self)@.push(motor)),
                Err(err) => addition(old(self)@, motor_id, model@) == Err::<
                    MotorView,
                    error::Fault,
                >(err@) && final(self)@ == old(self)@,
            },
    {
        if self.position(motor_id).is_some() {
            let mut message: String = "motor 0x".to_owned();
            push_hex(&mut message, motor_id as u64, 2);
            message.append(" is already registered");
            return Err(MotorError::InvalidArgument(message));
        }
        let motor: CyberBeastMotor = match CyberBeastMotor::new(motor_id, feedback_id, model) {
            Ok(motor) => motor,
            Err(err) => {
                return Err(err);
            },
        };
        let at: usize = self.motors.len();
        self.motors.push(motor);
        assert(self@ =~= old(self)@.push(motor@));
        Ok(at)
    }

    /// Add a motor and start to load its endpoint map: its position, the transfer and the
    /// first request.
    ///
    /// The table is read once here and cached, so every later read or write of a parameter
    /// uses the device's own table. The motor is connected once [`Self::continue_connect`]
    /// says so; a node that does not answer makes it fail.
    pub fn add_motor(
        &mut self,
        motor_id: u16,
        feedback_id: u16,
        model: &str,
        now_ms: u64,
    ) -> (res: Result<(usize, DescriptorTransfer, CanFrame), MotorError>)
        ensures
            connecting(
                old(self)@,
                final(self)@,
                addition(old(self)@, motor_id, model@),
                now_ms,
                res,
            ),
    {
        match self.add_motor_probe(motor_id, feedback_id, model) {
            Ok(at) => {
                let (transfer, frame) = self.motor_at(at).read_endpoint_descriptor_raw(
                    DEFAULT_ENDPOINT_MAP_TIMEOUT_MS,
                    now_ms,
                );
                assert(self@.drop_last() =~= old(self)@);
                Ok((at, transfer, frame))
            },
            Err(err) => Err(err),
        }
    }

    /// Add a motor that is addressed from another host id, and start to load its endpoint
    /// map.
    pub fn add_motor_with_master(
        &mut self,
        motor_id: u16,
        feedback_id: u16,
        model: &str,
        master_id: u8,
        now_ms: u64,
    ) -> (res: Result<(usize, DescriptorTransfer, CanFrame), MotorError>)
        ensures
            connecting(
                old(self)@,
                final(self)@,
                match addition(old(self)@, motor_id, model@) {
                    Ok(motor) => Ok(MotorView { master_id, ..motor }),
                    Err(fault) => Err(fault),
                },
                now_ms,
                res,
            ),
    {
        match self.add_motor_probe(motor_id, feedback_id, model) {
            Ok(at) => {
                self.motor_at(at).set_master_id(master_id);
                let (transfer, frame) = self.motor_at(at).read_endpoint_descriptor_raw(
                    DEFAULT_ENDPOINT_MAP_TIMEOUT_MS,
                    now_ms,
                );
                assert(self@.drop_last() =~= old(self)@);
                Ok((at, transfer, frame))
            },
            Err(err) => Err(err),
        }
    }

    /// Take the next step of connecting the motor at a position.
    pub fn continue_connect(
        &mut self,
        at: usize,
        transfer: &mut DescriptorTransfer,
        now_ms: u64,
    ) -> (res: ConnectStep)
        requires
            at < old(self)@.len(),
        ensures
            ({
                let motor = old(self)@[at as int];
                let (next, moved) = after_connect_step(motor, *old(transfer), now_ms);
                &&& *final(transfer) == next
                &&& final(self)@ == old(self)@.update(at as int, moved)
                &&& carries_out_connect(motor, *old(transfer), now_ms, res)
            }),
    {
        let motor: &mut CyberBeastMotor = self.motor_at(at);
        let motor_id: u16 = motor.motor_id();
        match motor.continue_descriptor(transfer, now_ms) {
            DescriptorProgress::Wait => ConnectStep::Wait,
            DescriptorProgress::Send(frame) => ConnectStep::Send(frame),
            DescriptorProgress::Done(total_len, version_crc, bytes) => match motor.load_endpoint_map(
                total_len,
                version_crc,
                bytes,
            ) {
                Ok(_) => ConnectStep::Ready,
                Err(err) => ConnectStep::Failed(node_context(err, motor_id)),
            },
            DescriptorProgress::Failed(err) => ConnectStep::Failed(node_context(err, motor_id)),
        }
    }

    /// The motor at a position, to be changed.
    pub fn motor_at(&mut self, at: usize) -> (res: &mut CyberBeastMotor)
        requires
            at < old(self)@.len(),
        ensures
            res@ == old(self)@[at as int],
            final(self)@ == old(self)@.update(at as int, final(res)@),
    {
        &mut self.motors[at]
    }

    /// The motor with a node id.
    pub fn get_motor(&self, motor_id: u16) -> (res: Result<&CyberBeastMotor, MotorError>)
        ensures
            match res {
                Ok(motor) => motor_position(self@, motor_id) matches Some(i) && motor@ == self@[i],
                Err(err) => motor_position(self@, motor_id) is None && err@ == error::invalid(
                    "motor 0x"@ + text::hex(motor_id as nat, 2) + " is not registered"@,
                ),
            },
    {
        match self.position(motor_id) {
            Some(at) => Ok(&self.motors[at]),
            None => {
                let mut message: String = "motor 0x".to_owned();
                push_hex(&mut message, motor_id as u64, 2);
                message.append(" is not registered");
                Err(MotorError::InvalidArgument(message))
            },
        }
    }

    /// The positions of the motors that a received frame concerns.
    pub fn accepting(&self, frame: &CanFrame) -> (res: Vec<usize>)
        ensures
            res@.map_values(|i: usize| i as int) == accepting_among(self@, frame@, self@.len()),
            forall|k: int| 0 <= k < res@.len() ==> #[trigger] res@[k] < self@.len(),
    {
        let ghost all = self@;
        let mut found: Vec<usize> = Vec::new();
        assert(found@.map_values(|i: usize| i as int) =~= Seq::<int>::empty());
        let mut i: usize = 0;
        while i < self.motors.len()
            invariant
                i <= self.motors@.len(),
                all == self@,
                all.len() == self.motors@.len(),
                found@.map_values(|i: usize| i as int) == accepting_among(all, frame@, i as nat),
                forall|k: int| 0 <= k < found@.len() ==> #[trigger] found@[k] < all.len(),
            decreases self.motors@.len() - i,
        {
            assert(all[i as int] == self.motors@[i as int]@);
            if self.motors[i].accepts_frame(frame) {
                assert(found@.push(i).map_values(|i: usize| i as int) =~= found@.map_values(
                    |i: usize| i as int,
                ).push(i as int));
                found.push(i);
            }
            i = i + 1;
        }
        found
    }

    /// The frames that enable every motor.
    pub fn enable_all(&mut self) -> (res: Vec<CanFrame>)
        ensures
            told_all(old(self)@, final(self)@, MsgType::StartMotor, res@),
    {
        let mut frames: Vec<CanFrame> = Vec::new();
        let mut i: usize = 0;
        while i < self.motors.len()
            invariant
                i <= self@.len(),
                self@.len() == old(self)@.len(),
                self@.len() == self.motors@.len(),
                frames@.len() == i,
                forall|k: int|
                    0 <= k < i ==> (#[trigger] frames@[k])@ == motor::command(
                        old(self)@[k],
                        Priority::Ctrl,
                        MsgType::StartMotor,
                        protocol::empty_payload(),
                    ) && self@[k] == motor::sent(old(self)@[k]),
                forall|k: int| i <= k < self@.len() ==> #[trigger] self@[k] == old(self)@[k],
            decreases self.motors@.len() - i,
        {
            let ghost before = self@;
            let frame: CanFrame = self.motor_at(i).enable();
            assert(self@ == before.update(i as int, motor::sent(before[i as int])));
            frames.push(frame);
            i = i + 1;
        }
        frames
    }

    /// The frames that disable every motor.
    pub fn disable_all(&mut self) -> (res: Vec<CanFrame>)
        ensures
            told_all(old(self)@, final(self)@, MsgType::StopMotor, res@),
    {
        let mut frames: Vec<CanFrame> = Vec::new();
        let mut i: usize = 0;
        while i < self.motors.len()
            invariant
                i <= self@.len(),
                self@.len() == old(self)@.len(),
                self@.len() == self.motors@.len(),
                frames@.len() == i,
                forall|k: int|
                    0 <= k < i ==> (#[trigger] frames@[k])@ == motor::command(
                        old(self)@[k],
                        Priority::Ctrl,
                        MsgType::StopMotor,
                        protocol::empty_payload(),
                    ) && self@[k] == motor::sent(old(self)@[k]),
                forall|k: int| i <= k < self@.len() ==> #[trigger] self@[k] == old(self)@[k],
            decreases self.motors@.len() - i,
        {
            let ghost before = self@;
            let frame: CanFrame = self.motor_at(i).disable();
            assert(self@ == before.update(i as int, motor::sent(before[i as int])));
            frames.push(frame);
            i = i + 1;
        }
        frames
    }
}

proof fn lemma_first_motor_stays(motors: Seq<MotorView>, motor_id: u16, n: nat, m: nat)
    requires
        n <= m <= motors.len(),
        first_motor(motors, motor_id, n) is Some,
    ensures
        first_motor(motors, motor_id, m) == first_motor(motors, motor_id, n),
    decreases m,
{
    if n < m {
        lemma_first_motor_stays(motors, motor_id, n, (m - 1) as nat);
    }
}

proof fn lemma_no_motor(motors: Seq<MotorView>, motor_id: u16, n: nat)
    requires
        n <= motors.len(),
        first_motor(motors, motor_id, n) is None,
    ensures
        forall|i: int| 0 <= i < n ==> (#[trigger] motors[i]).motor_id != motor_id,
    decreases n,
{
    if n > 0 {
        lemma_no_motor(motors, motor_id, (n - 1) as nat);
    }
}

/// Adding motors never registers a node id twice.
pub proof fn law_node_ids_stay_distinct(motors: Seq<MotorView>, motor_id: u16, model: Seq<char>)
    requires
        distinct_ids(motors),
    ensures
        addition(motors, motor_id, model) matches Ok(motor) ==> distinct_ids(motors.push(motor)),
{
    if let Ok(motor) = addition(motors, motor_id, model) {
        lemma_no_motor(motors, motor_id, motors.len());
    }
}

/// A motor is connected only with a table that describes at least one endpoint and names the
/// length and version of the descriptor that was received; until then, and after a failure,
/// its table stays as it was.
pub proof fn law_connected_motors_have_a_table(
    motor: MotorView,
    transfer: DescriptorTransfer,
    now_ms: u64,
    res: ConnectStep,
)
    requires
        carries_out_connect(motor, transfer, now_ms, res),
    ensures
        ({
            let (_, after) = after_connect_step(motor, transfer, now_ms);
            &&& res is Ready ==> after.endpoint_map is Some
                && after.endpoint_map->0.entries.len() > 0 && Some(
                after.endpoint_map->0.total_len,
            ) == motor.json_desc.total_len
            &&& res is Ready && motor.json_desc.version_crc is Some ==> Some(
                after.endpoint_map->0.version_crc,
            ) == motor.json_desc.version_crc
            &&& res !is Ready ==> after.endpoint_map == motor.endpoint_map
        }),
{
}

/// A node id leads to the first motor that has it, and to nothing when no motor has it.
pub proof fn law_motors_are_found_by_their_id(motors: Seq<MotorView>, motor_id: u16)
    ensures
        match motor_position(motors, motor_id) {
            Some(i) => 0 <= i < motors.len() && motors[i].motor_id == motor_id && forall|k: int|
                0 <= k < i ==> (#[trigger] motors[k]).motor_id != motor_id,
            None => forall|k: int|
                0 <= k < motors.len() ==> (#[trigger] motors[k]).motor_id != motor_id,
        },
{
    lemma_first_motor(motors, motor_id, motors.len());
}

proof fn lemma_first_motor(motors: Seq<MotorView>, motor_id: u16, n: nat)
    requires
        n <= motors.len(),
    ensures
        match first_motor(motors, motor_id, n) {
            Some(i) => 0 <= i < n && motors[i].motor_id == motor_id && forall|k: int|
                0 <= k < i ==> (#[trigger] motors[k]).motor_id != motor_id,
            None => forall|k: int| 0 <= k < n ==> (#[trigger] motors[k]).motor_id != motor_id,
        },
    decreases n,
{
    if n > 0 {
        lemma_first_motor(motors, motor_id, (n - 1) as nat);
    }
}

/// A motor can be added exactly when its node id is free and its model is in the catalog; it is
/// then a new motor with this id and model.
pub proof fn law_free_ids_can_be_added(motors: Seq<MotorView>, motor_id: u16, model: Seq<char>)
    ensures
        addition(motors, motor_id, model) is Ok <==> (forall|k: int|
            0 <= k < motors.len() ==> (#[trigger] motors[k]).motor_id != motor_id)
            && crate::models::limits_of(model) is Some,
        addition(motors, motor_id, model) matches Ok(motor) ==> motor.motor_id == motor_id
            && motor.model == model && motor::new_motor(motor_id, model) == Ok::<
            MotorView,
            error::Fault,
        >(motor),
        addition(motors, motor_id, model) matches Err(fault) ==> fault.kind
            == error::ErrorKind::InvalidArgument,
{
    law_motors_are_found_by_their_id(motors, motor_id);
    motor::law_motors_start_with_the_defaults(motor_id, model);
    if let Some(i) = motor_position(motors, motor_id) {
        assert(motors[i].motor_id == motor_id);
    }
}

/// A frame is handed to exactly the motors that accept it, each once and in their order.
pub proof fn law_frames_are_handed_to_the_motors_they_concern(
    motors: Seq<MotorView>,
    frame: FrameView,
    n: nat,
)
    requires
        n <= motors.len(),
    ensures
        ({
            let found = accepting_among(motors, frame, n);
            &&& forall|k: int|
                0 <= k < found.len() ==> 0 <= #[trigger] found[k] < n && motor::accepted(
                    motors[found[k]].motor_id,
                    frame,
                )
            &&& forall|j: int, k: int|
                0 <= j < k < found.len() ==> #[trigger] found[j] < #[trigger] found[k]
            &&& forall|i: int|
                0 <= i < n && motor::accepted((#[trigger] motors[i]).motor_id, frame)
                    ==> found.contains(i)
        }),
    decreases n,
{
    if n > 0 {
        law_frames_are_handed_to_the_motors_they_concern(motors, frame, (n - 1) as nat);
        let before = accepting_among(motors, frame, (n - 1) as nat);
        let found = accepting_among(motors, frame, n);
        assert forall|i: int| 0 <= i < n && motor::accepted(
            (#[trigger] motors[i]).motor_id,
            frame,
        ) implies found.contains(i) by {
            if i < n - 1 {
                assert(before.contains(i));
                let k = choose|k: int| 0 <= k < before.len() && before[k] == i;
                assert(found[k] == i);
            } else {
                assert(found[found.len() - 1] == i);
            }
        }
    }
}

/// When all motors are told something, each is sent one frame with this message type, to its own
/// address and at the priority of a control message.
pub proof fn law_every_motor_is_told(
    before: Seq<MotorView>,
    after: Seq<MotorView>,
    msg_type: MsgType,
    frames: Seq<CanFrame>,
    i: int,
)
    requires
        told_all(before, after, msg_type, frames),
        0 <= i < before.len(),
    ensures
        frames.len() == before.len(),
        ({
            let parts = protocol::id_fields(frames[i]@.arbitration_id);
            &&& parts.msg_type == msg_type.number()
            &&& parts.dest == before[i].motor_id & 0xFF
            &&& parts.source == before[i].master_id
            &&& parts.priority == 3
            &&& frames[i]@.data == seq![0u8, 0, 0, 0, 0, 0, 0, 0]
        }),
{
    assert(frames[i]@ == motor::command(
        before[i],
        Priority::Ctrl,
        msg_type,
        protocol::empty_payload(),
    ));
    motor::law_commands_address_their_motor(
        before[i],
        Priority::Ctrl,
        msg_type,
        protocol::empty_payload(),
    );
    motor::law_addresses_are_the_low_byte(before[i].motor_id);
}

/// A motor that is connected asks for its table from the first byte on, with windows of 500 ms.
pub proof fn law_connecting_asks_for_the_table(
    before: Seq<MotorView>,
    after: Seq<MotorView>,
    added: Result<MotorView, error::Fault>,
    now_ms: u64,
    res: Result<(usize, DescriptorTransfer, CanFrame), MotorError>,
)
    requires
        connecting(before, after, added, now_ms, res),
        now_ms + 500 <= u64::MAX,
    ensures
        res is Ok <==> added is Ok,
        res is Err ==> after == before,
        res matches Ok((at, transfer, frame)) ==> at == before.len() && after.len() == before.len()
            + 1 && after.last().motor_id == added->Ok_0.motor_id && transfer.timeout_ms == 500
            && transfer.deadline_ms == now_ms + 200 && transfer.requests == 1 && transfer.stalled
            == 1 && transfer.retries == 0 && transfer.restarts == 0 && transfer.received == 0
            && transfer.motor_id == added->Ok_0.motor_id && protocol::id_fields(
            frame@.arbitration_id,
        ).msg_type == 0x24 && protocol::le32(frame@.data, 0) == 0,
{
    if let Ok(motor) = added {
        if let Ok((_, _, frame)) = res {
            motor::law_commands_address_their_motor(
                motor,
                Priority::Config,
                MsgType::JsonDescRead,
                frame@.data,
            );
        }
    }
}

} // verus!
