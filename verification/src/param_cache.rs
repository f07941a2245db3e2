//! Answers to parameter requests, and the rules for waiting for them.
//!
//! Frames arrive on their own, so a request and its answer meet here: the cache records
//! what arrived and when (milliseconds of the caller's clock), and the waits decide from it
//! whether a request is answered, has to be repeated or has failed.

use std::collections::HashMap;

use vstd::prelude::*;
use vstd::string::*;

use crate::descriptor;
use crate::error;
use crate::error::MotorError;
use crate::protocol;
use crate::protocol::{ParamReadResponse, ResponseView};
use crate::text;
use crate::text::{push_dec, push_hex};

verus! {

broadcast use vstd::std_specs::hash::group_hash_axioms;

/// Time to wait for a parameter answer when the caller gives none, in milliseconds.
pub const DEFAULT_PARAM_TIMEOUT_MS: u64 = 200;

/// Time after which an unanswered parameter request is repeated, in milliseconds.
pub const PARAM_RESEND_MS: u64 = 50;

/// Answers to parameter reads and writes, by endpoint id.
#[derive(Debug)]
pub struct ParamCache {
    /// Values of four-byte endpoints, as `float32` bit patterns.
    values: HashMap<u16, u32>,
    /// When the last answer of an endpoint was complete.
    reply_time: HashMap<u16, u64>,
    /// When the last write of an endpoint was acknowledged.
    write_ack_time: HashMap<u16, u64>,
    /// Shape of the last answer: number of bytes, whether more follow, and when.
    shapes: HashMap<u16, (u8, bool, u64)>,
    /// Little-endian value bytes of the last (possibly segmented) read.
    raw: HashMap<u16, Vec<u8>>,
    /// The endpoint that is being read, if any.
    pending_read: Option<u16>,
    /// The endpoint that is being written, if any.
    pending_write: Option<u16>,
}

/// The mathematical content of a [`ParamCache`].
#[verifier::ext_equal]
pub struct AnswersView {
    pub values: Map<u16, u32>,
    pub reply_time: Map<u16, u64>,
    pub write_ack_time: Map<u16, u64>,
    pub shapes: Map<u16, (u8, bool, u64)>,
    pub raw: Map<u16, Seq<u8>>,
    pub pending_read: Option<u16>,
    pub pending_write: Option<u16>,
}

impl View for ParamCache {
    type V = AnswersView;

    closed spec fn view(&self) -> AnswersView {
        AnswersView {
            values: self.values@,
            reply_time: self.reply_time@,
            write_ack_time: self.write_ack_time@,
            shapes: self.shapes@,
            raw: self.raw@.map_values(|bytes: Vec<u8>| bytes@),
            pending_read: self.pending_read,
            pending_write: self.pending_write,
        }
    }
}

/// A cache that holds no answer.
pub open spec fn no_answers() -> AnswersView {
    AnswersView {
        values: Map::empty(),
        reply_time: Map::empty(),
        write_ack_time: Map::empty(),
        shapes: Map::empty(),
        raw: Map::empty(),
        pending_read: None,
        pending_write: None,
    }
}

/// The cache when a read request for `offset` is sent.
///
/// Offset 0 starts a new read and drops everything the previous read of this endpoint
/// left behind; later offsets continue a segmented read.
pub open spec fn reading(cache: AnswersView, endpoint_id: u16, offset: u32) -> AnswersView {
    if offset == 0 {
        AnswersView {
            values: cache.values.remove(endpoint_id),
            reply_time: cache.reply_time.remove(endpoint_id),
            shapes: cache.shapes.remove(endpoint_id),
            raw: cache.raw.remove(endpoint_id),
            pending_read: Some(endpoint_id),
            ..cache
        }
    } else {
        AnswersView { pending_read: Some(endpoint_id), ..cache }
    }
}

/// The cache when a write request is sent: it is not acknowledged yet.
pub open spec fn writing(cache: AnswersView, endpoint_id: u16) -> AnswersView {
    AnswersView {
        write_ack_time: cache.write_ack_time.remove(endpoint_id),
        pending_write: Some(endpoint_id),
        ..cache
    }
}

/// The value bytes of an endpoint received so far.
pub open spec fn bytes_of(cache: AnswersView, endpoint_id: u16) -> Seq<u8> {
    if cache.raw.dom().contains(endpoint_id) {
        cache.raw[endpoint_id]
    } else {
        Seq::empty()
    }
}

/// The cache after a read response.
pub open spec fn after_response(
    cache: AnswersView,
    response: ResponseView,
    now_ms: u64,
) -> AnswersView {
    let id = response.endpoint_id;
    let shapes = cache.shapes.insert(id, (response.data_len, response.more, now_ms));
    let raw = cache.raw.insert(id, bytes_of(cache, id) + response.bytes);
    if response.more {
        AnswersView { shapes, raw, ..cache }
    } else {
        AnswersView {
            shapes,
            raw,
            reply_time: cache.reply_time.insert(id, now_ms),
            values: match response.float() {
                Some(value) => cache.values.insert(id, value),
                None => cache.values,
            },
            pending_read: None,
            ..cache
        }
    }
}

/// The cache after a write acknowledgement.
pub open spec fn after_ack(cache: AnswersView, endpoint_id: u16, now_ms: u64) -> AnswersView {
    AnswersView {
        write_ack_time: cache.write_ack_time.insert(endpoint_id, now_ms),
        pending_write: None,
        ..cache
    }
}

/// Whether something that happened at `then_ms` lies less than `timeout_ms` back.
pub open spec fn is_fresh(then_ms: u64, now_ms: u64, timeout_ms: u64) -> bool {
    then_ms + timeout_ms > now_ms
}

fn fresh(then_ms: u64, now_ms: u64, timeout_ms: u64) -> (res: bool)
    ensures
        res == is_fresh(then_ms, now_ms, timeout_ms),
{
    then_ms as u128 + timeout_ms as u128 > now_ms as u128
}

/// The answer to a read: the bytes received so far and whether more follow.
pub open spec fn answer(cache: AnswersView, endpoint_id: u16) -> Option<(Seq<u8>, bool)> {
    if cache.raw.dom().contains(endpoint_id) && cache.shapes.dom().contains(endpoint_id) {
        Some((cache.raw[endpoint_id], cache.shapes[endpoint_id].1))
    } else {
        None
    }
}

/// The value of a complete four-byte answer that is not older than `timeout_ms`.
pub open spec fn fresh_float(
    cache: AnswersView,
    endpoint_id: u16,
    now_ms: u64,
    timeout_ms: u64,
) -> Option<u32> {
    if cache.reply_time.dom().contains(endpoint_id) && is_fresh(
        cache.reply_time[endpoint_id],
        now_ms,
        timeout_ms,
    ) && cache.values.dom().contains(endpoint_id) {
        Some(cache.values[endpoint_id])
    } else {
        None
    }
}

/// Whether a write was acknowledged less than `timeout_ms` ago.
pub open spec fn freshly_acked(
    cache: AnswersView,
    endpoint_id: u16,
    now_ms: u64,
    timeout_ms: u64,
) -> bool {
    cache.write_ack_time.dom().contains(endpoint_id) && is_fresh(
        cache.write_ack_time[endpoint_id],
        now_ms,
        timeout_ms,
    )
}

/// The shape of the last answer of an endpoint, if that is no whole four-byte value: its
/// number of bytes, and whether more follow.
pub open spec fn other_shape(cache: AnswersView, endpoint_id: u16) -> Option<(u8, bool)> {
    if cache.shapes.dom().contains(endpoint_id) && (cache.shapes[endpoint_id].0 != 4
        || cache.shapes[endpoint_id].1) {
        Some((cache.shapes[endpoint_id].0, cache.shapes[endpoint_id].1))
    } else {
        None
    }
}

impl ParamCache {
    pub fn new() -> (res: Self)
        ensures
            res@ == no_answers(),
    {
        let res = ParamCache {
            values: HashMap::new(),
            reply_time: HashMap::new(),
            write_ack_time: HashMap::new(),
            shapes: HashMap::new(),
            raw: HashMap::new(),
            pending_read: None,
            pending_write: None,
        };
        assert(res@ =~= no_answers());
        res
    }

    /// Note that a read request for `offset` is being sent.
    pub fn begin_read(&mut self, endpoint_id: u16, offset: u32)
        ensures
            final(self)@ == reading(old(self)@, endpoint_id, offset),
    {
        self.pending_read = Some(endpoint_id);
        if offset == 0 {
            self.raw.remove(&endpoint_id);
            self.shapes.remove(&endpoint_id);
            self.values.remove(&endpoint_id);
            self.reply_time.remove(&endpoint_id);
        }
        assert(self@ =~= reading(old(self)@, endpoint_id, offset));
    }

    /// Note that a write request is being sent.
    pub fn begin_write(&mut self, endpoint_id: u16)
        ensures
            final(self)@ == writing(old(self)@, endpoint_id),
    {
        self.pending_write = Some(endpoint_id);
        self.write_ack_time.remove(&endpoint_id);
        assert(self@ =~= writing(old(self)@, endpoint_id));
    }

    /// Record a read response, assembling segmented values chunk by chunk.
    pub fn record_read_frame(&mut self, response: &ParamReadResponse, now_ms: u64)
        requires
            response.data_len <= 4,
        ensures
            final(self)@ == after_response(old(self)@, response@, now_ms),
    {
        let id: u16 = response.endpoint_id;
        self.shapes.insert(id, (response.data_len, response.more, now_ms));
        let mut bytes: Vec<u8> = match self.raw.remove(&id) {
            Some(bytes) => bytes,
            None => Vec::new(),
        };
        let ghost before = bytes@;
        assert(before == bytes_of(old(self)@, id));
        let len: usize = response.data_len as usize;
        let mut i: usize = 0;
        assert(before + response.raw@.subrange(0, 0) =~= before);
        while i < len
            invariant
                i <= len <= 4,
                bytes@ == before + response.raw@.subrange(0, i as int),
            decreases len - i,
        {
            bytes.push(response.raw[i]);
            assert(bytes@ =~= before + response.raw@.subrange(0, i + 1));
            i = i + 1;
        }
        self.raw.insert(id, bytes);
        if !response.more {
            self.reply_time.insert(id, now_ms);
            if let Some(value) = response.as_f32() {
                self.values.insert(id, value);
            }
            self.pending_read = None;
        }
        assert(self@ =~= after_response(old(self)@, response@, now_ms));
    }

    /// Record a write acknowledgement.
    pub fn record_write_ack(&mut self, endpoint_id: u16, now_ms: u64)
        ensures
            final(self)@ == after_ack(old(self)@, endpoint_id, now_ms),
    {
        self.write_ack_time.insert(endpoint_id, now_ms);
        self.pending_write = None;
        assert(self@ =~= after_ack(old(self)@, endpoint_id, now_ms));
    }

    /// The bytes received so far for a read, and whether more follow.
    pub fn read_answer(&self, endpoint_id: u16) -> (res: Option<(&Vec<u8>, bool)>)
        ensures
            match res {
                Some((bytes, more)) => answer(self@, endpoint_id) == Some((bytes@, more)),
                None => answer(self@, endpoint_id) is None,
            },
    {
        match self.raw.get(&endpoint_id) {
            Some(bytes) => match self.shapes.get(&endpoint_id) {
                Some(shape) => Some((bytes, shape.1)),
                None => None,
            },
            None => None,
        }
    }

    /// The value of a complete four-byte answer that is not older than `timeout_ms`.
    pub fn fresh_value(&self, endpoint_id: u16, now_ms: u64, timeout_ms: u64) -> (res: Option<u32>)
        ensures
            res == fresh_float(self@, endpoint_id, now_ms, timeout_ms),
    {
        match self.reply_time.get(&endpoint_id) {
            Some(at) => if fresh(*at, now_ms, timeout_ms) {
                match self.values.get(&endpoint_id) {
                    Some(value) => Some(*value),
                    None => None,
                }
            } else {
                None
            },
            None => None,
        }
    }

    /// Whether a write was acknowledged less than `timeout_ms` ago.
    pub fn write_acked(&self, endpoint_id: u16, now_ms: u64, timeout_ms: u64) -> (res: bool)
        ensures
            res == freshly_acked(self@, endpoint_id, now_ms, timeout_ms),
    {
        match self.write_ack_time.get(&endpoint_id) {
            Some(at) => fresh(*at, now_ms, timeout_ms),
            None => false,
        }
    }

    /// The shape of the last answer of an endpoint, if that is no whole four-byte value.
    pub fn unfit_shape(&self, endpoint_id: u16) -> (res: Option<(u8, bool)>)
        ensures
            res == other_shape(self@, endpoint_id),
    {
        match self.shapes.get(&endpoint_id) {
            Some(shape) => if shape.0 != 4 || shape.1 {
                Some((shape.0, shape.1))
            } else {
                None
            },
            None => None,
        }
    }
}

/// The error for a read that was not answered in time.
pub open spec fn read_timeout(endpoint_id: u16) -> error::Fault {
    error::timed_out("timeout waiting for param read 0x"@ + text::hex(endpoint_id as nat, 4))
}

/// The error for a write that was not acknowledged in time.
pub open spec fn write_timeout(endpoint_id: u16) -> error::Fault {
    error::timed_out("timeout waiting for param write ack 0x"@ + text::hex(endpoint_id as nat, 4))
}

/// The error for an endpoint that answers, but not with a whole four-byte value.
pub open spec fn not_a_float(endpoint_id: u16, data_len: u8, more: bool) -> error::Fault {
    error::unsupported(
        "endpoint 0x"@ + text::hex(endpoint_id as nat, 4) + " answered with "@ + text::dec(
            data_len as nat,
        ) + " byte(s)"@ + (if more {
            " and the More flag set (segmented value)"@
        } else {
            ""@
        })
            + "; get_param_f32 handles 4-byte float32 endpoints only (use read_param_raw for other widths)"@,
    )
}

fn read_timeout_error(endpoint_id: u16) -> (res: MotorError)
    ensures
        res@ == read_timeout(endpoint_id),
{
    let mut message: String = "timeout waiting for param read 0x".to_owned();
    push_hex(&mut message, endpoint_id as u64, 4);
    MotorError::Timeout(message)
}

/// What waiting for an answer comes to.
#[derive(Debug)]
pub enum WaitStep {
    /// Nothing yet: wait for frames.
    Wait,
    /// Send this read request again, or the next one of a segmented value.
    Request(u32),
    /// The answer: the bytes of a value, none for an acknowledged write.
    Done(Vec<u8>),
    /// There will be no answer.
    Failed(MotorError),
}

/// The mathematical content of a [`WaitStep`].
pub enum WaitView {
    Wait,
    Request(u32),
    Done(Seq<u8>),
    Failed(error::Fault),
}

impl View for WaitStep {
    type V = WaitView;

    open spec fn view(&self) -> WaitView {
        match *self {
            WaitStep::Wait => WaitView::Wait,
            WaitStep::Request(offset) => WaitView::Request(offset),
            WaitStep::Done(bytes) => WaitView::Done(bytes@),
            WaitStep::Failed(err) => WaitView::Failed(err@),
        }
    }
}

/// A read of any width: follows the More flag and repeats unanswered requests.
#[derive(Debug, Clone, Copy, PartialEq, Eq, Structural)]
pub struct ParamRead {
    pub endpoint_id: u16,
    /// When the read fails.
    pub deadline_ms: u64,
    /// Offset of the last request.
    pub offset: u64,
    /// When that request is repeated if nothing has answered it.
    pub resend_ms: u64,
    /// Requests repeated so far.
    pub resent: u32,
}

/// A read whose first request, for offset zero, has just been sent.
pub open spec fn new_read(endpoint_id: u16, timeout_ms: u64, now_ms: u64) -> ParamRead {
    ParamRead {
        endpoint_id,
        deadline_ms: descriptor::window_end(now_ms, timeout_ms),
        offset: 0,
        resend_ms: descriptor::window_end(now_ms, PARAM_RESEND_MS),
        resent: 0,
    }
}

/// What a read does next.
///
/// A value is complete when a response says that nothing follows. Bytes that arrived since
/// the last request are followed by a request for the next offset. A request is repeated
/// only while nothing has answered it: a response does not name its offset, so a second
/// answer to the same request could not be told from the next one.
pub open spec fn read_step(read: ParamRead, cache: AnswersView, now_ms: u64) -> (
    ParamRead,
    WaitView,
) {
    match answer(cache, read.endpoint_id) {
        Some((bytes, more)) => if !more {
            (read, WaitView::Done(bytes))
        } else if bytes.len() > read.offset {
            (
                ParamRead {
                    offset: bytes.len() as u64,
                    resend_ms: descriptor::window_end(now_ms, PARAM_RESEND_MS),
                    ..read
                },
                WaitView::Request(bytes.len() as u32),
            )
        } else {
            idle_step(read, read.offset > 0, now_ms)
        },
        None => idle_step(read, true, now_ms),
    }
}

/// What a read does while nothing new has arrived.
pub open spec fn idle_step(read: ParamRead, unanswered: bool, now_ms: u64) -> (
    ParamRead,
    WaitView,
) {
    if now_ms > read.deadline_ms {
        (read, WaitView::Failed(read_timeout(read.endpoint_id)))
    } else if now_ms >= read.resend_ms && unanswered {
        (
            ParamRead {
                resend_ms: descriptor::window_end(now_ms, PARAM_RESEND_MS),
                resent: descriptor::counted(read.resent),
                ..read
            },
            WaitView::Request(read.offset as u32),
        )
    } else {
        (read, WaitView::Wait)
    }
}

fn copy_bytes(bytes: &Vec<u8>) -> (res: Vec<u8>)
    ensures
        res@ == bytes@,
{
    let mut out: Vec<u8> = Vec::new();
    let mut i: usize = 0;
    while i < bytes.len()
        invariant
            i <= bytes@.len(),
            out@ == bytes@.take(i as int),
        decreases bytes@.len() - i,
    {
        out.push(bytes[i]);
        i = i + 1;
    }
    assert(out@ =~= bytes@);
    out
}

impl ParamRead {
    /// A read whose first request, for offset zero, has just been sent.
    pub fn start(endpoint_id: u16, timeout_ms: u64, now_ms: u64) -> (res: Self)
        ensures
            res == new_read(endpoint_id, timeout_ms, now_ms),
    {
        ParamRead {
            endpoint_id,
            deadline_ms: descriptor::end_of_window(now_ms, timeout_ms),
            offset: 0,
            resend_ms: descriptor::end_of_window(now_ms, PARAM_RESEND_MS),
            resent: 0,
        }
    }

    /// Decide what to do next.
    pub fn step(&mut self, cache: &ParamCache, now_ms: u64) -> (res: WaitStep)
        ensures
            (*final(self), res@) == read_step(*old(self), cache@, now_ms),
    {
        let mut unanswered: bool = true;
        if let Some((bytes, more)) = cache.read_answer(self.endpoint_id) {
            if !more {
                return WaitStep::Done(copy_bytes(bytes));
            }
            let have: usize = bytes.len();
            if have as u64 > self.offset {
                self.offset = have as u64;
                self.resend_ms = descriptor::end_of_window(now_ms, PARAM_RESEND_MS);
                return WaitStep::Request(have as u32);
            }
            unanswered = self.offset > 0;
        }
        if now_ms > self.deadline_ms {
            return WaitStep::Failed(read_timeout_error(self.endpoint_id));
        }
        if now_ms >= self.resend_ms && unanswered {
            self.resend_ms = descriptor::end_of_window(now_ms, PARAM_RESEND_MS);
            if self.resent < u32::MAX {
                self.resent = self.resent + 1;
            }
            return WaitStep::Request(self.offset as u32);
        }
        WaitStep::Wait
    }
}

/// A wait for the value of a four-byte endpoint that has already been requested.
#[derive(Debug, Clone, Copy, PartialEq, Eq, Structural)]
pub struct FloatWait {
    pub endpoint_id: u16,
    /// When the wait began; the answer may have arrived before.
    pub since_ms: u64,
    /// How long the wait lasts, and how old a value may be.
    pub timeout_ms: u64,
}

/// What waiting for a float comes to.
#[derive(Debug)]
pub enum FloatStep {
    /// Nothing yet: wait for frames.
    Wait,
    /// The value, as a `float32` bit pattern.
    Done(u32),
    /// There will be no value.
    Failed(MotorError),
}

/// The mathematical content of a [`FloatStep`].
pub enum FloatStepView {
    Wait,
    Done(u32),
    Failed(error::Fault),
}

impl View for FloatStep {
    type V = FloatStepView;

    open spec fn view(&self) -> FloatStepView {
        match *self {
            FloatStep::Wait => FloatStepView::Wait,
            FloatStep::Done(value) => FloatStepView::Done(value),
            FloatStep::Failed(err) => FloatStepView::Failed(err@),
        }
    }
}

/// What waiting for a float comes to: a timeout, unless the endpoint has answered the last
/// request with something else, which is then reported.
pub open spec fn float_step(wait: FloatWait, cache: AnswersView, now_ms: u64) -> FloatStepView {
    match fresh_float(cache, wait.endpoint_id, now_ms, wait.timeout_ms) {
        Some(value) => FloatStepView::Done(value),
        None => if now_ms <= descriptor::window_end(wait.since_ms, wait.timeout_ms) {
            FloatStepView::Wait
        } else {
            FloatStepView::Failed(
                match other_shape(cache, wait.endpoint_id) {
                    Some((data_len, more)) => not_a_float(wait.endpoint_id, data_len, more),
                    None => read_timeout(wait.endpoint_id),
                },
            )
        },
    }
}

impl FloatWait {
    /// Decide whether the value is there.
    pub fn step(&self, cache: &ParamCache, now_ms: u64) -> (res: FloatStep)
        ensures
            res@ == float_step(*self, cache@, now_ms),
    {
        if let Some(value) = cache.fresh_value(self.endpoint_id, now_ms, self.timeout_ms) {
            return FloatStep::Done(value);
        }
        if now_ms <= descriptor::end_of_window(self.since_ms, self.timeout_ms) {
            return FloatStep::Wait;
        }
        match cache.unfit_shape(self.endpoint_id) {
            Some((data_len, more)) => {
                let mut message: String = "endpoint 0x".to_owned();
                push_hex(&mut message, self.endpoint_id as u64, 4);
                message.append(" answered with ");
                push_dec(&mut message, data_len as u64);
                message.append(" byte(s)");
                message.append(
                    if more {
                        " and the More flag set (segmented value)"
                    } else {
                        ""
                    },
                );
                message.append(
                    "; get_param_f32 handles 4-byte float32 endpoints only (use read_param_raw for other widths)",
                );
                FloatStep::Failed(MotorError::Unsupported(message))
            },
            None => FloatStep::Failed(read_timeout_error(self.endpoint_id)),
        }
    }
}

/// A wait for the acknowledgement of a write.
#[derive(Debug, Clone, Copy, PartialEq, Eq, Structural)]
pub struct AckWait {
    pub endpoint_id: u16,
    /// When the wait began.
    pub since_ms: u64,
    /// How long the wait lasts, and how old an acknowledgement may be.
    pub timeout_ms: u64,
}

/// What waiting for an acknowledgement comes to.
pub open spec fn ack_step(wait: AckWait, cache: AnswersView, now_ms: u64) -> WaitView {
    if freshly_acked(cache, wait.endpoint_id, now_ms, wait.timeout_ms) {
        WaitView::Done(Seq::empty())
    } else if now_ms <= descriptor::window_end(wait.since_ms, wait.timeout_ms) {
        WaitView::Wait
    } else {
        WaitView::Failed(write_timeout(wait.endpoint_id))
    }
}

impl AckWait {
    /// Decide whether the write is acknowledged.
    pub fn step(&self, cache: &ParamCache, now_ms: u64) -> (res: WaitStep)
        ensures
            res@ == ack_step(*self, cache@, now_ms),
    {
        if cache.write_acked(self.endpoint_id, now_ms, self.timeout_ms) {
            return WaitStep::Done(Vec::new());
        }
        if now_ms <= descriptor::end_of_window(self.since_ms, self.timeout_ms) {
            return WaitStep::Wait;
        }
        let mut message: String = "timeout waiting for param write ack 0x".to_owned();
        push_hex(&mut message, self.endpoint_id as u64, 4);
        WaitStep::Failed(MotorError::Timeout(message))
    }
}

/// A new read of an endpoint is never answered by an earlier read of it, and it leaves the
/// answers of all other endpoints alone.
pub proof fn law_fresh_reads_forget_the_past(
    cache: AnswersView,
    endpoint_id: u16,
    other: u16,
    wait: FloatWait,
    read: ParamRead,
    now_ms: u64,
)
    requires
        other != endpoint_id,
        wait.endpoint_id == endpoint_id,
        read.endpoint_id == endpoint_id,
    ensures
        ({
            let after = reading(cache, endpoint_id, 0);
            &&& answer(after, endpoint_id) is None
            &&& float_step(wait, after, now_ms) !is Done
            &&& read_step(read, after, now_ms).1 !is Done
            &&& answer(after, other) == answer(cache, other)
            &&& fresh_float(after, other, now_ms, wait.timeout_ms) == fresh_float(
                cache,
                other,
                now_ms,
                wait.timeout_ms,
            )
            &&& after.write_ack_time == cache.write_ack_time
        }),
{
}

/// An endpoint that answers a request with another width, or with a segmented value, is
/// reported as such, with what was observed, however early the answer came; and it is never
/// taken for a timeout.
pub proof fn law_other_widths_are_reported(
    cache: AnswersView,
    response: ResponseView,
    at_ms: u64,
    wait: FloatWait,
    now_ms: u64,
)
    requires
        response.endpoint_id == wait.endpoint_id,
        response.data_len != 4 || response.more,
        now_ms > wait.since_ms + wait.timeout_ms,
    ensures
        float_step(
            wait,
            after_response(reading(cache, wait.endpoint_id, 0), response, at_ms),
            now_ms,
        ) == FloatStepView::Failed(
            not_a_float(wait.endpoint_id, response.data_len, response.more),
        ),
{
}

/// A new write is never acknowledged by the acknowledgement of an earlier one.
pub proof fn law_fresh_writes_are_not_acknowledged(
    cache: AnswersView,
    wait: AckWait,
    now_ms: u64,
)
    ensures
        ack_step(wait, writing(cache, wait.endpoint_id), now_ms) !is Done,
{
}

/// An acknowledged write is seen as such for the whole timeout.
pub proof fn law_acknowledged_writes_succeed(
    cache: AnswersView,
    wait: AckWait,
    acked_ms: u64,
    now_ms: u64,
)
    requires
        acked_ms <= now_ms < acked_ms + wait.timeout_ms,
    ensures
        ack_step(wait, after_ack(cache, wait.endpoint_id, acked_ms), now_ms) is Done,
{
}

/// The cache after a sequence of responses, each with the time at which it arrived.
pub open spec fn after_responses(
    cache: AnswersView,
    responses: Seq<(ResponseView, u64)>,
) -> AnswersView
    decreases responses.len(),
{
    if responses.len() == 0 {
        cache
    } else {
        let (response, at_ms) = responses.last();
        after_response(after_responses(cache, responses.drop_last()), response, at_ms)
    }
}

/// The bytes of a sequence of responses, one after the other.
pub open spec fn joined_bytes(responses: Seq<(ResponseView, u64)>) -> Seq<u8>
    decreases responses.len(),
{
    if responses.len() == 0 {
        Seq::empty()
    } else {
        joined_bytes(responses.drop_last()) + responses.last().0.bytes
    }
}

/// Whether all responses are those of one endpoint.
pub open spec fn all_of(responses: Seq<(ResponseView, u64)>, endpoint_id: u16) -> bool {
    forall|i: int|
        0 <= i < responses.len() ==> (#[trigger] responses[i]).0.endpoint_id == endpoint_id
}

/// A segmented read gives the bytes of its responses one after the other, and is complete
/// exactly when the last of them says that nothing follows.
pub proof fn law_segments_are_joined(
    cache: AnswersView,
    responses: Seq<(ResponseView, u64)>,
    read: ParamRead,
    now_ms: u64,
)
    requires
        responses.len() > 0,
        all_of(responses, read.endpoint_id),
    ensures
        ({
            let after = after_responses(reading(cache, read.endpoint_id, 0), responses);
            let step = read_step(read, after, now_ms).1;
            let more = responses.last().0.more;
            &&& answer(after, read.endpoint_id) == Some((joined_bytes(responses), more))
            &&& !more ==> step == WaitView::Done(joined_bytes(responses))
            &&& more ==> step !is Done
        }),
{
    lemma_segments_are_joined(reading(cache, read.endpoint_id, 0), read.endpoint_id, responses);
}

proof fn lemma_segments_are_joined(
    cache: AnswersView,
    endpoint_id: u16,
    responses: Seq<(ResponseView, u64)>,
)
    requires
        !cache.raw.dom().contains(endpoint_id),
        all_of(responses, endpoint_id),
    ensures
        ({
            let after = after_responses(cache, responses);
            &&& bytes_of(after, endpoint_id) == joined_bytes(responses)
            &&& responses.len() > 0 ==> answer(after, endpoint_id) == Some(
                (joined_bytes(responses), responses.last().0.more),
            )
        }),
    decreases responses.len(),
{
    if responses.len() > 0 {
        let before = responses.drop_last();
        assert forall|i: int| 0 <= i < before.len() implies (#[trigger] before[i]).0.endpoint_id
            == endpoint_id by {
            assert(before[i] == responses[i]);
        }
        lemma_segments_are_joined(cache, endpoint_id, before);
        assert(responses[responses.len() - 1].0.endpoint_id == endpoint_id);
    }
}

/// A whole four-byte answer ends the wait for a float with its value, lowest byte first, as long
/// as it is not older than the timeout; an older one does not.
pub proof fn law_whole_answers_end_the_wait_for_a_float(
    cache: AnswersView,
    response: ResponseView,
    at_ms: u64,
    wait: FloatWait,
    now_ms: u64,
)
    requires
        response.endpoint_id == wait.endpoint_id,
        response.data_len == 4,
        response.bytes.len() == 4,
        !response.more,
    ensures
        ({
            let after = after_response(cache, response, at_ms);
            let step = float_step(wait, after, now_ms);
            let bytes = response.bytes;
            &&& now_ms < at_ms + wait.timeout_ms ==> step == FloatStepView::Done(
                ((bytes[3] as u32) << 24) | ((bytes[2] as u32) << 16) | ((bytes[1] as u32) << 8)
                    | bytes[0] as u32,
            )
            &&& now_ms >= at_ms + wait.timeout_ms ==> step !is Done
        }),
{
    protocol::law_whole_four_byte_answers_are_floats(response);
}

/// While nothing has answered it, a wait for a float goes on until its timeout is over and then
/// fails as a timeout.
pub proof fn law_silent_endpoints_time_out(
    cache: AnswersView,
    wait: FloatWait,
    acked: AckWait,
    now_ms: u64,
)
    ensures
        ({
            let step = float_step(wait, reading(cache, wait.endpoint_id, 0), now_ms);
            &&& step is Wait <==> now_ms <= wait.since_ms + wait.timeout_ms
            &&& step is Failed <==> now_ms > wait.since_ms + wait.timeout_ms
            &&& step matches FloatStepView::Failed(fault) ==> fault.kind
                == error::ErrorKind::Timeout
        }),
        ({
            let step = ack_step(acked, writing(cache, acked.endpoint_id), now_ms);
            &&& step is Wait <==> now_ms <= acked.since_ms + acked.timeout_ms
            &&& step is Failed <==> now_ms > acked.since_ms + acked.timeout_ms
            &&& step matches WaitView::Failed(fault) ==> fault.kind == error::ErrorKind::Timeout
        }),
{
}

/// An acknowledgement that is older than the timeout does not count any more.
pub proof fn law_old_acknowledgements_do_not_count(
    cache: AnswersView,
    wait: AckWait,
    acked_ms: u64,
    now_ms: u64,
)
    requires
        now_ms >= acked_ms + wait.timeout_ms,
    ensures
        ack_step(wait, after_ack(cache, wait.endpoint_id, acked_ms), now_ms) !is Done,
{
}

/// An answer and an acknowledgement concern their own endpoint only, and an acknowledgement is no
/// answer.
pub proof fn law_answers_concern_their_own_endpoint(
    cache: AnswersView,
    response: ResponseView,
    endpoint_id: u16,
    other: u16,
    at_ms: u64,
    now_ms: u64,
    timeout_ms: u64,
)
    requires
        other != response.endpoint_id,
        other != endpoint_id,
    ensures
        ({
            let answered = after_response(cache, response, at_ms);
            let acked = after_ack(cache, endpoint_id, at_ms);
            let written = writing(cache, endpoint_id);
            &&& answer(answered, other) == answer(cache, other)
            &&& fresh_float(answered, other, now_ms, timeout_ms) == fresh_float(
                cache,
                other,
                now_ms,
                timeout_ms,
            )
            &&& other_shape(answered, other) == other_shape(cache, other)
            &&& freshly_acked(answered, endpoint_id, now_ms, timeout_ms) == freshly_acked(
                cache,
                endpoint_id,
                now_ms,
                timeout_ms,
            )
            &&& freshly_acked(acked, other, now_ms, timeout_ms) == freshly_acked(
                cache,
                other,
                now_ms,
                timeout_ms,
            )
            &&& freshly_acked(written, other, now_ms, timeout_ms) == freshly_acked(
                cache,
                other,
                now_ms,
                timeout_ms,
            )
            &&& answer(acked, endpoint_id) == answer(cache, endpoint_id)
            &&& answer(written, endpoint_id) == answer(cache, endpoint_id)
        }),
{
}

/// A request for a later offset keeps what has arrived, so a segmented read goes on.
pub proof fn law_later_requests_keep_the_answer(cache: AnswersView, endpoint_id: u16, offset: u32)
    requires
        offset > 0,
    ensures
        answer(reading(cache, endpoint_id, offset), endpoint_id) == answer(cache, endpoint_id),
{
}

/// A read starts at offset zero, fails when its timeout is over, and repeats its request 50 ms
/// after it was sent.
pub proof fn law_reads_start_at_the_first_byte(endpoint_id: u16, timeout_ms: u64, now_ms: u64)
    requires
        now_ms + timeout_ms <= u64::MAX,
        now_ms + 50 <= u64::MAX,
    ensures
        ({
            let read = new_read(endpoint_id, timeout_ms, now_ms);
            &&& read.endpoint_id == endpoint_id
            &&& read.offset == 0
            &&& read.deadline_ms == now_ms + timeout_ms
            &&& read.resend_ms == now_ms + 50
            &&& read.resent == 0
        }),
{
}

/// A read that nothing has answered fails once its time is over, repeats its request for the
/// same offset when that is due, and waits otherwise; a repeated request is due again 50 ms
/// later.
pub proof fn law_unanswered_requests_are_repeated(read: ParamRead, cache: AnswersView, now_ms: u64)
    requires
        answer(cache, read.endpoint_id) is None,
        read.offset <= u32::MAX,
        read.resent < u32::MAX,
        now_ms + 50 <= u64::MAX,
    ensures
        ({
            let (next, step) = read_step(read, cache, now_ms);
            &&& step is Failed <==> now_ms > read.deadline_ms
            &&& step is Request <==> now_ms <= read.deadline_ms && now_ms >= read.resend_ms
            &&& step is Wait <==> now_ms <= read.deadline_ms && now_ms < read.resend_ms
            &&& step matches WaitView::Request(offset) ==> offset == read.offset
            &&& step matches WaitView::Failed(fault) ==> fault.kind == error::ErrorKind::Timeout
            &&& step is Request ==> next == (ParamRead {
                resend_ms: (now_ms + 50) as u64,
                resent: (read.resent + 1) as u32,
                ..read
            })
            &&& step !is Request ==> next == read
        }),
{
}

/// A segment that says that more follows is answered by a request for the byte behind it, which
/// is due again 50 ms later.
pub proof fn law_segments_are_asked_for_in_order(
    read: ParamRead,
    cache: AnswersView,
    now_ms: u64,
    bytes: Seq<u8>,
)
    requires
        answer(cache, read.endpoint_id) == Some((bytes, true)),
        read.offset < bytes.len() <= u32::MAX,
        now_ms + 50 <= u64::MAX,
    ensures
        ({
            let (next, step) = read_step(read, cache, now_ms);
            &&& step == WaitView::Request(bytes.len() as u32)
            &&& next.offset == bytes.len()
            &&& next.resend_ms == now_ms + 50
            &&& next.deadline_ms == read.deadline_ms && next.resent == read.resent
        }),
{
}

/// A request marks its endpoint as pending until a whole answer, or an acknowledgement, arrives; a
/// segment does not end the read.
pub proof fn law_requests_are_pending_until_answered(
    cache: AnswersView,
    endpoint_id: u16,
    offset: u32,
    response: ResponseView,
    now_ms: u64,
)
    ensures
        reading(cache, endpoint_id, offset).pending_read == Some(endpoint_id),
        reading(cache, endpoint_id, offset).pending_write == cache.pending_write,
        writing(cache, endpoint_id).pending_write == Some(endpoint_id),
        writing(cache, endpoint_id).pending_read == cache.pending_read,
        after_ack(cache, endpoint_id, now_ms).pending_write is None,
        after_response(cache, response, now_ms).pending_read == if response.more {
            cache.pending_read
        } else {
            None
        },
        after_response(cache, response, now_ms).pending_write == cache.pending_write,
{
}

/// A new cache knows no answer and no acknowledgement of any endpoint.
pub proof fn law_new_caches_know_nothing(endpoint_id: u16, now_ms: u64, timeout_ms: u64)
    ensures
        answer(no_answers(), endpoint_id) is None,
        fresh_float(no_answers(), endpoint_id, now_ms, timeout_ms) is None,
        !freshly_acked(no_answers(), endpoint_id, now_ms, timeout_ms),
        other_shape(no_answers(), endpoint_id) is None,
{
}

} // verus!
