//! Transfer of the JSON endpoint descriptor.
//!
//! The device answers a descriptor request with one metadata frame and a burst of data
//! frames of six text bytes each. Frames can be lost, and nothing but the length in the
//! metadata frame tells so. [`JsonDescCache`] therefore keeps only the bytes that follow
//! each other from offset zero, and [`DescriptorTransfer`] decides when to ask again, when
//! the descriptor is complete and when to give up.

use vstd::prelude::*;
use vstd::string::*;

use crate::endpoint_map;
use crate::endpoint_map::{EndpointMap, MapView};
use crate::error;
use crate::error::MotorError;
use crate::protocol;
use crate::protocol::{
    decode_json_desc_chunk, decode_json_desc_meta, JSON_DESC_MAX_BYTES, JSON_DESC_MAX_LEN,
};
use crate::text;
use crate::text::{push_dec, push_hex};

verus! {

/// Upper bound on the requests of one descriptor transfer.
pub const MAX_JSON_DESC_REQUESTS: u32 = 64;

/// How often a request is repeated while no metadata frame has arrived.
pub const MAX_METADATA_RETRIES: u32 = 4;

/// Quiet window while no metadata frame has arrived, in milliseconds.
pub const METADATA_WINDOW_MS: u64 = 200;

/// How often a transfer starts again after two different metadata frames.
pub const MAX_DESCRIPTOR_RESTARTS: u32 = 2;

/// How many requests for one offset may bring no byte before the transfer fails.
pub const MAX_STALLED_REQUESTS: u32 = 3;

/// Accumulates a JSON endpoint descriptor transfer.
#[derive(Debug)]
pub struct JsonDescCache {
    /// `TotalLength` from the metadata frame, once seen.
    total_len: Option<u32>,
    /// `VersionCRC` from the metadata frame, once seen.
    version_crc: Option<u16>,
    /// The descriptor bytes from offset zero on, without a hole.
    bytes: Vec<u8>,
    /// Data frames dropped because bytes before them are missing.
    gap_frames: u32,
    /// Data frames dropped because their place is already filled, or is none.
    stale_frames: u32,
    /// Whether two different metadata frames were seen.
    conflict: bool,
    /// A `TotalLength` that no transfer can deliver.
    oversize: Option<u32>,
}

/// The mathematical content of a [`JsonDescCache`].
#[verifier::ext_equal]
pub struct CacheView {
    pub total_len: Option<u32>,
    pub version_crc: Option<u16>,
    pub bytes: Seq<u8>,
    pub gap_frames: u32,
    pub stale_frames: u32,
    pub conflict: bool,
    pub oversize: Option<u32>,
}

impl View for JsonDescCache {
    type V = CacheView;

    closed spec fn view(&self) -> CacheView {
        CacheView {
            total_len: self.total_len,
            version_crc: self.version_crc,
            bytes: self.bytes@,
            gap_frames: self.gap_frames,
            stale_frames: self.stale_frames,
            conflict: self.conflict,
            oversize: self.oversize,
        }
    }
}

/// The state in which a transfer starts.
pub open spec fn fresh() -> CacheView {
    CacheView {
        total_len: None,
        version_crc: None,
        bytes: Seq::empty(),
        gap_frames: 0,
        stale_frames: 0,
        conflict: false,
        oversize: None,
    }
}

/// A count that stays at its largest value.
pub open spec fn counted(n: u32) -> u32 {
    if n < u32::MAX {
        (n + 1) as u32
    } else {
        n
    }
}

/// The state after a metadata frame.
///
/// The first one fixes the length; the device repeats it after every request, and a
/// repetition changes nothing. A different one shows that two transfers got mixed up. The
/// bytes stay in any case.
pub open spec fn after_metadata(cache: CacheView, total_len: u32, version_crc: u16) -> CacheView {
    if total_len > JSON_DESC_MAX_LEN {
        CacheView { oversize: Some(total_len), ..cache }
    } else if cache.total_len is None {
        CacheView { total_len: Some(total_len), version_crc: Some(version_crc), ..cache }
    } else if cache.total_len != Some(total_len) || cache.version_crc != Some(version_crc) {
        CacheView { conflict: true, ..cache }
    } else {
        cache
    }
}

/// Whether a data frame is used: its bytes continue those at hand and there is room for them.
pub open spec fn continues(cache: CacheView, offset: u16, chunk: Seq<u8>) -> bool {
    offset == cache.bytes.len() && cache.bytes.len() + chunk.len() <= JSON_DESC_MAX_BYTES
}

/// The state after a data frame: the bytes are kept if they continue what is there.
pub open spec fn after_chunk(cache: CacheView, offset: u16, chunk: Seq<u8>) -> CacheView {
    if offset > cache.bytes.len() {
        CacheView { gap_frames: counted(cache.gap_frames), ..cache }
    } else if !continues(cache, offset, chunk) {
        CacheView { stale_frames: counted(cache.stale_frames), ..cache }
    } else {
        CacheView { bytes: cache.bytes + chunk, ..cache }
    }
}

/// The state after a payload, and whether the payload was used.
pub open spec fn after_frame(cache: CacheView, data: Seq<u8>) -> (CacheView, bool) {
    match protocol::json_desc_meta_in(data) {
        Some((total_len, version_crc)) => (after_metadata(cache, total_len, version_crc), true),
        None => match protocol::json_desc_chunk_in(data) {
            Some((offset, chunk)) => (
                after_chunk(cache, offset, chunk),
                continues(cache, offset, chunk),
            ),
            None => (cache, false),
        },
    }
}

impl JsonDescCache {
    /// Start a new transfer.
    pub fn reset(&mut self)
        ensures
            final(self)@ == fresh(),
    {
        self.total_len = None;
        self.version_crc = None;
        self.bytes.clear();
        self.gap_frames = 0;
        self.stale_frames = 0;
        self.conflict = false;
        self.oversize = None;
        assert(self@ =~= fresh());
    }

    /// `TotalLength` from the metadata frame, once seen.
    pub fn total_len(&self) -> (res: Option<u32>)
        ensures
            res == self@.total_len,
    {
        self.total_len
    }

    /// `VersionCRC` from the metadata frame, once seen.
    pub fn version_crc(&self) -> (res: Option<u16>)
        ensures
            res == self@.version_crc,
    {
        self.version_crc
    }

    /// The descriptor bytes received so far, from offset zero on.
    pub fn bytes(&self) -> (res: &[u8])
        ensures
            res@ == self@.bytes,
    {
        self.bytes.as_slice()
    }

    /// Record one response frame; returns `true` when the frame was used.
    ///
    /// A data frame that does not continue the bytes at hand is dropped: asking again for
    /// the first missing byte makes the device start over from there.
    pub fn record(&mut self, data: &[u8]) -> (res: bool)
        ensures
            (final(self)@, res) == after_frame(old(self)@, data@),
    {
        if let Some((total_len, version_crc)) = decode_json_desc_meta(data) {
            self.record_metadata(total_len, version_crc);
            return true;
        }
        match decode_json_desc_chunk(data) {
            Some(offset) => self.record_chunk(offset, data),
            None => false,
        }
    }

    fn record_metadata(&mut self, total_len: u32, version_crc: u16)
        ensures
            final(self)@ == after_metadata(old(self)@, total_len, version_crc),
    {
        if total_len > JSON_DESC_MAX_LEN {
            self.oversize = Some(total_len);
        } else {
            match self.total_len {
                None => {
                    self.total_len = Some(total_len);
                    self.version_crc = Some(version_crc);
                },
                Some(known) => {
                    let same: bool = known == total_len && match self.version_crc {
                        Some(crc) => crc == version_crc,
                        None => false,
                    };
                    if !same {
                        self.conflict = true;
                    }
                },
            }
        }
    }

    fn record_chunk(&mut self, offset: u16, data: &[u8]) -> (res: bool)
        requires
            data@.len() > 2,
        ensures
            final(self)@ == after_chunk(old(self)@, offset, data@.skip(2)),
            res == continues(old(self)@, offset, data@.skip(2)),
    {
        let have: usize = self.bytes.len();
        let len: usize = data.len();
        if offset as usize > have {
            if self.gap_frames < u32::MAX {
                self.gap_frames = self.gap_frames + 1;
            }
            return false;
        }
        if (offset as usize) < have || len - 2 > JSON_DESC_MAX_BYTES - have {
            if self.stale_frames < u32::MAX {
                self.stale_frames = self.stale_frames + 1;
            }
            return false;
        }
        let ghost chunk = data@.skip(2);
        let mut i: usize = 2;
        while i < len
            invariant
                2 <= i <= len,
                len == data@.len(),
                chunk == data@.skip(2),
                self.bytes@ == old(self).bytes@ + chunk.take(i - 2),
                self@ == (CacheView { bytes: self.bytes@, ..old(self)@ }),
            decreases len - i,
        {
            assert(chunk.take(i - 1) =~= chunk.take(i - 2).push(data@[i as int]));
            self.bytes.push(data[i]);
            assert(self.bytes@ =~= old(self).bytes@ + chunk.take(i - 1));
            i = i + 1;
        }
        assert(chunk.take(i - 2) =~= chunk);
        true
    }
}

impl Default for JsonDescCache {
    fn default() -> (res: Self)
        ensures
            res@ == fresh(),
    {
        let res = JsonDescCache {
            total_len: None,
            version_crc: None,
            bytes: Vec::new(),
            gap_frames: 0,
            stale_frames: 0,
            conflict: false,
            oversize: None,
        };
        assert(res@ =~= fresh());
        res
    }
}

/// Whether the bytes at hand are those of the descriptor, as far as it goes, and its length
/// is the one that is known, if any.
pub open spec fn follows(cache: CacheView, descriptor: Seq<u8>) -> bool {
    &&& forall|i: int|
        0 <= i < cache.bytes.len() && i < descriptor.len() ==> #[trigger] cache.bytes[i]
            == descriptor[i]
    &&& cache.total_len matches Some(total_len) ==> total_len == descriptor.len()
}

/// Whether a payload is one that a device with this descriptor sends: its metadata, or
/// bytes of the descriptor at their offset (what stands behind its end means nothing).
pub open spec fn sent_for(data: Seq<u8>, descriptor: Seq<u8>, version_crc: u16) -> bool {
    match protocol::json_desc_meta_in(data) {
        Some((total_len, crc)) => total_len == descriptor.len() && crc == version_crc,
        None => match protocol::json_desc_chunk_in(data) {
            Some((offset, chunk)) => forall|i: int|
                0 <= i < chunk.len() && offset + i < descriptor.len() ==> #[trigger] chunk[i]
                    == descriptor[offset + i],
            None => true,
        },
    }
}

/// Whatever frames of a device arrive, in whatever order and with whatever losses, the
/// bytes at hand stay those of its descriptor.
pub proof fn law_reassembly_follows_the_descriptor(
    cache: CacheView,
    data: Seq<u8>,
    descriptor: Seq<u8>,
    version_crc: u16,
)
    requires
        follows(cache, descriptor),
        sent_for(data, descriptor, version_crc),
    ensures
        follows(after_frame(cache, data).0, descriptor),
{
    let next = after_frame(cache, data).0;
    match protocol::json_desc_meta_in(data) {
        Some((total_len, crc)) => {
            assert forall|i: int|
                0 <= i < next.bytes.len() && i < descriptor.len() implies #[trigger] next.bytes[i]
                == descriptor[i] by {
                assert(next.bytes[i] == cache.bytes[i]);
            }
        },
        None => {
            if let Some((offset, chunk)) = protocol::json_desc_chunk_in(data) {
                assert forall|i: int|
                    0 <= i < next.bytes.len() && i < descriptor.len() implies
                    #[trigger] next.bytes[i] == descriptor[i] by {
                    if i < cache.bytes.len() {
                        assert(next.bytes[i] == cache.bytes[i]);
                    } else {
                        assert(next.bytes[i] == chunk[i - offset]);
                    }
                }
            }
        },
    }
}

/// Bytes are only ever appended while a transfer runs, so the first missing offset never
/// moves back; a repeated metadata frame changes nothing at all.
pub proof fn law_recorded_bytes_stay(cache: CacheView, data: Seq<u8>)
    ensures
        cache.bytes.is_prefix_of(after_frame(cache, data).0.bytes),
        protocol::json_desc_meta_in(data) matches Some((total_len, version_crc)) && total_len
            <= JSON_DESC_MAX_LEN && cache.total_len == Some(total_len) && cache.version_crc
            == Some(version_crc) ==> after_frame(cache, data).0 == cache,
{
    let next = after_frame(cache, data).0;
    assert(next.bytes.subrange(0, cache.bytes.len() as int) =~= cache.bytes);
}

/// Whether a state can be reached: the length and the version come together, and the bytes
/// do not outgrow what data frames can fill.
pub open spec fn sound(cache: CacheView) -> bool {
    &&& cache.total_len is Some <==> cache.version_crc is Some
    &&& cache.total_len matches Some(total_len) ==> total_len <= JSON_DESC_MAX_LEN
    &&& cache.bytes.len() <= JSON_DESC_MAX_BYTES
}

/// A metadata frame never changes the bytes, a data frame never the length or the version,
/// and a frame that is not used changes none of them.
pub proof fn law_frames_change_only_their_part(cache: CacheView, data: Seq<u8>)
    requires
        sound(cache),
    ensures
        sound(fresh()),
        ({
            let (next, used) = after_frame(cache, data);
            let meta = protocol::json_desc_meta_in(data) is Some;
            &&& sound(next)
            &&& meta ==> next.bytes == cache.bytes
            &&& !meta ==> next.total_len == cache.total_len && next.version_crc
                == cache.version_crc
            &&& !used ==> next.bytes == cache.bytes && next.total_len == cache.total_len
                && next.version_crc == cache.version_crc
        }),
{
}

/// Decides, from what has arrived and from the time, what a descriptor transfer does next.
#[derive(Debug, Clone, Copy, PartialEq, Eq, Structural)]
pub struct DescriptorTransfer {
    /// The node that is asked.
    pub motor_id: u16,
    /// Quiet window once the length is known, in milliseconds.
    pub timeout_ms: u64,
    /// When the current quiet window ends.
    pub deadline_ms: u64,
    /// Requests sent so far.
    pub requests: u32,
    /// Requests repeated because no metadata frame had arrived.
    pub retries: u32,
    /// Starts from offset zero after mixed-up transfers.
    pub restarts: u32,
    /// Requests for the current offset that brought nothing yet.
    pub stalled: u32,
    /// Number of bytes when the last byte arrived.
    pub received: u64,
}

/// What a descriptor transfer does next.
#[derive(Debug)]
pub enum TransferStep {
    /// Nothing: wait for frames.
    Wait,
    /// Ask for the descriptor from this offset on.
    Request(u32),
    /// The descriptor is complete: its length, its version and its bytes.
    Done(u32, u16, Vec<u8>),
    /// The transfer cannot be completed.
    Failed(MotorError),
}

/// The mathematical content of a [`TransferStep`].
pub enum StepView {
    Wait,
    Request(u32),
    Done(u32, u16, Seq<u8>),
    Failed(error::Fault),
}

impl View for TransferStep {
    type V = StepView;

    open spec fn view(&self) -> StepView {
        match *self {
            TransferStep::Wait => StepView::Wait,
            TransferStep::Request(offset) => StepView::Request(offset),
            TransferStep::Done(total_len, version_crc, bytes) => StepView::Done(
                total_len,
                version_crc,
                bytes@,
            ),
            TransferStep::Failed(err) => StepView::Failed(err@),
        }
    }
}

/// The end of a window that starts now.
pub open spec fn window_end(now_ms: u64, window_ms: u64) -> u64 {
    if now_ms + window_ms <= u64::MAX {
        (now_ms + window_ms) as u64
    } else {
        u64::MAX
    }
}

/// The quiet window while no metadata frame has arrived.
pub open spec fn metadata_window(timeout_ms: u64) -> u64 {
    if timeout_ms < METADATA_WINDOW_MS {
        timeout_ms
    } else {
        METADATA_WINDOW_MS
    }
}

/// Milliseconds with a unit: `500ms`, `1s`, `1.25s`.
pub open spec fn duration_text(ms: nat) -> Seq<char> {
    if ms == 0 {
        "0ns"@
    } else if ms < 1000 {
        text::dec(ms) + "ms"@
    } else if ms % 1000 == 0 {
        text::dec(ms / 1000) + "s"@
    } else if ms % 100 == 0 {
        text::dec(ms / 1000) + "."@ + text::dec(ms / 100 % 10) + "s"@
    } else if ms % 10 == 0 {
        text::dec(ms / 1000) + "."@ + text::dec(ms / 100 % 10) + text::dec(ms / 10 % 10) + "s"@
    } else {
        text::dec(ms / 1000) + "."@ + text::dec(ms / 100 % 10) + text::dec(ms / 10 % 10)
            + text::dec(ms % 10) + "s"@
    }
}

/// Milliseconds with a unit: `500ms`, `1s`, `1.25s`.
pub(crate) fn push_duration(out: &mut String, ms: u64)
    ensures
        final(out)@ == old(out)@ + duration_text(ms as nat),
{
    let ghost before = out@;
    if ms == 0 {
        out.append("0ns");
    } else if ms < 1000 {
        push_dec(out, ms);
        out.append("ms");
    } else {
        push_dec(out, ms / 1000);
        if ms % 1000 != 0 {
            out.append(".");
            push_dec(out, ms / 100 % 10);
            if ms % 100 != 0 {
                push_dec(out, ms / 10 % 10);
                if ms % 10 != 0 {
                    push_dec(out, ms % 10);
                }
            }
        }
        out.append("s");
    }
    assert(out@ =~= before + duration_text(ms as nat));
}

/// The error for a descriptor that is too long to be transferred.
pub open spec fn oversize_fault(total_len: u32) -> error::Fault {
    error::broken(
        "endpoint descriptor declares "@ + text::dec(total_len as nat)
            + " bytes; a transfer carries at most 65535"@,
    )
}

/// The error for a stream in which two descriptors are mixed up.
pub open spec fn conflict_fault(motor_id: u16) -> error::Fault {
    error::broken(
        "node 0x"@ + text::hex(motor_id as nat, 2)
            + " keeps sending metadata of two different endpoint descriptors"@,
    )
}

/// The error for a node that never sends a metadata frame.
pub open spec fn silent_fault(motor_id: u16, waited_ms: nat) -> error::Fault {
    error::timed_out(
        "no JSON descriptor metadata from node 0x"@ + text::hex(motor_id as nat, 2) + " within "@
            + duration_text(waited_ms)
            + " (wrong node id, silent node, or no access to the endpoint map?)"@,
    )
}

/// The error for a transfer that needs too many requests.
pub open spec fn gave_up_fault(requests: u32, received: nat, total_len: u32) -> error::Fault {
    error::timed_out(
        "endpoint descriptor transfer gave up after "@ + text::dec(requests as nat)
            + " requests ("@ + text::dec(received) + " of "@ + text::dec(total_len as nat)
            + " bytes)"@,
    )
}

/// The error for a transfer that does not get past an offset.
pub open spec fn stalled_fault(cache: CacheView, total_len: u32) -> error::Fault {
    error::timed_out(
        "endpoint descriptor transfer stopped at byte "@ + text::dec(cache.bytes.len()) + " of "@
            + text::dec(total_len as nat) + ": 3 requests brought no new byte ("@ + text::dec(
            cache.gap_frames as nat,
        ) + " frame(s) past the gap, "@ + text::dec(cache.stale_frames as nat)
            + " stale frame(s) dropped)"@,
    )
}

/// The transfer after it asks for the descriptor from `received` on.
pub open spec fn asking(t: DescriptorTransfer, now_ms: u64) -> DescriptorTransfer {
    DescriptorTransfer {
        requests: (t.requests + 1) as u32,
        stalled: (t.stalled + 1) as u32,
        deadline_ms: window_end(now_ms, t.timeout_ms),
        ..t
    }
}

/// What a transfer does next: its state, the state of the cache, and the step.
pub open spec fn next_step(t: DescriptorTransfer, cache: CacheView, now_ms: u64) -> (
    DescriptorTransfer,
    CacheView,
    StepView,
) {
    let short = metadata_window(t.timeout_ms);
    if let Some(total_len) = cache.oversize {
        (t, cache, StepView::Failed(oversize_fault(total_len)))
    } else if cache.conflict {
        if t.restarts >= MAX_DESCRIPTOR_RESTARTS || t.requests >= MAX_JSON_DESC_REQUESTS {
            (t, cache, StepView::Failed(conflict_fault(t.motor_id)))
        } else {
            (
                DescriptorTransfer {
                    restarts: (t.restarts + 1) as u32,
                    requests: (t.requests + 1) as u32,
                    stalled: 1,
                    received: 0,
                    deadline_ms: window_end(now_ms, short),
                    ..t
                },
                fresh(),
                StepView::Request(0),
            )
        }
    } else if cache.total_len is Some && cache.bytes.len() >= cache.total_len->0 {
        (
            t,
            cache,
            StepView::Done(
                cache.total_len->0,
                match cache.version_crc {
                    Some(version_crc) => version_crc,
                    None => 0,
                },
                cache.bytes.take(cache.total_len->0 as int),
            ),
        )
    } else if cache.bytes.len() > t.received {
        (
            DescriptorTransfer {
                received: cache.bytes.len() as u64,
                stalled: 0,
                deadline_ms: window_end(now_ms, t.timeout_ms),
                ..t
            },
            cache,
            StepView::Wait,
        )
    } else if now_ms <= t.deadline_ms {
        (t, cache, StepView::Wait)
    } else {
        match cache.total_len {
            None => if t.retries >= MAX_METADATA_RETRIES || t.requests >= MAX_JSON_DESC_REQUESTS {
                (
                    t,
                    cache,
                    StepView::Failed(
                        silent_fault(t.motor_id, (short * (MAX_METADATA_RETRIES + 1)) as nat),
                    ),
                )
            } else {
                (
                    DescriptorTransfer {
                        retries: (t.retries + 1) as u32,
                        requests: (t.requests + 1) as u32,
                        deadline_ms: window_end(now_ms, short),
                        ..t
                    },
                    cache,
                    StepView::Request(cache.bytes.len() as u32),
                )
            },
            Some(total_len) => if t.requests >= MAX_JSON_DESC_REQUESTS {
                (
                    t,
                    cache,
                    StepView::Failed(gave_up_fault(t.requests, cache.bytes.len(), total_len)),
                )
            } else if t.stalled >= MAX_STALLED_REQUESTS {
                (t, cache, StepView::Failed(stalled_fault(cache, total_len)))
            } else {
                (asking(t, now_ms), cache, StepView::Request(cache.bytes.len() as u32))
            },
        }
    }
}

pub(crate) fn end_of_window(now_ms: u64, window_ms: u64) -> (res: u64)
    ensures
        res == window_end(now_ms, window_ms),
{
    match now_ms.checked_add(window_ms) {
        Some(end) => end,
        None => u64::MAX,
    }
}

fn short_window(timeout_ms: u64) -> (res: u64)
    ensures
        res == metadata_window(timeout_ms),
{
    if timeout_ms < METADATA_WINDOW_MS {
        timeout_ms
    } else {
        METADATA_WINDOW_MS
    }
}

impl DescriptorTransfer {
    /// A transfer whose first request, for offset zero, has just been sent.
    ///
    /// The cache has to be reset before that request is sent.
    pub fn start(motor_id: u16, timeout_ms: u64, now_ms: u64) -> (res: Self)
        ensures
            res == (DescriptorTransfer {
                motor_id,
                timeout_ms,
                deadline_ms: window_end(now_ms, metadata_window(timeout_ms)),
                requests: 1,
                retries: 0,
                restarts: 0,
                stalled: 1,
                received: 0,
            }),
    {
        DescriptorTransfer {
            motor_id,
            timeout_ms,
            deadline_ms: end_of_window(now_ms, short_window(timeout_ms)),
            requests: 1,
            retries: 0,
            restarts: 0,
            stalled: 1,
            received: 0,
        }
    }

    /// Decide what to do next.
    ///
    /// The device streams a large burst for a single request, so another request is only
    /// made once the device has been quiet for a whole window and bytes are still missing.
    pub fn step(&mut self, cache: &mut JsonDescCache, now_ms: u64) -> (res: TransferStep)
        ensures
            (*final(self), final(cache)@, res@) == next_step(*old(self), old(cache)@, now_ms),
    {
        let short: u64 = short_window(self.timeout_ms);
        if let Some(total_len) = cache.oversize {
            let mut message: String = "endpoint descriptor declares ".to_owned();
            push_dec(&mut message, total_len as u64);
            message.append(" bytes; a transfer carries at most 65535");
            return TransferStep::Failed(MotorError::Protocol(message));
        }
        if cache.conflict {
            if self.restarts >= MAX_DESCRIPTOR_RESTARTS || self.requests >= MAX_JSON_DESC_REQUESTS {
                let mut message: String = "node 0x".to_owned();
                push_hex(&mut message, self.motor_id as u64, 2);
                message.append(" keeps sending metadata of two different endpoint descriptors");
                return TransferStep::Failed(MotorError::Protocol(message));
            }
            cache.reset();
            self.restarts = self.restarts + 1;
            self.requests = self.requests + 1;
            self.stalled = 1;
            self.received = 0;
            self.deadline_ms = end_of_window(now_ms, short);
            return TransferStep::Request(0);
        }
        let have: usize = cache.bytes.len();
        if let Some(total_len) = cache.total_len {
            if have >= total_len as usize {
                let version_crc: u16 = match cache.version_crc {
                    Some(version_crc) => version_crc,
                    None => 0,
                };
                let bytes: Vec<u8> = cache.first_bytes(total_len as usize);
                return TransferStep::Done(total_len, version_crc, bytes);
            }
        }
        if have as u64 > self.received {
            self.received = have as u64;
            self.stalled = 0;
            self.deadline_ms = end_of_window(now_ms, self.timeout_ms);
            return TransferStep::Wait;
        }
        if now_ms <= self.deadline_ms {
            return TransferStep::Wait;
        }
        match cache.total_len {
            None => {
                if self.retries >= MAX_METADATA_RETRIES || self.requests >= MAX_JSON_DESC_REQUESTS {
                    let mut message: String = "no JSON descriptor metadata from node 0x".to_owned();
                    push_hex(&mut message, self.motor_id as u64, 2);
                    message.append(" within ");
                    push_duration(&mut message, short * (MAX_METADATA_RETRIES as u64 + 1));
                    message.append(
                        " (wrong node id, silent node, or no access to the endpoint map?)",
                    );
                    return TransferStep::Failed(MotorError::Timeout(message));
                }
                self.retries = self.retries + 1;
                self.requests = self.requests + 1;
                self.deadline_ms = end_of_window(now_ms, short);
                TransferStep::Request(have as u32)
            },
            Some(total_len) => {
                if self.requests >= MAX_JSON_DESC_REQUESTS {
                    let mut message: String = "endpoint descriptor transfer gave up after "
                        .to_owned();
                    push_dec(&mut message, self.requests as u64);
                    message.append(" requests (");
                    push_dec(&mut message, have as u64);
                    message.append(" of ");
                    push_dec(&mut message, total_len as u64);
                    message.append(" bytes)");
                    return TransferStep::Failed(MotorError::Timeout(message));
                }
                if self.stalled >= MAX_STALLED_REQUESTS {
                    let mut message: String = "endpoint descriptor transfer stopped at byte "
                        .to_owned();
                    push_dec(&mut message, have as u64);
                    message.append(" of ");
                    push_dec(&mut message, total_len as u64);
                    message.append(": 3 requests brought no new byte (");
                    push_dec(&mut message, cache.gap_frames as u64);
                    message.append(" frame(s) past the gap, ");
                    push_dec(&mut message, cache.stale_frames as u64);
                    message.append(" stale frame(s) dropped)");
                    return TransferStep::Failed(MotorError::Timeout(message));
                }
                self.requests = self.requests + 1;
                self.stalled = self.stalled + 1;
                self.deadline_ms = end_of_window(now_ms, self.timeout_ms);
                TransferStep::Request(have as u32)
            },
        }
    }
}

impl JsonDescCache {
    fn first_bytes(&self, len: usize) -> (res: Vec<u8>)
        requires
            len <= self@.bytes.len(),
        ensures
            res@ == self@.bytes.take(len as int),
    {
        let mut out: Vec<u8> = Vec::new();
        let mut i: usize = 0;
        while i < len
            invariant
                i <= len <= self.bytes@.len(),
                out@ == self.bytes@.take(i as int),
            decreases len - i,
        {
            out.push(self.bytes[i]);
            i = i + 1;
        }
        out
    }
}

/// A transfer never accepts a part of a descriptor: a completed one hands out exactly the
/// bytes of the descriptor, whatever was lost on the way.
pub proof fn law_done_is_the_whole_descriptor(
    t: DescriptorTransfer,
    cache: CacheView,
    now_ms: u64,
    descriptor: Seq<u8>,
)
    requires
        follows(cache, descriptor),
    ensures
        next_step(t, cache, now_ms).2 matches StepView::Done(total_len, _, bytes) ==> bytes
            == descriptor && total_len == descriptor.len(),
{
    if let StepView::Done(total_len, version_crc, bytes) = next_step(t, cache, now_ms).2 {
        assert(bytes =~= descriptor);
    }
}

/// Every request asks for the first byte that is missing.
pub proof fn law_requests_ask_for_the_first_missing_byte(
    t: DescriptorTransfer,
    cache: CacheView,
    now_ms: u64,
)
    requires
        cache.bytes.len() <= JSON_DESC_MAX_BYTES,
    ensures
        ({
            let (_, after, step) = next_step(t, cache, now_ms);
            step matches StepView::Request(offset) ==> offset == after.bytes.len()
        }),
{
}

/// A transfer makes at most 64 requests, and 3 in a row for one offset that bring nothing.
/// It waits only inside a quiet window or because bytes have arrived; otherwise it asks
/// again or ends.
pub proof fn law_transfers_are_bounded(t: DescriptorTransfer, cache: CacheView, now_ms: u64)
    requires
        t.requests <= MAX_JSON_DESC_REQUESTS,
        t.stalled <= MAX_STALLED_REQUESTS,
        cache.bytes.len() <= JSON_DESC_MAX_BYTES,
    ensures
        ({
            let (next, _, step) = next_step(t, cache, now_ms);
            &&& next.requests <= MAX_JSON_DESC_REQUESTS
            &&& next.stalled <= MAX_STALLED_REQUESTS
            &&& step is Request ==> next.requests == t.requests + 1
            &&& step !is Request ==> next.requests == t.requests
            &&& step is Wait ==> now_ms <= t.deadline_ms || next.received > t.received
        }),
{
}

/// A descriptor that is declared longer than a transfer can carry is refused at once,
/// whatever has arrived before.
pub proof fn law_oversized_descriptors_are_refused(
    cache: CacheView,
    data: Seq<u8>,
    t: DescriptorTransfer,
    now_ms: u64,
)
    ensures
        protocol::json_desc_meta_in(data) matches Some((total_len, _)) ==> total_len
            > JSON_DESC_MAX_LEN ==> next_step(t, after_frame(cache, data).0, now_ms).2
            == StepView::Failed(oversize_fault(total_len)),
{
}

/// The state after a sequence of payloads.
pub open spec fn after_frames(cache: CacheView, frames: Seq<Seq<u8>>) -> CacheView
    decreases frames.len(),
{
    if frames.len() == 0 {
        cache
    } else {
        after_frame(after_frames(cache, frames.drop_last()), frames.last()).0
    }
}

/// Whether a payload is a data frame with the six bytes of the descriptor at `offset`.
pub open spec fn carries_at(data: Seq<u8>, offset: int, descriptor: Seq<u8>) -> bool {
    &&& protocol::json_desc_meta_in(data) is None
    &&& protocol::json_desc_chunk_in(data) matches Some((at, chunk)) && at == offset && chunk.len()
        == 6 && forall|k: int|
        0 <= k < 6 && offset + k < descriptor.len() ==> #[trigger] chunk[k] == descriptor[offset
            + k]
}

/// Whether these payloads are what a device sends for one request when no frame is lost: the
/// metadata, then data frames that follow each other up to the end of the descriptor.
pub open spec fn is_stream(
    frames: Seq<Seq<u8>>,
    descriptor: Seq<u8>,
    version_crc: u16,
) -> bool {
    &&& frames.len() > 0
    &&& protocol::json_desc_meta_in(frames[0]) == Some((descriptor.len() as u32, version_crc))
    &&& 6 * (frames.len() - 1) >= descriptor.len()
    &&& forall|i: int|
        1 <= i < frames.len() ==> carries_at(#[trigger] frames[i], 6 * (i - 1), descriptor)
}

/// The state after the first `n` payloads of a stream: the bytes that they carry.
proof fn lemma_stream(
    frames: Seq<Seq<u8>>,
    descriptor: Seq<u8>,
    version_crc: u16,
    n: int,
)
    requires
        is_stream(frames, descriptor, version_crc),
        descriptor.len() <= JSON_DESC_MAX_LEN,
        1 <= n <= frames.len(),
    ensures
        ({
            let after = after_frames(fresh(), frames.take(n));
            &&& after.total_len == Some(descriptor.len() as u32)
            &&& after.version_crc == Some(version_crc)
            &&& !after.conflict
            &&& after.oversize is None
            &&& after.bytes.len() == 6 * (n - 1)
            &&& follows(after, descriptor)
        }),
    decreases n,
{
    let shown = frames.take(n);
    assert(shown.drop_last() =~= frames.take(n - 1));
    assert(shown.last() == frames[n - 1]);
    let after = after_frames(fresh(), shown);
    if n == 1 {
        assert(after_frames(fresh(), frames.take(0)) == fresh());
    } else {
        lemma_stream(frames, descriptor, version_crc, n - 1);
        let offset = 6 * (n - 2);
        assert(carries_at(frames[n - 1], offset, descriptor));
        let before = after_frames(fresh(), frames.take(n - 1));
        let (_, chunk) = protocol::json_desc_chunk_in(frames[n - 1])->0;
        assert(after.bytes =~= before.bytes + chunk);
        assert forall|i: int| 0 <= i < after.bytes.len() && i < descriptor.len() implies
            #[trigger] after.bytes[i] == descriptor[i] by {
            if i < offset {
                assert(after.bytes[i] == before.bytes[i]);
            } else {
                assert(after.bytes[i] == chunk[i - offset]);
            }
        }
    }
}

/// A transfer of which no frame is lost completes with the first request, and hands out the
/// descriptor with its length and version.
pub proof fn law_complete_streams_complete(
    frames: Seq<Seq<u8>>,
    descriptor: Seq<u8>,
    version_crc: u16,
    t: DescriptorTransfer,
    now_ms: u64,
)
    requires
        is_stream(frames, descriptor, version_crc),
        descriptor.len() <= JSON_DESC_MAX_LEN,
    ensures
        next_step(t, after_frames(fresh(), frames), now_ms).2 == StepView::Done(
            descriptor.len() as u32,
            version_crc,
            descriptor,
        ),
{
    lemma_stream(frames, descriptor, version_crc, frames.len() as int);
    assert(frames.take(frames.len() as int) =~= frames);
    assert(after_frames(fresh(), frames).bytes.take(descriptor.len() as int) =~= descriptor);
}

/// The message of the error that `String::from_utf8` reports for bytes that are no text.
pub uninterp spec fn utf8_error(bytes: Seq<u8>) -> Seq<char>;

/// Calls `String::from_utf8`: the text that the bytes encode, if they are valid UTF-8.
/// Claimed of the message of its error is only that it is a function of the bytes.
#[verifier::external_body]
pub(crate) fn utf8_text(bytes: Vec<u8>) -> (res: Result<String, String>)
    ensures
        match res {
            Ok(text) => vstd::utf8::valid_utf8(bytes@) && text@ == vstd::utf8::decode_utf8(bytes@),
            Err(message) => !vstd::utf8::valid_utf8(bytes@) && message@ == utf8_error(bytes@),
        },
{
    String::from_utf8(bytes).map_err(|err| err.to_string())
}

/// The text of a descriptor.
pub open spec fn text_of(bytes: Seq<u8>) -> Result<Seq<char>, error::Fault> {
    if vstd::utf8::valid_utf8(bytes) {
        Ok(vstd::utf8::decode_utf8(bytes))
    } else {
        Err(error::broken("endpoint descriptor is not valid UTF-8: "@ + utf8_error(bytes)))
    }
}

/// The text of a descriptor.
pub fn descriptor_text(bytes: Vec<u8>) -> (res: Result<String, MotorError>)
    ensures
        match res {
            Ok(text) => text_of(bytes@) == Ok::<Seq<char>, error::Fault>(text@),
            Err(err) => text_of(bytes@) == Err::<Seq<char>, error::Fault>(err@),
        },
{
    match utf8_text(bytes) {
        Ok(text) => Ok(text),
        Err(message) => {
            let mut text: String = "endpoint descriptor is not valid UTF-8: ".to_owned();
            text.append(message.as_str());
            Err(MotorError::Protocol(text))
        },
    }
}

/// The text of a descriptor is kept byte for byte.
pub proof fn law_descriptor_text_is_lossless(bytes: Seq<u8>)
    ensures
        text_of(bytes) matches Ok(json) ==> vstd::utf8::encode_utf8(json) == bytes,
{
    if vstd::utf8::valid_utf8(bytes) {
        vstd::utf8::decode_utf8_encode_utf8(bytes);
    }
}

/// The endpoint map of a descriptor text with its metadata.
pub open spec fn described_map(
    parsed: Result<MapView, error::Fault>,
    total_len: u32,
    version_crc: u16,
) -> Result<MapView, error::Fault> {
    match parsed {
        Ok(map) => if map.entries.len() == 0 {
            Err(
                error::broken(
                    "endpoint descriptor ("@ + text::dec(total_len as nat)
                        + " bytes, VersionCRC=0x"@ + text::hex(version_crc as nat, 4)
                        + ") describes no endpoints"@,
                ),
            )
        } else {
            Ok(MapView { total_len, version_crc, ..map })
        },
        Err(fault) => Err(fault),
    }
}

/// The endpoint map of a descriptor that describes at least one endpoint.
pub fn check_map(map: EndpointMap, total_len: u32, version_crc: u16) -> (res: Result<
    EndpointMap,
    MotorError,
>)
    ensures
        match res {
            Ok(described) => described_map(Ok(map@), total_len, version_crc) == Ok::<
                MapView,
                error::Fault,
            >(described@),
            Err(err) => described_map(Ok(map@), total_len, version_crc) == Err::<
                MapView,
                error::Fault,
            >(err@),
        },
{
    if map.is_empty() {
        let mut message: String = "endpoint descriptor (".to_owned();
        push_dec(&mut message, total_len as u64);
        message.append(" bytes, VersionCRC=0x");
        push_hex(&mut message, version_crc as u64, 4);
        message.append(") describes no endpoints");
        return Err(MotorError::Protocol(message));
    }
    Ok(map.with_metadata(total_len, version_crc))
}

/// The endpoint map that the bytes of a complete transfer describe.
pub open spec fn map_in(bytes: Seq<u8>, total_len: u32, version_crc: u16) -> Result<
    MapView,
    error::Fault,
> {
    match text_of(bytes) {
        Ok(json) => described_map(endpoint_map::parsed(json), total_len, version_crc),
        Err(fault) => Err(fault),
    }
}

/// Turn the bytes of a complete transfer into an endpoint map.
pub fn read_map(total_len: u32, version_crc: u16, bytes: Vec<u8>) -> (res: Result<
    EndpointMap,
    MotorError,
>)
    ensures
        match res {
            Ok(map) => map_in(bytes@, total_len, version_crc) == Ok::<MapView, error::Fault>(map@),
            Err(err) => map_in(bytes@, total_len, version_crc) == Err::<MapView, error::Fault>(
                err@,
            ),
        },
{
    match descriptor_text(bytes) {
        Ok(json) => match EndpointMap::parse(json.as_str()) {
            Ok(map) => check_map(map, total_len, version_crc),
            Err(err) => Err(err),
        },
        Err(err) => Err(err),
    }
}

/// A window ends its length after its start, at the latest when the clock does; without metadata
/// it lasts at most 200 ms.
pub proof fn law_windows_end_after_their_length(now_ms: u64, window_ms: u64)
    ensures
        now_ms + window_ms <= u64::MAX ==> window_end(now_ms, window_ms) == now_ms + window_ms,
        now_ms + window_ms > u64::MAX ==> window_end(now_ms, window_ms) == u64::MAX,
        window_ms <= 200 ==> metadata_window(window_ms) == window_ms,
        window_ms >= 200 ==> metadata_window(window_ms) == 200,
{
}

/// The bytes of a data frame are kept exactly when they start where those at hand end and no more
/// than 65541 bytes come together; a frame that starts later is a gap, any other one is stale.
pub proof fn law_bytes_are_kept_only_in_order(cache: CacheView, data: Seq<u8>)
    requires
        data.len() > 2,
        protocol::json_desc_meta_in(data) is None,
        cache.gap_frames < u32::MAX,
        cache.stale_frames < u32::MAX,
    ensures
        ({
            let offset = ((data[1] as u16) << 8) | data[0] as u16;
            let (next, used) = after_frame(cache, data);
            let fits = offset == cache.bytes.len() && cache.bytes.len() + data.len() - 2 <= 65541;
            &&& used <==> fits
            &&& fits ==> next.bytes == cache.bytes + data.skip(2) && next.gap_frames
                == cache.gap_frames && next.stale_frames == cache.stale_frames
            &&& !fits ==> next.bytes == cache.bytes && next.gap_frames + next.stale_frames
                == cache.gap_frames + cache.stale_frames + 1
            &&& next.gap_frames == cache.gap_frames + (if offset > cache.bytes.len() {
                1int
            } else {
                0
            })
            &&& next.total_len == cache.total_len && next.version_crc == cache.version_crc
                && next.conflict == cache.conflict && next.oversize == cache.oversize
        }),
{
    protocol::law_byte_orders(data, 0);
}

/// The first metadata fixes the length and the version; metadata that differs from it in either
/// marks the transfer as mixed up, and metadata that declares more than 65535 bytes as too long.
pub proof fn law_metadata_is_fixed_by_the_first_frame(
    cache: CacheView,
    data: Seq<u8>,
    total_len: u32,
    version_crc: u16,
)
    requires
        protocol::json_desc_meta_in(data) == Some((total_len, version_crc)),
    ensures
        ({
            let (next, used) = after_frame(cache, data);
            &&& used
            &&& next.bytes == cache.bytes
            &&& total_len > 65535 ==> next == (CacheView { oversize: Some(total_len), ..cache })
            &&& total_len <= 65535 && cache.total_len is None ==> next == (CacheView {
                total_len: Some(total_len),
                version_crc: Some(version_crc),
                ..cache
            })
            &&& total_len <= 65535 && cache.total_len is Some && cache.version_crc is Some ==> next
                == (CacheView {
                conflict: cache.conflict || cache.total_len->0 != total_len
                    || cache.version_crc->0 != version_crc,
                ..cache
            })
        }),
{
}

/// What a transfer does next, when nothing is mixed up or too long: it is done when all bytes are
/// there; it waits when bytes have arrived since the last look, or while its window is open; after
/// that it asks for the first missing byte. It fails as a timeout after 4 repeated requests without
/// metadata, 3 requests without a new byte, or 64 requests in all.
pub proof fn law_transfers_wait_then_ask_then_fail(
    t: DescriptorTransfer,
    cache: CacheView,
    now_ms: u64,
)
    requires
        cache.oversize is None,
        !cache.conflict,
        cache.bytes.len() <= JSON_DESC_MAX_BYTES,
        t.requests < u32::MAX,
        t.retries < u32::MAX,
        t.stalled < u32::MAX,
        now_ms + t.timeout_ms <= u64::MAX,
    ensures
        ({
            let (next, after, step) = next_step(t, cache, now_ms);
            let complete = cache.total_len is Some && cache.bytes.len() >= cache.total_len->0;
            let grown = cache.bytes.len() > t.received;
            let quiet = !complete && !grown && now_ms > t.deadline_ms;
            let may_ask = t.requests < 64 && if cache.total_len is None {
                t.retries < 4
            } else {
                t.stalled < 3
            };
            &&& after == cache
            &&& step is Done <==> complete
            &&& step is Wait <==> !complete && (grown || now_ms <= t.deadline_ms)
            &&& step is Request <==> quiet && may_ask
            &&& step is Failed <==> quiet && !may_ask
            &&& step matches StepView::Request(offset) ==> offset == cache.bytes.len()
            &&& step matches StepView::Failed(fault) ==> fault.kind == error::ErrorKind::Timeout
            &&& step matches StepView::Done(total_len, version_crc, bytes) ==> Some(total_len)
                == cache.total_len && bytes == cache.bytes.take(total_len as int) && (
            cache.version_crc is Some ==> Some(version_crc) == cache.version_crc)
            &&& step is Request ==> next.requests == t.requests + 1 && next.deadline_ms == now_ms
                + (if cache.total_len is None && t.timeout_ms > 200 {
                200
            } else {
                t.timeout_ms
            })
            &&& step is Request && cache.total_len is None ==> next.retries == t.retries + 1
                && next.stalled == t.stalled
            &&& step is Request && cache.total_len is Some ==> next.retries == t.retries
                && next.stalled == t.stalled + 1
            &&& !complete && grown ==> next == (DescriptorTransfer {
                received: cache.bytes.len() as u64,
                stalled: 0,
                deadline_ms: (now_ms + t.timeout_ms) as u64,
                ..t
            })
            &&& step !is Request && !(!complete && grown) ==> next == t
        }),
{
}

/// A mixed-up transfer starts again from the first byte, at most twice, and then fails; a
/// descriptor that is too long fails at once. Both are errors of the protocol.
pub proof fn law_mixed_up_transfers_start_again(
    t: DescriptorTransfer,
    cache: CacheView,
    now_ms: u64,
)
    requires
        cache.oversize is Some || cache.conflict,
        t.requests < u32::MAX,
    ensures
        ({
            let (next, after, step) = next_step(t, cache, now_ms);
            let again = cache.oversize is None && t.restarts < 2 && t.requests < 64;
            &&& again ==> step == StepView::Request(0) && after.bytes.len() == 0
                && after.total_len is None && !after.conflict && next.restarts == t.restarts + 1
                && next.requests == t.requests + 1 && next.received == 0
            &&& !again ==> next == t && after == cache && (step matches StepView::Failed(fault)
                && fault.kind == error::ErrorKind::Protocol)
        }),
{
}

/// A fresh transfer knows no length, no version and no byte, and nothing is wrong with it.
pub proof fn law_transfers_start_empty()
    ensures
        fresh().total_len is None && fresh().version_crc is None && fresh().bytes.len() == 0
            && !fresh().conflict && fresh().oversize is None && fresh().gap_frames == 0
            && fresh().stale_frames == 0,
{
}

/// A descriptor becomes a table exactly when its bytes are a text, the text is a document, and the
/// document describes at least one endpoint; the table then has the endpoints of the document, its
/// text, and the length and version that came with it. Every other descriptor is an error of the
/// protocol.
pub proof fn law_descriptors_become_tables(bytes: Seq<u8>, total_len: u32, version_crc: u16)
    ensures
        ({
            let valid = vstd::utf8::valid_utf8(bytes);
            let written = vstd::utf8::decode_utf8(bytes);
            let found = endpoint_map::parsed(written);
            &&& map_in(bytes, total_len, version_crc) is Ok <==> valid && found is Ok
                && found->Ok_0.entries.len() > 0
            &&& map_in(bytes, total_len, version_crc) matches Ok(map) ==> map.entries
                == found->Ok_0.entries && map.json == written && map.total_len == total_len
                && map.version_crc == version_crc
            &&& map_in(bytes, total_len, version_crc) matches Err(fault) ==> fault.kind
                == error::ErrorKind::Protocol
        }),
{
}

/// Times below a second are shown in milliseconds; from a second on they are shown in seconds, with
/// as many decimals, three at most, as are needed to tell the milliseconds.
pub proof fn law_durations_tell_their_milliseconds(seconds: nat, tenths: nat, rest: nat)
    requires
        0 < seconds,
        0 < tenths < 10,
        0 < rest < 1000,
    ensures
        duration_text(rest) == text::dec(rest) + seq!['m', 's'],
        duration_text(1000 * seconds) == text::dec(seconds) + seq!['s'],
        duration_text(1000 * seconds + 100 * tenths) == text::dec(seconds) + seq!['.'] + text::dec(
            tenths,
        ) + seq!['s'],
        rest % 10 == 0 && rest % 100 != 0 ==> duration_text(1000 * seconds + rest) == text::dec(
            seconds,
        ) + seq!['.'] + text::dec(rest / 100) + text::dec(rest / 10 % 10) + seq!['s'],
        rest % 10 != 0 ==> duration_text(1000 * seconds + rest) == text::dec(seconds) + seq!['.']
            + text::dec(rest / 100) + text::dec(rest / 10 % 10) + text::dec(rest % 10) + seq!['s'],
{
    reveal_strlit("ms");
    reveal_strlit("s");
    reveal_strlit(".");
    assert("ms"@ =~= seq!['m', 's']);
    assert("s"@ =~= seq!['s']);
    assert("."@ =~= seq!['.']);
    let a = (1000 * seconds) as int;
    assert(a % 1000 == 0 && a / 1000 == seconds);
    let b = 1000 * seconds as int + 100 * tenths;
    assert(b / 1000 == seconds && b % 1000 == 100 * tenths && b % 100 == 0);
    assert(b / 100 == 10 * seconds + tenths && b / 100 % 10 == tenths);
    let c = 1000 * seconds as int + rest;
    assert(c / 1000 == seconds && c % 1000 == rest);
    assert(c % 100 == rest % 100 && c % 10 == rest % 10);
    assert(c / 100 == 10 * seconds + rest / 100 && c / 100 % 10 == rest / 100);
    assert(c / 10 == 100 * seconds + rest / 10 && c / 10 % 10 == rest / 10 % 10);
}

} // verus!
