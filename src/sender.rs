//! The sender's schedule: which protocol number each send uses, how long to
//! wait before it, the payload that grows by one marker byte per send, and the
//! record of each attempt.
use vstd::prelude::*;
use crate::codec::{FrameKind, encode, frame_bytes, header_len_of};

verus! {

/// The protocol argument that asks for cycling through all protocol numbers.
pub const CYCLE_ALL_PROTOCOLS: i32 = -1;

/// The byte appended to the payload before each send.
pub const MARKER_BYTE: u8 = 1;

/// Bytes counted for the IP header in a frame's declared total.
pub const IP_HEADER_ALLOWANCE: u64 = 20;

/// The shortest wait before a send, in milliseconds.
pub const BASE_DELAY_MS: u64 = 200;

/// The wait grows by one millisecond per send and starts over after this many.
pub const DELAY_SPREAD: u64 = 150;

/// The protocol number of send `index`: the configured one, or `index mod 256`
/// when cycling.
pub open spec fn protocol_at(configured: i32, index: nat) -> int {
    if configured == CYCLE_ALL_PROTOCOLS {
        (index % 256) as int
    } else {
        configured as int
    }
}

/// The wait before send `index`, in milliseconds.
pub open spec fn delay_at(index: nat) -> nat {
    (BASE_DELAY_MS + index % (DELAY_SPREAD as nat)) as nat
}

/// The declared size of a frame on the wire: IP header allowance, frame
/// header and payload.
pub open spec fn frame_total(kind: FrameKind, payload_len: nat) -> nat {
    (IP_HEADER_ALLOWANCE + header_len_of(kind) + payload_len) as nat
}

/// The payload after `n` sends: `n` marker bytes.
pub open spec fn marker_payload(n: nat) -> Seq<u8> {
    Seq::new(n, |_i: int| MARKER_BYTE)
}

/// The protocol number that send `index` uses.
pub fn protocol_for_iteration(configured: i32, index: u64) -> (r: i32)
    ensures
        r == protocol_at(configured, index as nat),
{
    if configured == CYCLE_ALL_PROTOCOLS {
        (index % 256) as i32
    } else {
        configured
    }
}

/// The wait before send `index`, in milliseconds.
pub fn pacing_delay_ms(index: u64) -> (r: u64)
    ensures
        r == delay_at(index as nat),
{
    BASE_DELAY_MS + index % DELAY_SPREAD
}

/// The declared size of a frame of `kind` around `payload_len` bytes.
pub fn frame_byte_total(kind: FrameKind, payload_len: usize) -> (r: u64)
    requires
        frame_total(kind, payload_len as nat) <= u64::MAX,
    ensures
        r == frame_total(kind, payload_len as nat),
{
    IP_HEADER_ALLOWANCE + kind.header_len() as u64 + payload_len as u64
}

/// What a sender run is asked to do.
#[derive(Clone, Copy, Debug, PartialEq, Eq, Structural)]
pub struct SenderConfig {
    /// The last send index: the run makes `count + 1` sends.
    pub count: u32,
    /// The IP protocol number, or `CYCLE_ALL_PROTOCOLS`.
    pub protocol: i32,
    /// The frame shape of every send.
    pub kind: FrameKind,
}

/// One step of a run: which send it is, its protocol number and the wait
/// before it.
#[derive(Clone, Copy, Debug, PartialEq, Eq, Structural)]
pub struct Iteration {
    pub index: u64,
    pub protocol_number: i32,
    pub delay_ms: u64,
}

/// Why a send did not go out.
#[derive(Clone, Debug, PartialEq, Eq)]
pub enum SendFailure {
    /// No raw socket could be opened, with the system's reason.
    SocketCreationFailed(String),
    /// The transport refused the frame, with the system's reason.
    TransmitFailed(String),
}

/// The outcome of one send attempt.
#[derive(Clone, Debug, PartialEq, Eq)]
pub struct TransmissionRecord {
    pub protocol_number: i32,
    pub succeeded: bool,
    /// Send time, in microseconds since the Unix epoch, on success.
    pub send_time_us: Option<u128>,
    /// Declared size of the frame on the wire, on success.
    pub frame_byte_total: Option<u64>,
    /// Why the send failed, on failure.
    pub failure: Option<SendFailure>,
}

/// The state of a sender run.
pub struct Sender {
    config: SenderConfig,
    next_index: u64,
    payload: Vec<u8>,
}

impl Sender {
    /// The run's configuration.
    pub closed spec fn config_view(&self) -> SenderConfig {
        self.config
    }

    /// How many sends have begun.
    pub closed spec fn next_index_view(&self) -> nat {
        self.next_index as nat
    }

    /// The current payload.
    pub closed spec fn payload_view(&self) -> Seq<u8> {
        self.payload@
    }

    /// The run never goes past its last send, and its payload holds one
    /// marker byte per send begun.
    pub open spec fn wf(&self) -> bool {
        &&& self.next_index_view() <= self.config_view().count + 1
        &&& self.payload_view() == marker_payload(self.next_index_view())
    }

    /// A run that has sent nothing yet, with an empty payload.
    pub fn new(config: SenderConfig) -> (r: Sender)
        ensures
            r.wf(),
            r.config_view() == config,
            r.next_index_view() == 0,
            r.payload_view().len() == 0,
    {
        let r = Sender { config, next_index: 0, payload: Vec::new() };
        assert(r.payload@ =~= marker_payload(0));
        r
    }

    /// The run's configuration.
    pub fn config(&self) -> (r: SenderConfig)
        ensures
            r == self.config_view(),
    {
        self.config
    }

    /// Whether every send of the run has begun.
    pub fn is_done(&self) -> (r: bool)
        ensures
            r == (self.next_index_view() > self.config_view().count),
    {
        self.next_index > self.config.count as u64
    }

    /// Begins the next send: appends one marker byte to the payload and says
    /// which protocol number to use and how long to wait first.
    pub fn next_iteration(&mut self) -> (r: Iteration)
        requires
            old(self).wf(),
            old(self).next_index_view() <= old(self).config_view().count,
        ensures
            final(self).wf(),
            final(self).config_view() == old(self).config_view(),
            final(self).next_index_view() == old(self).next_index_view() + 1,
            final(self).payload_view() == old(self).payload_view().push(MARKER_BYTE),
            final(self).payload_view().len() == r.index + 1,
            r.index == old(self).next_index_view(),
            r.protocol_number == protocol_at(old(self).config_view().protocol, r.index as nat),
            r.delay_ms == delay_at(r.index as nat),
    {
        let index = self.next_index;
        let protocol_number = protocol_for_iteration(self.config.protocol, index);
        let delay_ms = pacing_delay_ms(index);
        self.payload.push(MARKER_BYTE);
        self.next_index = index + 1;
        assert(self.payload@ =~= marker_payload(self.next_index as nat));
        Iteration { index, protocol_number, delay_ms }
    }

    /// The current payload.
    pub fn payload(&self) -> (r: &[u8])
        ensures
            r@ == self.payload_view(),
    {
        self.payload.as_slice()
    }

    /// The frame that carries the current payload, stamped with `timestamp_ns`
    /// where the frame kind has a timestamp.
    pub fn frame(&self, timestamp_ns: u64) -> (r: Vec<u8>)
        ensures
            r@ == frame_bytes(self.config_view().kind, timestamp_ns, self.payload_view()),
    {
        encode(self.config.kind, self.payload.as_slice(), timestamp_ns)
    }

    /// The declared size on the wire of the frame that carries the current
    /// payload.
    pub fn frame_byte_total(&self) -> (r: u64)
        requires
            self.wf(),
        ensures
            r == frame_total(self.config_view().kind, self.payload_view().len()),
    {
        frame_byte_total(self.config.kind, self.payload.len())
    }

    /// The record of a send attempt: on success, `outcome` holds the send time
    /// in microseconds; on failure, the reason.
    pub fn record(&self, iteration: &Iteration, outcome: Result<u128, SendFailure>) -> (r:
        TransmissionRecord)
        requires
            self.wf(),
        ensures
            r.protocol_number == iteration.protocol_number,
            r.succeeded == outcome is Ok,
            outcome matches Ok(t) ==> {
                &&& r.send_time_us == Some(t)
                &&& r.frame_byte_total == Some(
                    frame_total(self.config_view().kind, self.payload_view().len()) as u64,
                )
                &&& r.failure is None
            },
            outcome matches Err(e) ==> {
                &&& r.send_time_us is None
                &&& r.frame_byte_total is None
                &&& r.failure == Some(e)
            },
    {
        match outcome {
            Ok(t) => TransmissionRecord {
                protocol_number: iteration.protocol_number,
                succeeded: true,
                send_time_us: Some(t),
                frame_byte_total: Some(self.frame_byte_total()),
                failure: None,
            },
            Err(e) => TransmissionRecord {
                protocol_number: iteration.protocol_number,
                succeeded: false,
                send_time_us: None,
                frame_byte_total: None,
                failure: Some(e),
            },
        }
    }
}

} // verus!
