//! The mission-control protocol core: the inbound frame dispatcher and
//! the per-command protocol state machines.
//!
//! The machines here are pure: they take frames and timeouts in and hand
//! frames, delays and results out.  The surrounding process owns the
//! channels, the clock and the stream-manager actor, and drives each
//! machine step by step.

use vstd::prelude::*;

use crate::analog3::{
    A3_ADMIN_NOTIFY_ID, A3_ADMIN_REQ_UID_CANCEL, A3_ADMIN_SIGN_IN, A3_ID_ADMIN_WIRES_BASE,
    A3_ID_INDIVIDUAL_MODULE_BASE, A3_IM_ID_ASSIGN_ACK, A3_IM_REPLY_PING, A3_MC_CONTINUE_STREAM,
    A3_MC_MODIFY_CONFIG, A3_MC_REQUEST_CONFIG, A3_MC_REQUEST_NAME, A3_PROP_NAME,
};
use crate::config::{
    chunk_bytes, chunk_wf, complete_chunk, ChunkBuilder, Property, PropertyEncoder, PropertyView,
};
use crate::error::{AppError, ErrorType};
use crate::frame::CanMessage;
use crate::streams;
use crate::streams::in_wire_pool;
use crate::text::render_text;

verus! {

// Inbound dispatch /////////////////////////////////////////////////////

/// Where one inbound frame goes.
#[derive(Debug, Clone, Copy, PartialEq, Eq, Structural)]
pub enum Dispatch {
    /// An extended sign-in: the sender asks for a logical id.
    AdminSignIn {
        /// The sender's UID, taken from the frame's address.
        uid: u32,
    },
    /// An extended id notification: the sender asserts the id it holds.
    AdminNotifyId {
        /// The sender's UID.
        uid: u32,
        /// The asserted logical id.
        id: u8,
    },
    /// An extended deregistration request.
    AdminUidCancel {
        /// The UID to deregister.
        uid: u32,
    },
    /// A reply frame for the stream keyed by the frame's CAN-ID.
    StreamReply {
        /// The stream the reply belongs to.
        stream_id: u32,
    },
    /// Traffic this core tolerates and drops: MIDI ranges, unknown
    /// opcodes, frames without an opcode byte.
    Ignore,
}

/// The dispatch rule, as a function of the frame's address, its width
/// flag, and its payload.
pub open spec fn dispatch_of(id: u32, extended: bool, data_length: u8, data: Seq<u8>)
    -> Dispatch {
    if extended {
        if data_length == 0 {
            Dispatch::Ignore
        } else if data[0] == A3_ADMIN_SIGN_IN {
            Dispatch::AdminSignIn { uid: id }
        } else if data[0] == A3_ADMIN_NOTIFY_ID {
            if data_length >= 2 {
                Dispatch::AdminNotifyId { uid: id, id: data[1] }
            } else {
                Dispatch::Ignore
            }
        } else if data[0] == A3_ADMIN_REQ_UID_CANCEL {
            Dispatch::AdminUidCancel { uid: id }
        } else {
            Dispatch::Ignore
        }
    } else if id >= A3_ID_INDIVIDUAL_MODULE_BASE {
        if data_length == 0 {
            Dispatch::Ignore
        } else if data[0] == A3_IM_REPLY_PING || data[0] == A3_IM_ID_ASSIGN_ACK {
            Dispatch::StreamReply { stream_id: id }
        } else {
            Dispatch::Ignore
        }
    } else if id >= A3_ID_ADMIN_WIRES_BASE {
        Dispatch::StreamReply { stream_id: id }
    } else {
        Dispatch::Ignore
    }
}

/// Demultiplexes one inbound frame.  No frame asks for a registry
/// mutation unless it is extended and carries a recognized admin opcode
/// with the opcode byte present — and, for an id notification, the id
/// byte too.
pub fn classify_frame(m: &CanMessage) -> (r: Dispatch)
    requires
        m.wf(),
    ensures
        r == dispatch_of(m.id, m.extended, m.data_length, m.data@),
        (r is AdminSignIn || r is AdminNotifyId || r is AdminUidCancel) ==> (m.extended
            && m.data_length >= 1),
        r is AdminNotifyId ==> m.data_length >= 2,
{
    if m.is_extended() {
        if m.get_data_length() == 0 {
            return Dispatch::Ignore;
        }
        let opcode = m.get_data(0);
        if opcode == A3_ADMIN_SIGN_IN {
            Dispatch::AdminSignIn { uid: m.get_id() }
        } else if opcode == A3_ADMIN_NOTIFY_ID {
            if m.get_data_length() >= 2 {
                Dispatch::AdminNotifyId { uid: m.get_id(), id: m.get_data(1) }
            } else {
                Dispatch::Ignore
            }
        } else if opcode == A3_ADMIN_REQ_UID_CANCEL {
            Dispatch::AdminUidCancel { uid: m.get_id() }
        } else {
            Dispatch::Ignore
        }
    } else if m.get_id() >= A3_ID_INDIVIDUAL_MODULE_BASE {
        if m.get_data_length() == 0 {
            return Dispatch::Ignore;
        }
        let opcode = m.get_data(0);
        if opcode == A3_IM_REPLY_PING || opcode == A3_IM_ID_ASSIGN_ACK {
            Dispatch::StreamReply { stream_id: m.get_id() }
        } else {
            Dispatch::Ignore
        }
    } else if m.get_id() >= A3_ID_ADMIN_WIRES_BASE {
        Dispatch::StreamReply { stream_id: m.get_id() }
    } else {
        Dispatch::Ignore
    }
}

/// Maps a stream-manager refusal to the error a command returns: a busy
/// stream or exhausted pool surfaces as a stream conflict, the rest as
/// an internal fault.
pub fn stream_error_to_app_error(e: &streams::StreamError) -> (r: AppError)
    ensures
        e.error_type == streams::ErrorType::Busy ==> r.error_type == ErrorType::A3StreamConflict,
        e.error_type != streams::ErrorType::Busy ==> r.error_type == ErrorType::RuntimeError,
{
    match e.error_type {
        streams::ErrorType::Busy => AppError::new(
            ErrorType::A3StreamConflict,
            String::from_str("busy"),
        ),
        streams::ErrorType::NoSuchStream => AppError::new(
            ErrorType::RuntimeError,
            String::from_str("no such stream"),
        ),
        streams::ErrorType::Stale => AppError::new(
            ErrorType::RuntimeError,
            String::from_str("stale stream"),
        ),
    }
}

// ID assignment ////////////////////////////////////////////////////////

/// How long the ID-assignment machine waits for an acknowledgement on
/// its n-th attempt: 50 ms, doubled on every retry.
pub open spec fn retry_timeout_ms(attempt: nat) -> nat
    decreases attempt,
{
    if attempt == 0 {
        50
    } else {
        2 * retry_timeout_ms((attempt - 1) as nat)
    }
}

/// The ID-assignment state machine: confirm that an assigned logical id
/// has been accepted, retrying with a doubling timeout up to ten times.
pub struct IdAssign {
    /// The UID being assigned to.
    pub uid: u32,
    /// The candidate logical id.
    pub id: u8,
    /// How many attempts have timed out so far.
    pub attempt: u8,
    /// Whether the module has acknowledged the assignment.
    pub confirmed: bool,
}

impl IdAssign {
    /// The machine never counts past its ten attempts.
    pub open spec fn wf(&self) -> bool {
        self.attempt <= 10 && self.id >= 1
    }

    /// A fresh assignment of `id` to `uid`, no attempt made yet.
    pub fn new(uid: u32, id: u8) -> (r: Self)
        requires
            id >= 1,
        ensures
            r.wf(),
            r == (IdAssign { uid, id, attempt: 0, confirmed: false }),
    {
        IdAssign { uid, id, attempt: 0, confirmed: false }
    }

    /// The stream on which the module will acknowledge: its individual
    /// reply id.
    pub fn stream_id(&self) -> (r: u32)
        ensures
            r == A3_ID_INDIVIDUAL_MODULE_BASE + self.id,
    {
        self.id as u32 + A3_ID_INDIVIDUAL_MODULE_BASE
    }

    /// The assignment frame to send for the current attempt.
    pub fn request_frame(&self) -> (r: CanMessage)
        ensures
            r.wf(),
            r.id == crate::analog3::A3_ID_MISSION_CONTROL,
            !r.extended,
            !r.remote,
            r.data_length == 6,
            r.data@[0] == crate::analog3::A3_MC_ASSIGN_MODULE_ID,
            r.data@[1] == (self.uid >> 24) as u8,
            r.data@[2] == (self.uid >> 16) as u8,
            r.data@[3] == (self.uid >> 8) as u8,
            r.data@[4] == self.uid as u8,
            r.data@[5] == self.id,
    {
        crate::frame::assign_module_id(self.uid, self.id)
    }

    /// How long to wait for the acknowledgement of the current attempt.
    pub fn timeout_ms(&self) -> (r: u64)
        requires
            self.wf(),
        ensures
            r == retry_timeout_ms(self.attempt as nat),
    {
        proof {
            reveal_with_fuel(retry_timeout_ms, 12);
        }
        match self.attempt {
            0 => 50,
            1 => 100,
            2 => 200,
            3 => 400,
            4 => 800,
            5 => 1600,
            6 => 3200,
            7 => 6400,
            8 => 12800,
            9 => 25600,
            _ => 51200,
        }
    }

    /// The acknowledgement arrived: the assignment is confirmed and the
    /// binding may be registered definitively.
    pub fn on_ack(&mut self)
        ensures
            *final(self) == (IdAssign { confirmed: true, ..*old(self) }),
    {
        self.confirmed = true;
    }

    /// The current attempt timed out.  Counts the attempt and says
    /// whether another one is allowed; after the tenth, the machine
    /// gives up and the speculative mapping stays for a later sign-in.
    pub fn on_timeout(&mut self) -> (retry: bool)
        requires
            old(self).wf(),
            old(self).attempt < 10,
            !old(self).confirmed,
        ensures
            final(self).wf(),
            *final(self) == (IdAssign { attempt: (old(self).attempt + 1) as u8, ..*old(self) }),
            retry == (final(self).attempt < 10),
    {
        self.attempt = self.attempt + 1;
        self.attempt < 10
    }
}

// Stream status ////////////////////////////////////////////////////////

/// The status byte a wire's first reply carries.
#[derive(Debug, Clone, Copy, PartialEq, Eq, Structural)]
pub enum StreamStatus {
    /// The module is ready to stream.
    Ready,
    /// The module cannot serve the stream now.
    Busy,
    /// The module does not support the request.
    NotSupported,
    /// The module knows no such stream.
    NoSuchStream,
}

/// Reads a status byte; bytes past the defined range are `None`.
pub fn stream_status_from_byte(b: u8) -> (r: Option<StreamStatus>)
    ensures
        b == 0 ==> r == Some(StreamStatus::Ready),
        b == 1 ==> r == Some(StreamStatus::Busy),
        b == 2 ==> r == Some(StreamStatus::NotSupported),
        b == 3 ==> r == Some(StreamStatus::NoSuchStream),
        b > 3 ==> r is None,
{
    match b {
        0 => Some(StreamStatus::Ready),
        1 => Some(StreamStatus::Busy),
        2 => Some(StreamStatus::NotSupported),
        3 => Some(StreamStatus::NoSuchStream),
        _ => None,
    }
}

/// How long a command waits for a bus reply before giving up.
pub const DEFAULT_TIMEOUT_MS: u64 = 10000;

/// The pure part of a ping: the stream to arm and the frame to send.
/// The caller awaits one reply on the stream and terminates it on every
/// exit path.
pub fn ping_request(id: u8, enable_visual: bool) -> (r: (u32, CanMessage))
    ensures
        r.0 == A3_ID_INDIVIDUAL_MODULE_BASE + id,
        r.1.wf(),
        r.1.id == crate::analog3::A3_ID_MISSION_CONTROL,
        !r.1.extended,
        !r.1.remote,
        r.1.data_length == (if enable_visual { 3int } else { 2int }),
        r.1.data@[0] == crate::analog3::A3_MC_PING,
        r.1.data@[1] == id,
        enable_visual ==> r.1.data@[2] == 1,
{
    (id as u32 + A3_ID_INDIVIDUAL_MODULE_BASE, crate::frame::ping(id, enable_visual))
}

// Pull exchanges: get-name and get-config //////////////////////////////

/// How long the puller sleeps before re-requesting after the n-th busy
/// answer: 100 ms, doubled each time.
pub open spec fn busy_delay_ms(retries: nat) -> nat
    decreases retries,
{
    if retries == 0 {
        100
    } else {
        2 * busy_delay_ms((retries - 1) as nat)
    }
}

/// What the puller asks of its driver after one reply frame.
#[derive(Debug)]
pub enum PullStep {
    /// The module was busy: sleep `delay_ms`, rearm the wire, and send
    /// the request again.
    Resend {
        /// The request frame to repeat.
        frame: CanMessage,
        /// How long to back off first.
        delay_ms: u64,
    },
    /// Rearm the wire and send this continue frame, then await the next
    /// reply.
    Continue {
        /// The continue frame to send.
        frame: CanMessage,
    },
    /// The chunk is complete: the exchange is over.
    Done {
        /// The decoded properties.
        properties: Vec<Property>,
    },
    /// The exchange failed; the caller terminates the wire.
    Fail {
        /// What to return to the operator.
        error: AppError,
    },
}

/// The pull protocol machine shared by get-name and get-config: request
/// a stream on an admin wire, pass the initial status byte, then pull
/// frame after frame into the chunk decoder.
#[derive(Debug)]
pub struct PullExchange {
    id: u8,
    wire_id: u32,
    request_opcode: u8,
    awaiting_status: bool,
    retries: u8,
    parser: ChunkBuilder,
    finished: bool,
}

impl PullExchange {
    /// The machine's internal consistency.
    pub closed spec fn wf(&self) -> bool {
        &&& in_wire_pool(self.wire_id)
        &&& self.retries <= 3
        &&& self.parser.wf()
        &&& (!self.finished ==> !self.parser.built() && !self.parser.complete())
    }

    /// Whether the machine has returned `Done` or `Fail`.
    pub closed spec fn finished(&self) -> bool {
        self.finished
    }

    /// Whether the machine still waits for the initial status byte.
    pub closed spec fn awaiting_status(&self) -> bool {
        self.awaiting_status
    }

    /// How many busy answers have been tolerated so far.
    pub closed spec fn retries(&self) -> nat {
        self.retries as nat
    }

    /// The bytes fed to the chunk decoder so far.
    pub closed spec fn consumed(&self) -> Seq<u8> {
        self.parser.consumed()
    }

    /// How many fields the decoder expects.
    pub closed spec fn target(&self) -> nat {
        self.parser.target()
    }

    /// Whether the decoder has seen its field-count header.
    pub closed spec fn header_read(&self) -> bool {
        self.parser.header_read()
    }

    /// The admin wire the exchange runs on.
    pub closed spec fn spec_wire_id(&self) -> u32 {
        self.wire_id
    }

    /// The module the exchange talks to.
    pub closed spec fn spec_id(&self) -> u8 {
        self.id
    }

    /// The wire's address within the pool, as it travels in request
    /// payloads.
    pub open spec fn wire_addr(&self) -> u8 {
        (self.spec_wire_id() - A3_ID_ADMIN_WIRES_BASE) as u8
    }

    /// The opcode the exchange requests with.
    pub closed spec fn opcode(&self) -> u8 {
        self.request_opcode
    }

    /// A get-name exchange for module `id` on `wire_id`: the reply is a
    /// single field with an implicit count of one.
    pub fn for_get_name(id: u8, wire_id: u32) -> (r: Self)
        requires
            in_wire_pool(wire_id),
        ensures
            r.wf(),
            !r.finished(),
            r.awaiting_status(),
            r.retries() == 0,
            r.spec_id() == id,
            r.spec_wire_id() == wire_id,
            r.target() == 1,
            r.header_read(),
            r.consumed() == seq![1u8],
            r.opcode() == A3_MC_REQUEST_NAME,
    {
        PullExchange {
            id,
            wire_id,
            request_opcode: A3_MC_REQUEST_NAME,
            awaiting_status: true,
            retries: 0,
            parser: ChunkBuilder::for_single_field(),
            finished: false,
        }
    }

    /// A get-config exchange for module `id` on `wire_id`: the reply is
    /// a whole chunk, field count first.
    pub fn for_get_config(id: u8, wire_id: u32) -> (r: Self)
        requires
            in_wire_pool(wire_id),
        ensures
            r.wf(),
            !r.finished(),
            r.awaiting_status(),
            r.retries() == 0,
            r.spec_id() == id,
            r.spec_wire_id() == wire_id,
            r.consumed() == Seq::<u8>::empty(),
            r.opcode() == A3_MC_REQUEST_CONFIG,
    {
        PullExchange {
            id,
            wire_id,
            request_opcode: A3_MC_REQUEST_CONFIG,
            awaiting_status: true,
            retries: 0,
            parser: ChunkBuilder::new(),
            finished: false,
        }
    }

    /// The request frame that opens (or, after a busy answer, reopens)
    /// the exchange.
    pub fn request_frame(&self) -> (r: CanMessage)
        requires
            self.wf(),
        ensures
            r.wf(),
            r.id == crate::analog3::A3_ID_MISSION_CONTROL,
            !r.extended,
            !r.remote,
            r.data_length == 3,
            r.data@[0] == self.opcode(),
            r.data@[1] == self.spec_id(),
            r.data@[2] == self.wire_addr(),
    {
        crate::frame::make_wire_request(
            self.request_opcode,
            self.id,
            (self.wire_id - A3_ID_ADMIN_WIRES_BASE) as u8,
        )
    }

    /// Feeds one reply frame.  During the status phase a ready byte
    /// moves to pulling, a busy byte backs off up to three times and
    /// then surfaces a stream conflict, and anything else is a protocol
    /// error.  While pulling, payload bytes go to the decoder until the
    /// chunk completes: the finished properties serialize to exactly
    /// the bytes consumed so far plus the final frame's contribution.
    pub fn on_frame(&mut self, m: &CanMessage) -> (r: PullStep)
        requires
            old(self).wf(),
            !old(self).finished(),
            m.wf(),
        ensures
            final(self).wf(),
            final(self).spec_id() == old(self).spec_id(),
            final(self).spec_wire_id() == old(self).spec_wire_id(),
            final(self).opcode() == old(self).opcode(),
            !(r is Resend) ==> final(self).retries() == old(self).retries(),
            old(self).awaiting_status() ==> final(self).consumed() == old(self).consumed()
                && final(self).header_read() == old(self).header_read() && final(self).target()
                == old(self).target(),
            old(self).header_read() ==> final(self).header_read() && final(self).target() == old(
                self,
            ).target(),
            m.data_length == 0 ==> (r matches PullStep::Fail { error } && error.error_type
                == ErrorType::RuntimeError),
            old(self).awaiting_status() && m.data_length >= 1 ==> {
                &&& (m.data@[0] == 0 ==> r is Continue)
                &&& (m.data@[0] == 1 && old(self).retries() < 3 ==> r is Resend)
                &&& (m.data@[0] == 1 && old(self).retries() == 3 ==> (r matches PullStep::Fail {
                    error,
                } && error.error_type == ErrorType::A3StreamConflict))
                &&& (m.data@[0] >= 2 ==> (r matches PullStep::Fail { error } && error.error_type
                    == ErrorType::RuntimeError))
            },
            !old(self).awaiting_status() && m.data_length >= 1 ==> (r is Done || r is Continue),
            match r {
                PullStep::Resend { frame, delay_ms } => {
                    &&& old(self).awaiting_status()
                    &&& m.data_length >= 1 && m.data@[0] == 1
                    &&& old(self).retries() < 3
                    &&& final(self).retries() == old(self).retries() + 1
                    &&& final(self).awaiting_status()
                    &&& !final(self).finished()
                    &&& delay_ms == busy_delay_ms(old(self).retries())
                    &&& frame.wf() && frame.id == crate::analog3::A3_ID_MISSION_CONTROL
                        && !frame.extended && !frame.remote && frame.data_length == 3
                        && frame.data@[0] == old(self).opcode() && frame.data@[1] == old(
                        self,
                    ).spec_id() && frame.data@[2] == old(self).wire_addr()
                    &&& final(self).consumed() == old(self).consumed()
                },
                PullStep::Continue { frame } => {
                    &&& !final(self).finished() && !final(self).awaiting_status()
                    &&& frame.wf() && frame.id == crate::analog3::A3_ID_MISSION_CONTROL
                        && !frame.extended && !frame.remote && frame.data_length == 3
                        && frame.data@[0] == A3_MC_CONTINUE_STREAM && frame.data@[1] == old(
                        self,
                    ).spec_id() && frame.data@[2] == old(self).wire_addr()
                    &&& (old(self).awaiting_status() ==> m.data_length >= 1 && m.data@[0] == 0
                        && final(self).consumed() == old(self).consumed())
                    &&& (!old(self).awaiting_status() ==> m.data_length >= 1 && final(self).consumed() == old(self).consumed() + m.data@.take(m.data_length as int)
                        && !complete_chunk(final(self).consumed()))
                },
                PullStep::Done { properties } => {
                    &&& final(self).finished()
                    &&& !old(self).awaiting_status()
                    &&& m.data_length >= 1
                    &&& chunk_wf(properties@.map_values(|p: Property| p@))
                    &&& ({
                        let encoded = chunk_bytes(properties@.map_values(|p: Property| p@));
                        &&& encoded.len() >= old(self).consumed().len()
                        &&& encoded.len() <= old(self).consumed().len() + m.data_length
                        &&& encoded == old(self).consumed() + m.data@.take(
                            encoded.len() - old(self).consumed().len(),
                        )
                    })
                    &&& (old(self).header_read() ==> properties@.len() == old(self).target())
                },
                PullStep::Fail { error } => {
                    &&& final(self).finished()
                    &&& (error.error_type == ErrorType::A3StreamConflict ==> old(self).awaiting_status() && old(self).retries() == 3 && m.data_length >= 1
                        && m.data@[0] == 1)
                    &&& (error.error_type != ErrorType::A3StreamConflict
                        ==> error.error_type == ErrorType::RuntimeError)
                },
            },
    {
        if self.awaiting_status {
            if m.get_data_length() == 0 {
                self.finished = true;
                return PullStep::Fail {
                    error: AppError::runtime("zero-length data received"),
                };
            }
            let status = m.get_data(0);
            if status == 0 {
                self.awaiting_status = false;
                return PullStep::Continue {
                    frame: crate::frame::continue_stream(
                        self.id,
                        (self.wire_id - A3_ID_ADMIN_WIRES_BASE) as u8,
                    ),
                };
            }
            if status == 1 {
                if self.retries < 3 {
                    let delay_ms: u64 = match self.retries {
                        0 => 100,
                        1 => 200,
                        _ => 400,
                    };
                    proof {
                        reveal_with_fuel(busy_delay_ms, 4);
                        assert(delay_ms == busy_delay_ms(old(self).retries()));
                    }
                    self.retries = self.retries + 1;
                    let frame = self.request_frame();
                    proof {
                        assert(self.retries() == old(self).retries() + 1);
                        assert(self.awaiting_status());
                        assert(!self.finished());
                        assert(self.consumed() == old(self).consumed());
                        assert(frame.wf() && frame.id == crate::analog3::A3_ID_MISSION_CONTROL);
                        assert(frame.data_length == 3);
                        assert(frame.data@[1] == old(self).spec_id());
                        assert(frame.data@[2] == old(self).wire_addr());
                        assert(self.wf());
                        assert(old(self).awaiting_status());
                        assert(old(self).retries() < 3);
                        assert(m.data_length >= 1);
                        assert(m.data@[0] == 1);
                        assert(!frame.extended && !frame.remote);
                    }
                    return PullStep::Resend { frame, delay_ms };
                }
                self.finished = true;
                return PullStep::Fail {
                    error: AppError::new(
                        ErrorType::A3StreamConflict,
                        String::from_str("busy"),
                    ),
                };
            }
            self.finished = true;
            return PullStep::Fail {
                error: AppError::runtime("unexpected stream status"),
            };
        }
        let size = m.get_data_length() as usize;
        if size < 1 {
            self.finished = true;
            return PullStep::Fail {
                error: AppError::runtime("zero-length data received"),
            };
        }
        let fed = self.parser.data(m.data().as_slice(), size);
        match fed {
            Ok(is_done) => {
                if is_done {
                    let ghost consumed_now = self.parser.consumed();
                    let ghost parser_before = self.parser;
                    match self.parser.build() {
                        Ok(properties) => {
                            proof {
                                let views = properties@.map_values(|p: Property| p@);
                                assert(views.len() == properties@.len());
                                assert(chunk_bytes(views) == consumed_now);
                                assert(old(self).consumed() =~= consumed_now.subrange(
                                    0,
                                    old(self).consumed().len() as int,
                                ));
                                assert(old(self).consumed().is_prefix_of(chunk_bytes(views)));
                            }
                            self.finished = true;
                            PullStep::Done { properties }
                        },
                        Err(_) => {
                            proof {
                                assert(false);
                            }
                            self.finished = true;
                            PullStep::Fail {
                                error: AppError::runtime("Data parsing failed"),
                            }
                        },
                    }
                } else {
                    PullStep::Continue {
                        frame: crate::frame::continue_stream(
                            self.id,
                            (self.wire_id - A3_ID_ADMIN_WIRES_BASE) as u8,
                        ),
                    }
                }
            },
            Err(_) => {
                proof {
                    assert(false);
                }
                self.finished = true;
                PullStep::Fail {
                    error: AppError::runtime("Data parsing failed"),
                }
            },
        }
    }
}

/// The name that a completed get-name chunk carries: its single field's
/// bytes, rendered as text.
pub fn name_from_properties(props: &Vec<Property>) -> (r: Result<String, AppError>)
    ensures
        props@.len() >= 1 ==> r is Ok && r->Ok_0@ == render_text(props@[0]@.data),
        props@.len() == 0 ==> r is Err && r->Err_0.error_type == ErrorType::RuntimeError,
{
    if props.len() == 0 {
        return Err(AppError::runtime("empty reply"));
    }
    match props[0].get_value_as_string() {
        Ok(name) => Ok(name),
        Err(_) => {
            proof {
                assert(false);
            }
            Err(AppError::runtime("Detected corrupted data"))
        },
    }
}

// Push exchange: set-config ////////////////////////////////////////////

/// The push protocol machine behind set-config: open a modify stream on
/// an admin wire, then answer each solicitation with the next window of
/// the encoded property chunk.
#[derive(Debug)]
pub struct PushExchange {
    id: u8,
    wire_id: u32,
    encoder: PropertyEncoder,
}

impl PushExchange {
    /// The machine's internal consistency.
    pub closed spec fn wf(&self) -> bool {
        in_wire_pool(self.wire_id) && self.encoder.wf()
    }

    /// The bytes still to push.
    pub closed spec fn remaining(&self) -> Seq<u8> {
        self.encoder.remaining()
    }

    /// The whole stream being pushed.
    pub closed spec fn stream(&self) -> Seq<u8> {
        self.encoder.stream()
    }

    /// The admin wire the exchange runs on.
    pub closed spec fn spec_wire_id(&self) -> u32 {
        self.wire_id
    }

    /// The module the exchange talks to.
    pub closed spec fn spec_id(&self) -> u8 {
        self.id
    }

    /// A set-config exchange pushing `props` to module `id` over
    /// `wire_id`.
    pub fn for_set_config(id: u8, wire_id: u32, props: &Vec<Property>) -> (r: Self)
        requires
            in_wire_pool(wire_id),
            chunk_wf(props@.map_values(|p: Property| p@)),
        ensures
            r.wf(),
            r.spec_wire_id() == wire_id,
            r.spec_id() == id,
            r.stream() == chunk_bytes(props@.map_values(|p: Property| p@)),
            r.remaining() == r.stream(),
    {
        PushExchange { id, wire_id, encoder: PropertyEncoder::new(props) }
    }

    /// The frame that opens the push.
    pub fn request_frame(&self) -> (r: CanMessage)
        requires
            self.wf(),
        ensures
            r.wf(),
            r.id == crate::analog3::A3_ID_MISSION_CONTROL,
            !r.extended,
            !r.remote,
            r.data_length == 3,
            r.data@[0] == A3_MC_MODIFY_CONFIG,
            r.data@[1] == self.spec_id(),
            r.data@[2] == (self.spec_wire_id() - A3_ID_ADMIN_WIRES_BASE) as u8,
    {
        crate::frame::modify_config(self.id, (self.wire_id - A3_ID_ADMIN_WIRES_BASE) as u8)
    }

    /// Whether every byte of the chunk has been handed out.
    pub fn is_done(&self) -> (r: bool)
        requires
            self.wf(),
        ensures
            r == (self.remaining().len() == 0),
    {
        self.encoder.is_done()
    }

    /// Answers one solicitation: the next window of the chunk, addressed
    /// to the wire, and whether more frames will follow.
    pub fn on_solicit(&mut self) -> (r: (CanMessage, bool))
        requires
            old(self).wf(),
            old(self).remaining().len() > 0,
        ensures
            final(self).wf(),
            final(self).spec_wire_id() == old(self).spec_wire_id(),
            final(self).stream() == old(self).stream(),
            r.0.wf(),
            r.0.id == old(self).spec_wire_id(),
            !r.0.extended,
            !r.0.remote,
            r.0.data_length as int == (if old(self).remaining().len() < 8 {
                old(self).remaining().len() as int
            } else {
                8int
            }),
            r.0.data@.take(r.0.data_length as int) == old(self).remaining().take(
                r.0.data_length as int,
            ),
            final(self).remaining() == old(self).remaining().skip(r.0.data_length as int),
            r.1 == (final(self).remaining().len() > 0),
    {
        let mut out = CanMessage::new();
        out.set_id(self.wire_id);
        out.set_extended(false);
        out.set_remote(false);
        let mut buf: Vec<u8> = Vec::new();
        let mut k: usize = 0;
        while k < 8
            invariant
                k <= 8,
                buf@ =~= Seq::new(k as nat, |j: int| 0u8),
            decreases 8 - k,
        {
            buf.push(0u8);
            k = k + 1;
        }
        let written = self.encoder.flush(&mut buf);
        let mut j: usize = 0;
        while j < written
            invariant
                j <= written,
                written <= 8,
                written <= buf@.len(),
                buf@.len() == 8,
                out.wf(),
                out.id == old(self).spec_wire_id(),
                !out.extended,
                !out.remote,
                forall|t: int| 0 <= t < j ==> out.data@[t] == buf@[t],
            decreases written - j,
        {
            let b = buf[j];
            out.set_data(j, b);
            j = j + 1;
        }
        out.set_data_length(written as u8);
        proof {
            assert(out.data@.take(written as int) =~= buf@.take(written as int));
            assert(buf@.take(written as int) =~= old(self).remaining().take(written as int));
        }
        let more = !self.encoder.is_done();
        (out, more)
    }
}

// Registry updates drawn from configuration pulls //////////////////////

/// The first property carrying the given id, if any.
pub open spec fn first_prop_with_id(ps: Seq<PropertyView>, id: u8) -> Option<PropertyView>
    decreases ps.len(),
{
    if ps.len() == 0 {
        None
    } else if ps[0].id == id {
        Some(ps[0])
    } else {
        first_prop_with_id(ps.drop_first(), id)
    }
}

/// The name carried by the first name property of a chunk, rendered as
/// text; `None` when the chunk names nothing.  Set-config mirrors this
/// into the registry after a successful push.
pub fn name_property_of(props: &Vec<Property>) -> (r: Option<String>)
    ensures
        match first_prop_with_id(props@.map_values(|p: Property| p@), A3_PROP_NAME) {
            Some(p) => r is Some && r->0@ == render_text(p.data),
            None => r is None,
        },
{
    let ghost views = props@.map_values(|p: Property| p@);
    let mut i: usize = 0;
    proof {
        assert(views.skip(0) =~= views);
    }
    while i < props.len()
        invariant
            i <= props@.len(),
            views == props@.map_values(|p: Property| p@),
            first_prop_with_id(views.skip(i as int), A3_PROP_NAME) == first_prop_with_id(
                views,
                A3_PROP_NAME,
            ),
        decreases props@.len() - i,
    {
        proof {
            assert(views.skip(i as int)[0] == views[i as int]);
            assert(views.skip(i as int).drop_first() =~= views.skip(i as int + 1));
        }
        let p = &props[i];
        if p.id == A3_PROP_NAME {
            return Some(crate::text::render_text_string(p.data.as_slice()));
        }
        i = i + 1;
    }
    proof {
        assert(views.skip(props@.len() as int) =~= Seq::<PropertyView>::empty());
    }
    None
}

/// What a finished get-config pull writes back to the registry: the
/// name property if the chunk carries one, and the resolved module type
/// name and id when the chunk declares a known type.
pub fn registry_update_of(config: &crate::config::Configuration) -> (r: (
    Option<String>,
    Option<String>,
    Option<u16>,
))
    ensures
        match first_prop_with_id(config.props(), A3_PROP_NAME) {
            Some(p) => r.0 is Some && r.0->0@ == render_text(p.data),
            None => r.0 is None,
        },
        config.module_type != crate::schema::UNKNOWN_MODULE_TYPE ==> {
            &&& r.1 is Some && r.1->0@ == config.module_type_name@
            &&& r.2 == Some(config.module_type)
        },
        config.module_type == crate::schema::UNKNOWN_MODULE_TYPE ==> r.1 is None && r.2 is None,
{
    let name = name_property_of(&config.properties);
    if config.module_type != crate::schema::UNKNOWN_MODULE_TYPE {
        (name, Some(config.module_type_name.clone()), Some(config.module_type))
    } else {
        (name, None, None)
    }
}

} // verus!
