//! The stream manager: allocation, lookup and teardown of per-stream reply
//! rendezvous points, keyed by the CAN-ID on which the replies arrive.
//!
//! The slot type is generic: the surrounding process installs whatever
//! one-shot rendezvous value it uses, and takes it back when a reply frame
//! is routed.

use std::collections::HashMap;

use vstd::prelude::*;

use crate::analog3::A3_ID_ADMIN_WIRES_BASE;

verus! {

broadcast use vstd::std_specs::hash::group_hash_axioms;

/// How many CAN-IDs the admin wire pool holds.
pub const WIRE_POOL_SIZE: u32 = 64;

/// What a stream operation can fail with.
#[derive(Debug, Clone, Copy, PartialEq, Eq, Structural)]
pub enum ErrorType {
    /// The stream id is already allocated, or the wire pool is exhausted.
    Busy,
    /// The stream id is not mapped.
    NoSuchStream,
    /// The stream exists but its slot was already taken and not rearmed.
    Stale,
}

/// A failed stream operation.
#[derive(Debug, Clone, Copy, PartialEq, Eq, Structural)]
pub struct StreamError {
    /// What went wrong.
    pub error_type: ErrorType,
}

impl StreamError {
    /// Wraps an error kind.
    pub fn new(error_type: ErrorType) -> (r: Self)
        ensures
            r.error_type == error_type,
    {
        Self { error_type }
    }
}

/// One outstanding multi-frame exchange: at most one armed reply slot.
pub struct Stream<T> {
    /// The installed reply slot; `None` after a reply was taken and before
    /// the stream is rearmed.
    pub stream_resp: Option<T>,
}

impl<T> Stream<T> {
    /// A stream with a freshly armed slot.
    pub fn new(stream_resp: T) -> (r: Self)
        ensures
            r.stream_resp == Some(stream_resp),
    {
        Self { stream_resp: Some(stream_resp) }
    }
}

/// Whether `stream_id` lies in the admin wire pool.
pub open spec fn in_wire_pool(stream_id: u32) -> bool {
    A3_ID_ADMIN_WIRES_BASE <= stream_id < A3_ID_ADMIN_WIRES_BASE + WIRE_POOL_SIZE
}

/// The table of outstanding streams.
pub struct StreamManager<T> {
    streams: HashMap<u32, Stream<T>>,
}

impl<T> StreamManager<T> {
    /// The table as a map from stream id to its (possibly taken) slot.
    pub closed spec fn slots(self) -> Map<u32, Option<T>> {
        self.streams@.map_values(|s: Stream<T>| s.stream_resp)
    }

    /// An empty table.
    pub fn new() -> (r: Self)
        ensures
            r.slots() == Map::<u32, Option<T>>::empty(),
    {
        let r = StreamManager { streams: HashMap::new() };
        proof {
            assert(r.slots() =~= Map::<u32, Option<T>>::empty());
        }
        r
    }

    /// Installs a stream under `stream_id` with an armed slot; refused
    /// with `Busy`, and nothing changes, exactly when the id is occupied.
    pub fn start_stream(&mut self, stream_id: u32, stream_resp: T) -> (r: Result<
        (),
        StreamError,
    >)
        ensures
            old(self).slots().contains_key(stream_id) ==> {
                &&& r == Err::<(), StreamError>(StreamError { error_type: ErrorType::Busy })
                &&& final(self).slots() == old(self).slots()
            },
            !old(self).slots().contains_key(stream_id) ==> {
                &&& r is Ok
                &&& final(self).slots() == old(self).slots().insert(
                    stream_id,
                    Some(stream_resp),
                )
            },
    {
        if self.streams.contains_key(&stream_id) {
            Err(StreamError::new(ErrorType::Busy))
        } else {
            self.streams.insert(stream_id, Stream::new(stream_resp));
            proof {
                assert(self.slots() =~= old(self).slots().insert(stream_id, Some(stream_resp)));
            }
            Ok(())
        }
    }

    /// Picks the smallest free id of the admin wire pool, installs a
    /// stream there, and returns the id; `Busy` when the pool is
    /// exhausted.  The returned id is the minimum of the pool's free set.
    pub fn create_wire(&mut self, stream_resp: T) -> (r: Result<u32, StreamError>)
        ensures
            match r {
                Ok(wire_id) => {
                    &&& in_wire_pool(wire_id)
                    &&& !old(self).slots().contains_key(wire_id)
                    &&& forall|w: u32|
                        A3_ID_ADMIN_WIRES_BASE <= w < wire_id ==> old(
                            self,
                        ).slots().contains_key(w)
                    &&& final(self).slots() == old(self).slots().insert(
                        wire_id,
                        Some(stream_resp),
                    )
                },
                Err(e) => {
                    &&& e.error_type == ErrorType::Busy
                    &&& forall|w: u32| in_wire_pool(w) ==> old(self).slots().contains_key(w)
                    &&& final(self).slots() == old(self).slots()
                },
            },
    {
        let mut offset: u32 = 0;
        while offset < WIRE_POOL_SIZE
            invariant
                offset <= WIRE_POOL_SIZE,
                forall|w: u32|
                    A3_ID_ADMIN_WIRES_BASE <= w < A3_ID_ADMIN_WIRES_BASE + offset
                        ==> self.slots().contains_key(w),
                self == old(self),
            decreases WIRE_POOL_SIZE - offset,
        {
            let wire_id = A3_ID_ADMIN_WIRES_BASE + offset;
            if !self.streams.contains_key(&wire_id) {
                let res = self.start_stream(wire_id, stream_resp);
                proof {
                    assert(res is Ok);
                }
                return match res {
                    Ok(()) => Ok(wire_id),
                    Err(e) => Err(e),
                };
            }
            offset = offset + 1;
        }
        Err(StreamError::new(ErrorType::Busy))
    }

    /// Takes the armed slot of `stream_id`.  `NoSuchStream` when the id is
    /// not mapped, `Stale` when its slot was already taken; the slot is
    /// disarmed on success and nothing else changes.
    pub fn get(&mut self, stream_id: u32) -> (r: Result<T, StreamError>)
        ensures
            match r {
                Ok(slot) => {
                    &&& old(self).slots().contains_key(stream_id)
                    &&& old(self).slots()[stream_id] == Some(slot)
                    &&& final(self).slots() == old(self).slots().insert(
                        stream_id,
                        None::<T>,
                    )
                },
                Err(e) => {
                    &&& final(self).slots() == old(self).slots()
                    &&& e.error_type == ErrorType::NoSuchStream ==> !old(
                        self,
                    ).slots().contains_key(stream_id)
                    &&& e.error_type == ErrorType::Stale ==> old(self).slots().contains_key(
                        stream_id,
                    ) && old(self).slots()[stream_id] is None
                    &&& (e.error_type == ErrorType::NoSuchStream || e.error_type
                        == ErrorType::Stale)
                },
            },
    {
        match self.streams.get(&stream_id) {
            Some(stream) => {
                match &stream.stream_resp {
                    Some(_) => {},
                    None => {
                        return Err(StreamError::new(ErrorType::Stale));
                    },
                }
            },
            None => {
                return Err(StreamError::new(ErrorType::NoSuchStream));
            },
        }
        // The entry exists and its slot is armed: take it.
        let taken = self.streams.insert(stream_id, Stream { stream_resp: None });
        proof {
            assert(self.slots() =~= old(self).slots().insert(stream_id, None::<T>));
        }
        match taken {
            Some(stream) => {
                match stream.stream_resp {
                    Some(resp) => Ok(resp),
                    None => {
                        proof {
                            assert(false);
                        }
                        Err(StreamError::new(ErrorType::Stale))
                    },
                }
            },
            None => {
                proof {
                    assert(false);
                }
                Err(StreamError::new(ErrorType::NoSuchStream))
            },
        }
    }

    /// Rearms an existing stream with a fresh slot, dropping any armed
    /// one; `NoSuchStream`, and no change, when the id is not mapped.
    pub fn continue_stream(&mut self, stream_id: u32, stream_resp: T) -> (r: Result<
        (),
        StreamError,
    >)
        ensures
            old(self).slots().contains_key(stream_id) ==> {
                &&& r is Ok
                &&& final(self).slots() == old(self).slots().insert(
                    stream_id,
                    Some(stream_resp),
                )
            },
            !old(self).slots().contains_key(stream_id) ==> {
                &&& r == Err::<(), StreamError>(StreamError {
                    error_type: ErrorType::NoSuchStream,
                })
                &&& final(self).slots() == old(self).slots()
            },
    {
        if self.streams.contains_key(&stream_id) {
            self.streams.insert(stream_id, Stream::new(stream_resp));
            proof {
                assert(self.slots() =~= old(self).slots().insert(stream_id, Some(stream_resp)));
            }
            Ok(())
        } else {
            Err(StreamError::new(ErrorType::NoSuchStream))
        }
    }

    /// Removes the stream under `stream_id`; `NoSuchStream` when the id is
    /// not mapped.  Either way the id is unmapped afterwards.
    pub fn terminate(&mut self, stream_id: u32) -> (r: Result<(), StreamError>)
        ensures
            final(self).slots() == old(self).slots().remove(stream_id),
            old(self).slots().contains_key(stream_id) ==> r is Ok,
            !old(self).slots().contains_key(stream_id) ==> r == Err::<(), StreamError>(
                StreamError { error_type: ErrorType::NoSuchStream },
            ),
    {
        let removed = self.streams.remove(&stream_id);
        proof {
            assert(self.slots() =~= old(self).slots().remove(stream_id));
        }
        match removed {
            Some(_) => Ok(()),
            None => Err(StreamError::new(ErrorType::NoSuchStream)),
        }
    }
}

/// After `start_stream` succeeds on a table `m`, a second start on the
/// same id is refused with `Busy` until the stream is terminated; after
/// the terminate, a start succeeds again.  The maps below are the tables
/// that the manager's contracts say those calls produce.
pub proof fn lemma_start_busy_until_terminate<T>(m: Map<u32, Option<T>>, k: u32, slot: T)
    requires
        !m.contains_key(k),
    ensures
        m.insert(k, Some(slot)).contains_key(k),
        !m.insert(k, Some(slot)).remove(k).contains_key(k),
{
}

} // verus!
