//! The requests for file contents that a paste has in flight.
//!
//! A paste blocks until its bytes arrive; they are three hops away. Requests
//! are numbered, so that several can be in flight, and every wait ends: with the
//! bytes, with a refusal, when the session ends, or at its deadline. What is
//! kept here is the bookkeeping; blocking and waking are the caller's.

use std::collections::HashMap;
use vstd::prelude::*;

verus! {

broadcast use vstd::std_specs::hash::group_hash_axioms;

/// At most this many requests are in flight at once.
pub const MAX_IN_FLIGHT: usize = 256;

/// Why a chunk did not arrive.
#[derive(Debug, Clone, Copy, PartialEq, Eq, Structural)]
pub enum ChunkError {
    /// The remote end refused, or could not read it.
    Refused,
    /// Nothing arrived before the deadline.
    TimedOut,
    /// The session ended while the read was waiting.
    Disconnected,
    /// Too many reads are in flight already.
    TooManyRequests,
}

/// The requests in flight, each with its answer once there is one.
pub struct ChunkBridge {
    slots: HashMap<u32, Option<Result<Vec<u8>, ChunkError>>>,
    closed: bool,
    next_stream_id: u32,
}

/// What a bridge holds.
pub ghost struct BridgeState {
    /// Each request in flight: none while it is unanswered.
    pub slots: Map<u32, Option<Result<Seq<u8>, ChunkError>>>,
    /// The session has ended.
    pub closed: bool,
    /// The number that was given out last.
    pub last: u32,
}

/// An answer, by what it holds.
pub open spec fn answer(slot: Option<Result<Vec<u8>, ChunkError>>) -> Option<
    Result<Seq<u8>, ChunkError>,
> {
    match slot {
        None => None,
        Some(Ok(bytes)) => Some(Ok(bytes@)),
        Some(Err(error)) => Some(Err(error)),
    }
}

/// The number after this one, from the greatest on to zero.
pub open spec fn number_after(last: u32) -> u32 {
    if last == u32::MAX {
        0
    } else {
        (last + 1) as u32
    }
}

impl BridgeState {
    /// What asking for a number gives.
    pub open spec fn begun(self) -> Result<u32, ChunkError> {
        if self.closed {
            Err(ChunkError::Disconnected)
        } else if self.slots.len() >= MAX_IN_FLIGHT {
            Err(ChunkError::TooManyRequests)
        } else {
            Ok(number_after(self.last))
        }
    }

    /// The bridge once a number has been asked for.
    pub open spec fn after_begin(self) -> BridgeState {
        match self.begun() {
            Ok(id) => BridgeState { slots: self.slots.insert(id, None), last: id, ..self },
            Err(_) => self,
        }
    }

    /// What a wait ends with, or nothing while it goes on. An answer that is
    /// there counts even after the session ended or the deadline passed.
    pub open spec fn waited(self, id: u32, deadline_passed: bool) -> Option<
        Result<Seq<u8>, ChunkError>,
    > {
        if !self.slots.contains_key(id) {
            Some(Err(ChunkError::Refused))
        } else if self.slots[id] is Some {
            self.slots[id]
        } else if self.closed {
            Some(Err(ChunkError::Disconnected))
        } else if deadline_passed {
            Some(Err(ChunkError::TimedOut))
        } else {
            None
        }
    }

    /// The bridge after a look at a wait: one that ended is no longer in
    /// flight.
    pub open spec fn after_wait(self, id: u32, deadline_passed: bool) -> BridgeState {
        if self.waited(id, deadline_passed) is Some {
            BridgeState { slots: self.slots.remove(id), ..self }
        } else {
            self
        }
    }

    /// The bridge once a chunk, or a refusal, has arrived. One that nobody
    /// waits for any more is dropped.
    pub open spec fn after_deliver(self, id: u32, data: Option<Seq<u8>>) -> BridgeState {
        if self.slots.contains_key(id) {
            BridgeState {
                slots: self.slots.insert(
                    id,
                    Some(
                        match data {
                            Some(bytes) => Ok(bytes),
                            None => Err(ChunkError::Refused),
                        },
                    ),
                ),
                ..self
            }
        } else {
            self
        }
    }

    /// The bridge once the session has ended.
    pub open spec fn after_close(self) -> BridgeState {
        BridgeState { closed: true, ..self }
    }

    /// Whether no more requests are in flight than may be.
    pub open spec fn wf(self) -> bool {
        self.slots.dom().finite() && self.slots.len() <= MAX_IN_FLIGHT
    }
}

impl View for ChunkBridge {
    type V = BridgeState;

    closed spec fn view(&self) -> BridgeState {
        BridgeState {
            slots: Map::new(
                |id: u32| self.slots@.contains_key(id),
                |id: u32| answer(self.slots@[id]),
            ),
            closed: self.closed,
            last: self.next_stream_id,
        }
    }
}

impl ChunkBridge {
    /// A bridge with nothing in flight.
    pub fn new() -> (r: ChunkBridge)
        ensures
            r@.wf(),
            r@.slots == Map::<u32, Option<Result<Seq<u8>, ChunkError>>>::empty(),
            !r@.closed,
            r@.last == 0,
    {
        let r = ChunkBridge { slots: HashMap::new(), closed: false, next_stream_id: 0 };
        assert(r@.slots =~= Map::empty());
        r
    }

    /// Reserves a number for a request and counts it as in flight. This comes
    /// before the request is sent, so that an answer always finds its place.
    pub fn begin(&mut self) -> (r: Result<u32, ChunkError>)
        requires
            old(self)@.wf(),
        ensures
            r == old(self)@.begun(),
            final(self)@ == old(self)@.after_begin(),
            final(self)@.wf(),
    {
        proof {
            assert(self@.slots.dom() =~= self.slots@.dom());
        }
        if self.closed {
            return Err(ChunkError::Disconnected);
        }
        if self.slots.len() >= MAX_IN_FLIGHT {
            return Err(ChunkError::TooManyRequests);
        }
        let ghost before = self@;
        let id: u32 = if self.next_stream_id == u32::MAX {
            0
        } else {
            self.next_stream_id + 1
        };
        self.next_stream_id = id;
        self.slots.insert(id, None);
        assert(self@.slots =~= before.slots.insert(id, None));
        Ok(id)
    }

    /// Looks whether a wait has ended, and with what. While it goes on, the
    /// caller sleeps and looks again.
    pub fn wait(&mut self, stream_id: u32, deadline_passed: bool) -> (r: Option<
        Result<Vec<u8>, ChunkError>,
    >)
        requires
            old(self)@.wf(),
        ensures
            answer(r) == old(self)@.waited(stream_id, deadline_passed),
            final(self)@ == old(self)@.after_wait(stream_id, deadline_passed),
            final(self)@.wf(),
    {
        let ghost before = self@;
        proof {
            assert(self@.slots.dom() =~= self.slots@.dom());
        }
        let answered: bool = match self.slots.get(&stream_id) {
            Some(slot) => slot.is_some(),
            None => {
                assert(before.slots.remove(stream_id) =~= before.slots);
                return Some(Err(ChunkError::Refused));
            },
        };
        if answered {
            let taken = self.slots.remove(&stream_id);
            assert(self@.slots =~= before.slots.remove(stream_id));
            return match taken {
                Some(slot) => slot,
                None => Some(Err(ChunkError::Refused)),
            };
        }
        if self.closed {
            self.slots.remove(&stream_id);
            assert(self@.slots =~= before.slots.remove(stream_id));
            return Some(Err(ChunkError::Disconnected));
        }
        if deadline_passed {
            self.slots.remove(&stream_id);
            assert(self@.slots =~= before.slots.remove(stream_id));
            return Some(Err(ChunkError::TimedOut));
        }
        None
    }

    /// Takes in a chunk, or a refusal where there is none.
    pub fn deliver(&mut self, stream_id: u32, data: Option<Vec<u8>>)
        requires
            old(self)@.wf(),
        ensures
            final(self)@ == old(self)@.after_deliver(
                stream_id,
                match data {
                    Some(bytes) => Some(bytes@),
                    None => None,
                },
            ),
            final(self)@.wf(),
    {
        let ghost before = self@;
        proof {
            assert(self@.slots.dom() =~= self.slots@.dom());
        }
        if self.slots.contains_key(&stream_id) {
            let arrived: Result<Vec<u8>, ChunkError> = match data {
                Some(bytes) => Ok(bytes),
                None => Err(ChunkError::Refused),
            };
            let ghost shown = answer(Some(arrived));
            self.slots.insert(stream_id, Some(arrived));
            assert(self@.slots =~= before.slots.insert(stream_id, shown));
        }
    }

    /// Fails every wait, and every one to come: the session has ended.
    pub fn close(&mut self)
        requires
            old(self)@.wf(),
        ensures
            final(self)@ == old(self)@.after_close(),
            final(self)@.wf(),
    {
        let ghost before = self@;
        self.closed = true;
        assert(self@.slots =~= before.slots);
    }

    /// How many requests are in flight.
    pub fn in_flight(&self) -> (r: usize)
        ensures
            r == self@.slots.len(),
    {
        proof {
            assert(self@.slots.dom() =~= self.slots@.dom());
        }
        self.slots.len()
    }
}

/// A call of a bridge.
pub ghost enum BridgeCall {
    Begin,
    Wait { id: u32, deadline_passed: bool },
    Deliver { id: u32, data: Option<Seq<u8>> },
    Close,
}

/// A bridge once these calls have been made, in order.
pub open spec fn after_calls(bridge: BridgeState, calls: Seq<BridgeCall>) -> BridgeState
    decreases calls.len(),
{
    if calls.len() == 0 {
        bridge
    } else {
        let before = after_calls(bridge, calls.drop_last());
        match calls.last() {
            BridgeCall::Begin => before.after_begin(),
            BridgeCall::Wait { id, deadline_passed } => before.after_wait(id, deadline_passed),
            BridgeCall::Deliver { id, data } => before.after_deliver(id, data),
            BridgeCall::Close => before.after_close(),
        }
    }
}

/// Whatever is called, and however often: no more requests are in flight than may be, and
/// a session that has ended stays ended.
pub proof fn law_no_run_of_calls_exceeds_the_cap(bridge: BridgeState, calls: Seq<BridgeCall>)
    requires
        bridge.wf(),
    ensures
        after_calls(bridge, calls).wf(),
        after_calls(bridge, calls).slots.len() <= MAX_IN_FLIGHT,
        bridge.closed ==> after_calls(bridge, calls).closed,
    decreases calls.len(),
{
    if calls.len() > 0 {
        law_no_run_of_calls_exceeds_the_cap(bridge, calls.drop_last());
    }
}

/// A read receives exactly the bytes that were sent to it, whether they arrive
/// before the wait or during it, and it is no longer in flight afterwards. An
/// empty chunk is not a refusal, and a refusal is not an empty chunk.
pub proof fn law_a_read_receives_what_it_was_sent(
    bridge: BridgeState,
    data: Option<Seq<u8>>,
    deadline_passed: bool,
)
    requires
        bridge.wf(),
        bridge.begun() is Ok,
    ensures
        ({
            let id = bridge.begun()->Ok_0;
            let answered = bridge.after_begin().after_deliver(id, data);
            &&& answered.waited(id, deadline_passed) == Some(
                match data {
                    Some(bytes) => Ok::<Seq<u8>, ChunkError>(bytes),
                    None => Err::<Seq<u8>, ChunkError>(ChunkError::Refused),
                },
            )
            &&& !answered.after_wait(id, deadline_passed).slots.contains_key(id)
        }),
{
}

/// A late answer to a read that has ended is dropped: it brings nothing back.
pub proof fn law_a_late_answer_is_dropped(
    bridge: BridgeState,
    id: u32,
    deadline_passed: bool,
    data: Option<Seq<u8>>,
)
    requires
        bridge.waited(id, deadline_passed) is Some,
    ensures
        bridge.after_wait(id, deadline_passed).after_deliver(id, data) == bridge.after_wait(
            id,
            deadline_passed,
        ),
{
}

/// Once the session has ended, no wait goes on and nothing new begins.
pub proof fn law_closing_releases_every_wait(bridge: BridgeState, id: u32)
    ensures
        bridge.after_close().waited(id, false) is Some,
        bridge.after_close().begun() == Err::<u32, ChunkError>(ChunkError::Disconnected),
{
}

/// No wait goes on past its deadline.
pub proof fn law_every_wait_ends(bridge: BridgeState, id: u32)
    ensures
        bridge.waited(id, true) is Some,
{
}

/// What happens to one request leaves every other as it was.
pub proof fn law_requests_do_not_disturb_each_other(
    bridge: BridgeState,
    id: u32,
    other: u32,
    data: Option<Seq<u8>>,
    deadline_passed: bool,
)
    requires
        id != other,
    ensures
        bridge.after_deliver(id, data).waited(other, deadline_passed) == bridge.waited(
            other,
            deadline_passed,
        ),
        bridge.after_wait(id, deadline_passed).waited(other, deadline_passed) == bridge.waited(
            other,
            deadline_passed,
        ),
{
}

/// A number is had while the session lasts and fewer than 256 requests are in flight. It
/// is the one after the last, and from then on its answer is waited for.
pub proof fn law_a_request_has_the_next_number(bridge: BridgeState)
    ensures
        bridge.closed ==> bridge.begun() == Err::<u32, _>(ChunkError::Disconnected),
        !bridge.closed && bridge.slots.len() >= 256 ==> bridge.begun() == Err::<u32, _>(
            ChunkError::TooManyRequests,
        ),
        !bridge.closed && bridge.slots.len() < 256 ==> bridge.begun() is Ok,
        bridge.begun() matches Ok(id) ==> {
            &&& id == (bridge.last + 1) % 0x1_0000_0000
            &&& bridge.after_begin().last == id
            &&& bridge.after_begin().slots.contains_key(id)
            &&& bridge.after_begin().waited(id, false) is None
            &&& bridge.after_begin().waited(id, true) == Some(
                Err::<Seq<u8>, _>(ChunkError::TimedOut),
            )
        },
        bridge.begun() is Err ==> bridge.after_begin() == bridge,
{
}

/// What arrives for a request that is waited for ends the wait, whatever the deadline
/// and the session do; a refusal ends it as one. Afterwards nothing is waited for.
pub proof fn law_an_answer_ends_its_wait(
    bridge: BridgeState,
    id: u32,
    data: Option<Seq<u8>>,
    deadline_passed: bool,
)
    requires
        bridge.slots.contains_key(id),
    ensures
        ({
            let after = bridge.after_deliver(id, data);
            let answer = match data {
                Some(bytes) => Ok(bytes),
                None => Err(ChunkError::Refused),
            };
            &&& after.waited(id, deadline_passed) == Some(answer)
            &&& after.after_close().waited(id, deadline_passed) == Some(answer)
            &&& !after.after_wait(id, deadline_passed).slots.contains_key(id)
            &&& after.after_wait(id, deadline_passed).last == bridge.last
            &&& after.closed == bridge.closed
        }),
{
}

} // verus!
