//! The multiplexer's decisions: who allocates which stream ids, which
//! streams are open, what an inbound frame does, and when the I/O loop
//! stops. The task that moves bytes runs these rules; it holds no rule of
//! its own.
use std::collections::HashMap;
use vstd::prelude::*;

use crate::frame::{Frame, StreamId};

verus! {

broadcast use vstd::std_specs::hash::group_hash_axioms;

/// Which side of the multiplexer this is.
#[derive(Debug, Clone, Copy, PartialEq, Eq, Structural)]
pub enum Role {
    /// Opens new streams.
    Initiator,
    /// Accepts streams opened by the peer.
    Acceptor,
}

/// Why a multiplexer operation failed.
#[derive(Debug, Clone, Copy, PartialEq, Eq, Structural)]
pub enum MuxError {
    /// Every stream id of this side has been used.
    IdSpaceExhausted,
    /// The frame channel to the transport is closed.
    TransportClosed,
    /// The local write half was already shut down.
    WriteClosed,
    /// The peer reset the stream.
    StreamReset,
}

/// The kind of I/O error a [`MuxError`] surfaces as.
#[derive(Debug, Clone, Copy, PartialEq, Eq, Structural)]
pub enum IoErrorKind {
    BrokenPipe,
    ConnectionReset,
    Other,
}

impl MuxError {
    /// The error's text.
    pub open spec fn spec_message(self) -> Seq<char> {
        match self {
            MuxError::IdSpaceExhausted => "stream id space exhausted"@,
            MuxError::TransportClosed => "mux transport closed"@,
            MuxError::WriteClosed => "mux stream write half closed"@,
            MuxError::StreamReset => "mux stream reset"@,
        }
    }

    /// The error's text.
    pub fn message(&self) -> (r: String)
        ensures
            r@ == self.spec_message(),
    {
        match self {
            MuxError::IdSpaceExhausted => crate::text::owned("stream id space exhausted"),
            MuxError::TransportClosed => crate::text::owned("mux transport closed"),
            MuxError::WriteClosed => crate::text::owned("mux stream write half closed"),
            MuxError::StreamReset => crate::text::owned("mux stream reset"),
        }
    }

    /// The I/O error kind readers and writers of a stream see: writing to a
    /// shut-down write half is a broken pipe, a reset stream a connection
    /// reset, anything else is `Other`.
    pub fn io_kind(&self) -> (k: IoErrorKind)
        ensures
            *self == MuxError::WriteClosed ==> k == IoErrorKind::BrokenPipe,
            *self == MuxError::StreamReset ==> k == IoErrorKind::ConnectionReset,
            *self == MuxError::IdSpaceExhausted || *self == MuxError::TransportClosed ==> k
                == IoErrorKind::Other,
    {
        match self {
            MuxError::WriteClosed => IoErrorKind::BrokenPipe,
            MuxError::StreamReset => IoErrorKind::ConnectionReset,
            MuxError::IdSpaceExhausted | MuxError::TransportClosed => IoErrorKind::Other,
        }
    }
}

/// The first id a side hands out: odd for the initiator, even for the
/// acceptor, so the two id spaces never meet.
pub open spec fn first_id(role: Role) -> u32 {
    match role {
        Role::Initiator => 1,
        Role::Acceptor => 2,
    }
}

/// The parity every id of a side has.
pub open spec fn id_parity(role: Role) -> u32 {
    match role {
        Role::Initiator => 1,
        Role::Acceptor => 0,
    }
}

/// Hands out stream ids, two apart, starting from the role's first id.
pub struct IdAllocator {
    role: Role,
    next: u32,
    issued: Ghost<Set<u32>>,
}

impl IdAllocator {
    /// Ids are two apart from the role's first one, and every id handed
    /// out lies below the next.
    pub closed spec fn wf(self) -> bool {
        &&& self.next >= first_id(self.role)
        &&& self.next % 2 == id_parity(self.role)
        &&& forall|id: u32| #[trigger]
            self.issued@.contains(id) ==> id < self.next && id % 2 == id_parity(self.role)
    }

    pub closed spec fn role(self) -> Role {
        self.role
    }

    /// The id the next successful allocation returns.
    pub closed spec fn next_id(self) -> u32 {
        self.next
    }

    /// The ids handed out so far.
    pub closed spec fn issued(self) -> Set<u32> {
        self.issued@
    }

    /// Every id handed out has the role's parity and lies below the next id.
    pub proof fn lemma_issued_ids(self)
        requires
            self.wf(),
        ensures
            self.next_id() % 2 == id_parity(self.role()),
            forall|id: u32| #[trigger]
                self.issued().contains(id) ==> id < self.next_id() && id % 2 == id_parity(
                    self.role(),
                ),
    {
    }

    /// A fresh allocator for `role`.
    pub fn new(role: Role) -> (a: IdAllocator)
        ensures
            a.wf(),
            a.role() == role,
            a.next_id() == first_id(role),
            a.issued() == Set::<u32>::empty(),
    {
        let next = match role {
            Role::Initiator => 1u32,
            Role::Acceptor => 2u32,
        };
        IdAllocator { role, next, issued: Ghost(Set::empty()) }
    }

    /// Allocates the next id, or fails once the id space is used up (the
    /// following id would not fit in a `u32`).
    pub fn allocate(&mut self) -> (r: Result<StreamId, MuxError>)
        requires
            old(self).wf(),
        ensures
            final(self).wf(),
            final(self).role() == old(self).role(),
            old(self).next_id() + 2 <= u32::MAX ==> {
                &&& r == Ok::<StreamId, MuxError>(old(self).next_id())
                &&& !old(self).issued().contains(old(self).next_id())
                &&& final(self).next_id() == old(self).next_id() + 2
                &&& final(self).issued() == old(self).issued().insert(old(self).next_id())
            },
            old(self).next_id() + 2 > u32::MAX ==> {
                &&& r == Err::<StreamId, MuxError>(MuxError::IdSpaceExhausted)
                &&& final(self).next_id() == old(self).next_id()
                &&& final(self).issued() == old(self).issued()
            },
    {
        let id = self.next;
        match id.checked_add(2) {
            Some(next) => {
                self.next = next;
                proof {
                    self.issued@ = self.issued@.insert(id);
                }
                Ok(id)
            },
            None => Err(MuxError::IdSpaceExhausted),
        }
    }
}

/// The initiator's ids and the acceptor's ids never coincide, so the two
/// id spaces stay disjoint.
pub proof fn lemma_role_id_spaces_disjoint(a: IdAllocator, b: IdAllocator, x: u32, y: u32)
    requires
        a.wf(),
        b.wf(),
        a.role() == Role::Initiator,
        b.role() == Role::Acceptor,
        a.issued().contains(x),
        b.issued().contains(y),
    ensures
        x != y,
{
    a.lemma_issued_ids();
    b.lemma_issued_ids();
}

/// The streams that are open, each with the handle of its inbox.
pub struct StreamTable<T> {
    inboxes: HashMap<StreamId, T>,
}

impl<T> View for StreamTable<T> {
    type V = Map<StreamId, T>;

    closed spec fn view(&self) -> Map<StreamId, T> {
        self.inboxes@
    }
}

impl<T> StreamTable<T> {
    /// A table with no stream.
    pub fn new() -> (t: Self)
        ensures
            t@ == Map::<StreamId, T>::empty(),
    {
        StreamTable { inboxes: HashMap::new() }
    }

    /// Records `inbox` as the inbox of `id`, replacing an earlier one.
    pub fn register(&mut self, id: StreamId, inbox: T)
        ensures
            final(self)@ == old(self)@.insert(id, inbox),
    {
        self.inboxes.insert(id, inbox);
    }

    /// The inbox of `id`, if the stream is open.
    pub fn inbox(&self, id: StreamId) -> (r: Option<&T>)
        ensures
            match r {
                Some(v) => self@.contains_key(id) && *v == self@[id],
                None => !self@.contains_key(id),
            },
    {
        self.inboxes.get(&id)
    }

    /// Forgets `id`, handing back its inbox if it was open.
    pub fn unregister(&mut self, id: StreamId) -> (r: Option<T>)
        ensures
            final(self)@ == old(self)@.remove(id),
            match r {
                Some(v) => old(self)@.contains_key(id) && v == old(self)@[id],
                None => !old(self)@.contains_key(id),
            },
    {
        self.inboxes.remove(&id)
    }

    /// Forgets every stream.
    pub fn clear(&mut self)
        ensures
            final(self)@ == Map::<StreamId, T>::empty(),
    {
        self.inboxes.clear();
    }
}

/// What the local reader of a stream is handed.
#[derive(Debug)]
pub enum InboxMsg {
    Data(Vec<u8>),
    Fin,
    Reset,
}

/// What to do with an inbound frame.
#[derive(Debug)]
pub enum InboundPlan {
    /// Open the stream: give it an inbox, register it and hand it to the
    /// accept queue.
    Accept { stream_id: StreamId },
    /// Hand `msg` to the stream's inbox if the stream is open; when the
    /// reader is gone and `forget_if_gone` holds, forget the stream.
    Deliver { stream_id: StreamId, msg: InboxMsg, forget_if_gone: bool },
    /// Forget the stream, then tell its reader that it was reset.
    Teardown { stream_id: StreamId },
    /// Send this frame back to the peer.
    Reply(Frame),
    /// Nothing to do.
    Ignore,
}

/// The plan for an inbound frame: `Open` registers and accepts the stream,
/// `Data` and `Fin` go to the stream's inbox (a stream whose reader is gone
/// is forgotten on `Data`), `Reset` forgets the stream before telling its
/// reader, `Ping` is answered by a `Pong` with the same token, and `Pong`
/// needs nothing.
pub open spec fn plan_of(frame: Frame) -> InboundPlan {
    match frame {
        Frame::Open { stream_id } => InboundPlan::Accept { stream_id },
        Frame::Data { stream_id, payload } => InboundPlan::Deliver {
            stream_id,
            msg: InboxMsg::Data(payload),
            forget_if_gone: true,
        },
        Frame::Fin { stream_id } => InboundPlan::Deliver {
            stream_id,
            msg: InboxMsg::Fin,
            forget_if_gone: false,
        },
        Frame::Reset { stream_id } => InboundPlan::Teardown { stream_id },
        Frame::Ping { token } => InboundPlan::Reply(Frame::Pong { token }),
        Frame::Pong { .. } => InboundPlan::Ignore,
    }
}

/// The plan for one inbound frame.
pub fn plan_inbound(frame: Frame) -> (p: InboundPlan)
    ensures
        p == plan_of(frame),
{
    match frame {
        Frame::Open { stream_id } => InboundPlan::Accept { stream_id },
        Frame::Data { stream_id, payload } => InboundPlan::Deliver {
            stream_id,
            msg: InboxMsg::Data(payload),
            forget_if_gone: true,
        },
        Frame::Fin { stream_id } => InboundPlan::Deliver {
            stream_id,
            msg: InboxMsg::Fin,
            forget_if_gone: false,
        },
        Frame::Reset { stream_id } => InboundPlan::Teardown { stream_id },
        Frame::Ping { token } => InboundPlan::Reply(Frame::Pong { token }),
        Frame::Pong { .. } => InboundPlan::Ignore,
    }
}

/// What the I/O loop observed.
#[derive(Debug)]
pub enum IoEvent {
    /// The outbound queue yielded a frame, or `None` once every sender is gone.
    Outbound(Option<Frame>),
    /// Writing a frame to the transport failed.
    SendFailed,
    /// A well-formed frame arrived.
    Received(Frame),
    /// A message arrived that is not a frame.
    Malformed,
    /// Reading from the transport failed.
    RecvFailed,
    /// The transport has no more messages.
    TransportEnded,
    /// The multiplexer's owner dropped it.
    Stopped,
}

/// What the I/O loop does next.
#[derive(Debug)]
pub enum IoAction {
    /// Write the frame to the transport.
    Transmit(Frame),
    /// Carry out the plan for an inbound frame.
    Dispatch(InboundPlan),
    /// Drop the message and go on.
    Skip,
    /// Stop: close the transport, forget every stream and signal closure.
    Shutdown,
}

/// The I/O loop's decision for one event: queued frames go out, frames
/// that come in are dispatched, malformed ones are skipped, and any end or
/// failure of either direction, or the owner dropping the multiplexer,
/// stops the loop.
pub open spec fn io_action_of(event: IoEvent) -> IoAction {
    match event {
        IoEvent::Outbound(Some(frame)) => IoAction::Transmit(frame),
        IoEvent::Received(frame) => IoAction::Dispatch(plan_of(frame)),
        IoEvent::Malformed => IoAction::Skip,
        _ => IoAction::Shutdown,
    }
}

/// The I/O loop's decision for one event.
pub fn io_decide(event: IoEvent) -> (a: IoAction)
    ensures
        a == io_action_of(event),
{
    match event {
        IoEvent::Outbound(Some(frame)) => IoAction::Transmit(frame),
        IoEvent::Outbound(None) => IoAction::Shutdown,
        IoEvent::SendFailed => IoAction::Shutdown,
        IoEvent::Received(frame) => IoAction::Dispatch(plan_inbound(frame)),
        IoEvent::Malformed => IoAction::Skip,
        IoEvent::RecvFailed => IoAction::Shutdown,
        IoEvent::TransportEnded => IoAction::Shutdown,
        IoEvent::Stopped => IoAction::Shutdown,
    }
}

/// The frames the I/O loop writes to the transport, one message each, when
/// it meets `events` in order: it stops at the first event that stops it.
pub open spec fn transmitted(events: Seq<IoEvent>) -> Seq<Frame>
    decreases events.len(),
{
    if events.len() == 0 {
        Seq::empty()
    } else {
        match io_action_of(events[0]) {
            IoAction::Transmit(f) => seq![f] + transmitted(events.drop_first()),
            IoAction::Shutdown => Seq::empty(),
            _ => transmitted(events.drop_first()),
        }
    }
}

/// The frames taken from the outbound queue before the loop stops.
pub open spec fn queued_before_stop(events: Seq<IoEvent>) -> Seq<Frame>
    decreases events.len(),
{
    if events.len() == 0 {
        Seq::empty()
    } else {
        match events[0] {
            IoEvent::Outbound(Some(f)) => seq![f] + queued_before_stop(events.drop_first()),
            IoEvent::Received(_) => queued_before_stop(events.drop_first()),
            IoEvent::Malformed => queued_before_stop(events.drop_first()),
            _ => Seq::empty(),
        }
    }
}

/// Frames reach the transport in the order they were queued, each as one
/// message of its own, none dropped, repeated or reordered, until the loop
/// stops; inbound traffic in between changes nothing of that.
pub proof fn lemma_outbound_order(events: Seq<IoEvent>)
    ensures
        transmitted(events) == queued_before_stop(events),
    decreases events.len(),
{
    if events.len() > 0 {
        lemma_outbound_order(events.drop_first());
    }
}

/// Every frame that comes in is dispatched to where it belongs: `Open`
/// accepts the stream of that id, `Data` hands exactly its payload to that
/// stream's reader (forgetting the stream if the reader is gone), `Fin`
/// tells that stream's reader the data has ended, `Reset` tears that stream
/// down, `Ping` is answered with a `Pong` carrying the same token, and a
/// `Pong` needs nothing. No inbound frame is skipped and none stops the loop.
pub proof fn lemma_inbound_frames_dispatched(frame: Frame)
    ensures
        io_action_of(IoEvent::Received(frame)) is Dispatch,
        frame matches Frame::Open { stream_id } ==> io_action_of(IoEvent::Received(frame))
            == IoAction::Dispatch(InboundPlan::Accept { stream_id }),
        frame matches Frame::Data { stream_id, payload } ==> io_action_of(IoEvent::Received(frame))
            == IoAction::Dispatch(
            InboundPlan::Deliver { stream_id, msg: InboxMsg::Data(payload), forget_if_gone: true },
        ),
        frame matches Frame::Fin { stream_id } ==> io_action_of(IoEvent::Received(frame))
            == IoAction::Dispatch(
            InboundPlan::Deliver { stream_id, msg: InboxMsg::Fin, forget_if_gone: false },
        ),
        frame matches Frame::Reset { stream_id } ==> io_action_of(IoEvent::Received(frame))
            == IoAction::Dispatch(InboundPlan::Teardown { stream_id }),
        frame matches Frame::Ping { token } ==> io_action_of(IoEvent::Received(frame))
            == IoAction::Dispatch(InboundPlan::Reply(Frame::Pong { token })),
        frame matches Frame::Pong { .. } ==> io_action_of(IoEvent::Received(frame))
            == IoAction::Dispatch(InboundPlan::Ignore),
{
}

/// The loop goes on after every frame it receives or queues and after a
/// malformed message; it stops exactly when the queue or the transport
/// ends or fails, or when the owner drops the multiplexer. A queued frame
/// is written as it is.
pub proof fn lemma_loop_stops_only_on_end(event: IoEvent)
    ensures
        (io_action_of(event) is Shutdown) <==> (event matches IoEvent::Outbound(None)
            || event is SendFailed || event is RecvFailed || event is TransportEnded
            || event is Stopped),
        event matches IoEvent::Outbound(Some(f)) ==> io_action_of(event) == IoAction::Transmit(f),
        event is Malformed ==> io_action_of(event) is Skip,
{
}

/// An initiator hands out odd ids, starting at 1; an acceptor even ids,
/// starting at 2; every allocation is two above the one before.
pub proof fn lemma_id_numbering(a: IdAllocator)
    requires
        a.wf(),
    ensures
        a.role() == Role::Initiator ==> a.next_id() % 2 == 1 && a.next_id() >= 1 && forall|
            id: u32,
        | #[trigger] a.issued().contains(id) ==> id % 2 == 1,
        a.role() == Role::Acceptor ==> a.next_id() % 2 == 0 && a.next_id() >= 2 && forall|
            id: u32,
        | #[trigger] a.issued().contains(id) ==> id % 2 == 0,
        first_id(Role::Initiator) == 1,
        first_id(Role::Acceptor) == 2,
{
    a.lemma_issued_ids();
}

} // verus!
