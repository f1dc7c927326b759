//! The state of one multiplexed stream: what its reader still has to
//! read, whether the peer has finished, whether the local write half is
//! shut down, and which frames reads, writes, shutdown and drop produce.
use vstd::prelude::*;

use crate::frame::{Frame, StreamId};
use crate::mux::{InboxMsg, MuxError};

verus! {

/// The largest payload of one `Data` frame; larger writes are split.
pub const MAX_DATA_CHUNK: usize = 65536;

/// The abstract state of a stream.
pub struct StreamView {
    pub id: StreamId,
    /// Bytes received and not yet read.
    pub pending: Seq<u8>,
    /// The reader has seen (or will see, once `pending` is read) the end.
    pub read_eof: bool,
    /// The local write half is shut down.
    pub write_closed: bool,
    /// The peer reset the stream: both directions are torn down.
    pub reset: bool,
    /// The stream was shut down cleanly, so dropping it resets nothing.
    pub finished_cleanly: bool,
}

/// The smaller of two numbers.
pub open spec fn min_nat(a: nat, b: nat) -> nat {
    if a <= b {
        a
    } else {
        b
    }
}

/// What a read returns: `Some(bytes)` when it completes (no bytes meaning
/// the end of the stream), `None` when it must wait for the inbox.
pub open spec fn read_outcome(s: StreamView, capacity: nat) -> Option<Seq<u8>> {
    if s.pending.len() > 0 {
        Some(s.pending.take(min_nat(s.pending.len(), capacity) as int))
    } else if s.read_eof {
        Some(Seq::empty())
    } else {
        None
    }
}

/// The state after a read.
pub open spec fn after_read(s: StreamView, capacity: nat) -> StreamView {
    if s.pending.len() > 0 {
        StreamView { pending: s.pending.skip(min_nat(s.pending.len(), capacity) as int), ..s }
    } else {
        s
    }
}

/// What a message taken from the inbox (or `None` once the inbox is
/// closed) ends the read with: `None` when the read goes on.
pub open spec fn inbox_outcome(msg: Option<InboxMsg>) -> Option<Result<(), MuxError>> {
    match msg {
        None => Some(Ok(())),
        Some(InboxMsg::Data(_)) => None,
        Some(InboxMsg::Fin) => None,
        Some(InboxMsg::Reset) => Some(Err(MuxError::StreamReset)),
    }
}

/// The state after a message taken from the inbox.
pub open spec fn after_inbox(s: StreamView, msg: Option<InboxMsg>) -> StreamView {
    match msg {
        Some(InboxMsg::Data(bytes)) => StreamView { pending: bytes@, ..s },
        Some(InboxMsg::Reset) => StreamView { read_eof: true, reset: true, ..s },
        _ => StreamView { read_eof: true, ..s },
    }
}

/// How many bytes of a write of `len` bytes one `Data` frame carries.
pub open spec fn chunk_len(len: nat) -> nat {
    min_nat(len, MAX_DATA_CHUNK as nat)
}

/// What a write of `len` bytes does before it sends anything: refuse,
/// complete at once with nothing written, or wait for room in the queue.
pub enum WriteStep {
    Refused(MuxError),
    Done(usize),
    NeedCapacity,
}

/// What a read does with the bytes at hand.
pub enum ReadStep {
    /// The read completes with these bytes; none means the end.
    Ready(Vec<u8>),
    /// The read must wait for the inbox.
    NeedInbox,
}

/// What a message from the inbox does to the read in progress.
pub enum InboxStep {
    /// Look at the buffered bytes again.
    Retry,
    /// The read completes with this result.
    Finished(Result<(), MuxError>),
}

/// The first step of a write of `len` bytes: a shut-down write half
/// refuses it as a broken pipe, a stream the peer reset as a reset; an empty write completes at once; any
/// other write waits for room in the queue.
pub open spec fn write_step_of(s: StreamView, len: usize) -> WriteStep {
    if s.write_closed {
        WriteStep::Refused(MuxError::WriteClosed)
    } else if s.reset {
        WriteStep::Refused(MuxError::StreamReset)
    } else if len == 0 {
        WriteStep::Done(0)
    } else {
        WriteStep::NeedCapacity
    }
}

/// The frame a dropped stream leaves behind: a `Reset` unless it was shut
/// down cleanly.
pub open spec fn farewell_of(s: StreamView) -> Option<Frame> {
    if s.finished_cleanly {
        None
    } else {
        Some(Frame::Reset { stream_id: s.id })
    }
}

/// The state after a shutdown completes.
pub open spec fn after_shutdown(s: StreamView) -> StreamView {
    StreamView { write_closed: true, finished_cleanly: true, ..s }
}

/// The state of one stream.
pub struct StreamState {
    id: StreamId,
    read_buf: Vec<u8>,
    read_pos: usize,
    read_eof: bool,
    write_closed: bool,
    reset: bool,
    finished_cleanly: bool,
}

impl View for StreamState {
    type V = StreamView;

    closed spec fn view(&self) -> StreamView {
        StreamView {
            id: self.id,
            pending: self.read_buf@.skip(self.read_pos as int),
            read_eof: self.read_eof,
            write_closed: self.write_closed,
            reset: self.reset,
            finished_cleanly: self.finished_cleanly,
        }
    }
}

impl StreamState {
    /// The read position lies within the buffer.
    pub closed spec fn wf(&self) -> bool {
        self.read_pos <= self.read_buf.len()
    }

    /// A stream that has received nothing and shut nothing down.
    pub fn new(id: StreamId) -> (s: StreamState)
        ensures
            s.wf(),
            s@ == (StreamView {
                id,
                pending: Seq::empty(),
                read_eof: false,
                write_closed: false,
                reset: false,
                finished_cleanly: false,
            }),
    {
        let s = StreamState {
            id,
            read_buf: Vec::new(),
            read_pos: 0,
            read_eof: false,
            write_closed: false,
            reset: false,
            finished_cleanly: false,
        };
        assert(s@.pending =~= Seq::<u8>::empty());
        s
    }

    /// The stream's id.
    pub fn id(&self) -> (r: StreamId)
        ensures
            r == self@.id,
    {
        self.id
    }

    /// A read into a buffer with room for `capacity` bytes: the buffered
    /// bytes first, then the end once the peer finished.
    pub fn poll_buffered(&mut self, capacity: usize) -> (r: ReadStep)
        requires
            old(self).wf(),
        ensures
            final(self).wf(),
            final(self)@ == after_read(old(self)@, capacity as nat),
            match read_outcome(old(self)@, capacity as nat) {
                Some(bytes) => r matches ReadStep::Ready(b) && b@ == bytes,
                None => r matches ReadStep::NeedInbox,
            },
    {
        let avail = self.read_buf.len() - self.read_pos;
        if avail > 0 {
            let n = if avail <= capacity {
                avail
            } else {
                capacity
            };
            let start = self.read_pos;
            let mut out: Vec<u8> = Vec::new();
            let mut i: usize = 0;
            while i < n
                invariant
                    start + n <= self.read_buf.len(),
                    i <= n,
                    out@ == self.read_buf@.subrange(start as int, start + i),
                decreases n - i,
            {
                out.push(self.read_buf[start + i]);
                i = i + 1;
            }
            self.read_pos = start + n;
            proof {
                let old_pending = old(self)@.pending;
                assert(out@ =~= old_pending.take(n as int));
                assert(self@.pending =~= old_pending.skip(n as int));
            }
            ReadStep::Ready(out)
        } else if self.read_eof {
            ReadStep::Ready(Vec::new())
        } else {
            ReadStep::NeedInbox
        }
    }

    /// Takes in what the inbox yielded (`None` once it is closed).
    pub fn on_inbox(&mut self, msg: Option<InboxMsg>) -> (r: InboxStep)
        requires
            old(self).wf(),
        ensures
            final(self).wf(),
            final(self)@ == after_inbox(old(self)@, msg),
            match inbox_outcome(msg) {
                Some(res) => r == InboxStep::Finished(res),
                None => r == InboxStep::Retry,
            },
    {
        match msg {
            None => {
                self.read_eof = true;
                InboxStep::Finished(Ok(()))
            },
            Some(InboxMsg::Data(bytes)) => {
                self.read_pos = 0;
                self.read_buf = bytes;
                assert(self.read_buf@.skip(0) =~= self.read_buf@);
                InboxStep::Retry
            },
            Some(InboxMsg::Fin) => {
                self.read_eof = true;
                InboxStep::Retry
            },
            Some(InboxMsg::Reset) => {
                self.read_eof = true;
                self.reset = true;
                InboxStep::Finished(Err(MuxError::StreamReset))
            },
        }
    }

    /// Records that the peer reset the stream, when the writer learns of it
    /// before the reader does: the write half is torn down too.
    pub fn mark_reset(&mut self)
        requires
            old(self).wf(),
        ensures
            final(self).wf(),
            final(self)@ == (StreamView { reset: true, ..old(self)@ }),
    {
        self.reset = true;
    }

    /// The first step of a write of `len` bytes: refused once the write
    /// half was shut down, or once the peer reset the stream.
    pub fn begin_write(&self, len: usize) -> (r: WriteStep)
        ensures
            r == write_step_of(self@, len),
    {
        if self.write_closed {
            WriteStep::Refused(MuxError::WriteClosed)
        } else if self.reset {
            WriteStep::Refused(MuxError::StreamReset)
        } else if len == 0 {
            WriteStep::Done(0)
        } else {
            WriteStep::NeedCapacity
        }
    }

    /// The `Data` frame that carries the start of `data`, and how many
    /// bytes it carries: all of them, up to [`MAX_DATA_CHUNK`].
    pub fn data_frame(&self, data: &[u8]) -> (r: (Frame, usize))
        ensures
            r.1 == chunk_len(data@.len()),
            r.0 matches Frame::Data { stream_id, payload } && stream_id == self@.id && payload@
                == data@.take(r.1 as int),
    {
        let n = if data.len() <= MAX_DATA_CHUNK {
            data.len()
        } else {
            MAX_DATA_CHUNK
        };
        let mut payload: Vec<u8> = Vec::new();
        let mut i: usize = 0;
        while i < n
            invariant
                n <= data.len(),
                i <= n,
                payload@ == data@.take(i as int),
            decreases n - i,
        {
            payload.push(data[i]);
            assert(data@.take(i + 1) =~= data@.take(i as int).push(data@[i as int]));
            i = i + 1;
        }
        (Frame::Data { stream_id: self.id, payload }, n)
    }

    /// Whether a shutdown still has to send `Fin`; `false` once the write
    /// half is closed, when shutting down again completes at once.
    pub fn shutdown_pending(&self) -> (r: bool)
        ensures
            r == !self@.write_closed,
    {
        !self.write_closed
    }

    /// Completes a shutdown. With room in the queue (`channel_open`) the
    /// peer is sent `Fin`; with the queue closed the peer is gone and
    /// nothing is sent. Either way the write half is closed cleanly.
    pub fn finish_shutdown(&mut self, channel_open: bool) -> (r: Option<Frame>)
        requires
            old(self).wf(),
        ensures
            final(self).wf(),
            final(self)@ == after_shutdown(old(self)@),
            channel_open ==> (r matches Some(Frame::Fin { stream_id }) && stream_id == old(
                self,
            )@.id),
            !channel_open ==> r is None,
    {
        self.write_closed = true;
        self.finished_cleanly = true;
        if channel_open {
            Some(Frame::Fin { stream_id: self.id })
        } else {
            None
        }
    }

    /// The frame to send when the stream is dropped.
    pub fn farewell(&self) -> (r: Option<Frame>)
        ensures
            r == farewell_of(self@),
    {
        if self.finished_cleanly {
            None
        } else {
            Some(Frame::Reset { stream_id: self.id })
        }
    }
}

/// The payloads a write of `data` is split into, one `Data` frame each.
pub open spec fn chunks(data: Seq<u8>) -> Seq<Seq<u8>>
    decreases data.len(),
{
    if data.len() == 0 {
        Seq::empty()
    } else {
        let n = chunk_len(data.len()) as int;
        seq![data.take(n)] + chunks(data.skip(n))
    }
}

/// The pieces joined end to end.
pub open spec fn joined(pieces: Seq<Seq<u8>>) -> Seq<u8>
    decreases pieces.len(),
{
    if pieces.len() == 0 {
        Seq::empty()
    } else {
        pieces[0] + joined(pieces.drop_first())
    }
}

/// A write is split into `Data` payloads that are non-empty, no larger
/// than [`MAX_DATA_CHUNK`], and that put back together give the bytes
/// written.
pub proof fn lemma_chunks_reassemble(data: Seq<u8>)
    ensures
        joined(chunks(data)) == data,
        forall|i: int|
            0 <= i < chunks(data).len() ==> 0 < #[trigger] chunks(data)[i].len() <= MAX_DATA_CHUNK,
    decreases data.len(),
{
    if data.len() > 0 {
        let n = chunk_len(data.len()) as int;
        lemma_chunks_reassemble(data.skip(n));
        let c = chunks(data);
        assert(c.drop_first() =~= chunks(data.skip(n)));
        assert(data.take(n) + data.skip(n) =~= data);
        assert forall|i: int| 0 <= i < c.len() implies 0 < #[trigger] c[i].len()
            <= MAX_DATA_CHUNK by {
            if i > 0 {
                assert(c[i] == chunks(data.skip(n))[i - 1]);
            }
        }
    }
}

/// After `Fin` arrives at a stream whose buffered bytes are all read, the
/// read goes on and then reports the end of the stream, and so does every
/// later read.
pub proof fn lemma_fin_reads_end(s: StreamView, capacity: nat)
    requires
        s.pending.len() == 0,
    ensures
        inbox_outcome(Some(InboxMsg::Fin)) is None,
        read_outcome(after_inbox(s, Some(InboxMsg::Fin)), capacity) == Some(Seq::<u8>::empty()),
        after_read(after_inbox(s, Some(InboxMsg::Fin)), capacity) == after_inbox(
            s,
            Some(InboxMsg::Fin),
        ),
{
}

/// Bytes that arrived before `Fin` are read before the end is reported.
pub proof fn lemma_data_before_end(s: StreamView, capacity: nat)
    requires
        s.pending.len() > 0,
        capacity > 0,
    ensures
        read_outcome(s, capacity) matches Some(bytes) && bytes.len() > 0,
{
}

/// A reset tears down both directions: the read in progress fails once,
/// every later read reports the end of the stream, and every write on a
/// write half still open is refused as a reset.
pub proof fn lemma_reset_fails_once(s: StreamView, capacity: nat)
    requires
        s.pending.len() == 0,
        !s.write_closed,
    ensures
        inbox_outcome(Some(InboxMsg::Reset)) == Some(Err::<(), MuxError>(MuxError::StreamReset)),
        read_outcome(after_inbox(s, Some(InboxMsg::Reset)), capacity) == Some(Seq::<u8>::empty()),
        forall|len: usize| #[trigger]
            write_step_of(after_inbox(s, Some(InboxMsg::Reset)), len) == WriteStep::Refused(
                MuxError::StreamReset,
            ),
{
}

/// Once shut down, a stream sends nothing when dropped, refuses writes,
/// and a second shutdown completes at once.
pub proof fn lemma_shutdown_is_final(s: StreamView)
    ensures
        farewell_of(after_shutdown(s)) is None,
        after_shutdown(s).write_closed,
        forall|len: usize| #[trigger] write_step_of(after_shutdown(s), len) is Refused,
        after_shutdown(after_shutdown(s)) == after_shutdown(s),
{
}

/// A stream dropped before a clean shutdown resets the peer.
pub proof fn lemma_unfinished_drop_resets(s: StreamView)
    requires
        !s.finished_cleanly,
    ensures
        farewell_of(s) == Some(Frame::Reset { stream_id: s.id }),
{
}

/// What one read call (one `poll_read` to completion) yields.
pub enum ReadCall {
    /// The read completes with these bytes; none means the end.
    Bytes(Seq<u8>),
    /// The read fails.
    Failed,
    /// The read waits: the buffer is empty and the inbox has nothing yet.
    Waiting,
}

/// One read call with room for `capacity` bytes, given the messages the
/// inbox will yield (`msgs`, in order): buffered bytes are handed out
/// first; with nothing buffered, inbox messages are taken in until the read
/// completes. Yields the result, the stream's state after it, and the
/// messages still in the inbox.
pub open spec fn read_call(s: StreamView, msgs: Seq<InboxMsg>, capacity: nat) -> (
    ReadCall,
    StreamView,
    Seq<InboxMsg>,
)
    decreases msgs.len(),
{
    match read_outcome(s, capacity) {
        Some(b) => (ReadCall::Bytes(b), after_read(s, capacity), msgs),
        None => if msgs.len() == 0 {
            (ReadCall::Waiting, s, msgs)
        } else {
            let t = after_inbox(s, Some(msgs[0]));
            match inbox_outcome(Some(msgs[0])) {
                Some(Ok(())) => (ReadCall::Bytes(Seq::empty()), t, msgs.drop_first()),
                Some(Err(_)) => (ReadCall::Failed, t, msgs.drop_first()),
                None => read_call(t, msgs.drop_first(), capacity),
            }
        },
    }
}

/// The bytes a read call hands out.
pub open spec fn bytes_of(r: ReadCall) -> Seq<u8> {
    match r {
        ReadCall::Bytes(b) => b,
        _ => Seq::empty(),
    }
}

/// Successive read calls with the given capacities: all the bytes handed
/// out, in order, whether every call completed with bytes, the final
/// state, and the messages still in the inbox.
pub open spec fn read_all(s: StreamView, msgs: Seq<InboxMsg>, capacities: Seq<nat>) -> (
    Seq<u8>,
    bool,
    StreamView,
    Seq<InboxMsg>,
)
    decreases capacities.len(),
{
    if capacities.len() == 0 {
        (Seq::empty(), true, s, msgs)
    } else {
        let (r, s1, m1) = read_call(s, msgs, capacities[0]);
        let (rest, ok, s2, m2) = read_all(s1, m1, capacities.drop_first());
        (bytes_of(r) + rest, r is Bytes && ok, s2, m2)
    }
}

/// Inbox messages that are `Data`, then one `Fin`.
pub open spec fn data_then_fin(msgs: Seq<InboxMsg>) -> bool {
    &&& msgs.len() >= 1
    &&& msgs.last() is Fin
    &&& forall|i: int| 0 <= i < msgs.len() - 1 ==> #[trigger] msgs[i] is Data
}

/// The payloads of the `Data` messages, joined in order.
pub open spec fn payloads(msgs: Seq<InboxMsg>) -> Seq<u8>
    decreases msgs.len(),
{
    if msgs.len() == 0 {
        Seq::empty()
    } else {
        let first = match msgs[0] {
            InboxMsg::Data(p) => p@,
            _ => Seq::empty(),
        };
        first + payloads(msgs.drop_first())
    }
}

/// The bytes a reader has still to read: those buffered, then those in
/// the inbox.
pub open spec fn unread(s: StreamView, msgs: Seq<InboxMsg>) -> Seq<u8> {
    s.pending + payloads(msgs)
}

/// A stream fed `Data` then `Fin` that is not yet at its end, or one that
/// is at its end with nothing left.
pub open spec fn feeding(s: StreamView, msgs: Seq<InboxMsg>) -> bool {
    ||| data_then_fin(msgs) && !s.read_eof
    ||| msgs.len() == 0 && s.read_eof && s.pending.len() == 0
}

/// One read call, with room for at least one byte, on a stream fed `Data`
/// then `Fin`, completes with the next unread bytes: at least one while
/// any is left, none (the end) once all are read.
proof fn lemma_read_call_step(s: StreamView, msgs: Seq<InboxMsg>, capacity: nat)
    requires
        feeding(s, msgs),
        capacity >= 1,
    ensures
        ({
            let (r, s1, m1) = read_call(s, msgs, capacity);
            &&& r is Bytes
            &&& feeding(s1, m1)
            &&& bytes_of(r) + unread(s1, m1) == unread(s, msgs)
            &&& unread(s, msgs).len() > 0 ==> bytes_of(r).len() > 0
            &&& unread(s, msgs).len() == 0 ==> m1.len() == 0 && s1.read_eof && s1.pending.len()
                == 0
        }),
    decreases msgs.len(),
{
    if s.pending.len() > 0 {
        let n = min_nat(s.pending.len(), capacity) as int;
        assert(s.pending.take(n) + s.pending.skip(n) =~= s.pending);
        assert(after_read(s, capacity).pending + payloads(msgs) =~= s.pending.skip(n) + payloads(
            msgs,
        ));
        assert(s.pending.take(n) + (s.pending.skip(n) + payloads(msgs)) =~= s.pending + payloads(
            msgs,
        ));
    } else if s.read_eof {
        assert(unread(s, msgs) =~= Seq::<u8>::empty());
    } else {
        let m = msgs[0];
        let rest = msgs.drop_first();
        let t = after_inbox(s, Some(m));
        assert(s.pending =~= Seq::<u8>::empty());
        if msgs.len() == 1 {
            assert(m is Fin);
            assert(payloads(rest) =~= Seq::<u8>::empty());
            assert(payloads(msgs) =~= Seq::<u8>::empty());
            assert(unread(s, msgs) =~= Seq::<u8>::empty());
            assert(unread(t, rest) =~= Seq::<u8>::empty());
        } else {
            assert(m is Data);
            assert(data_then_fin(rest)) by {
                assert forall|i: int| 0 <= i < rest.len() - 1 implies #[trigger] rest[i] is Data by {
                    assert(rest[i] == msgs[i + 1]);
                }
            }
            assert(unread(t, rest) =~= unread(s, msgs));
            lemma_read_call_step(t, rest, capacity);
        }
    }
}

/// A stream behaves as a byte stream: read calls with room for at least
/// one byte each, on a stream fed `Data` messages and then `Fin`, hand out
/// the buffered bytes and the payloads in order, none lost, repeated or
/// reordered, every call completing with bytes. Once there are more calls
/// than bytes, all of them have been handed out and every later read
/// reports the end of the stream.
pub proof fn lemma_reads_reassemble(s: StreamView, msgs: Seq<InboxMsg>, capacities: Seq<nat>)
    requires
        data_then_fin(msgs),
        !s.read_eof,
        forall|i: int| 0 <= i < capacities.len() ==> #[trigger] capacities[i] >= 1,
    ensures
        ({
            let (out, ok, s1, m1) = read_all(s, msgs, capacities);
            &&& ok
            &&& out == unread(s, msgs).take(out.len() as int)
            &&& capacities.len() > unread(s, msgs).len() ==> {
                &&& out == unread(s, msgs)
                &&& forall|c: nat| #[trigger]
                    read_call(s1, m1, c) == (ReadCall::Bytes(Seq::empty()), s1, m1)
            }
        }),
{
    lemma_read_all(s, msgs, capacities);
    let (out, ok, s1, m1) = read_all(s, msgs, capacities);
    assert(out + unread(s1, m1) == unread(s, msgs));
    assert(out == unread(s, msgs).take(out.len() as int)) by {
        assert((out + unread(s1, m1)).take(out.len() as int) =~= out);
    }
    if capacities.len() > unread(s, msgs).len() {
        assert(unread(s1, m1) =~= Seq::<u8>::empty());
        assert(out =~= unread(s, msgs));
        assert forall|c: nat| #[trigger] read_call(s1, m1, c) == (
            ReadCall::Bytes(Seq::empty()),
            s1,
            m1,
        ) by {
            assert(s1.pending.len() == 0);
        }
    }
}

proof fn lemma_read_all(s: StreamView, msgs: Seq<InboxMsg>, capacities: Seq<nat>)
    requires
        feeding(s, msgs),
        forall|i: int| 0 <= i < capacities.len() ==> #[trigger] capacities[i] >= 1,
    ensures
        ({
            let (out, ok, s1, m1) = read_all(s, msgs, capacities);
            &&& ok
            &&& feeding(s1, m1)
            &&& out + unread(s1, m1) == unread(s, msgs)
            &&& capacities.len() > unread(s, msgs).len() ==> m1.len() == 0 && s1.read_eof
                && s1.pending.len() == 0
        }),
    decreases capacities.len(),
{
    if capacities.len() > 0 {
        lemma_read_call_step(s, msgs, capacities[0]);
        let (r, s1, m1) = read_call(s, msgs, capacities[0]);
        let tail = capacities.drop_first();
        assert forall|i: int| 0 <= i < tail.len() implies #[trigger] tail[i] >= 1 by {
            assert(tail[i] == capacities[i + 1]);
        }
        lemma_read_all(s1, m1, tail);
        let (rest, ok, s2, m2) = read_all(s1, m1, tail);
        assert(bytes_of(r) + rest + unread(s2, m2) =~= bytes_of(r) + (rest + unread(s2, m2)));
        if capacities.len() > unread(s, msgs).len() && unread(s, msgs).len() == 0 {
            // At the end every later call stays there.
            lemma_end_stays(s1, m1, tail);
        }
    } else {
        assert(Seq::<u8>::empty() + unread(s, msgs) =~= unread(s, msgs));
    }
}

/// At the end, read calls change nothing.
proof fn lemma_end_stays(s: StreamView, msgs: Seq<InboxMsg>, capacities: Seq<nat>)
    requires
        msgs.len() == 0,
        s.read_eof,
        s.pending.len() == 0,
    ensures
        ({
            let (out, ok, s1, m1) = read_all(s, msgs, capacities);
            out.len() == 0 && ok && s1 == s && m1 == msgs
        }),
    decreases capacities.len(),
{
    if capacities.len() > 0 {
        lemma_end_stays(s, msgs, capacities.drop_first());
        let (rest, ok, s2, m2) = read_all(s, msgs, capacities.drop_first());
        assert(bytes_of(ReadCall::Bytes(Seq::empty())) + rest =~= rest);
    }
}

/// A write of at least one byte on a stream whose write half is open and
/// that the peer did not reset always goes on to send (it waits for room
/// in the queue); only an empty write completes at once, with nothing
/// written. A shut-down write half refuses as a broken pipe, a reset stream
/// with an open write half as a reset.
pub proof fn lemma_writes_go_through(s: StreamView, len: usize)
    ensures
        !s.write_closed && !s.reset && len > 0 ==> write_step_of(s, len) == WriteStep::NeedCapacity,
        write_step_of(s, len) matches WriteStep::Done(n) ==> n == 0 && len == 0,
        s.write_closed ==> write_step_of(s, len) == WriteStep::Refused(MuxError::WriteClosed),
        !s.write_closed && s.reset ==> write_step_of(s, len) == WriteStep::Refused(
            MuxError::StreamReset,
        ),
{
}

/// One `Data` frame carries a whole write of up to 65536 bytes; a larger
/// write sends exactly its first 65536 bytes. Every non-empty write makes
/// progress.
pub proof fn lemma_chunk_sizes(len: nat)
    ensures
        MAX_DATA_CHUNK == 65536,
        len <= 65536 ==> chunk_len(len) == len,
        len > 65536 ==> chunk_len(len) == 65536,
        len > 0 ==> chunk_len(len) > 0,
{
}

/// A read with room for `capacity` bytes hands out the buffered bytes
/// first: as many as fit, at least one when there is room and any is
/// buffered, and what it hands out is removed from the front of the
/// buffer, the rest left in order. Only with nothing buffered does a read
/// report the end (after the peer finished) or wait for the inbox.
pub proof fn lemma_read_takes_from_front(s: StreamView, capacity: nat)
    ensures
        s.pending.len() > 0 ==> (read_outcome(s, capacity) matches Some(b) && b
            + after_read(s, capacity).pending == s.pending && b.len() <= capacity && (capacity > 0
            ==> b.len() > 0) && (b.len() == s.pending.len() || b.len() == capacity)),
        s.pending.len() == 0 && s.read_eof ==> read_outcome(s, capacity) == Some(Seq::<u8>::empty()),
        s.pending.len() == 0 && !s.read_eof ==> read_outcome(s, capacity) is None,
        after_read(s, capacity).read_eof == s.read_eof,
        after_read(s, capacity).write_closed == s.write_closed,
{
    if s.pending.len() > 0 {
        let n = min_nat(s.pending.len(), capacity) as int;
        assert(s.pending.take(n) + s.pending.skip(n) =~= s.pending);
    }
}

/// A `Data` message replaces the (drained) buffer with exactly its payload
/// and changes nothing else; `Fin` and a closed inbox mark the end without
/// failing; `Reset` marks the end, fails the read and marks the stream reset.
pub proof fn lemma_inbox_messages(s: StreamView, msg: Option<InboxMsg>)
    ensures
        msg matches Some(InboxMsg::Data(p)) ==> after_inbox(s, msg).pending == p@ && after_inbox(
            s,
            msg,
        ).read_eof == s.read_eof && after_inbox(s, msg).reset == s.reset && inbox_outcome(msg)
            is None,
        msg matches Some(InboxMsg::Fin) ==> after_inbox(s, msg).read_eof && after_inbox(
            s,
            msg,
        ).pending == s.pending && !after_inbox(s, msg).reset == !s.reset && inbox_outcome(msg)
            is None,
        msg is None ==> after_inbox(s, msg).read_eof && inbox_outcome(msg) == Some(
            Ok::<(), MuxError>(()),
        ),
        msg matches Some(InboxMsg::Reset) ==> after_inbox(s, msg).read_eof && after_inbox(
            s,
            msg,
        ).reset && inbox_outcome(msg) == Some(Err::<(), MuxError>(MuxError::StreamReset)),
{
}

} // verus!
