//! The frame codec.
//!
//! A frame is a payload behind its length in four little-endian bytes. This
//! module decides; it never touches a socket. Whoever owns the socket makes
//! one attempt to read or write, hands the outcome over, and does what the
//! result says.

use vstd::prelude::*;
use crate::endian::{
    le_bytes, le_value, lemma_le_bytes_len, lemma_le_value_of_le_bytes, lemma_pow256_values,
    push_le, read_le,
};
use crate::error::Error;
use crate::queue::DequeueBuffer;

verus! {

/// The number of bytes of a frame's length prefix.
pub const HEADER_LEN: usize = 4;

/// The largest payload, in bytes, that a frame may hold: 16 MiB. It leaves
/// room for any message an application is likely to send and keeps a hostile
/// length prefix from claiming gigabytes.
pub const MAX_FRAME_SIZE: usize = 0x0100_0000;

/// What one attempt to read from the transport gave.
pub enum ReadOutcome {
    /// The bytes that were read; none means that the peer has closed.
    Data(Vec<u8>),
    /// Nothing can be read without waiting.
    WouldBlock,
    /// The transport failed.
    Failed(std::io::Error),
}

/// `ReadOutcome` over mathematical sequences.
pub enum ReadEvent {
    Data(Seq<u8>),
    WouldBlock,
    Failed(std::io::Error),
}

impl View for ReadOutcome {
    type V = ReadEvent;

    open spec fn view(&self) -> ReadEvent {
        match *self {
            ReadOutcome::Data(data) => ReadEvent::Data(data@),
            ReadOutcome::WouldBlock => ReadEvent::WouldBlock,
            ReadOutcome::Failed(e) => ReadEvent::Failed(e),
        }
    }
}

/// What one attempt to write to the transport gave.
pub enum WriteOutcome {
    /// The number of bytes that the transport took; zero means that the peer has closed.
    Written(usize),
    /// The transport takes nothing now, or was not tried because earlier bytes still wait.
    WouldBlock,
    /// The transport failed.
    Failed(std::io::Error),
}

/// What the reader tells its caller after a read attempt.
pub enum ReadProgress {
    /// A frame is complete: here is its payload.
    Frame(Vec<u8>),
    /// The length prefix is complete: attempt the payload in the same call.
    HeaderComplete,
    /// No frame yet, and nothing more to attempt in this call.
    Pending,
}

/// `ReadProgress` over mathematical sequences.
pub enum Progress {
    Frame(Seq<u8>),
    HeaderComplete,
    Pending,
}

impl View for ReadProgress {
    type V = Progress;

    open spec fn view(&self) -> Progress {
        match *self {
            ReadProgress::Frame(payload) => Progress::Frame(payload@),
            ReadProgress::HeaderComplete => Progress::HeaderComplete,
            ReadProgress::Pending => Progress::Pending,
        }
    }
}

/// The view of a reader's answer.
pub open spec fn progress_view(r: Result<ReadProgress, Error>) -> Result<Progress, Error> {
    match r {
        Ok(progress) => Ok(progress@),
        Err(e) => Err(e),
    }
}

/// The bytes that carry `payload` on the wire.
pub open spec fn frame_wire(payload: Seq<u8>) -> Seq<u8> {
    le_bytes(payload.len(), HEADER_LEN as nat) + payload
}

/// The payload length that the first four bytes of `buf` declare.
pub open spec fn declared_len(buf: Seq<u8>) -> nat
    recommends
        buf.len() >= HEADER_LEN,
{
    le_value(buf.subrange(0, HEADER_LEN as int))
}

/// Whether `buf` holds a length prefix that declares more than `MAX_FRAME_SIZE`.
pub open spec fn oversized(buf: Seq<u8>) -> bool {
    buf.len() >= HEADER_LEN && declared_len(buf) > MAX_FRAME_SIZE
}

/// What may stand in a reader between two attempts: part of a length prefix,
/// a whole one, or a whole one that is within the limit and less than all of
/// its payload.
pub open spec fn accumulating(buf: Seq<u8>) -> bool {
    buf.len() > HEADER_LEN ==> declared_len(buf) <= MAX_FRAME_SIZE && buf.len() < HEADER_LEN
        + declared_len(buf)
}

/// The number of bytes that the next attempt may read: what is missing of
/// the length prefix, then what is missing of the payload.
pub open spec fn demand(buf: Seq<u8>) -> nat {
    if buf.len() < HEADER_LEN {
        (HEADER_LEN - buf.len()) as nat
    } else {
        (HEADER_LEN + declared_len(buf) - buf.len()) as nat
    }
}

/// The reader's buffer after an attempt with `outcome`.
pub open spec fn buffer_after(buf: Seq<u8>, event: ReadEvent) -> Seq<u8> {
    match event {
        ReadEvent::Data(data) => {
            if oversized(buf) || data.len() == 0 {
                buf
            } else if buf.len() >= HEADER_LEN && buf.len() + data.len() == HEADER_LEN
                + declared_len(buf) {
                Seq::empty()
            } else {
                buf + data
            }
        },
        _ => buf,
    }
}

/// The reader's answer to an attempt with `outcome`.
pub open spec fn progress_after(buf: Seq<u8>, event: ReadEvent) -> Result<Progress, Error> {
    match event {
        ReadEvent::Failed(e) => Err(Error::TcpError(e)),
        ReadEvent::WouldBlock => Ok(Progress::Pending),
        ReadEvent::Data(data) => {
            if oversized(buf) {
                Err(Error::SizeLimitExceeded)
            } else if data.len() == 0 {
                Err(Error::ConnectionClosed)
            } else if buf.len() < HEADER_LEN {
                if buf.len() + data.len() < HEADER_LEN {
                    Ok(Progress::Pending)
                } else if oversized(buf + data) {
                    Err(Error::SizeLimitExceeded)
                } else {
                    Ok(Progress::HeaderComplete)
                }
            } else if buf.len() + data.len() == HEADER_LEN + declared_len(buf) {
                Ok(Progress::Frame((buf + data).skip(HEADER_LEN as int)))
            } else {
                Ok(Progress::Pending)
            }
        },
    }
}

/// The read side of the codec: the bytes of the frame that is arriving.
///
/// Its view is those bytes. Only bytes that an attempt really read are ever
/// in it, so an attempt that would block leaves no trace.
pub struct FrameReader {
    buffer: Vec<u8>,
}

impl View for FrameReader {
    type V = Seq<u8>;

    closed spec fn view(&self) -> Seq<u8> {
        self.buffer@
    }
}

impl FrameReader {
    /// The buffer holds part of one frame.
    pub open spec fn wf(&self) -> bool {
        accumulating(self@)
    }

    /// A reader that has read nothing.
    pub fn new() -> (reader: FrameReader)
        ensures
            reader.wf(),
            reader@ == Seq::<u8>::empty(),
    {
        FrameReader { buffer: Vec::new() }
    }

    /// The number of bytes that the next attempt may read, or
    /// `SizeLimitExceeded` if the length prefix declares more than
    /// `MAX_FRAME_SIZE`.
    pub fn demand(&self) -> (r: Result<usize, Error>)
        requires
            self.wf(),
        ensures
            oversized(self@) ==> r == Err::<usize, Error>(Error::SizeLimitExceeded),
            !oversized(self@) ==> r == Ok::<usize, Error>(demand(self@) as usize) && demand(self@)
                <= HEADER_LEN + MAX_FRAME_SIZE,
    {
        let have: usize = self.buffer.len();
        if have < HEADER_LEN {
            return Ok(HEADER_LEN - have);
        }
        let declared: u128 = read_le(&self.buffer, 0, HEADER_LEN);
        if declared > MAX_FRAME_SIZE as u128 {
            return Err(Error::SizeLimitExceeded);
        }
        Ok(HEADER_LEN + declared as usize - have)
    }

    /// Takes the outcome of one read attempt of at most `demand()` bytes.
    pub fn accept(&mut self, outcome: ReadOutcome) -> (r: Result<ReadProgress, Error>)
        requires
            old(self).wf(),
            outcome matches ReadOutcome::Data(data) ==> data@.len() <= demand(old(self)@),
        ensures
            final(self).wf(),
            final(self)@ == buffer_after(old(self)@, outcome@),
            progress_view(r) == progress_after(old(self)@, outcome@),
    {
        let data = match outcome {
            ReadOutcome::Failed(e) => {
                return Err(Error::TcpError(e));
            },
            ReadOutcome::WouldBlock => {
                return Ok(ReadProgress::Pending);
            },
            ReadOutcome::Data(data) => data,
        };
        let have: usize = self.buffer.len();
        if have < HEADER_LEN {
            if data.len() == 0 {
                return Err(Error::ConnectionClosed);
            }
            self.buffer.extend_from_slice(data.as_slice());
            assert(self.buffer@ =~= old(self)@ + data@);
            if self.buffer.len() < HEADER_LEN {
                return Ok(ReadProgress::Pending);
            }
            let declared: u128 = read_le(&self.buffer, 0, HEADER_LEN);
            if declared > MAX_FRAME_SIZE as u128 {
                return Err(Error::SizeLimitExceeded);
            }
            self.buffer.reserve(declared as usize);
            return Ok(ReadProgress::HeaderComplete);
        }
        let declared: u128 = read_le(&self.buffer, 0, HEADER_LEN);
        if declared > MAX_FRAME_SIZE as u128 {
            return Err(Error::SizeLimitExceeded);
        }
        if data.len() == 0 {
            return Err(Error::ConnectionClosed);
        }
        self.buffer.extend_from_slice(data.as_slice());
        assert(self.buffer@.subrange(0, HEADER_LEN as int) =~= old(self)@.subrange(
            0,
            HEADER_LEN as int,
        ));
        if self.buffer.len() == HEADER_LEN + declared as usize {
            let payload = self.buffer.split_off(HEADER_LEN);
            self.buffer.clear();
            assert(payload@ =~= (old(self)@ + data@).skip(HEADER_LEN as int));
            return Ok(ReadProgress::Frame(payload));
        }
        Ok(ReadProgress::Pending)
    }
}

/// The number of bytes that the transport took in a write attempt.
pub open spec fn taken(outcome: WriteOutcome) -> nat {
    match outcome {
        WriteOutcome::Written(n) => n as nat,
        _ => 0,
    }
}

/// What a write attempt with `outcome` comes to: a failure of the transport
/// is an error, a write of no bytes means that the peer has closed, and a
/// write that would block is no error.
pub open spec fn write_result(outcome: WriteOutcome) -> Result<(), Error> {
    match outcome {
        WriteOutcome::Failed(e) => Err(Error::TcpError(e)),
        WriteOutcome::Written(n) => if n == 0 {
            Err(Error::ConnectionClosed)
        } else {
            Ok(())
        },
        WriteOutcome::WouldBlock => Ok(()),
    }
}

/// The length prefix of a frame with a payload of `payload_len` bytes, or
/// `SizeLimitExceeded` if that is more than `MAX_FRAME_SIZE`.
pub fn frame_header(payload_len: usize) -> (r: Result<Vec<u8>, Error>)
    ensures
        payload_len > MAX_FRAME_SIZE ==> r == Err::<Vec<u8>, Error>(Error::SizeLimitExceeded),
        payload_len <= MAX_FRAME_SIZE ==> r is Ok && r->Ok_0@ == le_bytes(
            payload_len as nat,
            HEADER_LEN as nat,
        ),
{
    if payload_len > MAX_FRAME_SIZE {
        return Err(Error::SizeLimitExceeded);
    }
    let mut header: Vec<u8> = Vec::new();
    push_le(&mut header, payload_len as u128, HEADER_LEN);
    Ok(header)
}

/// Takes the outcome of one attempt to write `data` straight to the
/// transport: what the transport did not take is queued.
///
/// While earlier bytes wait in the queue nothing may be written past them:
/// the caller then makes no attempt and reports `WouldBlock`.
pub fn after_write(queue: &mut DequeueBuffer, data: &[u8], outcome: WriteOutcome) -> (r: Result<
    (),
    Error,
>)
    requires
        old(queue).wf(),
        taken(outcome) <= data@.len(),
        old(queue)@.len() > 0 ==> outcome is WouldBlock,
    ensures
        final(queue).wf(),
        r == write_result(outcome),
        r is Err ==> final(queue)@ == old(queue)@,
        r is Ok ==> final(queue)@ == if taken(outcome) == data@.len() {
            old(queue)@
        } else {
            old(queue)@.push(data@.skip(taken(outcome) as int))
        },
        r is Ok ==> final(queue).pending() == old(queue).pending() + data@.skip(
            taken(outcome) as int,
        ),
{
    let sent: usize = match outcome {
        WriteOutcome::Failed(e) => {
            return Err(Error::TcpError(e));
        },
        WriteOutcome::Written(n) => {
            if n == 0 {
                return Err(Error::ConnectionClosed);
            }
            n
        },
        WriteOutcome::WouldBlock => 0,
    };
    queue.enqueue(vstd::slice::slice_subrange(data, sent, data.len()));
    Ok(())
}

/// Takes the outcome of one attempt to write `queue.peek()` to the
/// transport: what the transport took leaves the queue.
pub fn after_flush(queue: &mut DequeueBuffer, outcome: WriteOutcome) -> (r: Result<(), Error>)
    requires
        old(queue).wf(),
        old(queue)@.len() > 0,
        taken(outcome) <= old(queue)@[0].len(),
    ensures
        final(queue).wf(),
        r == write_result(outcome),
        r is Err ==> final(queue)@ == old(queue)@,
        r is Ok ==> final(queue)@ == if taken(outcome) == old(queue)@[0].len() {
            old(queue)@.drop_first()
        } else {
            old(queue)@.update(0, old(queue)@[0].skip(taken(outcome) as int))
        },
        r is Ok ==> final(queue).pending() == old(queue).pending().skip(taken(outcome) as int),
{
    let sent: usize = match outcome {
        WriteOutcome::Failed(e) => {
            return Err(Error::TcpError(e));
        },
        WriteOutcome::Written(n) => {
            if n == 0 {
                return Err(Error::ConnectionClosed);
            }
            n
        },
        WriteOutcome::WouldBlock => 0,
    };
    queue.advance(sent);
    Ok(())
}

/// A payload that a frame can carry and a reader hands out: at least one
/// byte, at most `MAX_FRAME_SIZE`.
pub open spec fn deliverable(payload: Seq<u8>) -> bool {
    0 < payload.len() <= MAX_FRAME_SIZE
}

/// The bytes that carry `payloads` on the wire, one frame behind the other.
pub open spec fn wires(payloads: Seq<Seq<u8>>) -> Seq<u8>
    decreases payloads.len(),
{
    if payloads.len() == 0 {
        Seq::empty()
    } else {
        frame_wire(payloads[0]) + wires(payloads.drop_first())
    }
}

/// Whether `chunks` can be what successive read attempts return to a reader
/// that holds `buf`: each has at least one byte and at most as many as the
/// reader asks for at that time.
pub open spec fn in_step(buf: Seq<u8>, chunks: Seq<Seq<u8>>) -> bool
    decreases chunks.len(),
{
    chunks.len() == 0 || (!oversized(buf) && 0 < chunks[0].len() <= demand(buf) && in_step(
        buffer_after(buf, ReadEvent::Data(chunks[0])),
        chunks.drop_first(),
    ))
}

/// The reader's buffer after it took `chunks` one by one, and the payloads
/// of the frames that it handed out on the way.
pub open spec fn absorb(buf: Seq<u8>, chunks: Seq<Seq<u8>>) -> (Seq<u8>, Seq<Seq<u8>>)
    decreases chunks.len(),
{
    if chunks.len() == 0 {
        (buf, Seq::empty())
    } else {
        let rest = absorb(buffer_after(buf, ReadEvent::Data(chunks[0])), chunks.drop_first());
        match progress_after(buf, ReadEvent::Data(chunks[0])) {
            Ok(Progress::Frame(payload)) => (rest.0, seq![payload] + rest.1),
            _ => rest,
        }
    }
}

/// The wire form of a payload within the limit is four bytes longer than the
/// payload, ends with the payload, and every part of it that holds the whole
/// prefix declares the payload's length.
pub proof fn lemma_frame_wire(payload: Seq<u8>)
    requires
        payload.len() <= MAX_FRAME_SIZE,
    ensures
        frame_wire(payload).len() == HEADER_LEN + payload.len(),
        frame_wire(payload).skip(HEADER_LEN as int) == payload,
        forall|k: int|
            HEADER_LEN <= k <= HEADER_LEN + payload.len() ==> declared_len(
                #[trigger] frame_wire(payload).take(k),
            ) == payload.len(),
{
    let prefix = le_bytes(payload.len(), HEADER_LEN as nat);
    lemma_le_bytes_len(payload.len(), HEADER_LEN as nat);
    lemma_pow256_values();
    lemma_le_value_of_le_bytes(payload.len(), HEADER_LEN as nat);
    assert forall|k: int| HEADER_LEN <= k <= HEADER_LEN + payload.len() implies declared_len(
        #[trigger] frame_wire(payload).take(k),
    ) == payload.len() by {
        assert(frame_wire(payload).take(k).subrange(0, HEADER_LEN as int) =~= prefix);
    }
}

/// A reader that holds the first `k` bytes of a frame never asks for more
/// than the rest of that frame, and asks for at least one byte.
pub proof fn lemma_demand_within_frame(payload: Seq<u8>, k: nat)
    requires
        deliverable(payload),
        k < HEADER_LEN + payload.len(),
    ensures
        accumulating(frame_wire(payload).take(k as int)),
        !oversized(frame_wire(payload).take(k as int)),
        0 < demand(frame_wire(payload).take(k as int)) <= HEADER_LEN + payload.len() - k,
{
    lemma_frame_wire(payload);
}

/// No frame is reported until all of its bytes have arrived, and then its
/// payload is reported exactly: a reader that holds the first `k` bytes of
/// the frame of `payload` and is given the bytes that follow answers with
/// the payload if they complete the frame, and with no frame if they do not.
pub proof fn lemma_fragment(payload: Seq<u8>, k: nat, data: Seq<u8>)
    requires
        deliverable(payload),
        k < HEADER_LEN + payload.len(),
        0 < data.len() <= demand(frame_wire(payload).take(k as int)),
        data == frame_wire(payload).subrange(k as int, (k + data.len()) as int),
    ensures
        k + data.len() <= HEADER_LEN + payload.len(),
        k + data.len() < HEADER_LEN + payload.len() ==> {
            &&& buffer_after(frame_wire(payload).take(k as int), ReadEvent::Data(data))
                == frame_wire(payload).take((k + data.len()) as int)
            &&& progress_after(frame_wire(payload).take(k as int), ReadEvent::Data(data)) is Ok
            &&& !(progress_after(
                frame_wire(payload).take(k as int),
                ReadEvent::Data(data),
            )->Ok_0 is Frame)
        },
        k + data.len() == HEADER_LEN + payload.len() ==> {
            &&& buffer_after(frame_wire(payload).take(k as int), ReadEvent::Data(data))
                == Seq::<u8>::empty()
            &&& progress_after(frame_wire(payload).take(k as int), ReadEvent::Data(data)) == Ok::<
                Progress,
                Error,
            >(Progress::Frame(payload))
        },
{
    let wire = frame_wire(payload);
    let buf = wire.take(k as int);
    lemma_frame_wire(payload);
    lemma_demand_within_frame(payload, k);
    assert(buf + data =~= wire.take((k + data.len()) as int));
    if k + data.len() == HEADER_LEN + payload.len() {
        assert(wire.take((k + data.len()) as int) =~= wire);
    }
}

/// A length prefix that declares more than `MAX_FRAME_SIZE` is refused the
/// moment it is complete, and the reader never asks for a byte of the
/// payload that it claims: it refuses whatever comes next.
pub proof fn lemma_oversized_refused(buf: Seq<u8>, data: Seq<u8>, next: Seq<u8>)
    requires
        buf.len() < HEADER_LEN,
        data.len() > 0,
        buf.len() + data.len() == HEADER_LEN,
        declared_len(buf + data) > MAX_FRAME_SIZE,
    ensures
        progress_after(buf, ReadEvent::Data(data)) == Err::<Progress, Error>(
            Error::SizeLimitExceeded,
        ),
        buffer_after(buf, ReadEvent::Data(data)) == buf + data,
        progress_after(buf + data, ReadEvent::Data(next)) == Err::<Progress, Error>(
            Error::SizeLimitExceeded,
        ),
        buffer_after(buf + data, ReadEvent::Data(next)) == buf + data,
{
}

/// A stream of frames reassembles exactly, wherever the transport splits
/// it: a reader that starts `k` bytes into the first of the frames of
/// `payloads` and takes the rest of their wire bytes in any chunks that its
/// attempts can return hands out `payloads`, in order, and ends empty.
pub proof fn lemma_stream_reassembles(payloads: Seq<Seq<u8>>, k: nat, chunks: Seq<Seq<u8>>)
    requires
        forall|i: int| 0 <= i < payloads.len() ==> deliverable(#[trigger] payloads[i]),
        payloads.len() == 0 ==> k == 0,
        payloads.len() > 0 ==> k < HEADER_LEN + payloads[0].len(),
        in_step(wires(payloads).take(k as int), chunks),
        wires(payloads).take(k as int) + chunks.flatten() == wires(payloads),
    ensures
        absorb(wires(payloads).take(k as int), chunks) == (Seq::<u8>::empty(), payloads),
    decreases chunks.len(),
{
    let all = wires(payloads);
    let buf = all.take(k as int);
    if payloads.len() > 0 {
        lemma_frame_wire(payloads[0]);
    }
    if chunks.len() > 0 {
        // The first chunk continues the first frame.
        let first = chunks[0];
        let rest = chunks.drop_first();
        assert(payloads.len() > 0);
        let payload = payloads[0];
        let wire = frame_wire(payload);
        let tail = payloads.drop_first();
        assert(buf =~= wire.take(k as int));
        lemma_demand_within_frame(payload, k);
        assert(first =~= wire.subrange(k as int, (k + first.len()) as int)) by {
            assert forall|j: int| 0 <= j < first.len() implies first[j] == wire[k + j] by {
                assert(all[k + j] == wire[k + j]);
            }
        }
        lemma_fragment(payload, k, first);
        if k + first.len() < HEADER_LEN + payload.len() {
            // The frame is not complete: go on inside it.
            assert(wire.take((k + first.len()) as int) =~= all.take((k + first.len()) as int));
            assert(all.take((k + first.len()) as int) + rest.flatten() =~= all);
            lemma_stream_reassembles(payloads, k + first.len(), rest);
        } else {
            // The frame is complete: go on with the frames behind it.
            assert(rest.flatten() =~= wires(tail)) by {
                assert(wires(tail) =~= (wire + wires(tail)).skip(wire.len() as int));
            }
            assert(wires(tail).take(0) =~= Seq::<u8>::empty());
            lemma_stream_reassembles(tail, 0, rest);
        }
    }
}

/// What was done with bytes on the way out: a direct write of `data` of
/// which the transport took `taken` bytes, or a flush in which it took
/// `taken` bytes from the queue.
pub enum WireOp {
    Write { data: Seq<u8>, taken: nat },
    Flush { taken: nat },
}

/// The bytes on their way out: those that the transport has taken, and those that wait.
pub struct Wire {
    pub sent: Seq<u8>,
    pub pending: Seq<u8>,
}

/// Whether `op` keeps to the rules: the transport takes no more than it is
/// offered, and nothing is written past bytes that wait.
pub open spec fn op_allowed(wire: Wire, op: WireOp) -> bool {
    match op {
        WireOp::Write { data, taken } => taken <= data.len() && (wire.pending.len() > 0 ==> taken
            == 0),
        WireOp::Flush { taken } => taken <= wire.pending.len(),
    }
}

/// The bytes on their way out after `op`.
pub open spec fn wire_step(wire: Wire, op: WireOp) -> Wire {
    match op {
        WireOp::Write { data, taken } => Wire {
            sent: wire.sent + data.take(taken as int),
            pending: wire.pending + data.skip(taken as int),
        },
        WireOp::Flush { taken } => Wire {
            sent: wire.sent + wire.pending.take(taken as int),
            pending: wire.pending.skip(taken as int),
        },
    }
}

/// The bytes on their way out after `ops`, starting with nothing.
pub open spec fn wire_after(ops: Seq<WireOp>) -> Wire
    decreases ops.len(),
{
    if ops.len() == 0 {
        Wire { sent: Seq::empty(), pending: Seq::empty() }
    } else {
        wire_step(wire_after(ops.drop_last()), ops.last())
    }
}

/// Whether each of `ops` keeps to the rules at its time.
pub open spec fn ops_allowed(ops: Seq<WireOp>) -> bool
    decreases ops.len(),
{
    ops.len() == 0 || (ops_allowed(ops.drop_last()) && op_allowed(
        wire_after(ops.drop_last()),
        ops.last(),
    ))
}

/// All the bytes that `ops` wrote, in the order of the writes.
pub open spec fn written(ops: Seq<WireOp>) -> Seq<u8>
    decreases ops.len(),
{
    if ops.len() == 0 {
        Seq::empty()
    } else {
        match ops.last() {
            WireOp::Write { data, taken } => written(ops.drop_last()) + data,
            WireOp::Flush { taken } => written(ops.drop_last()),
        }
    }
}

/// Bytes leave in the order in which they were written: after any writes and
/// flushes, what the transport has taken and what still waits are together
/// all that was written, in order; once nothing waits, the transport has
/// taken exactly what was written.
pub proof fn lemma_outbound_order(ops: Seq<WireOp>)
    requires
        ops_allowed(ops),
    ensures
        wire_after(ops).sent + wire_after(ops).pending == written(ops),
        wire_after(ops).pending.len() == 0 ==> wire_after(ops).sent == written(ops),
    decreases ops.len(),
{
    if ops.len() > 0 {
        lemma_outbound_order(ops.drop_last());
    }
}

/// The pieces in which the frames of `payloads` are written: for each
/// payload its length prefix, then the payload.
pub open spec fn pieces(payloads: Seq<Seq<u8>>) -> Seq<Seq<u8>>
    decreases payloads.len(),
{
    if payloads.len() == 0 {
        Seq::empty()
    } else {
        seq![le_bytes(payloads[0].len(), HEADER_LEN as nat), payloads[0]] + pieces(
            payloads.drop_first(),
        )
    }
}

/// What the writes among `ops` were given to write, in order.
pub open spec fn write_data(ops: Seq<WireOp>) -> Seq<Seq<u8>>
    decreases ops.len(),
{
    if ops.len() == 0 {
        Seq::empty()
    } else {
        match ops.last() {
            WireOp::Write { data, taken } => write_data(ops.drop_last()).push(data),
            WireOp::Flush { taken } => write_data(ops.drop_last()),
        }
    }
}

/// All that was written is what the writes were given, one behind the other.
pub proof fn lemma_written_is_write_data(ops: Seq<WireOp>)
    ensures
        written(ops) == write_data(ops).flatten(),
    decreases ops.len(),
{
    if ops.len() > 0 {
        lemma_written_is_write_data(ops.drop_last());
        match ops.last() {
            WireOp::Write { data, taken } => {
                write_data(ops.drop_last()).lemma_flatten_push(data);
            },
            WireOp::Flush { taken } => {},
        }
    }
}

/// The pieces of frames, one behind the other, are the frames on the wire.
pub proof fn lemma_pieces_are_wires(payloads: Seq<Seq<u8>>)
    ensures
        pieces(payloads).flatten() == wires(payloads),
    decreases payloads.len(),
{
    if payloads.len() > 0 {
        lemma_pieces_are_wires(payloads.drop_first());
        let rest = pieces(payloads.drop_first());
        let all = pieces(payloads);
        assert(all.drop_first().drop_first() =~= rest);
        assert(all.drop_first().flatten() == payloads[0] + rest.flatten());
    }
}

/// Frames that were written arrive, whole and in order: if all that was
/// written are the frames of `payloads`, piece by piece, with any flushes in
/// between and any part of each write taken at once, and nothing waits in
/// the end, then a reader that takes what the transport took, in any chunks
/// that its attempts can return, hands out `payloads`, in order, and ends
/// empty.
pub proof fn lemma_delivery(payloads: Seq<Seq<u8>>, ops: Seq<WireOp>, chunks: Seq<Seq<u8>>)
    requires
        forall|i: int| 0 <= i < payloads.len() ==> deliverable(#[trigger] payloads[i]),
        ops_allowed(ops),
        write_data(ops) == pieces(payloads),
        wire_after(ops).pending.len() == 0,
        in_step(Seq::empty(), chunks),
        chunks.flatten() == wire_after(ops).sent,
    ensures
        wire_after(ops).sent == wires(payloads),
        absorb(Seq::empty(), chunks) == (Seq::<u8>::empty(), payloads),
{
    lemma_outbound_order(ops);
    lemma_written_is_write_data(ops);
    lemma_pieces_are_wires(payloads);
    lemma_stream_reassembles(payloads, 0, chunks);
}

} // verus!
