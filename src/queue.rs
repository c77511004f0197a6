//! The ordering discipline that keeps a shared connection coherent.
//!
//! Outgoing messages wait in a queue and reach the socket one whole message at
//! a time, in the order they were accepted, however many callers submit them.
//! Incoming bytes collect in an inbox that hands out complete messages only.

use vstd::prelude::*;
use vstd::seq_lib::lemma_flatten_concat;
use crate::header::{
    lemma_header_bytes_round_trip, lemma_header_round_trip, spec_header_bytes,
    spec_header_from_bytes, valid_payload_len, Header, HEADER_SIZE,
};

verus! {

/// Why a message was not accepted for sending.
#[derive(Clone, Copy, Debug, PartialEq, Eq, Structural)]
pub enum SendError {
    /// A message has no bytes.
    Empty,
    /// A write was cancelled part way: the wire holds a torn message and
    /// nothing more can be sent.
    Broken,
    /// A write took no bytes, or claimed more than it was handed.
    NoProgress,
}

/// Whether every call of `write` takes the whole chunk it is handed.
pub open spec fn spec_takes_whole_chunks<E, F: Fn(&[u8]) -> Result<usize, E>>(write: F) -> bool {
    forall|c: &[u8], res: Result<usize, E>|
        #[trigger] call_ensures(write, (c,), res) ==> res == Ok::<usize, E>(c@.len() as usize)
}

/// Why a flush stopped with messages still queued.
pub enum FlushError<E> {
    /// The connection is broken: a write was cancelled part way.
    Broken,
    /// A write took no bytes, or claimed more than it was handed.
    NoProgress,
    /// A write failed.
    Write(E),
}

/// Messages waiting to be written to one connection.
pub struct SendQueue {
    /// Messages not yet wholly written, oldest first.
    pending: Vec<Vec<u8>>,
    /// Bytes of the oldest pending message already written.
    offset: usize,
    /// Whether a write was cancelled part way.
    broken: bool,
    /// Messages wholly written, in the order they were written.
    sent: Ghost<Seq<Seq<u8>>>,
}

impl SendQueue {
    /// Messages not yet wholly written, oldest first.
    pub closed spec fn spec_pending(&self) -> Seq<Seq<u8>> {
        self.pending@.map_values(|m: Vec<u8>| m@)
    }

    /// Bytes of the oldest pending message already written.
    pub closed spec fn spec_offset(&self) -> nat {
        self.offset as nat
    }

    pub closed spec fn spec_broken(&self) -> bool {
        self.broken
    }

    /// Messages wholly written, in the order they were written.
    pub closed spec fn spec_sent(&self) -> Seq<Seq<u8>> {
        self.sent@
    }

    /// Every message accepted and not cancelled, in the order accepted.
    pub open spec fn spec_accepted(&self) -> Seq<Seq<u8>> {
        self.spec_sent() + self.spec_pending()
    }

    /// The part of the oldest pending message already written.
    pub open spec fn spec_in_flight(&self) -> Seq<u8> {
        if self.spec_pending().len() > 0 {
            self.spec_pending()[0].take(self.spec_offset() as int)
        } else {
            Seq::empty()
        }
    }

    /// Every byte written to the connection so far.
    pub open spec fn spec_wire(&self) -> Seq<u8> {
        self.spec_sent().flatten() + self.spec_in_flight()
    }

    /// The bytes that the next write is to take from.
    pub open spec fn spec_next_chunk(&self) -> Seq<u8> {
        self.spec_pending()[0].skip(self.spec_offset() as int)
    }

    pub open spec fn inv(&self) -> bool {
        &&& forall|i: int| 0 <= i < self.spec_pending().len() ==> #[trigger] self.spec_pending()[i].len() > 0
        &&& self.spec_pending().len() == 0 ==> self.spec_offset() == 0
        &&& self.spec_pending().len() > 0 ==> self.spec_offset() < self.spec_pending()[0].len()
    }

    /// An empty queue on a connection that nothing has been written to.
    pub fn new() -> (r: SendQueue)
        ensures
            r.inv(),
            r.spec_pending() == Seq::<Seq<u8>>::empty(),
            r.spec_sent() == Seq::<Seq<u8>>::empty(),
            r.spec_offset() == 0,
            !r.spec_broken(),
    {
        SendQueue { pending: Vec::new(), offset: 0, broken: false, sent: Ghost(Seq::empty()) }
    }

    /// Whether a cancelled write left a torn message on the wire.
    pub fn is_broken(&self) -> (r: bool)
        ensures
            r == self.spec_broken(),
    {
        self.broken
    }

    /// Whether no message waits to be written.
    pub fn is_idle(&self) -> (r: bool)
        ensures
            r == (self.spec_pending().len() == 0),
    {
        self.pending.len() == 0
    }

    /// Puts `message` behind every message already accepted; refused when it
    /// is empty or the connection is broken.
    pub fn submit(&mut self, message: Vec<u8>) -> (r: Result<(), SendError>)
        requires
            old(self).inv(),
        ensures
            final(self).inv(),
            old(self).spec_broken() ==> r == Err::<(), SendError>(SendError::Broken),
            !old(self).spec_broken() && message@.len() == 0 ==> r == Err::<(), SendError>(
                SendError::Empty,
            ),
            r is Ok <==> !old(self).spec_broken() && message@.len() > 0,
            r is Ok ==> final(self).spec_pending() == old(self).spec_pending().push(message@),
            r is Err ==> final(self).spec_pending() == old(self).spec_pending(),
            final(self).spec_sent() == old(self).spec_sent(),
            final(self).spec_offset() == old(self).spec_offset(),
            final(self).spec_broken() == old(self).spec_broken(),
    {
        if self.broken {
            return Err(SendError::Broken);
        }
        if message.len() == 0 {
            return Err(SendError::Empty);
        }
        let ghost before = self.spec_pending();
        self.pending.push(message);
        assert(self.spec_pending() =~= before.push(message@));
        Ok(())
    }

    /// The rest of the oldest pending message: the only bytes the next write
    /// may take. No value when nothing waits or the connection is broken.
    pub fn next_chunk(&self) -> (r: Option<&[u8]>)
        requires
            self.inv(),
        ensures
            r is Some <==> !self.spec_broken() && self.spec_pending().len() > 0,
            r is Some ==> r.unwrap()@ == self.spec_next_chunk(),
    {
        if self.broken || self.pending.len() == 0 {
            return None;
        }
        let front = self.pending[0].as_slice();
        assert(self.spec_pending()[0] == self.pending@[0]@);
        Some(&front[self.offset..front.len()])
    }

    /// Records that a write took the first `written` bytes of the next chunk.
    /// The oldest message leaves the queue once all of it is written.
    pub fn advance(&mut self, written: usize)
        requires
            old(self).inv(),
            !old(self).spec_broken(),
            old(self).spec_pending().len() > 0,
            written <= old(self).spec_next_chunk().len(),
        ensures
            final(self).inv(),
            final(self).spec_wire() == old(self).spec_wire() + old(self).spec_next_chunk().take(
                written as int,
            ),
            final(self).spec_accepted() == old(self).spec_accepted(),
            !final(self).spec_broken(),
            written == old(self).spec_next_chunk().len() ==> final(self).spec_pending()
                == old(self).spec_pending().drop_first(),
            written < old(self).spec_next_chunk().len() ==> final(self).spec_pending()
                == old(self).spec_pending(),
    {
        let ghost old_pending = self.spec_pending();
        let ghost front = old_pending[0];
        let ghost old_wire = self.spec_wire();
        assert(self.spec_pending()[0] == self.pending@[0]@);
        let front_len = self.pending[0].len();
        let ghost old_offset = self.offset;
        let ghost old_sent = self.sent@;
        if self.offset + written == front_len {
            self.pending.remove(0);
            self.offset = 0;
            proof {
                self.sent@ = old_sent.push(front);
                old_sent.lemma_flatten_push(front);
                assert(self.spec_pending() =~= old_pending.drop_first());
                assert(front.take(old_offset as int) + front.skip(old_offset as int).take(
                    written as int,
                ) =~= front);
                if self.spec_pending().len() > 0 {
                    assert(self.spec_in_flight() =~= Seq::<u8>::empty());
                }
                assert(self.spec_wire() =~= old_wire + front.skip(old_offset as int).take(
                    written as int,
                ));
                assert(old_pending =~= seq![front] + old_pending.drop_first());
                assert(self.spec_accepted() =~= old_sent + old_pending);
            }
        } else {
            self.offset = self.offset + written;
            proof {
                assert(front.take(old_offset as int) + front.skip(old_offset as int).take(
                    written as int,
                ) =~= front.take(self.offset as int));
                assert(self.spec_wire() =~= old_wire + front.skip(old_offset as int).take(
                    written as int,
                ));
            }
        }
    }

    /// Records that a write took `written` bytes of the next chunk. A count of
    /// zero, or more than the chunk holds, records nothing and is refused.
    pub fn record_write(&mut self, written: usize) -> (r: Result<(), SendError>)
        requires
            old(self).inv(),
            !old(self).spec_broken(),
            old(self).spec_pending().len() > 0,
        ensures
            final(self).inv(),
            final(self).spec_accepted() == old(self).spec_accepted(),
            !final(self).spec_broken(),
            r is Err <==> written == 0 || written > old(self).spec_next_chunk().len(),
            r is Err ==> r == Err::<(), SendError>(SendError::NoProgress)
                && final(self).spec_pending() == old(self).spec_pending()
                && final(self).spec_offset() == old(self).spec_offset()
                && final(self).spec_sent() == old(self).spec_sent(),
            r is Ok ==> final(self).spec_wire() == old(self).spec_wire()
                + old(self).spec_next_chunk().take(written as int),
            r is Ok && written == old(self).spec_next_chunk().len() ==> final(self).spec_pending()
                == old(self).spec_pending().drop_first(),
            r is Ok && written < old(self).spec_next_chunk().len() ==> final(self).spec_pending()
                == old(self).spec_pending(),
    {
        assert(self.spec_pending()[0] == self.pending@[0]@);
        if written == 0 || written > self.pending[0].len() - self.offset {
            return Err(SendError::NoProgress);
        }
        self.advance(written);
        Ok(())
    }

    /// Writes waiting messages through `write` until none is left. Each call of
    /// `write` is handed the rest of the oldest message only, and returns how
    /// many of its bytes it took. A write that fails, takes nothing or claims
    /// more than it was handed stops the flush, and what is left stays queued.
    pub fn flush<E, F: Fn(&[u8]) -> Result<usize, E>>(&mut self, write: &F) -> (r: Result<
        (),
        FlushError<E>,
    >)
        requires
            old(self).inv(),
            forall|chunk: &[u8]| call_requires(*write, (chunk,)),
        ensures
            final(self).inv(),
            final(self).spec_accepted() == old(self).spec_accepted(),
            final(self).spec_broken() == old(self).spec_broken(),
            final(self).spec_wire().len() >= old(self).spec_wire().len(),
            final(self).spec_wire().take(old(self).spec_wire().len() as int) == old(
                self,
            ).spec_wire(),
            r matches Err(FlushError::Broken) <==> old(self).spec_broken(),
            !old(self).spec_broken() && old(self).spec_pending().len() == 0 ==> r is Ok,
            !old(self).spec_broken() && spec_takes_whole_chunks(*write) ==> r is Ok,
            r is Ok ==> final(self).spec_pending().len() == 0,
            r is Ok ==> final(self).spec_wire() == final(self).spec_accepted().flatten(),
            r is Err && !(r matches Err(FlushError::Broken)) ==> final(self).spec_pending().len() > 0,
            (match r {
                Err(FlushError::Write(e)) => exists|c: &[u8]|
                    c@ == final(self).spec_next_chunk() && #[trigger] call_ensures(
                        *write,
                        (c,),
                        Err::<usize, E>(e),
                    ),
                _ => true,
            }),
            r matches Err(FlushError::NoProgress) ==> exists|c: &[u8], n: usize|
                c@ == final(self).spec_next_chunk() && #[trigger] call_ensures(
                    *write,
                    (c,),
                    Ok::<usize, E>(n),
                ) && (n == 0 || n > c@.len()),
    {
        if self.broken {
            return Err(FlushError::Broken);
        }
        let ghost start = self.spec_wire();
        while self.pending.len() > 0
            invariant
                self.inv(),
                !self.spec_broken(),
                !old(self).spec_broken(),
                start == old(self).spec_wire(),
                old(self).spec_pending().len() == 0 ==> self.spec_pending().len() == 0,
                self.spec_accepted() == old(self).spec_accepted(),
                self.spec_wire().len() >= start.len(),
                self.spec_wire().take(start.len() as int) == start,
                forall|chunk: &[u8]| call_requires(*write, (chunk,)),
            decreases self.spec_accepted().flatten().len() - self.spec_wire().len(),
        {
            proof {
                lemma_wire_is_whole_messages_in_order(self);
            }
            let chunk = match self.next_chunk() {
                Some(c) => c,
                None => return Err(FlushError::Broken),
            };
            proof {
                assert(chunk@.len() > 0);
            }
            let offered = chunk.len();
            let res = write(chunk);
            proof {
                assert(call_ensures(*write, (chunk,), res));
                if spec_takes_whole_chunks(*write) {
                    assert(res == Ok::<usize, E>(offered));
                }
            }
            let written = match res {
                Ok(n) => n,
                Err(e) => {
                    let ghost ge = e;
                    let out: Result<(), FlushError<E>> = Err(FlushError::Write(e));
                    proof {
                        let x = match out {
                            Err(FlushError::Write(ref x)) => *x,
                            _ => ge,
                        };
                        assert(call_ensures(*write, (chunk,), Err::<usize, E>(x)));
                        assert(chunk@ == self.spec_next_chunk());
                    }
                    return out;
                },
            };
            let ghost before = self.spec_wire();
            match self.record_write(written) {
                Ok(()) => {},
                Err(_) => {
                    proof {
                        assert(!spec_takes_whole_chunks(*write));
                    }
                    return Err(FlushError::NoProgress);
                },
            }
            proof {
                assert(self.spec_wire().len() == before.len() + written);
                lemma_wire_is_whole_messages_in_order(self);
                assert(self.spec_wire().take(start.len() as int) =~= start) by {
                    assert(before.take(start.len() as int) == start);
                    assert(self.spec_wire().take(before.len() as int) =~= before);
                }
            }
        }
        proof {
            assert(self.spec_accepted() =~= self.spec_sent());
            assert(self.spec_wire() =~= self.spec_sent().flatten());
        }
        Ok(())
    }

    /// Cancels the write of the oldest pending message. If part of it is on
    /// the wire the connection is broken for good; otherwise it leaves the
    /// queue and nothing was written of it.
    pub fn cancel(&mut self)
        requires
            old(self).inv(),
        ensures
            final(self).inv(),
            final(self).spec_sent() == old(self).spec_sent(),
            old(self).spec_offset() > 0 || old(self).spec_broken() ==> final(self).spec_broken()
                && final(self).spec_pending() == old(self).spec_pending()
                && final(self).spec_offset() == old(self).spec_offset(),
            old(self).spec_offset() == 0 && !old(self).spec_broken() ==> !final(self).spec_broken()
                && final(self).spec_offset() == 0 && (if old(self).spec_pending().len() > 0 {
                final(self).spec_pending() == old(self).spec_pending().drop_first()
            } else {
                final(self).spec_pending() == old(self).spec_pending()
            }),
    {
        if self.offset > 0 || self.broken {
            self.broken = true;
            return;
        }
        if self.pending.len() > 0 {
            let ghost old_pending = self.spec_pending();
            self.pending.remove(0);
            assert(self.spec_pending() =~= old_pending.drop_first());
        }
    }
}

/// Why the bytes received cannot be read as messages.
#[derive(Clone, Copy, Debug, PartialEq, Eq, Structural)]
pub enum ReceiveError {
    /// A header gives a length shorter than a header.
    BadLength,
}

/// Bytes received on one connection and not yet handed out as messages.
pub struct Inbox {
    buffer: Vec<u8>,
}

/// Whether the bytes `b` start with a whole message: a header and as many
/// payload bytes as it announces.
pub open spec fn spec_holds_message(b: Seq<u8>) -> bool {
    &&& b.len() >= HEADER_SIZE
    &&& spec_header_from_bytes(b).len >= HEADER_SIZE
    &&& spec_header_from_bytes(b).len <= b.len()
}

impl Inbox {
    /// Bytes received and not yet handed out, oldest first.
    pub closed spec fn spec_buffered(&self) -> Seq<u8> {
        self.buffer@
    }

    pub fn new() -> (r: Inbox)
        ensures
            r.spec_buffered() == Seq::<u8>::empty(),
    {
        Inbox { buffer: Vec::new() }
    }

    /// Number of bytes received and not yet handed out.
    pub fn buffered_len(&self) -> (r: usize)
        ensures
            r == self.spec_buffered().len(),
    {
        self.buffer.len()
    }

    /// Adds `bytes`, just read from the connection, behind those already held.
    pub fn push(&mut self, bytes: &[u8])
        ensures
            final(self).spec_buffered() == old(self).spec_buffered() + bytes@,
    {
        let mut more = vstd::slice::slice_to_vec(bytes);
        self.buffer.append(&mut more);
    }

    /// Takes the oldest message if all of it has arrived: its header and its
    /// payload. Nothing is taken while the header or the payload is
    /// incomplete, nor when the header's length is shorter than a header.
    pub fn next_message(&mut self) -> (r: Result<Option<(Header, Vec<u8>)>, ReceiveError>)
        ensures
            old(self).spec_buffered().len() < HEADER_SIZE ==> r == Ok::<
                Option<(Header, Vec<u8>)>,
                ReceiveError,
            >(None),
            old(self).spec_buffered().len() >= HEADER_SIZE && spec_header_from_bytes(
                old(self).spec_buffered(),
            ).len < HEADER_SIZE ==> r == Err::<Option<(Header, Vec<u8>)>, ReceiveError>(
                ReceiveError::BadLength,
            ),
            old(self).spec_buffered().len() >= HEADER_SIZE && spec_header_from_bytes(
                old(self).spec_buffered(),
            ).len >= HEADER_SIZE && spec_header_from_bytes(old(self).spec_buffered()).len > old(
                self,
            ).spec_buffered().len() ==> r == Ok::<Option<(Header, Vec<u8>)>, ReceiveError>(
                None,
            ),
            r matches Ok(Some(_)) <==> spec_holds_message(old(self).spec_buffered()),
            r matches Ok(Some(m)) ==> {
                let b = old(self).spec_buffered();
                let h = spec_header_from_bytes(b);
                &&& m.0 == h
                &&& m.1@ == b.subrange(HEADER_SIZE as int, h.len as int)
                &&& final(self).spec_buffered() == b.skip(h.len as int)
            },
            !(r matches Ok(Some(_))) ==> final(self).spec_buffered() == old(self).spec_buffered(),
    {
        let header = match Header::from_bytes(self.buffer.as_slice()) {
            Some(h) => h,
            None => return Ok(None),
        };
        let len = header.len() as usize;
        if len < HEADER_SIZE {
            return Err(ReceiveError::BadLength);
        }
        if len > self.buffer.len() {
            return Ok(None);
        }
        let all = self.buffer.as_slice();
        let payload = vstd::slice::slice_to_vec(&all[HEADER_SIZE..len]);
        let rest = vstd::slice::slice_to_vec(&all[len..all.len()]);
        self.buffer = rest;
        Ok(Some((header, payload)))
    }
}

/// A message taken from received bytes is a whole run of them from the start:
/// its header encoded again, then its payload, then what is left, give back
/// exactly the bytes there were.
pub proof fn lemma_message_taken_whole(b: Seq<u8>)
    requires
        spec_holds_message(b),
    ensures
        ({
            let h = spec_header_from_bytes(b);
            spec_header_bytes(h) + b.subrange(HEADER_SIZE as int, h.len as int) + b.skip(
                h.len as int,
            ) == b
        }),
{
    let h = spec_header_from_bytes(b);
    lemma_header_bytes_round_trip(b);
    assert(b.take(HEADER_SIZE as int) + b.subrange(HEADER_SIZE as int, h.len as int) + b.skip(
        h.len as int,
    ) =~= b);
}

/// A request framed for sending is read back by the receiving side as one
/// whole message: the same header, the same payload, and the bytes after it
/// left for the next message.
pub proof fn lemma_framed_message_received_whole(
    object_id: u32,
    opcode: u16,
    payload: Seq<u8>,
    rest: Seq<u8>,
)
    requires
        valid_payload_len(payload.len() as int),
    ensures
        ({
            let h = Header { object_id, opcode, len: (HEADER_SIZE + payload.len()) as u16 };
            let b = spec_header_bytes(h) + payload + rest;
            &&& spec_holds_message(b)
            &&& spec_header_from_bytes(b) == h
            &&& b.subrange(HEADER_SIZE as int, h.len as int) == payload
            &&& b.skip(h.len as int) == rest
        }),
{
    let h = Header { object_id, opcode, len: (HEADER_SIZE + payload.len()) as u16 };
    let b = spec_header_bytes(h) + payload + rest;
    lemma_header_round_trip(h);
    let hb = spec_header_bytes(h);
    assert(b.take(8) =~= hb);
    assert(b.skip(4).take(4) =~= hb.skip(4));
    assert(spec_header_from_bytes(b) == spec_header_from_bytes(hb)) by {
        assert(b[0] == hb[0] && b[1] == hb[1] && b[2] == hb[2] && b[3] == hb[3]);
        assert(b.skip(4)[0] == hb.skip(4)[0] && b.skip(4)[1] == hb.skip(4)[1]);
        assert(b.skip(6)[0] == hb.skip(6)[0] && b.skip(6)[1] == hb.skip(6)[1]);
    }
    assert(b.subrange(HEADER_SIZE as int, h.len as int) =~= payload);
    assert(b.skip(h.len as int) =~= rest);
}

/// The bytes on the wire are the messages accepted, in the order accepted,
/// each whole and none interleaved with another: the wire is always a prefix
/// of their concatenation that holds every sent message whole and a part of
/// the next one.
pub proof fn lemma_wire_is_whole_messages_in_order(q: &SendQueue)
    requires
        q.inv(),
    ensures
        q.spec_wire().len() <= q.spec_accepted().flatten().len(),
        q.spec_wire() == q.spec_accepted().flatten().take(q.spec_wire().len() as int),
        q.spec_wire() == q.spec_sent().flatten() + q.spec_in_flight(),
        q.spec_pending().len() > 0 ==> q.spec_in_flight().len() < q.spec_pending()[0].len(),
{
    let sent = q.spec_sent();
    let pending = q.spec_pending();
    lemma_flatten_concat(sent, pending);
    if pending.len() > 0 {
        assert(pending.flatten() == pending[0] + pending.drop_first().flatten());
        let w = q.spec_wire();
        assert(q.spec_accepted().flatten() =~= sent.flatten() + pending[0]
            + pending.drop_first().flatten());
        assert(w =~= q.spec_accepted().flatten().take(w.len() as int));
    } else {
        assert(q.spec_accepted() =~= sent);
        assert(q.spec_wire() =~= sent.flatten());
        assert(q.spec_wire() =~= q.spec_accepted().flatten().take(q.spec_wire().len() as int));
    }
}

} // verus!
