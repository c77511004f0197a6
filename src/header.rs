//! The 8-byte header that frames every message: object id, opcode and the
//! total length of the message, header included.

use vstd::prelude::*;
use crate::word::{spec_u16_from_le, spec_u16_to_le, spec_u32_from_le, spec_u32_to_le, WlType};

verus! {

broadcast use vstd::layout::layout_of_primitives;

/// Identifier of the protocol object that a message targets.
pub type ObjectID = u32;

/// Selector of the request or event, scoped to the target object's interface.
pub type Opcode = u16;

/// Total length of a message in bytes, header included.
pub type HeaderLen = u16;

/// Size of a header on the wire.
pub const HEADER_SIZE: usize = 8;

/// Largest total message length the 16-bit length field leaves room for.
pub const MAX_MESSAGE_LEN: usize = 0xFFFF;

#[derive(Clone, Copy, Debug, PartialEq, Eq, Structural)]
pub struct Header {
    pub object_id: ObjectID,
    pub opcode: Opcode,
    pub len: HeaderLen,
}

/// The header that the first eight bytes of `b` hold.
pub open spec fn spec_header_from_bytes(b: Seq<u8>) -> Header {
    Header {
        object_id: spec_u32_from_le(b),
        opcode: spec_u16_from_le(b.skip(4)),
        len: spec_u16_from_le(b.skip(6)),
    }
}

/// The eight bytes of `h` on the wire.
pub open spec fn spec_header_bytes(h: Header) -> Seq<u8> {
    spec_u32_to_le(h.object_id) + spec_u16_to_le(h.opcode) + spec_u16_to_le(h.len)
}

/// Whether a payload of `payload_len` bytes can be framed: it is not empty
/// and the whole message fits the length field.
pub open spec fn valid_payload_len(payload_len: int) -> bool {
    0 < payload_len && HEADER_SIZE + payload_len <= MAX_MESSAGE_LEN
}

impl Header {
    /// Header of a message whose payload has the layout of `T`.
    pub fn new<T>(object_id: ObjectID, opcode: Opcode) -> (r: Header)
        requires
            valid_payload_len(vstd::layout::size_of::<T>() as int),
        ensures
            r == (Header {
                object_id,
                opcode,
                len: (HEADER_SIZE + vstd::layout::size_of::<T>()) as u16,
            }),
    {
        let size = core::mem::size_of::<T>();
        Header { object_id, opcode, len: (HEADER_SIZE + size) as u16 }
    }

    /// Header of a message whose payload is `payload_len` bytes long; no value
    /// when the payload is empty or the message would not fit the length field.
    pub fn with_payload_len(object_id: ObjectID, opcode: Opcode, payload_len: usize) -> (r:
        Option<Header>)
        ensures
            r is Some <==> valid_payload_len(payload_len as int),
            r is Some ==> r == Some(
                Header { object_id, opcode, len: (HEADER_SIZE + payload_len) as u16 },
            ),
    {
        if payload_len == 0 || payload_len > MAX_MESSAGE_LEN - HEADER_SIZE {
            return None;
        }
        Some(Header { object_id, opcode, len: (HEADER_SIZE + payload_len) as u16 })
    }

    /// Reads a header from the front of `buffer`; no value when it holds fewer
    /// than eight bytes. The length field is taken as it stands.
    pub fn from_bytes(buffer: &[u8]) -> (r: Option<Header>)
        ensures
            buffer@.len() < HEADER_SIZE ==> r is None,
            buffer@.len() >= HEADER_SIZE ==> r == Some(spec_header_from_bytes(buffer@)),
    {
        if buffer.len() < HEADER_SIZE {
            return None;
        }
        let object_id = <u32 as WlType>::wl_type(buffer);
        let opcode = <u16 as WlType>::wl_type(&buffer[4..6]);
        let len = <u16 as WlType>::wl_type(&buffer[6..8]);
        match (object_id, opcode, len) {
            (Some(object_id), Some(opcode), Some(len)) => {
                assert(buffer@.subrange(4, 6) =~= buffer@.skip(4).take(2));
                assert(buffer@.subrange(6, 8) =~= buffer@.skip(6).take(2));
                Some(Header { object_id, opcode, len })
            },
            _ => None,
        }
    }

    /// The eight bytes of this header on the wire.
    pub fn to_bytes(&self) -> (r: Vec<u8>)
        ensures
            r@ == spec_header_bytes(*self),
    {
        let mut out: Vec<u8> = vec![0u8; 4];
        let mut opcode: Vec<u8> = vec![0u8; 2];
        let mut len: Vec<u8> = vec![0u8; 2];
        <u32 as WlType>::write(self.object_id, out.as_mut_slice());
        <u16 as WlType>::write(self.opcode, opcode.as_mut_slice());
        <u16 as WlType>::write(self.len, len.as_mut_slice());
        out.append(&mut opcode);
        out.append(&mut len);
        assert(out@ =~= spec_header_bytes(*self));
        out
    }

    /// Number of payload bytes that follow the header.
    pub fn payload_len(&self) -> (r: usize)
        requires
            self.len >= HEADER_SIZE,
        ensures
            r == self.len - HEADER_SIZE,
    {
        self.len as usize - HEADER_SIZE
    }

    pub fn object_id(&self) -> (r: ObjectID)
        ensures
            r == self.object_id,
    {
        self.object_id
    }

    pub fn opcode(&self) -> (r: Opcode)
        ensures
            r == self.opcode,
    {
        self.opcode
    }

    pub fn len(&self) -> (r: HeaderLen)
        ensures
            r == self.len,
    {
        self.len
    }
}

/// Encoding a header and decoding the bytes gives the same header back.
pub proof fn lemma_header_round_trip(h: Header)
    ensures
        spec_header_bytes(h).len() == HEADER_SIZE,
        spec_header_from_bytes(spec_header_bytes(h)) == h,
{
    let b = spec_header_bytes(h);
    <u32 as WlType>::lemma_value_round_trip(h.object_id);
    <u16 as WlType>::lemma_value_round_trip(h.opcode);
    <u16 as WlType>::lemma_value_round_trip(h.len);
    assert(b.take(4) =~= spec_u32_to_le(h.object_id));
    assert(b.skip(4).take(2) =~= spec_u16_to_le(h.opcode));
    assert(b.skip(6) =~= spec_u16_to_le(h.len));
    assert(spec_u32_from_le(b) == spec_u32_from_le(spec_u32_to_le(h.object_id)));
    assert(spec_u16_from_le(b.skip(4)) == spec_u16_from_le(spec_u16_to_le(h.opcode)));
}

/// Decoding a header from bytes and encoding it again gives back the bytes
/// it was read from.
pub proof fn lemma_header_bytes_round_trip(b: Seq<u8>)
    requires
        b.len() >= HEADER_SIZE,
    ensures
        spec_header_bytes(spec_header_from_bytes(b)) == b.take(HEADER_SIZE as int),
{
    <u32 as WlType>::lemma_bytes_round_trip(b);
    <u16 as WlType>::lemma_bytes_round_trip(b.skip(4));
    <u16 as WlType>::lemma_bytes_round_trip(b.skip(6));
    assert(spec_header_bytes(spec_header_from_bytes(b)) =~= b.take(HEADER_SIZE as int));
}

} // verus!
