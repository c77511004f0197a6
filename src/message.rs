//! Messages as a whole: a header whose length counts the whole message type,
//! the payload that follows a header, and the display's registry request.

use vstd::prelude::*;
use crate::header::{HEADER_SIZE, MAX_MESSAGE_LEN, HeaderLen, ObjectID, Opcode};
use crate::word::{spec_u16_from_le, spec_u32_from_le, FromWords, Word};

verus! {

/// Object id 1 is always the display.
pub const WL_DISPLAY_ID: ObjectID = 1;

/// Header of a message, read in words: the object id, then a word whose upper
/// half is the length and lower half the opcode.
#[derive(Clone, Copy, Debug, PartialEq, Eq, Structural)]
pub struct Message {
    pub object_id: ObjectID,
    pub opcode: Opcode,
    pub len: HeaderLen,
}

/// The message header that the first eight bytes of `b` hold.
pub open spec fn spec_message_from_bytes(b: Seq<u8>) -> Message {
    Message {
        object_id: spec_u32_from_le(b),
        opcode: spec_u16_from_le(b.skip(4)),
        len: spec_u16_from_le(b.skip(6)),
    }
}

impl Message {
    /// Offset of the payload in a message.
    pub const PAYLOAD_START: usize = 8;

    /// Header of a message whose whole layout, header included, is that of `T`.
    pub fn new<T>(object_id: ObjectID, opcode: Opcode) -> (r: Message)
        requires
            HEADER_SIZE < vstd::layout::size_of::<T>() <= MAX_MESSAGE_LEN,
        ensures
            r == (Message { object_id, opcode, len: vstd::layout::size_of::<T>() as u16 }),
    {
        let len = core::mem::size_of::<T>() as u16;
        Message { object_id, opcode, len }
    }

    /// Reads a header from the front of `buffer`; no value when it holds fewer
    /// than eight bytes. The length field is taken as it stands.
    pub fn from_bytes(buffer: &[u8]) -> (r: Option<Message>)
        ensures
            buffer@.len() < HEADER_SIZE ==> r is None,
            buffer@.len() >= HEADER_SIZE ==> r == Some(spec_message_from_bytes(buffer@)),
    {
        if buffer.len() < HEADER_SIZE {
            return None;
        }
        let object_id = <u32 as FromWords>::from_word(buffer);
        let second = <(u16, u16) as FromWords>::from_word(&buffer[4..8]);
        match (object_id, second) {
            (Some(object_id), Some((len, opcode))) => {
                assert(buffer@.subrange(4, 8)[0] == buffer@.skip(4)[0]);
                assert(buffer@.subrange(4, 8)[1] == buffer@.skip(4)[1]);
                assert(buffer@.subrange(4, 8).skip(2)[0] == buffer@.skip(6)[0]);
                assert(buffer@.subrange(4, 8).skip(2)[1] == buffer@.skip(6)[1]);
                Some(Message { object_id, opcode, len })
            },
            _ => None,
        }
    }

    /// Number of payload bytes that follow the header.
    pub fn payload_len(&self) -> (r: usize)
        requires
            self.len >= HEADER_SIZE,
        ensures
            r == self.len - HEADER_SIZE,
    {
        self.len as usize - Self::PAYLOAD_START
    }
}

/// The payload of a message, borrowed from the bytes it was received in.
pub struct Payload<'a>(&'a [u8]);

impl<'a> Payload<'a> {
    /// The payload bytes.
    pub closed spec fn spec_bytes(&self) -> Seq<u8> {
        self.0@
    }

    /// The payload of the message that `buf` holds from its start, header
    /// included; no value when the header's length is shorter than a header or
    /// longer than `buf`.
    pub fn from_buf(header: &Message, buf: &'a [u8]) -> (r: Option<Payload<'a>>)
        ensures
            r is Some <==> HEADER_SIZE <= header.len <= buf@.len(),
            r is Some ==> r.unwrap().spec_bytes() == buf@.subrange(
                HEADER_SIZE as int,
                header.len as int,
            ),
    {
        if (header.len as usize) < Message::PAYLOAD_START || header.len as usize > buf.len() {
            return None;
        }
        Some(Payload(&buf[Message::PAYLOAD_START..header.len as usize]))
    }

    /// The payload bytes.
    pub fn bytes(&self) -> (r: &'a [u8])
        ensures
            r@ == self.spec_bytes(),
    {
        self.0
    }
}

/// The display object.
pub struct WlDisplay;

/// Request to the display for the global registry, bound to a new object id.
pub struct GetRegistry {
    pub header: Message,
    pub registry: ObjectID,
}

impl GetRegistry {
    /// Opcode of the request on the display.
    pub const OPCODE: Opcode = 1;

    /// Length of the request: three words.
    pub const LEN: HeaderLen = 12;

    /// The request that binds the registry to the object id `registry`.
    pub fn send(registry: ObjectID) -> (r: GetRegistry)
        ensures
            r.header == (Message { object_id: WL_DISPLAY_ID, opcode: Self::OPCODE, len: Self::LEN }),
            r.registry == registry,
    {
        let header = Message { object_id: WL_DISPLAY_ID, opcode: Self::OPCODE, len: Self::LEN };
        GetRegistry { header, registry }
    }

    /// The request's three words: object id, length and opcode, registry id.
    pub fn into_array(&self) -> (r: [u32; 3])
        ensures
            r@ == seq![
                self.header.object_id,
                (self.header.len * 0x10000 + self.header.opcode) as u32,
                self.registry,
            ],
    {
        [
            self.header.object_id,
            Word::from_u16(self.header.len, self.header.opcode),
            self.registry,
        ]
    }
}

} // verus!
