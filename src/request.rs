//! What a request is to the wire: how it is laid out, how its bytes are
//! produced, and how a header is put in front of them.

use vstd::prelude::*;
use crate::fixed::WlFixed;
use crate::message::GetRegistry;
use crate::header::{spec_header_bytes, valid_payload_len, Header, ObjectID, Opcode, HEADER_SIZE};
use crate::string::{WlArray, WlString};
use crate::word::{spec_u32_to_le, WlType};

verus! {

/// How a request is laid out on the wire.
#[derive(Clone, Copy, Debug, PartialEq, Eq, Structural)]
pub struct MetaData {
    /// Whether every value of the type has the same wire size.
    pub fixed_size: bool,
    /// The wire size when it is fixed; a lower bound otherwise.
    pub size_hint: usize,
}

/// A type whose wire layout is known, with the proof that every value's wire
/// form keeps to it.
pub trait RequestInfo: IntoWire {
    /// The layout of the type.
    spec fn spec_metadata() -> MetaData;

    fn metadata() -> (r: MetaData)
        ensures
            r == Self::spec_metadata(),
    ;

    /// The wire form of `v` is `size_hint` bytes long when the size is fixed,
    /// and at least that long otherwise.
    proof fn lemma_layout(v: &Self)
        ensures
            Self::spec_metadata().fixed_size ==> v.spec_wire().len()
                == Self::spec_metadata().size_hint,
            v.spec_wire().len() >= Self::spec_metadata().size_hint,
    ;
}

/// Marks a request whose wire form has one fixed size.
#[derive(Clone, Copy, Debug, PartialEq, Eq, Structural)]
pub struct SingleRequest;

/// Marks a request whose wire form holds strings or arrays and so varies in size.
#[derive(Clone, Copy, Debug, PartialEq, Eq, Structural)]
pub struct MultipleRequest;

/// Which of the two ways a request is encoded.
#[derive(Clone, Copy, Debug, PartialEq, Eq, Structural)]
pub enum RequestType {
    Single(SingleRequest),
    Multiple(MultipleRequest),
}

/// A request of an interface: its layout tag and the type of its wire form.
pub trait Request {
    type Wire: RequestInfo + IntoWire;

    /// How the request is encoded.
    spec fn spec_request_type() -> RequestType;

    fn request_type() -> (r: RequestType)
        ensures
            r == Self::spec_request_type(),
    ;
}

/// A protocol interface with the events and errors it decodes to.
pub trait Interface {
    type Event;
    type Error;
}

/// A backend that sends requests over a connection and hands incoming events
/// to their interface.
pub trait Driver {
    type NotifyResult;
    type RequestResult;

    /// Hands an incoming event to `event`'s interface.
    fn notify<I: Interface>(&self, event: &I) -> Self::NotifyResult;

    /// Writes the whole wire form of a request, header included.
    fn request(&self, wire: &[u8]) -> Self::RequestResult;
}

/// A driver whose operations suspend instead of blocking.
pub trait AsyncDriver: Driver {
}

/// A value with a wire form.
pub trait IntoWire {
    /// The wire form.
    spec fn spec_wire(&self) -> Seq<u8>;

    /// The wire form.
    fn into_vec(&self) -> (r: Vec<u8>)
        ensures
            r@ == self.spec_wire(),
    ;
}

impl RequestInfo for u32 {
    open spec fn spec_metadata() -> MetaData {
        MetaData { fixed_size: true, size_hint: 4 }
    }

    fn metadata() -> (r: MetaData) {
        MetaData { fixed_size: true, size_hint: 4 }
    }

    proof fn lemma_layout(v: &Self) {
        <u32 as WlType>::lemma_value_round_trip(*v);
    }
}

impl RequestInfo for i32 {
    open spec fn spec_metadata() -> MetaData {
        MetaData { fixed_size: true, size_hint: 4 }
    }

    fn metadata() -> (r: MetaData) {
        MetaData { fixed_size: true, size_hint: 4 }
    }

    proof fn lemma_layout(v: &Self) {
        <i32 as WlType>::lemma_value_round_trip(*v);
    }
}

impl RequestInfo for WlFixed {
    open spec fn spec_metadata() -> MetaData {
        MetaData { fixed_size: true, size_hint: 4 }
    }

    fn metadata() -> (r: MetaData) {
        MetaData { fixed_size: true, size_hint: 4 }
    }

    proof fn lemma_layout(v: &Self) {
        <WlFixed as WlType>::lemma_value_round_trip(*v);
    }
}

impl<'a> RequestInfo for WlString<'a> {
    open spec fn spec_metadata() -> MetaData {
        MetaData { fixed_size: false, size_hint: 4 }
    }

    fn metadata() -> (r: MetaData) {
        MetaData { fixed_size: false, size_hint: 4 }
    }

    proof fn lemma_layout(v: &Self) {
    }
}

impl RequestInfo for WlArray {
    open spec fn spec_metadata() -> MetaData {
        MetaData { fixed_size: false, size_hint: 4 }
    }

    fn metadata() -> (r: MetaData) {
        MetaData { fixed_size: false, size_hint: 4 }
    }

    proof fn lemma_layout(v: &Self) {
    }
}

impl IntoWire for u32 {
    open spec fn spec_wire(&self) -> Seq<u8> {
        <u32 as WlType>::spec_to_le(*self)
    }

    fn into_vec(&self) -> (r: Vec<u8>) {
        let mut out: Vec<u8> = vec![0u8; 4];
        <u32 as WlType>::write(*self, out.as_mut_slice());
        assert(out@ =~= self.spec_wire());
        out
    }
}

impl IntoWire for i32 {
    open spec fn spec_wire(&self) -> Seq<u8> {
        <i32 as WlType>::spec_to_le(*self)
    }

    fn into_vec(&self) -> (r: Vec<u8>) {
        let mut out: Vec<u8> = vec![0u8; 4];
        <i32 as WlType>::write(*self, out.as_mut_slice());
        assert(out@ =~= self.spec_wire());
        out
    }
}

impl IntoWire for WlFixed {
    open spec fn spec_wire(&self) -> Seq<u8> {
        <WlFixed as WlType>::spec_to_le(*self)
    }

    fn into_vec(&self) -> (r: Vec<u8>) {
        let mut out: Vec<u8> = vec![0u8; 4];
        <WlFixed as WlType>::write(*self, out.as_mut_slice());
        assert(out@ =~= self.spec_wire());
        out
    }
}

impl<'a> IntoWire for WlString<'a> {
    open spec fn spec_wire(&self) -> Seq<u8> {
        self.spec_wire()
    }

    fn into_vec(&self) -> (r: Vec<u8>) {
        self.as_bytes()
    }
}

impl IntoWire for WlArray {
    open spec fn spec_wire(&self) -> Seq<u8> {
        crate::string::spec_array_bytes(self.spec_value())
    }

    fn into_vec(&self) -> (r: Vec<u8>) {
        self.as_bytes()
    }
}

impl RequestInfo for GetRegistry {
    open spec fn spec_metadata() -> MetaData {
        MetaData { fixed_size: true, size_hint: 12 }
    }

    fn metadata() -> (r: MetaData) {
        MetaData { fixed_size: true, size_hint: 12 }
    }

    proof fn lemma_layout(v: &Self) {
    }
}

/// The request's three words, each least significant byte first.
impl IntoWire for GetRegistry {
    open spec fn spec_wire(&self) -> Seq<u8> {
        spec_u32_to_le(self.header.object_id) + spec_u32_to_le(
            (self.header.len * 0x10000 + self.header.opcode) as u32,
        ) + spec_u32_to_le(self.registry)
    }

    fn into_vec(&self) -> (r: Vec<u8>) {
        let words = self.into_array();
        let mut out = words[0].into_vec();
        let mut second = words[1].into_vec();
        let mut third = words[2].into_vec();
        out.append(&mut second);
        out.append(&mut third);
        out
    }
}

impl Request for GetRegistry {
    type Wire = GetRegistry;

    open spec fn spec_request_type() -> RequestType {
        RequestType::Single(SingleRequest)
    }

    fn request_type() -> (r: RequestType) {
        RequestType::Single(SingleRequest)
    }
}

/// Two values laid out one after the other.
impl<T: IntoWire, U: IntoWire> IntoWire for (T, U) {
    open spec fn spec_wire(&self) -> Seq<u8> {
        self.0.spec_wire() + self.1.spec_wire()
    }

    fn into_vec(&self) -> (r: Vec<u8>) {
        let mut out = self.0.into_vec();
        let mut rest = self.1.into_vec();
        out.append(&mut rest);
        out
    }
}

/// Two values laid out one after the other: their size hints add up, and the
/// pair has a fixed size when both parts have one and the sum fits `usize`.
impl<T: RequestInfo, U: RequestInfo> RequestInfo for (T, U) {
    open spec fn spec_metadata() -> MetaData {
        let a = T::spec_metadata();
        let b = U::spec_metadata();
        if a.size_hint + b.size_hint <= usize::MAX {
            MetaData {
                fixed_size: a.fixed_size && b.fixed_size,
                size_hint: (a.size_hint + b.size_hint) as usize,
            }
        } else {
            MetaData { fixed_size: false, size_hint: a.size_hint }
        }
    }

    fn metadata() -> (r: MetaData) {
        let a = T::metadata();
        let b = U::metadata();
        if a.size_hint <= usize::MAX - b.size_hint {
            MetaData {
                fixed_size: a.fixed_size && b.fixed_size,
                size_hint: a.size_hint + b.size_hint,
            }
        } else {
            MetaData { fixed_size: false, size_hint: a.size_hint }
        }
    }

    proof fn lemma_layout(v: &Self) {
        T::lemma_layout(&v.0);
        U::lemma_layout(&v.1);
    }
}

impl Header {
    /// Header of a message whose payload is a value of `T`, when `T` has a
    /// fixed wire size; no value when it has none, or the payload is empty or
    /// would not fit the length field.
    pub fn for_request<T: RequestInfo>(object_id: ObjectID, opcode: Opcode) -> (r: Option<Header>)
        ensures
            r is Some <==> T::spec_metadata().fixed_size && valid_payload_len(
                T::spec_metadata().size_hint as int,
            ),
            r is Some ==> r == Some(
                Header {
                    object_id,
                    opcode,
                    len: (HEADER_SIZE + T::spec_metadata().size_hint) as u16,
                },
            ),
    {
        let layout = T::metadata();
        if !layout.fixed_size {
            return None;
        }
        Header::with_payload_len(object_id, opcode, layout.size_hint)
    }
}

/// The whole message for a request to `object_id` with `opcode` whose payload
/// is `payload`: header, then payload. No value when the payload is empty or
/// the message would not fit the header's length field.
pub fn frame_request(object_id: ObjectID, opcode: Opcode, payload: &[u8]) -> (r: Option<Vec<u8>>)
    ensures
        r is Some <==> valid_payload_len(payload@.len() as int),
        r is Some ==> r.unwrap()@ == spec_header_bytes(
            Header { object_id, opcode, len: (HEADER_SIZE + payload@.len()) as u16 },
        ) + payload@,
{
    match Header::with_payload_len(object_id, opcode, payload.len()) {
        Some(header) => {
            let mut out = header.to_bytes();
            let mut rest = vstd::slice::slice_to_vec(payload);
            out.append(&mut rest);
            Some(out)
        },
        None => None,
    }
}

} // verus!
