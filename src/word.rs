//! Little-endian conversion of fixed-width integers to and from byte slices.
//!
//! The wire format is little-endian whatever the host's byte order: byte `i`
//! of a value holds its bits `8 * i .. 8 * i + 7`.

use vstd::prelude::*;

verus! {

/// Value of the first two bytes of `b`, least significant first.
pub open spec fn spec_u16_from_le(b: Seq<u8>) -> u16 {
    (b[0] as u16) | ((b[1] as u16) << 8u16)
}

/// The two bytes of `v`, least significant first.
pub open spec fn spec_u16_to_le(v: u16) -> Seq<u8> {
    seq![v as u8, (v >> 8u16) as u8]
}

/// Value of the first four bytes of `b`, least significant first.
pub open spec fn spec_u32_from_le(b: Seq<u8>) -> u32 {
    (b[0] as u32) | ((b[1] as u32) << 8u32) | ((b[2] as u32) << 16u32) | ((b[3] as u32) << 24u32)
}

/// The four bytes of `v`, least significant first.
pub open spec fn spec_u32_to_le(v: u32) -> Seq<u8> {
    seq![v as u8, (v >> 8u32) as u8, (v >> 16u32) as u8, (v >> 24u32) as u8]
}

/// Value of the first eight bytes of `b`, least significant first.
pub open spec fn spec_u64_from_le(b: Seq<u8>) -> u64 {
    (b[0] as u64) | ((b[1] as u64) << 8u64) | ((b[2] as u64) << 16u64) | ((b[3] as u64) << 24u64)
        | ((b[4] as u64) << 32u64) | ((b[5] as u64) << 40u64) | ((b[6] as u64) << 48u64) | ((
    b[7] as u64) << 56u64)
}

/// The eight bytes of `v`, least significant first.
pub open spec fn spec_u64_to_le(v: u64) -> Seq<u8> {
    seq![
        v as u8,
        (v >> 8u64) as u8,
        (v >> 16u64) as u8,
        (v >> 24u64) as u8,
        (v >> 32u64) as u8,
        (v >> 40u64) as u8,
        (v >> 48u64) as u8,
        (v >> 56u64) as u8,
    ]
}

/// A fixed-width integer with a little-endian wire form of `wire_size()` bytes.
pub trait WlType: Sized {
    /// Number of bytes of the wire form.
    spec fn wire_size() -> nat;

    /// The value whose wire form starts `b`.
    spec fn spec_from_le(b: Seq<u8>) -> Self;

    /// The wire form of `v`.
    spec fn spec_to_le(v: Self) -> Seq<u8>;

    /// Encoding then decoding gives the value back.
    proof fn lemma_value_round_trip(v: Self)
        ensures
            Self::spec_to_le(v).len() == Self::wire_size(),
            Self::spec_from_le(Self::spec_to_le(v)) == v,
    ;

    /// Decoding then encoding gives the bytes back.
    proof fn lemma_bytes_round_trip(b: Seq<u8>)
        requires
            b.len() >= Self::wire_size(),
        ensures
            Self::spec_to_le(Self::spec_from_le(b)) == b.take(Self::wire_size() as int),
    ;

    /// Reads a value from the front of `buffer`; no value when it is too short.
    fn wl_type(buffer: &[u8]) -> (r: Option<Self>)
        ensures
            buffer@.len() < Self::wire_size() ==> r is None,
            buffer@.len() >= Self::wire_size() ==> r == Some(Self::spec_from_le(buffer@)),
    ;

    /// Writes the wire form of `v` over the front of `buffer` and leaves the rest;
    /// no value, and the buffer untouched, when it is too short.
    fn write(v: Self, buffer: &mut [u8]) -> (r: Option<()>)
        ensures
            old(buffer)@.len() < Self::wire_size() ==> r is None && final(buffer)@ == old(buffer)@,
            old(buffer)@.len() >= Self::wire_size() ==> r is Some && final(buffer)@
                == Self::spec_to_le(v) + old(buffer)@.skip(Self::wire_size() as int),
    ;
}

impl WlType for u8 {
    open spec fn wire_size() -> nat {
        1
    }

    open spec fn spec_from_le(b: Seq<u8>) -> u8 {
        b[0]
    }

    open spec fn spec_to_le(v: u8) -> Seq<u8> {
        seq![v]
    }

    proof fn lemma_value_round_trip(v: u8) {
    }

    proof fn lemma_bytes_round_trip(b: Seq<u8>) {
        assert(seq![b[0]] =~= b.take(1));
    }

    fn wl_type(buffer: &[u8]) -> (r: Option<u8>) {
        if buffer.len() < 1 {
            return None;
        }
        Some(buffer[0])
    }

    fn write(v: u8, buffer: &mut [u8]) -> (r: Option<()>) {
        if buffer.len() < 1 {
            return None;
        }
        buffer[0] = v;
        assert(buffer@ =~= seq![v] + old(buffer)@.skip(1));
        Some(())
    }
}

impl WlType for u16 {
    open spec fn wire_size() -> nat {
        2
    }

    open spec fn spec_from_le(b: Seq<u8>) -> u16 {
        spec_u16_from_le(b)
    }

    open spec fn spec_to_le(v: u16) -> Seq<u8> {
        spec_u16_to_le(v)
    }

    proof fn lemma_value_round_trip(v: u16) {
        let b0 = v as u8;
        let b1 = (v >> 8u16) as u8;
        assert(((b0 as u16) | ((b1 as u16) << 8u16)) == v) by (bit_vector)
            requires
                b0 == v as u8,
                b1 == (v >> 8u16) as u8,
        ;
    }

    proof fn lemma_bytes_round_trip(b: Seq<u8>) {
        let (b0, b1) = (b[0], b[1]);
        let v = spec_u16_from_le(b);
        assert(v as u8 == b0 && (v >> 8u16) as u8 == b1) by (bit_vector)
            requires
                v == (b0 as u16) | ((b1 as u16) << 8u16),
        ;
        assert(spec_u16_to_le(v) =~= b.take(2));
    }

    fn wl_type(buffer: &[u8]) -> (r: Option<u16>) {
        if buffer.len() < 2 {
            return None;
        }
        Some((buffer[0] as u16) | ((buffer[1] as u16) << 8u16))
    }

    fn write(v: u16, buffer: &mut [u8]) -> (r: Option<()>) {
        if buffer.len() < 2 {
            return None;
        }
        buffer[0] = #[verifier::truncate] (v as u8);
        buffer[1] = #[verifier::truncate] ((v >> 8u16) as u8);
        assert(buffer@ =~= spec_u16_to_le(v) + old(buffer)@.skip(2));
        Some(())
    }
}

impl WlType for u32 {
    open spec fn wire_size() -> nat {
        4
    }

    open spec fn spec_from_le(b: Seq<u8>) -> u32 {
        spec_u32_from_le(b)
    }

    open spec fn spec_to_le(v: u32) -> Seq<u8> {
        spec_u32_to_le(v)
    }

    proof fn lemma_value_round_trip(v: u32) {
        let (b0, b1, b2, b3) = (v as u8, (v >> 8u32) as u8, (v >> 16u32) as u8, (v >> 24u32) as u8);
        assert(((b0 as u32) | ((b1 as u32) << 8u32) | ((b2 as u32) << 16u32) | ((b3 as u32)
            << 24u32)) == v) by (bit_vector)
            requires
                b0 == v as u8,
                b1 == (v >> 8u32) as u8,
                b2 == (v >> 16u32) as u8,
                b3 == (v >> 24u32) as u8,
        ;
    }

    proof fn lemma_bytes_round_trip(b: Seq<u8>) {
        let (b0, b1, b2, b3) = (b[0], b[1], b[2], b[3]);
        let v = spec_u32_from_le(b);
        assert(v as u8 == b0 && (v >> 8u32) as u8 == b1 && (v >> 16u32) as u8 == b2 && (v
            >> 24u32) as u8 == b3) by (bit_vector)
            requires
                v == (b0 as u32) | ((b1 as u32) << 8u32) | ((b2 as u32) << 16u32) | ((b3 as u32)
                    << 24u32),
        ;
        assert(spec_u32_to_le(v) =~= b.take(4));
    }

    fn wl_type(buffer: &[u8]) -> (r: Option<u32>) {
        if buffer.len() < 4 {
            return None;
        }
        Some(
            (buffer[0] as u32) | ((buffer[1] as u32) << 8u32) | ((buffer[2] as u32) << 16u32) | ((
            buffer[3] as u32) << 24u32),
        )
    }

    fn write(v: u32, buffer: &mut [u8]) -> (r: Option<()>) {
        if buffer.len() < 4 {
            return None;
        }
        buffer[0] = #[verifier::truncate] (v as u8);
        buffer[1] = #[verifier::truncate] ((v >> 8u32) as u8);
        buffer[2] = #[verifier::truncate] ((v >> 16u32) as u8);
        buffer[3] = #[verifier::truncate] ((v >> 24u32) as u8);
        assert(buffer@ =~= spec_u32_to_le(v) + old(buffer)@.skip(4));
        Some(())
    }
}

impl WlType for u64 {
    open spec fn wire_size() -> nat {
        8
    }

    open spec fn spec_from_le(b: Seq<u8>) -> u64 {
        spec_u64_from_le(b)
    }

    open spec fn spec_to_le(v: u64) -> Seq<u8> {
        spec_u64_to_le(v)
    }

    proof fn lemma_value_round_trip(v: u64) {
        let (b0, b1, b2, b3) = (v as u8, (v >> 8u64) as u8, (v >> 16u64) as u8, (v >> 24u64) as u8);
        let (b4, b5, b6, b7) = (
            (v >> 32u64) as u8,
            (v >> 40u64) as u8,
            (v >> 48u64) as u8,
            (v >> 56u64) as u8,
        );
        assert(((b0 as u64) | ((b1 as u64) << 8u64) | ((b2 as u64) << 16u64) | ((b3 as u64)
            << 24u64) | ((b4 as u64) << 32u64) | ((b5 as u64) << 40u64) | ((b6 as u64) << 48u64)
            | ((b7 as u64) << 56u64)) == v) by (bit_vector)
            requires
                b0 == v as u8,
                b1 == (v >> 8u64) as u8,
                b2 == (v >> 16u64) as u8,
                b3 == (v >> 24u64) as u8,
                b4 == (v >> 32u64) as u8,
                b5 == (v >> 40u64) as u8,
                b6 == (v >> 48u64) as u8,
                b7 == (v >> 56u64) as u8,
        ;
    }

    proof fn lemma_bytes_round_trip(b: Seq<u8>) {
        let (b0, b1, b2, b3, b4, b5, b6, b7) = (b[0], b[1], b[2], b[3], b[4], b[5], b[6], b[7]);
        let v = spec_u64_from_le(b);
        assert(v as u8 == b0 && (v >> 8u64) as u8 == b1 && (v >> 16u64) as u8 == b2 && (v
            >> 24u64) as u8 == b3 && (v >> 32u64) as u8 == b4 && (v >> 40u64) as u8 == b5 && (v
            >> 48u64) as u8 == b6 && (v >> 56u64) as u8 == b7) by (bit_vector)
            requires
                v == (b0 as u64) | ((b1 as u64) << 8u64) | ((b2 as u64) << 16u64) | ((b3 as u64)
                    << 24u64) | ((b4 as u64) << 32u64) | ((b5 as u64) << 40u64) | ((b6 as u64)
                    << 48u64) | ((b7 as u64) << 56u64),
        ;
        assert(spec_u64_to_le(v) =~= b.take(8));
    }

    fn wl_type(buffer: &[u8]) -> (r: Option<u64>) {
        if buffer.len() < 8 {
            return None;
        }
        Some(
            (buffer[0] as u64) | ((buffer[1] as u64) << 8u64) | ((buffer[2] as u64) << 16u64) | ((
            buffer[3] as u64) << 24u64) | ((buffer[4] as u64) << 32u64) | ((buffer[5] as u64)
                << 40u64) | ((buffer[6] as u64) << 48u64) | ((buffer[7] as u64) << 56u64),
        )
    }

    fn write(v: u64, buffer: &mut [u8]) -> (r: Option<()>) {
        if buffer.len() < 8 {
            return None;
        }
        buffer[0] = #[verifier::truncate] (v as u8);
        buffer[1] = #[verifier::truncate] ((v >> 8u64) as u8);
        buffer[2] = #[verifier::truncate] ((v >> 16u64) as u8);
        buffer[3] = #[verifier::truncate] ((v >> 24u64) as u8);
        buffer[4] = #[verifier::truncate] ((v >> 32u64) as u8);
        buffer[5] = #[verifier::truncate] ((v >> 40u64) as u8);
        buffer[6] = #[verifier::truncate] ((v >> 48u64) as u8);
        buffer[7] = #[verifier::truncate] ((v >> 56u64) as u8);
        assert(buffer@ =~= spec_u64_to_le(v) + old(buffer)@.skip(8));
        Some(())
    }
}

impl WlType for i8 {
    open spec fn wire_size() -> nat {
        1
    }

    open spec fn spec_from_le(b: Seq<u8>) -> i8 {
        <u8 as WlType>::spec_from_le(b) as i8
    }

    open spec fn spec_to_le(v: i8) -> Seq<u8> {
        <u8 as WlType>::spec_to_le(v as u8)
    }

    proof fn lemma_value_round_trip(v: i8) {
        let u = v as u8;
        <u8 as WlType>::lemma_value_round_trip(u);
        assert((u as i8) == v) by (bit_vector)
            requires
                u == v as u8,
        ;
    }

    proof fn lemma_bytes_round_trip(b: Seq<u8>) {
        let u = <u8 as WlType>::spec_from_le(b);
        <u8 as WlType>::lemma_bytes_round_trip(b);
        assert(((u as i8) as u8) == u) by (bit_vector);
    }

    fn wl_type(buffer: &[u8]) -> (r: Option<i8>) {
        match <u8 as WlType>::wl_type(buffer) {
            Some(u) => Some(#[verifier::truncate] (u as i8)),
            None => None,
        }
    }

    fn write(v: i8, buffer: &mut [u8]) -> (r: Option<()>) {
        <u8 as WlType>::write(#[verifier::truncate] (v as u8), buffer)
    }
}

impl WlType for i16 {
    open spec fn wire_size() -> nat {
        2
    }

    open spec fn spec_from_le(b: Seq<u8>) -> i16 {
        <u16 as WlType>::spec_from_le(b) as i16
    }

    open spec fn spec_to_le(v: i16) -> Seq<u8> {
        <u16 as WlType>::spec_to_le(v as u16)
    }

    proof fn lemma_value_round_trip(v: i16) {
        let u = v as u16;
        <u16 as WlType>::lemma_value_round_trip(u);
        assert((u as i16) == v) by (bit_vector)
            requires
                u == v as u16,
        ;
    }

    proof fn lemma_bytes_round_trip(b: Seq<u8>) {
        let u = <u16 as WlType>::spec_from_le(b);
        <u16 as WlType>::lemma_bytes_round_trip(b);
        assert(((u as i16) as u16) == u) by (bit_vector);
    }

    fn wl_type(buffer: &[u8]) -> (r: Option<i16>) {
        match <u16 as WlType>::wl_type(buffer) {
            Some(u) => Some(#[verifier::truncate] (u as i16)),
            None => None,
        }
    }

    fn write(v: i16, buffer: &mut [u8]) -> (r: Option<()>) {
        <u16 as WlType>::write(#[verifier::truncate] (v as u16), buffer)
    }
}

impl WlType for i32 {
    open spec fn wire_size() -> nat {
        4
    }

    open spec fn spec_from_le(b: Seq<u8>) -> i32 {
        <u32 as WlType>::spec_from_le(b) as i32
    }

    open spec fn spec_to_le(v: i32) -> Seq<u8> {
        <u32 as WlType>::spec_to_le(v as u32)
    }

    proof fn lemma_value_round_trip(v: i32) {
        let u = v as u32;
        <u32 as WlType>::lemma_value_round_trip(u);
        assert((u as i32) == v) by (bit_vector)
            requires
                u == v as u32,
        ;
    }

    proof fn lemma_bytes_round_trip(b: Seq<u8>) {
        let u = <u32 as WlType>::spec_from_le(b);
        <u32 as WlType>::lemma_bytes_round_trip(b);
        assert(((u as i32) as u32) == u) by (bit_vector);
    }

    fn wl_type(buffer: &[u8]) -> (r: Option<i32>) {
        match <u32 as WlType>::wl_type(buffer) {
            Some(u) => Some(#[verifier::truncate] (u as i32)),
            None => None,
        }
    }

    fn write(v: i32, buffer: &mut [u8]) -> (r: Option<()>) {
        <u32 as WlType>::write(#[verifier::truncate] (v as u32), buffer)
    }
}

impl WlType for i64 {
    open spec fn wire_size() -> nat {
        8
    }

    open spec fn spec_from_le(b: Seq<u8>) -> i64 {
        <u64 as WlType>::spec_from_le(b) as i64
    }

    open spec fn spec_to_le(v: i64) -> Seq<u8> {
        <u64 as WlType>::spec_to_le(v as u64)
    }

    proof fn lemma_value_round_trip(v: i64) {
        let u = v as u64;
        <u64 as WlType>::lemma_value_round_trip(u);
        assert((u as i64) == v) by (bit_vector)
            requires
                u == v as u64,
        ;
    }

    proof fn lemma_bytes_round_trip(b: Seq<u8>) {
        let u = <u64 as WlType>::spec_from_le(b);
        <u64 as WlType>::lemma_bytes_round_trip(b);
        assert(((u as i64) as u64) == u) by (bit_vector);
    }

    fn wl_type(buffer: &[u8]) -> (r: Option<i64>) {
        match <u64 as WlType>::wl_type(buffer) {
            Some(u) => Some(#[verifier::truncate] (u as i64)),
            None => None,
        }
    }

    fn write(v: i64, buffer: &mut [u8]) -> (r: Option<()>) {
        <u64 as WlType>::write(#[verifier::truncate] (v as u64), buffer)
    }
}

/// The 4-byte unit in which the protocol lays out its values.
pub struct Word;

impl Word {
    /// Number of bytes of a word.
    pub const SIZE: usize = 4;

    /// The word whose upper half is `upper` and lower half is `lower`.
    pub fn from_u16(upper: u16, lower: u16) -> (r: u32)
        ensures
            r == upper * 0x10000 + lower,
    {
        let r = ((upper as u32) << 16u32) | (lower as u32);
        assert(((upper as u32) << 16u32) | (lower as u32) == (upper as u32) * 0x10000u32 + (
        lower as u32)) by (bit_vector);
        r
    }
}

/// A value read from one word of the wire.
pub trait FromWords: Sized {
    /// The value that the word at the front of `b` holds.
    spec fn spec_from_word(b: Seq<u8>) -> Self;

    /// Reads the word at the front of `from`; no value when `from` is shorter than a word.
    fn from_word(from: &[u8]) -> (r: Option<Self>)
        ensures
            from@.len() < 4 ==> r is None,
            from@.len() >= 4 ==> r == Some(Self::spec_from_word(from@)),
    ;
}

impl FromWords for u32 {
    open spec fn spec_from_word(b: Seq<u8>) -> u32 {
        spec_u32_from_le(b)
    }

    fn from_word(from: &[u8]) -> (r: Option<u32>) {
        <u32 as WlType>::wl_type(from)
    }
}

/// A word read as its two halves, the upper (bytes 2 and 3) first.
impl FromWords for (u16, u16) {
    open spec fn spec_from_word(b: Seq<u8>) -> (u16, u16) {
        (spec_u16_from_le(b.skip(2)), spec_u16_from_le(b))
    }

    fn from_word(from: &[u8]) -> (r: Option<(u16, u16)>) {
        if from.len() < 4 {
            return None;
        }
        let lower = <u16 as WlType>::wl_type(from);
        let upper = <u16 as WlType>::wl_type(&from[2..4]);
        match (upper, lower) {
            (Some(u), Some(l)) => {
                assert(from@.subrange(2, 4)[0] == from@.skip(2)[0]);
                assert(from@.subrange(2, 4)[1] == from@.skip(2)[1]);
                Some((u, l))
            },
            _ => None,
        }
    }
}

} // verus!
