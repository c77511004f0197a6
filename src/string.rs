//! Length-prefixed wire strings and arrays.
//!
//! A string travels as one word holding its length, its bytes, a NUL
//! terminator, then zero bytes up to the next multiple of four, with at least
//! one byte of padding even when the terminator already ends on a boundary.
//! The length counts the text alone, and a reader takes the word as it stands:
//! taking one off for the terminator on reading would drop the last byte of
//! every string written this way.
//! An array travels as one word holding its length, its bytes, then zero to
//! three zero bytes up to the next multiple of four.

use vstd::prelude::*;
use vstd::slice::slice_to_vec;
use vstd::string::StringSliceAdditionalSpecFns;
use crate::word::{spec_u32_from_le, spec_u32_to_le, WlType, Word};

verus! {

/// Padding that follows `n` bytes of string: always between one and four.
pub open spec fn spec_padding(n: int) -> int {
    4 - n % 4
}

/// Bytes that a string of `len` bytes takes after its length word: content,
/// terminator and padding.
pub open spec fn spec_str_capacity(len: int) -> int {
    spec_padding(len + 1) + len + 1
}

/// Length of the string whose length word starts `b`: the word itself.
pub open spec fn spec_decoded_len(b: Seq<u8>) -> u32 {
    spec_u32_from_le(b)
}

/// Whether `b` is long enough to hold the string whose length word starts it.
pub open spec fn spec_string_fits(b: Seq<u8>) -> bool {
    b.len() >= Word::SIZE && b.len() >= Word::SIZE + spec_str_capacity(
        spec_decoded_len(b) as int,
    )
}

/// The bytes after the length word of the string that starts `b`.
pub open spec fn spec_decoded_content(b: Seq<u8>) -> Seq<u8> {
    b.subrange(Word::SIZE as int, Word::SIZE + spec_str_capacity(spec_decoded_len(b) as int))
}

/// Wire form of a string of `len` bytes whose content, terminator and padding
/// are `content`.
pub open spec fn spec_string_bytes(len: u32, content: Seq<u8>) -> Seq<u8> {
    spec_u32_to_le(len) + content
}

/// Zero bytes, `n` of them.
pub open spec fn zeros(n: int) -> Seq<u8> {
    Seq::new(n as nat, |i: int| 0u8)
}

/// The bytes of a string after its length word: borrowed from the buffer it
/// was read from, or owned when the string was built here.
enum StrBytes<'a> {
    Borrowed(&'a [u8]),
    Owned(Vec<u8>),
}

impl<'a> View for StrBytes<'a> {
    type V = Seq<u8>;

    closed spec fn view(&self) -> Seq<u8> {
        match self {
            StrBytes::Borrowed(b) => b@,
            StrBytes::Owned(v) => v@,
        }
    }
}

impl<'a> StrBytes<'a> {
    fn as_slice(&self) -> (r: &[u8])
        ensures
            r@ == self@,
    {
        match self {
            StrBytes::Borrowed(b) => *b,
            StrBytes::Owned(v) => v.as_slice(),
        }
    }
}

pub struct WlString<'a> {
    /// Length of the text, terminator and padding excluded.
    len: u32,
    /// Text, terminator and padding.
    content: StrBytes<'a>,
}

impl<'a> WlString<'a> {
    #[verifier::type_invariant]
    spec fn well_formed(self) -> bool {
        &&& self.content@.len() == spec_str_capacity(self.len as int)
        &&& Word::SIZE + self.content@.len() <= usize::MAX
    }

    /// Length of the text, terminator and padding excluded.
    pub closed spec fn spec_len(&self) -> u32 {
        self.len
    }

    /// Text, terminator and padding: the bytes after the length word.
    pub closed spec fn spec_content(&self) -> Seq<u8> {
        self.content@
    }

    /// Whether the bytes are borrowed from a buffer rather than owned.
    pub closed spec fn spec_borrowed(&self) -> bool {
        self.content is Borrowed
    }

    /// The text, terminator and padding excluded.
    pub open spec fn spec_text(&self) -> Seq<u8> {
        self.spec_content().take(self.spec_len() as int)
    }

    /// Whole wire form: length word, then text, terminator and padding.
    pub open spec fn spec_wire(&self) -> Seq<u8> {
        spec_string_bytes(self.spec_len(), self.spec_content())
    }

    /// Padding that follows `n` bytes of string.
    pub fn padding(n: u64) -> (r: u64)
        ensures
            r == spec_padding(n as int),
            1 <= r <= 4,
    {
        4 - n % 4
    }

    /// Bytes that a string of `len` bytes takes after its length word.
    pub fn str_capacity(len: u32) -> (r: u64)
        ensures
            r == spec_str_capacity(len as int),
            r % 4 == 0,
            r >= len + 1,
    {
        Self::padding(len as u64 + 1) + len as u64 + 1
    }

    /// Length of the text, terminator and padding excluded. The bytes after
    /// the length word are always exactly `str_capacity` of it.
    pub fn str_len(&self) -> (r: usize)
        ensures
            r == self.spec_len(),
            self.spec_content().len() == spec_str_capacity(self.spec_len() as int),
    {
        proof {
            use_type_invariant(self);
        }
        self.len as usize
    }

    /// Reads the string whose length word starts `buf`, borrowing its text,
    /// terminator and padding from `buf`; no value when `buf` is too short to
    /// hold them. Bytes after them are not read.
    pub fn from_buf(buf: &'a [u8]) -> (r: Option<WlString<'a>>)
        ensures
            r is Some <==> spec_string_fits(buf@),
            r is Some ==> r.unwrap().spec_len() == spec_decoded_len(buf@)
                && r.unwrap().spec_content() == spec_decoded_content(buf@)
                && r.unwrap().spec_borrowed(),
    {
        let len = match <u32 as WlType>::wl_type(buf) {
            Some(w) => w,
            None => return None,
        };
        let capacity = Self::str_capacity(len);
        if (buf.len() as u64) < Word::SIZE as u64 + capacity {
            return None;
        }
        let end = Word::SIZE + capacity as usize;
        Some(WlString { len, content: StrBytes::Borrowed(&buf[Word::SIZE..end]) })
    }

    /// Wire string of the bytes of `s`, owning a copy of them: the terminator
    /// and padding are zero.
    pub fn new(s: &str) -> (r: WlString<'a>)
        requires
            s.spec_bytes().len() <= u32::MAX,
            Word::SIZE + spec_str_capacity(s.spec_bytes().len() as int) <= usize::MAX,
        ensures
            r.spec_len() == s.spec_bytes().len(),
            r.spec_content() == s.spec_bytes() + zeros(
                spec_str_capacity(s.spec_bytes().len() as int) - s.spec_bytes().len(),
            ),
            !r.spec_borrowed(),
    {
        let bytes = s.as_bytes();
        let len = bytes.len() as u32;
        let capacity = Self::str_capacity(len);
        assert(capacity <= len + 5);
        let capacity = capacity as usize;
        let mut content = slice_to_vec(bytes);
        while content.len() < capacity
            invariant
                len == bytes@.len(),
                capacity + Word::SIZE <= usize::MAX,
                bytes@.len() <= content@.len() <= capacity,
                capacity == spec_str_capacity(len as int),
                content@ == bytes@ + zeros(content@.len() - bytes@.len()),
            decreases capacity - content.len(),
        {
            content.push(0u8);
            assert(content@ =~= bytes@ + zeros(content@.len() - bytes@.len()));
        }
        WlString { len, content: StrBytes::Owned(content) }
    }

    /// Bytes of the whole wire form: length word, text, terminator and padding.
    pub fn buffer_hint(&self) -> (r: usize)
        ensures
            r == self.spec_wire().len(),
            self.spec_content().len() == spec_str_capacity(self.spec_len() as int),
    {
        proof {
            use_type_invariant(self);
        }
        self.content.as_slice().len() + Word::SIZE
    }

    /// Writes the wire form over the front of `buf` and leaves the rest; no
    /// value, and `buf` untouched, when it is too short.
    pub fn quene(&self, buf: &mut [u8]) -> (r: Option<()>)
        ensures
            old(buf)@.len() < self.spec_wire().len() ==> r is None && final(buf)@ == old(buf)@,
            old(buf)@.len() >= self.spec_wire().len() ==> r is Some && final(buf)@
                == self.spec_wire() + old(buf)@.skip(self.spec_wire().len() as int),
    {
        proof {
            use_type_invariant(self);
        }
        if self.buffer_hint() > buf.len() {
            return None;
        }
        let content = self.content.as_slice();
        let ghost start = buf@;
        <u32 as WlType>::write(self.len, buf);
        let mut i: usize = 0;
        while i < content.len()
            invariant
                0 <= i <= content@.len(),
                Word::SIZE + content@.len() <= start.len(),
                Word::SIZE + content@.len() <= usize::MAX,
                buf@ == spec_u32_to_le(self.len) + content@.take(i as int) + start.skip(
                    Word::SIZE + i,
                ),
            decreases content@.len() - i,
        {
            buf[Word::SIZE + i] = content[i];
            i = i + 1;
            assert(buf@ =~= spec_u32_to_le(self.len) + content@.take(i as int) + start.skip(
                Word::SIZE + i,
            ));
        }
        assert(content@.take(i as int) =~= content@);
        Some(())
    }

    /// The whole wire form: length word, text, terminator and padding.
    pub fn as_bytes(&self) -> (r: Vec<u8>)
        ensures
            r@ == self.spec_wire(),
    {
        let content = self.content.as_slice();
        let mut out: Vec<u8> = vec![0u8; 4];
        <u32 as WlType>::write(self.len, out.as_mut_slice());
        let mut i: usize = 0;
        while i < content.len()
            invariant
                0 <= i <= content@.len(),
                out@ == spec_u32_to_le(self.len) + content@.take(i as int),
            decreases content@.len() - i,
        {
            out.push(content[i]);
            i = i + 1;
            assert(out@ =~= spec_u32_to_le(self.len) + content@.take(i as int));
        }
        assert(content@.take(i as int) =~= content@);
        out
    }

    /// Whether the text equals the bytes of `other`.
    pub fn eq_bytes(&self, other: &[u8]) -> (r: bool)
        ensures
            r == (other@ == self.spec_text()),
            r ==> other@.len() == self.spec_len(),
            self.spec_content().len() == spec_str_capacity(self.spec_len() as int),
    {
        proof {
            use_type_invariant(self);
        }
        if other.len() as u64 != self.len as u64 {
            return false;
        }
        let content = self.content.as_slice();
        let mut i: usize = 0;
        while i < other.len()
            invariant
                0 <= i <= other@.len(),
                other@.len() == self.len,
                self.len <= content@.len(),
                content@ == self.spec_content(),
                self.spec_content().len() == spec_str_capacity(self.spec_len() as int),
                other@.take(i as int) == self.spec_text().take(i as int),
            decreases other@.len() - i,
        {
            if other[i] != content[i] {
                assert(other@[i as int] != self.spec_text()[i as int]);
                return false;
            }
            i = i + 1;
            assert(other@.take(i as int) =~= self.spec_text().take(i as int));
        }
        assert(other@ =~= other@.take(i as int));
        assert(self.spec_text() =~= self.spec_text().take(i as int));
        true
    }
}

impl<'a> PartialEq<str> for WlString<'a> {
    /// The text, terminator and padding excluded, equals the bytes of `other`.
    fn eq(&self, other: &str) -> (r: bool) {
        self.eq_bytes(other.as_bytes())
    }
}

impl<'a> vstd::std_specs::cmp::PartialEqSpecImpl<str> for WlString<'a> {
    open spec fn obeys_eq_spec() -> bool {
        true
    }

    open spec fn eq_spec(&self, other: &str) -> bool {
        other.spec_bytes() == self.spec_text()
    }
}

impl<'a> PartialEq<String> for WlString<'a> {
    /// The text, terminator and padding excluded, equals the bytes of `other`.
    fn eq(&self, other: &String) -> (r: bool) {
        self.eq_bytes(other.as_str().as_bytes())
    }
}

impl<'a> vstd::std_specs::cmp::PartialEqSpecImpl<String> for WlString<'a> {
    open spec fn obeys_eq_spec() -> bool {
        true
    }

    open spec fn eq_spec(&self, other: &String) -> bool {
        vstd::utf8::encode_utf8(other@) == self.spec_text()
    }
}

impl<'a> PartialEq<WlString<'a>> for str {
    /// The bytes of this text equal the wire string's text.
    fn eq(&self, other: &WlString<'a>) -> (r: bool) {
        other.eq_bytes(self.as_bytes())
    }
}

impl<'a> vstd::std_specs::cmp::PartialEqSpecImpl<WlString<'a>> for str {
    open spec fn obeys_eq_spec() -> bool {
        true
    }

    open spec fn eq_spec(&self, other: &WlString<'a>) -> bool {
        self.spec_bytes() == other.spec_text()
    }
}

impl<'a> PartialEq<WlString<'a>> for String {
    /// The bytes of this text equal the wire string's text.
    fn eq(&self, other: &WlString<'a>) -> (r: bool) {
        other.eq_bytes(self.as_str().as_bytes())
    }
}

impl<'a> vstd::std_specs::cmp::PartialEqSpecImpl<WlString<'a>> for String {
    open spec fn obeys_eq_spec() -> bool {
        true
    }

    open spec fn eq_spec(&self, other: &WlString<'a>) -> bool {
        vstd::utf8::encode_utf8(self@) == other.spec_text()
    }
}

/// The bytes a string takes after its length word end on a word boundary and
/// hold at least the text and its terminator.
pub proof fn lemma_capacity_aligned(len: u32)
    ensures
        spec_str_capacity(len as int) % 4 == 0,
        spec_str_capacity(len as int) >= len + 1,
{
}

/// Decoding the wire form of a string gives back its length and its text,
/// terminator and padding.
pub proof fn lemma_string_round_trip(len: u32, content: Seq<u8>)
    requires
        content.len() == spec_str_capacity(len as int),
    ensures
        spec_string_fits(spec_string_bytes(len, content)),
        spec_decoded_len(spec_string_bytes(len, content)) == len,
        spec_decoded_content(spec_string_bytes(len, content)) == content,
{
    let b = spec_string_bytes(len, content);
    <u32 as WlType>::lemma_value_round_trip(len);
    assert(b.take(4) =~= spec_u32_to_le(len));
    assert(spec_u32_from_le(b) == spec_u32_from_le(spec_u32_to_le(len)));
    assert(b.subrange(4, 4 + content.len() as int) =~= content);
}

/// Decoding a string and encoding it again gives back the bytes it was read
/// from.
pub proof fn lemma_string_bytes_round_trip(b: Seq<u8>)
    requires
        spec_string_fits(b),
    ensures
        spec_string_bytes(spec_decoded_len(b), spec_decoded_content(b)) == b.take(
            Word::SIZE + spec_str_capacity(spec_decoded_len(b) as int),
        ),
{
    <u32 as WlType>::lemma_bytes_round_trip(b);
    let end = Word::SIZE + spec_str_capacity(spec_decoded_len(b) as int);
    assert(spec_string_bytes(spec_decoded_len(b), spec_decoded_content(b)) =~= b.take(end));
}

/// Zero bytes that follow an array of `n` bytes: up to the next multiple of
/// four, none when `n` already is one.
pub open spec fn spec_array_padding(n: int) -> int {
    (4 - n % 4) % 4
}

/// Wire form of an array holding `value`.
pub open spec fn spec_array_bytes(value: Seq<u8>) -> Seq<u8> {
    spec_u32_to_le(value.len() as u32) + value + zeros(spec_array_padding(value.len() as int))
}

/// Whether `b` is long enough to hold the array whose length word starts it,
/// padding included.
pub open spec fn spec_array_fits(b: Seq<u8>) -> bool {
    b.len() >= Word::SIZE && b.len() >= Word::SIZE + spec_u32_from_le(b) + spec_array_padding(
        spec_u32_from_le(b) as int,
    )
}

/// The bytes of the array whose length word starts `b`.
pub open spec fn spec_decoded_array(b: Seq<u8>) -> Seq<u8> {
    b.subrange(Word::SIZE as int, Word::SIZE + spec_u32_from_le(b))
}

pub struct WlArray {
    value: Vec<u8>,
}

impl WlArray {
    #[verifier::type_invariant]
    spec fn well_formed(self) -> bool {
        &&& self.value@.len() <= u32::MAX
        &&& Word::SIZE + self.value@.len() + 3 <= usize::MAX
    }

    /// The bytes the array holds.
    pub closed spec fn spec_value(&self) -> Seq<u8> {
        self.value@
    }

    /// Array of the bytes of `value`.
    pub fn new(value: Vec<u8>) -> (r: WlArray)
        requires
            value@.len() <= u32::MAX,
            Word::SIZE + value@.len() + 3 <= usize::MAX,
        ensures
            r.spec_value() == value@,
    {
        WlArray { value }
    }

    /// Reads the array whose length word starts `buf`, copying its bytes; no
    /// value when `buf` is too short to hold them and their padding.
    pub fn from_buf(buf: &[u8]) -> (r: Option<WlArray>)
        ensures
            r is Some <==> spec_array_fits(buf@),
            r is Some ==> r.unwrap().spec_value() == spec_decoded_array(buf@),
    {
        let len = match <u32 as WlType>::wl_type(buf) {
            Some(w) => w,
            None => return None,
        };
        let padding = (4 - len as u64 % 4) % 4;
        if (buf.len() as u64) < Word::SIZE as u64 + len as u64 + padding {
            return None;
        }
        let end = Word::SIZE + len as usize;
        let value = slice_to_vec(&buf[Word::SIZE..end]);
        Some(WlArray { value })
    }

    /// Number of bytes the array holds.
    pub fn len(&self) -> (r: usize)
        ensures
            r == self.spec_value().len(),
    {
        self.value.len()
    }

    /// The bytes the array holds.
    pub fn value(&self) -> (r: &[u8])
        ensures
            r@ == self.spec_value(),
    {
        self.value.as_slice()
    }

    /// The whole wire form: length word, bytes, then padding.
    pub fn as_bytes(&self) -> (r: Vec<u8>)
        ensures
            r@ == spec_array_bytes(self.spec_value()),
    {
        proof {
            use_type_invariant(self);
        }
        let n = self.value.len();
        let mut out: Vec<u8> = vec![0u8; 4];
        <u32 as WlType>::write(n as u32, out.as_mut_slice());
        let mut i: usize = 0;
        while i < n
            invariant
                n == self.value@.len(),
                0 <= i <= n,
                out@ == spec_u32_to_le(n as u32) + self.value@.take(i as int),
            decreases n - i,
        {
            out.push(self.value[i]);
            i = i + 1;
            assert(out@ =~= spec_u32_to_le(n as u32) + self.value@.take(i as int));
        }
        assert(self.value@.take(i as int) =~= self.value@);
        let padding = (4 - n % 4) % 4;
        let mut k: usize = 0;
        while k < padding
            invariant
                padding == spec_array_padding(n as int),
                0 <= k <= padding,
                out@ == spec_u32_to_le(n as u32) + self.value@ + zeros(k as int),
            decreases padding - k,
        {
            out.push(0u8);
            k = k + 1;
            assert(out@ =~= spec_u32_to_le(n as u32) + self.value@ + zeros(k as int));
        }
        out
    }
}

/// Decoding the wire form of an array gives back its bytes.
pub proof fn lemma_array_round_trip(value: Seq<u8>)
    requires
        value.len() <= u32::MAX,
    ensures
        spec_array_fits(spec_array_bytes(value)),
        spec_decoded_array(spec_array_bytes(value)) == value,
{
    let b = spec_array_bytes(value);
    <u32 as WlType>::lemma_value_round_trip(value.len() as u32);
    assert(b.take(4) =~= spec_u32_to_le(value.len() as u32));
    assert(spec_u32_from_le(b) == spec_u32_from_le(spec_u32_to_le(value.len() as u32)));
    assert(b.subrange(4, 4 + value.len() as int) =~= value);
}

} // verus!
