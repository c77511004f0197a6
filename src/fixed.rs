//! Signed 24.8 fixed-point numbers: the stored word is the value times 256.

use vstd::prelude::*;
use crate::word::WlType;

verus! {

/// Number of stored units in one whole unit.
pub const FIXED_ONE: i32 = 256;

/// `x / d` rounded toward zero, as the integer division of the machine does.
pub open spec fn trunc_div(x: int, d: int) -> int {
    if x >= 0 {
        x / d
    } else {
        -((-x) / d)
    }
}

/// Whether `i` whole units can be stored: `i * 256` fits 32 bits.
pub open spec fn fixed_fits(i: int) -> bool {
    i32::MIN <= i * 256 <= i32::MAX
}

#[derive(Clone, Copy, Debug, PartialEq, Eq, Structural)]
pub struct WlFixed(i32);

impl WlFixed {
    /// The stored word: the value times 256.
    pub closed spec fn spec_raw(self) -> i32 {
        self.0
    }

    /// The number of `i` whole units. The stored word is `i * 256` cut to 32
    /// bits, so it is exact whenever `i * 256` fits them.
    pub fn from_i32(i: i32) -> (r: WlFixed)
        ensures
            r.spec_raw() == (i * 256) as i32,
            fixed_fits(i as int) ==> r.spec_raw() == i * 256,
    {
        let wide: i64 = i as i64 * FIXED_ONE as i64;
        WlFixed(#[verifier::truncate] (wide as i32))
    }

    /// The whole units of `s`, the fraction dropped toward zero.
    pub fn to_i32(s: WlFixed) -> (r: i32)
        ensures
            r == trunc_div(s.spec_raw() as int, 256),
    {
        s.0 / FIXED_ONE
    }

    /// The number whose stored word is `raw`.
    pub fn from_raw(raw: i32) -> (r: WlFixed)
        ensures
            r.spec_raw() == raw,
    {
        WlFixed(raw)
    }

    /// The stored word: the value times 256.
    pub fn raw(self) -> (r: i32)
        ensures
            r == self.spec_raw(),
    {
        self.0
    }
}

/// A fixed-point number travels as its stored word.
impl WlType for WlFixed {
    open spec fn wire_size() -> nat {
        4
    }

    closed spec fn spec_from_le(b: Seq<u8>) -> WlFixed {
        WlFixed(<i32 as WlType>::spec_from_le(b))
    }

    closed spec fn spec_to_le(v: WlFixed) -> Seq<u8> {
        <i32 as WlType>::spec_to_le(v.0)
    }

    proof fn lemma_value_round_trip(v: WlFixed) {
        <i32 as WlType>::lemma_value_round_trip(v.0);
    }

    proof fn lemma_bytes_round_trip(b: Seq<u8>) {
        <i32 as WlType>::lemma_bytes_round_trip(b);
    }

    fn wl_type(buffer: &[u8]) -> (r: Option<WlFixed>) {
        match <i32 as WlType>::wl_type(buffer) {
            Some(raw) => Some(WlFixed(raw)),
            None => None,
        }
    }

    fn write(v: WlFixed, buffer: &mut [u8]) -> (r: Option<()>) {
        <i32 as WlType>::write(v.0, buffer)
    }
}

/// Storing whole units and reading them back gives the same number.
pub proof fn lemma_fixed_round_trip(n: i32)
    requires
        fixed_fits(n as int),
    ensures
        trunc_div(n * 256, 256) == n,
{
}

} // verus!
