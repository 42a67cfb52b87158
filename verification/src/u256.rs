//! A 256-bit unsigned integer held as four 64-bit limbs, with its
//! big-endian 32-byte serialization. This is the value a
//! `TotalDifficulty` record carries.

use vstd::prelude::*;

verus! {

/// A 256-bit unsigned integer: `l0` is the least significant limb.
#[derive(Debug, Clone, Copy, PartialEq, Eq, Structural)]
pub struct U256 {
    /// Bits 0..64.
    pub l0: u64,
    /// Bits 64..128.
    pub l1: u64,
    /// Bits 128..192.
    pub l2: u64,
    /// Bits 192..256.
    pub l3: u64,
}

/// The numeric value of `v`.
pub open spec fn spec_u256_value(v: U256) -> int {
    v.l0 + v.l1 * 0x10000000000000000 + v.l2 * 0x100000000000000000000000000000000
        + v.l3 * 0x1000000000000000000000000000000000000000000000000
}

/// The eight bytes of `v` in big-endian order.
#[verifier::opaque]
pub open spec fn spec_u64_be(v: u64) -> Seq<u8> {
    seq![
        ((v / 0x100000000000000) % 256) as u8,
        ((v / 0x1000000000000) % 256) as u8,
        ((v / 0x10000000000) % 256) as u8,
        ((v / 0x100000000) % 256) as u8,
        ((v / 0x1000000) % 256) as u8,
        ((v / 0x10000) % 256) as u8,
        ((v / 0x100) % 256) as u8,
        (v % 256) as u8,
    ]
}

/// The value of eight big-endian bytes.
#[verifier::opaque]
pub open spec fn spec_u64_of_be(s: Seq<u8>) -> int
    recommends
        s.len() == 8,
{
    s[0] * 0x100000000000000 + s[1] * 0x1000000000000 + s[2] * 0x10000000000
        + s[3] * 0x100000000 + s[4] * 0x1000000 + s[5] * 0x10000 + s[6] * 0x100 + s[7]
}

/// The 32 bytes of `v` in big-endian order: most significant limb
/// first, zero-padded on the left for small values.
#[verifier::opaque]
pub open spec fn spec_u256_be(v: U256) -> Seq<u8> {
    spec_u64_be(v.l3) + spec_u64_be(v.l2) + spec_u64_be(v.l1) + spec_u64_be(v.l0)
}

/// The 256-bit value of 32 big-endian bytes.
#[verifier::opaque]
pub open spec fn spec_u256_of_be(s: Seq<u8>) -> U256
    recommends
        s.len() == 32,
{
    U256 {
        l3: spec_u64_of_be(s.subrange(0, 8)) as u64,
        l2: spec_u64_of_be(s.subrange(8, 16)) as u64,
        l1: spec_u64_of_be(s.subrange(16, 24)) as u64,
        l0: spec_u64_of_be(s.subrange(24, 32)) as u64,
    }
}

impl U256 {
    /// The zero value.
    pub fn zero() -> (r: U256)
        ensures
            spec_u256_value(r) == 0,
    {
        U256 { l0: 0, l1: 0, l2: 0, l3: 0 }
    }

    /// Embeds a 64-bit value.
    pub fn from_u64(v: u64) -> (r: U256)
        ensures
            spec_u256_value(r) == v,
    {
        U256 { l0: v, l1: 0, l2: 0, l3: 0 }
    }

    /// Builds a value from its four limbs, least significant first.
    pub fn from_limbs(l0: u64, l1: u64, l2: u64, l3: u64) -> (r: U256)
        ensures
            r == (U256 { l0, l1, l2, l3 }),
    {
        U256 { l0, l1, l2, l3 }
    }
}

/// A limb serializes to exactly eight bytes.
pub proof fn lemma_u64_be_len(v: u64)
    ensures
        spec_u64_be(v).len() == 8,
{
    reveal(spec_u64_be);
}

/// A 256-bit value serializes to exactly 32 bytes.
pub proof fn lemma_u256_be_len(v: U256)
    ensures
        spec_u256_be(v).len() == 32,
{
    reveal(spec_u256_be);
    reveal(spec_u64_be);
}

/// Serializing a limb and reading the bytes back is the identity.
pub proof fn lemma_u64_be_roundtrip(v: u64)
    ensures
        spec_u64_of_be(spec_u64_be(v)) == v,
{
    reveal(spec_u64_be);
    reveal(spec_u64_of_be);
    assert(((v / 0x100000000000000) % 256) * 0x100000000000000
        + ((v / 0x1000000000000) % 256) * 0x1000000000000
        + ((v / 0x10000000000) % 256) * 0x10000000000
        + ((v / 0x100000000) % 256) * 0x100000000
        + ((v / 0x1000000) % 256) * 0x1000000
        + ((v / 0x10000) % 256) * 0x10000
        + ((v / 0x100) % 256) * 0x100
        + v % 256 == v) by (bit_vector);
}

/// Reading eight bytes as a limb and serializing it again gives back
/// the same bytes.
pub proof fn lemma_u64_of_be_roundtrip(s: Seq<u8>)
    requires
        s.len() == 8,
    ensures
        0 <= spec_u64_of_be(s) <= u64::MAX,
        spec_u64_be(spec_u64_of_be(s) as u64) =~= s,
{
    reveal(spec_u64_be);
    reveal(spec_u64_of_be);
    let c0 = s[0] as u64;
    let c1 = s[1] as u64;
    let c2 = s[2] as u64;
    let c3 = s[3] as u64;
    let c4 = s[4] as u64;
    let c5 = s[5] as u64;
    let c6 = s[6] as u64;
    let c7 = s[7] as u64;
    assert(0 <= spec_u64_of_be(s) <= u64::MAX);
    let v = spec_u64_of_be(s) as u64;
    assert(v == c0 * 0x100000000000000 + c1 * 0x1000000000000 + c2 * 0x10000000000
        + c3 * 0x100000000 + c4 * 0x1000000 + c5 * 0x10000 + c6 * 0x100 + c7);
    assert((v / 0x100000000000000) % 256 == c0 && (v / 0x1000000000000) % 256 == c1
        && (v / 0x10000000000) % 256 == c2 && (v / 0x100000000) % 256 == c3
        && (v / 0x1000000) % 256 == c4 && (v / 0x10000) % 256 == c5
        && (v / 0x100) % 256 == c6 && v % 256 == c7) by (bit_vector)
        requires
            c0 < 256 && c1 < 256 && c2 < 256 && c3 < 256 && c4 < 256 && c5 < 256
                && c6 < 256 && c7 < 256,
            v == c0 * 0x100000000000000 + c1 * 0x1000000000000 + c2 * 0x10000000000
                + c3 * 0x100000000 + c4 * 0x1000000 + c5 * 0x10000 + c6 * 0x100 + c7,
    ;
}

/// Serializing a 256-bit value to 32 bytes and parsing them back is
/// the identity.
#[verifier::rlimit(100)]
pub proof fn lemma_u256_be_roundtrip(v: U256)
    ensures
        spec_u256_be(v).len() == 32,
        spec_u256_of_be(spec_u256_be(v)) == v,
{
    reveal(spec_u256_be);
    reveal(spec_u256_of_be);
    lemma_u64_be_len(v.l3);
    lemma_u64_be_len(v.l2);
    lemma_u64_be_len(v.l1);
    lemma_u64_be_len(v.l0);
    let s = spec_u256_be(v);
    assert(s.subrange(0, 8) =~= spec_u64_be(v.l3));
    assert(s.subrange(8, 16) =~= spec_u64_be(v.l2));
    assert(s.subrange(16, 24) =~= spec_u64_be(v.l1));
    assert(s.subrange(24, 32) =~= spec_u64_be(v.l0));
    lemma_u64_be_roundtrip(v.l3);
    lemma_u64_be_roundtrip(v.l2);
    lemma_u64_be_roundtrip(v.l1);
    lemma_u64_be_roundtrip(v.l0);
}

/// Parsing 32 bytes and serializing the value again gives back the
/// same bytes.
pub proof fn lemma_u256_of_be_roundtrip(s: Seq<u8>)
    requires
        s.len() == 32,
    ensures
        spec_u256_be(spec_u256_of_be(s)) =~= s,
{
    reveal(spec_u256_be);
    reveal(spec_u256_of_be);
    lemma_u64_of_be_roundtrip(s.subrange(0, 8));
    lemma_u64_of_be_roundtrip(s.subrange(8, 16));
    lemma_u64_of_be_roundtrip(s.subrange(16, 24));
    lemma_u64_of_be_roundtrip(s.subrange(24, 32));
}

} // verus!
