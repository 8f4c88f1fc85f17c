use vstd::prelude::*;

verus! {

/// The two bytes of a `u16`, least significant first.
#[verifier::opaque]
pub open spec fn spec_u16_to_le_bytes(v: u16) -> Seq<u8> {
    seq![(v & 0xff) as u8, ((v >> 8) & 0xff) as u8]
}

/// The four bytes of a `u32`, least significant first.
#[verifier::opaque]
pub open spec fn spec_u32_to_le_bytes(v: u32) -> Seq<u8> {
    seq![
        (v & 0xff) as u8,
        ((v >> 8) & 0xff) as u8,
        ((v >> 16) & 0xff) as u8,
        ((v >> 24) & 0xff) as u8,
    ]
}

/// The bytes of a `u16` as numbers: the value modulo 256, then the value
/// divided by 256.
pub proof fn lemma_u16_le_bytes(v: u16)
    ensures
        spec_u16_to_le_bytes(v).len() == 2,
        spec_u16_to_le_bytes(v)[0] == v % 256,
        spec_u16_to_le_bytes(v)[1] == v / 256,
{
    reveal(spec_u16_to_le_bytes);
    assert(v & 0xff == v % 256 && (v >> 8) & 0xff == v / 256 && v % 256 < 256 && v / 256 < 256)
        by (bit_vector);
}

/// The bytes of a `u32` as numbers: the digits of the value to the base 256,
/// the lowest first.
pub proof fn lemma_u32_le_bytes(v: u32)
    ensures
        spec_u32_to_le_bytes(v).len() == 4,
        spec_u32_to_le_bytes(v)[0] == v % 256,
        spec_u32_to_le_bytes(v)[1] == (v / 256) % 256,
        spec_u32_to_le_bytes(v)[2] == (v / 65536) % 256,
        spec_u32_to_le_bytes(v)[3] == v / 16777216,
{
    reveal(spec_u32_to_le_bytes);
    assert(v & 0xff == v % 256 && (v >> 8) & 0xff == (v / 256) % 256 && (v >> 16) & 0xff == (v
        / 65536) % 256 && (v >> 24) & 0xff == v / 16777216) by (bit_vector);
    assert(v % 256 < 256 && (v / 256) % 256 < 256 && (v / 65536) % 256 < 256 && v / 16777216
        < 256) by (bit_vector);
}

/// The four bytes of an `i32` in two's complement, least significant first.
pub open spec fn spec_i32_to_le_bytes(v: i32) -> Seq<u8> {
    spec_u32_to_le_bytes(v as u32)
}

/// Appends the two little-endian bytes of `v`.
pub fn push_le_u16(v: u16, output: &mut Vec<u8>)
    ensures
        final(output)@ == old(output)@ + spec_u16_to_le_bytes(v),
{
    assert(v & 0xff < 256 && (v >> 8) & 0xff < 256) by (bit_vector);
    output.push((v & 0xff) as u8);
    output.push(((v >> 8) & 0xff) as u8);
    proof {
        reveal(spec_u16_to_le_bytes);
    }
    assert(output@ =~= old(output)@ + spec_u16_to_le_bytes(v));
}

/// Appends the four little-endian bytes of `v`.
pub fn push_le_u32(v: u32, output: &mut Vec<u8>)
    ensures
        final(output)@ == old(output)@ + spec_u32_to_le_bytes(v),
{
    assert(v & 0xff < 256 && (v >> 8) & 0xff < 256 && (v >> 16) & 0xff < 256 && (v >> 24) & 0xff
        < 256) by (bit_vector);
    output.push((v & 0xff) as u8);
    output.push(((v >> 8) & 0xff) as u8);
    output.push(((v >> 16) & 0xff) as u8);
    output.push(((v >> 24) & 0xff) as u8);
    proof {
        reveal(spec_u32_to_le_bytes);
    }
    assert(output@ =~= old(output)@ + spec_u32_to_le_bytes(v));
}

/// Appends the four little-endian bytes of `v` in two's complement.
pub fn push_le_i32(v: i32, output: &mut Vec<u8>)
    ensures
        final(output)@ == old(output)@ + spec_i32_to_le_bytes(v),
{
    push_le_u32(#[verifier::truncate] (v as u32), output);
}

/// `i32` and `u32` are read from the same four bytes: the casts between them
/// lose nothing.
pub proof fn lemma_i32_u32_casts(v: i32, u: u32)
    ensures
        ((v as u32) as i32) == v,
        ((u as i32) as u32) == u,
{
    assert(((v as u32) as i32) == v) by (bit_vector);
    assert(((u as i32) as u32) == u) by (bit_vector);
}

} // verus!
