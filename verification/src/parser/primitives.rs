use crate::encoder::primitives::{spec_u16_to_le_bytes, spec_u32_to_le_bytes};
use crate::parser::error::MdxParseError;
use crate::types::materialize::{
    all_faithful, all_well_formed, encode_error_all, lemma_append_assoc,
    lemma_encode_error_front, lemma_wire_all_front, lemma_wire_all_push, models,
    spec_parse_count, wire_all, FloatBits, Lossless, Materialized, Reparsable,
};
use vstd::prelude::*;
use vstd::slice::slice_subrange;

verus! {

/// The result of a grammar on a byte sequence: what is left of the input, and
/// the value that the consumed bytes stand for.
pub type Parsed<M> = Result<(Seq<u8>, M), MdxParseError>;

/// The result of a decoder: the unread rest of the input and the value.
pub type Parser<'a, T> = Result<(&'a [u8], T), MdxParseError>;

/// The first `n` bytes of the input, or `Eof` if there are fewer.
pub open spec fn spec_take(n: nat, input: Seq<u8>) -> Parsed<Seq<u8>> {
    if input.len() < n {
        Err(MdxParseError::Eof { needed: n as usize, found: input.len() as usize })
    } else {
        Ok((input.skip(n as int), input.take(n as int)))
    }
}

/// Splits `n` bytes off the front of the input.
pub fn take<'a>(n: usize, input: &'a [u8]) -> (r: Parser<'a, &'a [u8]>)
    ensures
        match r {
            Ok((rest, taken)) => spec_take(n as nat, input@) == Ok::<_, MdxParseError>(
                (rest@, taken@),
            ),
            Err(e) => spec_take(n as nat, input@) == Err::<(Seq<u8>, Seq<u8>), _>(e),
        },
{
    if input.len() < n {
        Err(MdxParseError::Eof { needed: n, found: input.len() })
    } else {
        let taken = slice_subrange(input, 0, n);
        let rest = slice_subrange(input, n, input.len());
        assert(rest@ =~= input@.skip(n as int));
        assert(taken@ =~= input@.take(n as int));
        Ok((rest, taken))
    }
}

/// The `u16` whose two bytes, least significant first, are the first two of the
/// sequence.
#[verifier::opaque]
pub open spec fn spec_u16_from_le_bytes(s: Seq<u8>) -> u16 {
    (s[0] as u16) | (s[1] as u16) << 8
}

/// The `u32` whose four bytes, least significant first, are the first four of
/// the sequence.
#[verifier::opaque]
pub open spec fn spec_u32_from_le_bytes(s: Seq<u8>) -> u32 {
    (s[0] as u32) | (s[1] as u32) << 8 | (s[2] as u32) << 16 | (s[3] as u32) << 24
}

/// A `u16` is read back from its two bytes.
pub proof fn lemma_u16_to_from_le_bytes(v: u16)
    ensures
        spec_u16_to_le_bytes(v).len() == 2,
        spec_u16_from_le_bytes(spec_u16_to_le_bytes(v)) == v,
{
    reveal(spec_u16_to_le_bytes);
    reveal(spec_u16_from_le_bytes);
    let low = v & 0xff;
    let high = (v >> 8) & 0xff;
    assert(low < 256 && high < 256 && (low | high << 8) == v) by (bit_vector)
        requires
            low == v & 0xff,
            high == (v >> 8) & 0xff,
    ;
}

/// Two bytes are the bytes of the `u16` that is read from them.
pub proof fn lemma_u16_from_to_le_bytes(s: Seq<u8>)
    requires
        s.len() == 2,
    ensures
        spec_u16_to_le_bytes(spec_u16_from_le_bytes(s)) == s,
{
    reveal(spec_u16_to_le_bytes);
    reveal(spec_u16_from_le_bytes);
    let low = s[0] as u16;
    let high = s[1] as u16;
    let v = low | high << 8;
    assert(v & 0xff == low && (v >> 8) & 0xff == high) by (bit_vector)
        requires
            v == low | high << 8,
            low < 256,
            high < 256,
    ;
    assert(spec_u16_to_le_bytes(v) =~= s);
}

/// A `u32` is read back from its four bytes.
pub proof fn lemma_u32_to_from_le_bytes(v: u32)
    ensures
        spec_u32_to_le_bytes(v).len() == 4,
        spec_u32_from_le_bytes(spec_u32_to_le_bytes(v)) == v,
{
    reveal(spec_u32_to_le_bytes);
    reveal(spec_u32_from_le_bytes);
    let b0 = v & 0xff;
    let b1 = (v >> 8) & 0xff;
    let b2 = (v >> 16) & 0xff;
    let b3 = (v >> 24) & 0xff;
    assert(b0 < 256 && b1 < 256 && b2 < 256 && b3 < 256 && (b0 | b1 << 8 | b2 << 16 | b3 << 24)
        == v) by (bit_vector)
        requires
            b0 == v & 0xff,
            b1 == (v >> 8) & 0xff,
            b2 == (v >> 16) & 0xff,
            b3 == (v >> 24) & 0xff,
    ;
}

/// Four bytes are the bytes of the `u32` that is read from them.
pub proof fn lemma_u32_from_to_le_bytes(s: Seq<u8>)
    requires
        s.len() == 4,
    ensures
        spec_u32_to_le_bytes(spec_u32_from_le_bytes(s)) == s,
{
    reveal(spec_u32_to_le_bytes);
    reveal(spec_u32_from_le_bytes);
    let b0 = s[0] as u32;
    let b1 = s[1] as u32;
    let b2 = s[2] as u32;
    let b3 = s[3] as u32;
    let v = b0 | b1 << 8 | b2 << 16 | b3 << 24;
    assert(v & 0xff == b0 && (v >> 8) & 0xff == b1 && (v >> 16) & 0xff == b2 && (v >> 24) & 0xff
        == b3) by (bit_vector)
        requires
            v == b0 | b1 << 8 | b2 << 16 | b3 << 24,
            b0 < 256,
            b1 < 256,
            b2 < 256,
            b3 < 256,
    ;
    assert(spec_u32_to_le_bytes(v) =~= s);
}

/// One byte.
pub open spec fn spec_le_u8(input: Seq<u8>) -> Parsed<u8> {
    match spec_take(1, input) {
        Ok((rest, b)) => Ok((rest, b[0])),
        Err(e) => Err(e),
    }
}

/// Two bytes, read as a little-endian unsigned integer.
pub open spec fn spec_le_u16(input: Seq<u8>) -> Parsed<u16> {
    match spec_take(2, input) {
        Ok((rest, b)) => Ok((rest, spec_u16_from_le_bytes(b))),
        Err(e) => Err(e),
    }
}

/// Four bytes, read as a little-endian unsigned integer.
pub open spec fn spec_le_u32(input: Seq<u8>) -> Parsed<u32> {
    match spec_take(4, input) {
        Ok((rest, b)) => Ok((rest, spec_u32_from_le_bytes(b))),
        Err(e) => Err(e),
    }
}

/// Four bytes, read as a little-endian integer in two's complement.
pub open spec fn spec_le_i32(input: Seq<u8>) -> Parsed<i32> {
    match spec_take(4, input) {
        Ok((rest, b)) => Ok((rest, spec_u32_from_le_bytes(b) as i32)),
        Err(e) => Err(e),
    }
}

/// Consumes one byte.
pub fn le_u8<'a>(input: &'a [u8]) -> (r: Parser<'a, u8>)
    ensures
        match r {
            Ok((rest, v)) => spec_le_u8(input@) == Ok::<_, MdxParseError>((rest@, v)),
            Err(e) => spec_le_u8(input@) == Err::<(Seq<u8>, u8), _>(e),
        },
{
    match take(1, input) {
        Ok((rest, b)) => Ok((rest, b[0])),
        Err(e) => Err(e),
    }
}

/// Consumes two bytes and reads them as a little-endian `u16`.
pub fn le_u16<'a>(input: &'a [u8]) -> (r: Parser<'a, u16>)
    ensures
        match r {
            Ok((rest, v)) => spec_le_u16(input@) == Ok::<_, MdxParseError>((rest@, v)),
            Err(e) => spec_le_u16(input@) == Err::<(Seq<u8>, u16), _>(e),
        },
{
    proof {
        reveal(spec_u16_from_le_bytes);
    }
    match take(2, input) {
        Ok((rest, b)) => Ok((rest, (b[0] as u16) | (b[1] as u16) << 8)),
        Err(e) => Err(e),
    }
}

/// Consumes four bytes and reads them as a little-endian `u32`.
pub fn le_u32<'a>(input: &'a [u8]) -> (r: Parser<'a, u32>)
    ensures
        match r {
            Ok((rest, v)) => spec_le_u32(input@) == Ok::<_, MdxParseError>((rest@, v)),
            Err(e) => spec_le_u32(input@) == Err::<(Seq<u8>, u32), _>(e),
        },
{
    proof {
        reveal(spec_u32_from_le_bytes);
    }
    match take(4, input) {
        Ok((rest, b)) => Ok(
            (rest, (b[0] as u32) | (b[1] as u32) << 8 | (b[2] as u32) << 16 | (b[3] as u32) << 24),
        ),
        Err(e) => Err(e),
    }
}

/// Consumes four bytes and reads them as a little-endian `i32`.
pub fn le_i32<'a>(input: &'a [u8]) -> (r: Parser<'a, i32>)
    ensures
        match r {
            Ok((rest, v)) => spec_le_i32(input@) == Ok::<_, MdxParseError>((rest@, v)),
            Err(e) => spec_le_i32(input@) == Err::<(Seq<u8>, i32), _>(e),
        },
{
    proof {
        reveal(spec_u32_from_le_bytes);
    }
    match take(4, input) {
        Ok((rest, b)) => {
            let u: u32 = (b[0] as u32) | (b[1] as u32) << 8 | (b[2] as u32) << 16 | (b[3] as u32)
                << 24;
            Ok((rest, #[verifier::truncate] (u as i32)))
        },
        Err(e) => Err(e),
    }
}

/// Consume 4 bytes and keep them as the bits of a little-endian 32-bit float.
pub fn le_f32<'a>(input: &'a [u8]) -> (r: Parser<'a, FloatBits>)
    ensures
        match r {
            Ok((rest, v)) => FloatBits::spec_parse(None, input@) == Ok::<_, MdxParseError>(
                (rest@, v),
            ),
            Err(e) => FloatBits::spec_parse(None, input@) == Err::<(Seq<u8>, FloatBits), _>(e),
        },
{
    match le_u32(input) {
        Ok((rest, bits)) => Ok((rest, FloatBits(bits))),
        Err(e) => Err(e),
    }
}

/// Applies the parser of `T` `N` times and returns the values in a fixed size
/// array.
pub fn times<'a, const N: usize, T: Materialized + Copy + Default>(input: &'a [u8]) -> (r: Parser<
    'a,
    [T; N],
>)
    ensures
        match r {
            Ok((rest, values)) => spec_parse_count::<T>(None, N as nat, Seq::empty(), input@)
                == Ok::<_, MdxParseError>((rest@, models(values@))),
            Err(e) => spec_parse_count::<T>(None, N as nat, Seq::empty(), input@) == Err::<
                (Seq<u8>, Seq<T::Model>),
                _,
            >(e),
        },
{
    let mut res: [T; N] = [T::default();N];
    let mut cycle_input = input;
    let mut i: usize = 0;
    assert(models(res@.take(0)) =~= Seq::<T::Model>::empty());
    while i < N
        invariant
            i <= N,
            res@.len() == N,
            spec_parse_count::<T>(None, N as nat, Seq::empty(), input@) == spec_parse_count::<T>(
                None,
                (N - i) as nat,
                models(res@.take(i as int)),
                cycle_input@,
            ),
        decreases N - i,
    {
        match T::parse(cycle_input) {
            Ok((rest, value)) => {
                let ghost before = res@;
                res[i] = value;
                assert(models(res@.take(i + 1)) =~= models(before.take(i as int)).push(
                    value.model(),
                ));
                cycle_input = rest;
            },
            Err(e) => {
                return Err(e);
            },
        }
        i += 1;
    }
    assert(res@.take(N as int) =~= res@);
    Ok((cycle_input, res))
}

/// The grammar of values one after the other until the input is used up:
/// they are added to `acc` in the order in which they stand in the input. A
/// value that takes no bytes can never use the input up, so the bytes are left
/// over.
pub open spec fn spec_parse_all<T: Materialized>(
    version: Option<T::Version>,
    acc: Seq<T::Model>,
    input: Seq<u8>,
) -> Parsed<Seq<T::Model>>
    decreases input.len(),
{
    if input.len() == 0 {
        Ok((input, acc))
    } else {
        match T::spec_parse(version, input) {
            Ok((rest, m)) => if rest.len() < input.len() {
                spec_parse_all::<T>(version, acc.push(m), rest)
            } else {
                Err(MdxParseError::ChunkLeftover { input: rest.len() as usize })
            },
            Err(e) => Err(e),
        }
    }
}

/// Apply the parser of `T` until all input is consumed, and return the
/// collected values.
pub fn parse_all<'a, T: Materialized>(version: Option<T::Version>, input: &'a [u8]) -> (r: Parser<
    'a,
    Vec<T>,
>)
    ensures
        match r {
            Ok((rest, values)) => spec_parse_all::<T>(version, Seq::empty(), input@) == Ok::<
                _,
                MdxParseError,
            >((rest@, models(values@))) && rest@.len() == 0,
            Err(e) => spec_parse_all::<T>(version, Seq::empty(), input@) == Err::<
                (Seq<u8>, Seq<T::Model>),
                _,
            >(e),
        },
{
    let mut cycle_input = input;
    let mut values: Vec<T> = Vec::new();
    assert(models(values@) =~= Seq::<T::Model>::empty());
    while cycle_input.len() > 0
        invariant
            spec_parse_all::<T>(version, Seq::empty(), input@) == spec_parse_all::<T>(
                version,
                models(values@),
                cycle_input@,
            ),
        decreases cycle_input@.len(),
    {
        match T::parse_versioned(version, cycle_input) {
            Ok((rest, value)) => {
                if rest.len() >= cycle_input.len() {
                    return Err(MdxParseError::ChunkLeftover { input: rest.len() });
                }
                assert(models(values@.push(value)) =~= models(values@).push(value.model()));
                values.push(value);
                cycle_input = rest;
            },
            Err(e) => {
                return Err(e);
            },
        }
    }
    Ok((cycle_input, values))
}

/// What was parsed until the end of the input is encoded to the bytes that
/// were read.
pub proof fn lemma_all_parse_wire<T: Lossless>(
    version: Option<T::Version>,
    acc: Seq<T::Model>,
    input: Seq<u8>,
)
    ensures
        match spec_parse_all::<T>(version, acc, input) {
            Ok((rest, ms)) => {
                &&& rest.len() == 0
                &&& acc.len() <= ms.len()
                &&& ms.take(acc.len() as int) == acc
                &&& all_faithful::<T>(ms) ==> {
                    &&& wire_all::<T>(acc) + input == wire_all::<T>(ms)
                    &&& encode_error_all::<T>(acc) is None
                        ==> encode_error_all::<T>(ms) is None
                }
            },
            Err(_) => true,
        },
    decreases input.len(),
{
    if input.len() == 0 {
        assert(acc.take(acc.len() as int) =~= acc);
        assert(wire_all::<T>(acc) + input =~= wire_all::<T>(acc));
    } else {
        match T::spec_parse(version, input) {
            Ok((rest1, m)) => {
                if rest1.len() < input.len() {
                    T::lemma_parse_wire(version, input);
                    lemma_all_parse_wire::<T>(version, acc.push(m), rest1);
                    match spec_parse_all::<T>(version, acc.push(m), rest1) {
                        Ok((rest, ms)) => {
                            assert(ms.take(acc.len() as int) =~= ms.take(acc.len() + 1 as int).take(
                                acc.len() as int,
                            ));
                            assert(acc.push(m).take(acc.len() as int) =~= acc);
                            assert(ms[acc.len() as int] == ms.take(acc.len() + 1 as int)[acc.len() as int]);
                            if all_faithful::<T>(ms) {
                                assert(T::faithful(ms[acc.len() as int]));
                                lemma_wire_all_push::<T>(acc, m);
                                lemma_append_assoc(wire_all::<T>(acc), T::wire(m), rest1);
                            }
                        },
                        Err(_) => {},
                    }
                }
            },
            Err(_) => {},
        }
    }
}

/// The bytes of a sequence of values, none of which is empty on the wire, are
/// parsed back to the sequence when nothing follows them.
pub proof fn lemma_all_wire_parse<T: Reparsable>(
    version: Option<T::Version>,
    acc: Seq<T::Model>,
    ms: Seq<T::Model>,
)
    requires
        all_well_formed::<T>(ms, version),
        forall|i: int| 0 <= i < ms.len() ==> (#[trigger] T::wire(ms[i])).len() > 0,
    ensures
        encode_error_all::<T>(ms) is None,
        spec_parse_all::<T>(version, acc, wire_all::<T>(ms)) == Ok::<_, MdxParseError>(
            (Seq::<u8>::empty(), acc + ms),
        ),
    decreases ms.len(),
{
    if ms.len() == 0 {
        assert(acc + ms =~= acc);
        assert(wire_all::<T>(ms) =~= Seq::<u8>::empty());
    } else {
        let m = ms[0];
        let others = ms.skip(1);
        assert(T::well_formed(m, version));
        assert(T::wire(ms[0]).len() > 0);
        assert forall|i: int| 0 <= i < others.len() implies T::well_formed(
            #[trigger] others[i],
            version,
        ) by {
            assert(others[i] == ms[i + 1]);
        }
        assert forall|i: int| 0 <= i < others.len() implies (#[trigger] T::wire(others[i])).len()
            > 0 by {
            assert(others[i] == ms[i + 1]);
        }
        lemma_wire_all_front::<T>(ms);
        T::lemma_wire_parse(m, version, wire_all::<T>(others));
        lemma_all_wire_parse::<T>(version, acc.push(m), others);
        assert(acc.push(m) + others =~= acc + ms);
        lemma_encode_error_front::<T>(ms);
    }
}

} // verus!
