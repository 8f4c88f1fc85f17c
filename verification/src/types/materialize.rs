use crate::encoder::error::Error as EncodeError;
use crate::encoder::primitives::{
    lemma_i32_u32_casts, push_le_i32, push_le_u16, push_le_u32, spec_i32_to_le_bytes,
    spec_u16_to_le_bytes, spec_u32_to_le_bytes,
};
use crate::parser::error::MdxParseError;
use crate::parser::primitives::{
    le_i32, le_u16, le_u32, le_u8, lemma_u16_from_to_le_bytes, lemma_u16_to_from_le_bytes,
    lemma_u32_from_to_le_bytes, lemma_u32_to_from_le_bytes, spec_le_i32, spec_le_u16,
    spec_le_u32, spec_le_u8, spec_u32_from_le_bytes, times, Parsed, Parser,
};
use vstd::prelude::*;

verus! {

/// Types that can be parsed from bytes and encoded to bytes.
///
/// `spec_parse` is the grammar of the type and `wire` the bytes of a value;
/// `parse_versioned` and `encode` are proved to compute them.
pub trait Materialized: Sized {
    /// Extra information that is passed to the parser to decode the bytes
    /// correctly.
    type Version: Copy;

    /// What a value of the type stands for in specifications.
    type Model;

    /// The model of a value.
    spec fn model(&self) -> Self::Model;

    /// The grammar: the value at the front of `input` and the rest of the
    /// input behind it, or the failure.
    spec fn spec_parse(version: Option<Self::Version>, input: Seq<u8>) -> Parsed<Self::Model>;

    /// The bytes that stand for a value.
    spec fn wire(m: Self::Model) -> Seq<u8>;

    /// The failure of the encoder on a value, if there is one.
    spec fn encode_error(m: Self::Model) -> Option<EncodeError>;

    /// Parse the type from the given input with no version.
    fn parse<'a>(input: &'a [u8]) -> (r: Parser<'a, Self>)
        ensures
            match r {
                Ok((rest, value)) => Self::spec_parse(None, input@) == Ok::<_, MdxParseError>(
                    (rest@, value.model()),
                ),
                Err(e) => Self::spec_parse(None, input@) == Err::<(Seq<u8>, Self::Model), _>(e),
            },
    {
        Self::parse_versioned(None, input)
    }

    /// Parse the type from the given input.
    fn parse_versioned<'a>(version: Option<Self::Version>, input: &'a [u8]) -> (r: Parser<
        'a,
        Self,
    >)
        ensures
            match r {
                Ok((rest, value)) => Self::spec_parse(version, input@) == Ok::<_, MdxParseError>(
                    (rest@, value.model()),
                ),
                Err(e) => Self::spec_parse(version, input@) == Err::<(Seq<u8>, Self::Model), _>(
                    e,
                ),
            },
    ;

    /// Encode the value at the end of the byte stream.
    fn encode(&self, output: &mut Vec<u8>) -> (r: Result<(), EncodeError>)
        ensures
            match Self::encode_error(self.model()) {
                None => r is Ok && final(output)@ == old(output)@ + Self::wire(self.model()),
                Some(e) => r == Err::<(), _>(e),
            },
    ;
}

/// What the parser of the type returns is encoded to the bytes it was parsed
/// from.
pub trait Lossless: Materialized {
    /// The values in which no optional block was met twice while parsing.
    spec fn faithful(m: Self::Model) -> bool;

    /// What was parsed is encoded to the bytes it was parsed from.
    proof fn lemma_parse_wire(version: Option<Self::Version>, input: Seq<u8>)
        ensures
            match Self::spec_parse(version, input) {
                Ok((rest, m)) => Self::faithful(m) ==> Self::encode_error(m) is None && Self::wire(
                    m,
                ) + rest == input,
                Err(_) => true,
            },
    ;
}

/// What the encoder of the type writes is parsed back to the value.
pub trait Reparsable: Materialized {
    /// The values that the parser can return at `version`.
    spec fn well_formed(m: Self::Model, version: Option<Self::Version>) -> bool;

    /// What was encoded is parsed back to the value it was encoded from,
    /// whatever follows it.
    proof fn lemma_wire_parse(m: Self::Model, version: Option<Self::Version>, tail: Seq<u8>)
        requires
            Self::well_formed(m, version),
        ensures
            Self::encode_error(m) is None,
            Self::spec_parse(version, Self::wire(m) + tail) == Ok::<_, MdxParseError>((tail, m)),
    ;
}

/// A sequence is its first `n` items followed by the others.
pub proof fn lemma_take_skip(s: Seq<u8>, n: int)
    requires
        0 <= n <= s.len(),
    ensures
        s.take(n) + s.skip(n) == s,
        s.take(n).len() == n,
{
    assert(s.take(n) + s.skip(n) =~= s);
}

/// Taking and skipping the length of the first of two joined sequences gives
/// the two back.
pub proof fn lemma_append_take_skip(a: Seq<u8>, b: Seq<u8>)
    ensures
        (a + b).take(a.len() as int) == a,
        (a + b).skip(a.len() as int) == b,
{
    assert((a + b).take(a.len() as int) =~= a);
    assert((a + b).skip(a.len() as int) =~= b);
}

/// Joining sequences is associative.
pub proof fn lemma_append_assoc(a: Seq<u8>, b: Seq<u8>, c: Seq<u8>)
    ensures
        (a + b) + c == a + (b + c),
{
    assert((a + b) + c =~= a + (b + c));
}

impl Materialized for u8 {
    type Version = u32;

    type Model = u8;

    open spec fn model(&self) -> u8 {
        *self
    }

    open spec fn spec_parse(version: Option<u32>, input: Seq<u8>) -> Parsed<u8> {
        spec_le_u8(input)
    }

    open spec fn wire(m: u8) -> Seq<u8> {
        seq![m]
    }

    open spec fn encode_error(m: u8) -> Option<EncodeError> {
        None
    }

    fn parse_versioned<'a>(version: Option<u32>, input: &'a [u8]) -> (r: Parser<'a, u8>) {
        le_u8(input)
    }

    fn encode(&self, output: &mut Vec<u8>) -> (r: Result<(), EncodeError>) {
        output.push(*self);
        assert(output@ =~= old(output)@ + seq![*self]);
        Ok(())
    }
}

impl Lossless for u8 {
    open spec fn faithful(m: u8) -> bool {
        true
    }

    proof fn lemma_parse_wire(version: Option<u32>, input: Seq<u8>) {
        if input.len() >= 1 {
            lemma_take_skip(input, 1);
            assert(seq![input.take(1)[0]] =~= input.take(1));
        }
    }
}

impl Reparsable for u8 {
    open spec fn well_formed(m: u8, version: Option<u32>) -> bool {
        true
    }

    proof fn lemma_wire_parse(m: u8, version: Option<u32>, tail: Seq<u8>) {
        lemma_append_take_skip(seq![m], tail);
    }
}

impl Materialized for u16 {
    type Version = u32;

    type Model = u16;

    open spec fn model(&self) -> u16 {
        *self
    }

    open spec fn spec_parse(version: Option<u32>, input: Seq<u8>) -> Parsed<u16> {
        spec_le_u16(input)
    }

    open spec fn wire(m: u16) -> Seq<u8> {
        spec_u16_to_le_bytes(m)
    }

    open spec fn encode_error(m: u16) -> Option<EncodeError> {
        None
    }

    fn parse_versioned<'a>(version: Option<u32>, input: &'a [u8]) -> (r: Parser<'a, u16>) {
        le_u16(input)
    }

    fn encode(&self, output: &mut Vec<u8>) -> (r: Result<(), EncodeError>) {
        push_le_u16(*self, output);
        Ok(())
    }
}

impl Lossless for u16 {
    open spec fn faithful(m: u16) -> bool {
        true
    }

    proof fn lemma_parse_wire(version: Option<u32>, input: Seq<u8>) {
        if input.len() >= 2 {
            lemma_take_skip(input, 2);
            lemma_u16_from_to_le_bytes(input.take(2));
        }
    }
}

impl Reparsable for u16 {
    open spec fn well_formed(m: u16, version: Option<u32>) -> bool {
        true
    }

    proof fn lemma_wire_parse(m: u16, version: Option<u32>, tail: Seq<u8>) {
        lemma_u16_to_from_le_bytes(m);
        lemma_append_take_skip(spec_u16_to_le_bytes(m), tail);
    }
}

impl Materialized for u32 {
    type Version = u32;

    type Model = u32;

    open spec fn model(&self) -> u32 {
        *self
    }

    open spec fn spec_parse(version: Option<u32>, input: Seq<u8>) -> Parsed<u32> {
        spec_le_u32(input)
    }

    open spec fn wire(m: u32) -> Seq<u8> {
        spec_u32_to_le_bytes(m)
    }

    open spec fn encode_error(m: u32) -> Option<EncodeError> {
        None
    }

    fn parse_versioned<'a>(version: Option<u32>, input: &'a [u8]) -> (r: Parser<'a, u32>) {
        le_u32(input)
    }

    fn encode(&self, output: &mut Vec<u8>) -> (r: Result<(), EncodeError>) {
        push_le_u32(*self, output);
        Ok(())
    }
}

impl Lossless for u32 {
    open spec fn faithful(m: u32) -> bool {
        true
    }

    proof fn lemma_parse_wire(version: Option<u32>, input: Seq<u8>) {
        if input.len() >= 4 {
            lemma_take_skip(input, 4);
            lemma_u32_from_to_le_bytes(input.take(4));
        }
    }
}

impl Reparsable for u32 {
    open spec fn well_formed(m: u32, version: Option<u32>) -> bool {
        true
    }

    proof fn lemma_wire_parse(m: u32, version: Option<u32>, tail: Seq<u8>) {
        lemma_u32_to_from_le_bytes(m);
        lemma_append_take_skip(spec_u32_to_le_bytes(m), tail);
    }
}

impl Materialized for i32 {
    type Version = u32;

    type Model = i32;

    open spec fn model(&self) -> i32 {
        *self
    }

    open spec fn spec_parse(version: Option<u32>, input: Seq<u8>) -> Parsed<i32> {
        spec_le_i32(input)
    }

    open spec fn wire(m: i32) -> Seq<u8> {
        spec_i32_to_le_bytes(m)
    }

    open spec fn encode_error(m: i32) -> Option<EncodeError> {
        None
    }

    fn parse_versioned<'a>(version: Option<u32>, input: &'a [u8]) -> (r: Parser<'a, i32>) {
        le_i32(input)
    }

    fn encode(&self, output: &mut Vec<u8>) -> (r: Result<(), EncodeError>) {
        push_le_i32(*self, output);
        Ok(())
    }
}

impl Lossless for i32 {
    open spec fn faithful(m: i32) -> bool {
        true
    }

    proof fn lemma_parse_wire(version: Option<u32>, input: Seq<u8>) {
        if input.len() >= 4 {
            lemma_take_skip(input, 4);
            lemma_u32_from_to_le_bytes(input.take(4));
            lemma_i32_u32_casts(0, spec_u32_from_le_bytes(input.take(4)));
        }
    }
}

impl Reparsable for i32 {
    open spec fn well_formed(m: i32, version: Option<u32>) -> bool {
        true
    }

    proof fn lemma_wire_parse(m: i32, version: Option<u32>, tail: Seq<u8>) {
        lemma_u32_to_from_le_bytes(m as u32);
        lemma_i32_u32_casts(m, 0);
        lemma_append_take_skip(spec_i32_to_le_bytes(m), tail);
    }
}

/// A single-precision number, held as the 32 bits of its IEEE 754 encoding.
/// The codec moves the bits and never computes with the number.
#[derive(Debug, Clone, Copy, PartialEq, Eq, Structural, Hash, Default)]
pub struct FloatBits(pub u32);

impl Materialized for FloatBits {
    type Version = u32;

    type Model = FloatBits;

    open spec fn model(&self) -> FloatBits {
        *self
    }

    open spec fn spec_parse(version: Option<u32>, input: Seq<u8>) -> Parsed<FloatBits> {
        match spec_le_u32(input) {
            Ok((rest, bits)) => Ok((rest, FloatBits(bits))),
            Err(e) => Err(e),
        }
    }

    open spec fn wire(m: FloatBits) -> Seq<u8> {
        spec_u32_to_le_bytes(m.0)
    }

    open spec fn encode_error(m: FloatBits) -> Option<EncodeError> {
        None
    }

    fn parse_versioned<'a>(version: Option<u32>, input: &'a [u8]) -> (r: Parser<'a, FloatBits>) {
        match le_u32(input) {
            Ok((rest, bits)) => Ok((rest, FloatBits(bits))),
            Err(e) => Err(e),
        }
    }

    fn encode(&self, output: &mut Vec<u8>) -> (r: Result<(), EncodeError>) {
        push_le_u32(self.0, output);
        Ok(())
    }
}

impl Lossless for FloatBits {
    open spec fn faithful(m: FloatBits) -> bool {
        true
    }

    proof fn lemma_parse_wire(version: Option<u32>, input: Seq<u8>) {
        <u32 as Lossless>::lemma_parse_wire(None, input);
    }
}

impl Reparsable for FloatBits {
    open spec fn well_formed(m: FloatBits, version: Option<u32>) -> bool {
        true
    }

    proof fn lemma_wire_parse(m: FloatBits, version: Option<u32>, tail: Seq<u8>) {
        <u32 as Reparsable>::lemma_wire_parse(m.0, None, tail);
    }
}

/// The models of the values of a sequence.
pub open spec fn models<T: Materialized>(s: Seq<T>) -> Seq<T::Model> {
    Seq::new(s.len(), |i: int| s[i].model())
}

/// The model of a value that may be absent.
pub open spec fn opt_model<T: Materialized>(o: Option<T>) -> Option<T::Model> {
    match o {
        Some(v) => Some(v.model()),
        None => None,
    }
}

/// The grammar of `n` values one after the other: they are added to `acc` in
/// the order in which they stand in the input.
pub open spec fn spec_parse_count<T: Materialized>(
    version: Option<T::Version>,
    n: nat,
    acc: Seq<T::Model>,
    input: Seq<u8>,
) -> Parsed<Seq<T::Model>>
    decreases n,
{
    if n == 0 {
        Ok((input, acc))
    } else {
        match T::spec_parse(version, input) {
            Ok((rest, m)) => spec_parse_count::<T>(version, (n - 1) as nat, acc.push(m), rest),
            Err(e) => Err(e),
        }
    }
}

/// The bytes of the values of a sequence, one after the other.
pub open spec fn wire_all<T: Materialized>(ms: Seq<T::Model>) -> Seq<u8>
    decreases ms.len(),
{
    if ms.len() == 0 {
        Seq::empty()
    } else {
        wire_all::<T>(ms.drop_last()) + T::wire(ms.last())
    }
}

/// The failure of the encoder on the first value of a sequence that has one.
pub open spec fn encode_error_all<T: Materialized>(ms: Seq<T::Model>) -> Option<EncodeError>
    decreases ms.len(),
{
    if ms.len() == 0 {
        None
    } else {
        match encode_error_all::<T>(ms.drop_last()) {
            Some(e) => Some(e),
            None => T::encode_error(ms.last()),
        }
    }
}

/// The bytes of a value that may be absent: none if it is.
pub open spec fn wire_opt<T: Materialized>(m: Option<T::Model>) -> Seq<u8> {
    match m {
        Some(v) => T::wire(v),
        None => Seq::empty(),
    }
}

/// The failure of the encoder on a value that may be absent.
pub open spec fn encode_error_opt<T: Materialized>(m: Option<T::Model>) -> Option<EncodeError> {
    match m {
        Some(v) => T::encode_error(v),
        None => None,
    }
}

/// A failure among the first `k` values is the failure of the whole sequence.
pub proof fn lemma_encode_error_prefix<T: Materialized>(ms: Seq<T::Model>, k: int)
    requires
        0 <= k <= ms.len(),
        encode_error_all::<T>(ms.take(k)) is Some,
    ensures
        encode_error_all::<T>(ms) == encode_error_all::<T>(ms.take(k)),
    decreases ms.len(),
{
    if k == ms.len() {
        assert(ms.take(k) =~= ms);
    } else {
        assert(ms.drop_last().take(k) =~= ms.take(k));
        lemma_encode_error_prefix::<T>(ms.drop_last(), k);
    }
}

/// One more value adds its bytes at the end, and its failure counts if no
/// earlier value has one.
pub proof fn lemma_wire_all_push<T: Materialized>(ms: Seq<T::Model>, m: T::Model)
    ensures
        wire_all::<T>(ms.push(m)) == wire_all::<T>(ms) + T::wire(m),
        encode_error_all::<T>(ms.push(m)) == match encode_error_all::<T>(ms) {
            Some(e) => Some(e),
            None => T::encode_error(m),
        },
{
    assert(ms.push(m).drop_last() =~= ms);
}

/// The bytes of a sequence start with the bytes of its first value.
pub proof fn lemma_wire_all_front<T: Materialized>(ms: Seq<T::Model>)
    requires
        ms.len() > 0,
    ensures
        wire_all::<T>(ms) == T::wire(ms[0]) + wire_all::<T>(ms.skip(1)),
        encode_error_all::<T>(ms) is None ==> T::encode_error(ms[0]) is None && encode_error_all::<
            T,
        >(ms.skip(1)) is None,
    decreases ms.len(),
{
    if ms.len() == 1 {
        assert(ms.drop_last() =~= Seq::<T::Model>::empty());
        assert(ms.skip(1) =~= Seq::<T::Model>::empty());
        assert(wire_all::<T>(ms) =~= T::wire(ms[0]) + wire_all::<T>(ms.skip(1)));
    } else {
        lemma_wire_all_front::<T>(ms.drop_last());
        assert(ms.drop_last().skip(1) =~= ms.skip(1).drop_last());
        assert(ms.skip(1).last() == ms.last());
        lemma_append_assoc(
            T::wire(ms[0]),
            wire_all::<T>(ms.skip(1).drop_last()),
            T::wire(ms.last()),
        );
    }
}

/// Applies the parser of `T` `n` times and collects the values.
pub fn count<'a, T: Materialized>(version: Option<T::Version>, n: usize, input: &'a [u8]) -> (r:
    Parser<'a, Vec<T>>)
    ensures
        match r {
            Ok((rest, values)) => spec_parse_count::<T>(
                version,
                n as nat,
                Seq::empty(),
                input@,
            ) == Ok::<_, MdxParseError>((rest@, models(values@))),
            Err(e) => spec_parse_count::<T>(version, n as nat, Seq::empty(), input@) == Err::<
                (Seq<u8>, Seq<T::Model>),
                _,
            >(e),
        },
{
    let mut values: Vec<T> = Vec::new();
    let mut cycle_input = input;
    let mut i: usize = 0;
    assert(models(values@) =~= Seq::<T::Model>::empty());
    while i < n
        invariant
            i <= n,
            spec_parse_count::<T>(version, n as nat, Seq::empty(), input@) == spec_parse_count::<
                T,
            >(version, (n - i) as nat, models(values@), cycle_input@),
        decreases n - i,
    {
        match T::parse_versioned(version, cycle_input) {
            Ok((rest, value)) => {
                assert(models(values@.push(value)) =~= models(values@).push(value.model()));
                values.push(value);
                cycle_input = rest;
            },
            Err(e) => {
                return Err(e);
            },
        }
        i += 1;
    }
    Ok((cycle_input, values))
}

/// Parse a vector whose length is known in advance.
pub fn parse_fixed_vec<'a, T: Materialized>(n: usize, input: &'a [u8]) -> (r: Parser<'a, Vec<T>>)
    ensures
        match r {
            Ok((rest, values)) => spec_parse_count::<T>(None, n as nat, Seq::empty(), input@)
                == Ok::<_, MdxParseError>((rest@, models(values@))),
            Err(e) => spec_parse_count::<T>(None, n as nat, Seq::empty(), input@) == Err::<
                (Seq<u8>, Seq<T::Model>),
                _,
            >(e),
        },
{
    count(None, n, input)
}

/// Encode the values one after the other, with no count before them.
pub fn encode_fixed_vec<T: Materialized>(elements: &[T], output: &mut Vec<u8>) -> (r: Result<
    (),
    EncodeError,
>)
    ensures
        match encode_error_all::<T>(models(elements@)) {
            None => r is Ok && final(output)@ == old(output)@ + wire_all::<T>(models(elements@)),
            Some(e) => r == Err::<(), _>(e),
        },
{
    let ghost ms = models(elements@);
    let mut i: usize = 0;
    assert(ms.take(0) =~= Seq::<T::Model>::empty());
    assert(output@ =~= old(output)@ + wire_all::<T>(ms.take(0)));
    while i < elements.len()
        invariant
            i <= elements.len(),
            ms == models(elements@),
            encode_error_all::<T>(ms.take(i as int)) is None,
            output@ == old(output)@ + wire_all::<T>(ms.take(i as int)),
        decreases elements.len() - i,
    {
        let ghost before = output@;
        proof {
            assert(ms.take(i + 1) =~= ms.take(i as int).push(elements@[i as int].model()));
            lemma_wire_all_push::<T>(ms.take(i as int), elements@[i as int].model());
        }
        match elements[i].encode(output) {
            Ok(()) => {
                proof {
                    lemma_append_assoc(
                        old(output)@,
                        wire_all::<T>(ms.take(i as int)),
                        T::wire(elements@[i as int].model()),
                    );
                }
            },
            Err(e) => {
                proof {
                    lemma_encode_error_prefix::<T>(ms, i + 1);
                }
                return Err(e);
            },
        }
        i += 1;
    }
    assert(ms.take(i as int) =~= ms);
    Ok(())
}

/// The grammar of a `u32` count followed by that many values.
pub open spec fn spec_parse_len_vec<T: Materialized>(
    version: Option<T::Version>,
    input: Seq<u8>,
) -> Parsed<Seq<T::Model>> {
    match spec_le_u32(input) {
        Ok((rest, n)) => spec_parse_count::<T>(version, n as nat, Seq::empty(), rest),
        Err(e) => Err(e),
    }
}

/// The bytes of a sequence with its count before it.
pub open spec fn wire_len_vec<T: Materialized>(ms: Seq<T::Model>) -> Seq<u8> {
    spec_u32_to_le_bytes(ms.len() as u32) + wire_all::<T>(ms)
}

/// The failure of the encoder on a counted sequence: a count that does not fit
/// into `u32`, or else the first failure among the values.
pub open spec fn encode_error_len_vec<T: Materialized>(ms: Seq<T::Model>) -> Option<
    EncodeError,
> {
    if ms.len() > u32::MAX {
        Some(EncodeError::SizeUintOverflow(ms.len() as usize))
    } else {
        encode_error_all::<T>(ms)
    }
}

/// Parse a `u32` count and then that many values.
pub fn parse_len_vec<'a, T: Materialized>(version: Option<T::Version>, input: &'a [u8]) -> (r:
    Parser<'a, Vec<T>>)
    ensures
        match r {
            Ok((rest, values)) => spec_parse_len_vec::<T>(version, input@) == Ok::<
                _,
                MdxParseError,
            >((rest@, models(values@))),
            Err(e) => spec_parse_len_vec::<T>(version, input@) == Err::<
                (Seq<u8>, Seq<T::Model>),
                _,
            >(e),
        },
{
    match le_u32(input) {
        Ok((rest, n)) => count(version, n as usize, rest),
        Err(e) => Err(e),
    }
}

/// Encodes the count of the values as `u32` and then the values.
pub fn encode_len_vec<T: Materialized>(vec: &[T], output: &mut Vec<u8>) -> (r: Result<
    (),
    EncodeError,
>)
    ensures
        match encode_error_len_vec::<T>(models(vec@)) {
            None => r is Ok && final(output)@ == old(output)@ + wire_len_vec::<T>(models(vec@)),
            Some(e) => r == Err::<(), _>(e),
        },
{
    let n = vec.len();
    if n > u32::MAX as usize {
        return Err(EncodeError::SizeUintOverflow(n));
    }
    push_le_u32(n as u32, output);
    let ghost mid = output@;
    let r = encode_fixed_vec(vec, output);
    proof {
        lemma_append_assoc(
            old(output)@,
            spec_u32_to_le_bytes(n as u32),
            wire_all::<T>(models(vec@)),
        );
    }
    r
}

/// The grammar of a value that is present only if the version is greater than
/// `val`: with no version, or one that is not greater, nothing is read.
pub open spec fn spec_parse_versioned_greater<T: Materialized>(
    version: Option<u32>,
    val: u32,
    input: Seq<u8>,
) -> Parsed<Option<T::Model>> {
    if version is Some && version->0 > val {
        match T::spec_parse(None, input) {
            Ok((rest, m)) => Ok((rest, Some(m))),
            Err(e) => Err(e),
        }
    } else {
        Ok((input, None))
    }
}

/// Helper to parse extra fields if the version is greater than the given
/// value.
pub fn parse_versioned_greater<'a, T: Materialized>(
    version: Option<u32>,
    val: u32,
    input: &'a [u8],
) -> (r: Parser<'a, Option<T>>)
    ensures
        match r {
            Ok((rest, value)) => spec_parse_versioned_greater::<T>(version, val, input@) == Ok::<
                _,
                MdxParseError,
            >((rest@, opt_model(value))),
            Err(e) => spec_parse_versioned_greater::<T>(version, val, input@) == Err::<
                (Seq<u8>, Option<T::Model>),
                _,
            >(e),
        },
        r is Ok && !(version is Some && version->0 > val) ==> r->Ok_0.1 is None,
        r is Ok && version is Some && version->0 > val ==> r->Ok_0.1 is Some,
{
    match version {
        Some(v) => {
            if v > val {
                match T::parse(input) {
                    Ok((rest, value)) => Ok((rest, Some(value))),
                    Err(e) => Err(e),
                }
            } else {
                Ok((input, None))
            }
        },
        None => Ok((input, None)),
    }
}

/// The grammar of a value that is present only if there is a version.
pub open spec fn spec_parse_versioned_opt<T: Materialized>(
    version: Option<T::Version>,
    input: Seq<u8>,
) -> Parsed<Option<T::Model>> {
    if version is Some {
        match T::spec_parse(version, input) {
            Ok((rest, m)) => Ok((rest, Some(m))),
            Err(e) => Err(e),
        }
    } else {
        Ok((input, None))
    }
}

/// Helper to parse extra fields if there is a version.
pub fn parse_versioned_opt<'a, T: Materialized>(version: Option<T::Version>, input: &'a [u8]) -> (r:
    Parser<'a, Option<T>>)
    ensures
        match r {
            Ok((rest, value)) => spec_parse_versioned_opt::<T>(version, input@) == Ok::<
                _,
                MdxParseError,
            >((rest@, opt_model(value))),
            Err(e) => spec_parse_versioned_opt::<T>(version, input@) == Err::<
                (Seq<u8>, Option<T::Model>),
                _,
            >(e),
        },
{
    match version {
        Some(v) => {
            match T::parse_versioned(Some(v), input) {
                Ok((rest, value)) => Ok((rest, Some(value))),
                Err(e) => Err(e),
            }
        },
        None => Ok((input, None)),
    }
}

/// Encodes a value that may be absent: nothing if it is.
pub fn encode_opt<T: Materialized>(value: &Option<T>, output: &mut Vec<u8>) -> (r: Result<
    (),
    EncodeError,
>)
    ensures
        match encode_error_opt::<T>(opt_model(*value)) {
            None => r is Ok && final(output)@ == old(output)@ + wire_opt::<T>(opt_model(*value)),
            Some(e) => r == Err::<(), _>(e),
        },
{
    match value {
        Some(v) => v.encode(output),
        None => {
            assert(output@ =~= old(output)@ + Seq::<u8>::empty());
            Ok(())
        },
    }
}

/// Every value of the sequence is faithful.
pub open spec fn all_faithful<T: Lossless>(ms: Seq<T::Model>) -> bool {
    forall|i: int| 0 <= i < ms.len() ==> T::faithful(#[trigger] ms[i])
}

/// Every value of the sequence is well formed at the version.
pub open spec fn all_well_formed<T: Reparsable>(ms: Seq<T::Model>, version: Option<T::Version>) -> bool {
    forall|i: int| 0 <= i < ms.len() ==> T::well_formed(#[trigger] ms[i], version)
}

/// What `n` applications of a parser return is encoded to the bytes they read.
pub proof fn lemma_count_parse_wire<T: Lossless>(
    version: Option<T::Version>,
    n: nat,
    acc: Seq<T::Model>,
    input: Seq<u8>,
)
    ensures
        match spec_parse_count::<T>(version, n, acc, input) {
            Ok((rest, ms)) => {
                &&& ms.len() == acc.len() + n
                &&& ms.take(acc.len() as int) == acc
                &&& all_faithful::<T>(ms) ==> {
                    &&& wire_all::<T>(acc) + input == wire_all::<T>(ms) + rest
                    &&& encode_error_all::<T>(acc) is None ==> encode_error_all::<T>(ms) is None
                }
            },
            Err(_) => true,
        },
    decreases n,
{
    if n == 0 {
        assert(acc.take(acc.len() as int) =~= acc);
    } else {
        match T::spec_parse(version, input) {
            Ok((rest1, m)) => {
                T::lemma_parse_wire(version, input);
                lemma_count_parse_wire::<T>(version, (n - 1) as nat, acc.push(m), rest1);
                match spec_parse_count::<T>(version, (n - 1) as nat, acc.push(m), rest1) {
                    Ok((rest, ms)) => {
                        assert(ms.take(acc.len() as int) =~= ms.take(acc.len() + 1 as int).take(
                            acc.len() as int,
                        ));
                        assert(acc.push(m).take(acc.len() as int) =~= acc);
                        assert(ms[acc.len() as int] == ms.take(acc.len() + 1 as int)[acc.len() as int]);
                        if all_faithful::<T>(ms) {
                            assert(T::faithful(ms[acc.len() as int]));
                            lemma_wire_all_push::<T>(acc, m);
                            lemma_append_assoc(wire_all::<T>(acc), T::wire(m), rest1);
                        }
                    },
                    Err(_) => {},
                }
            },
            Err(_) => {},
        }
    }
}

/// The bytes of a sequence are parsed back to the sequence, whatever follows
/// them.
pub proof fn lemma_count_wire_parse<T: Reparsable>(
    version: Option<T::Version>,
    acc: Seq<T::Model>,
    ms: Seq<T::Model>,
    tail: Seq<u8>,
)
    requires
        all_well_formed::<T>(ms, version),
    ensures
        encode_error_all::<T>(ms) is None,
        spec_parse_count::<T>(version, ms.len(), acc, wire_all::<T>(ms) + tail) == Ok::<
            _,
            MdxParseError,
        >((tail, acc + ms)),
    decreases ms.len(),
{
    if ms.len() == 0 {
        assert(acc + ms =~= acc);
        assert(wire_all::<T>(ms) + tail =~= tail);
    } else {
        let m = ms[0];
        let others = ms.skip(1);
        assert(T::well_formed(m, version));
        assert forall|i: int| 0 <= i < others.len() implies T::well_formed(
            #[trigger] others[i],
            version,
        ) by {
            assert(others[i] == ms[i + 1]);
        }
        lemma_wire_all_front::<T>(ms);
        lemma_append_assoc(T::wire(m), wire_all::<T>(others), tail);
        T::lemma_wire_parse(m, version, wire_all::<T>(others) + tail);
        lemma_count_wire_parse::<T>(version, acc.push(m), others, tail);
        assert(acc.push(m) + others =~= acc + ms);
        lemma_encode_error_front::<T>(ms);
    }
}

/// A sequence whose first value and whose other values encode without
/// failure encodes without failure.
pub proof fn lemma_encode_error_front<T: Materialized>(ms: Seq<T::Model>)
    requires
        ms.len() > 0,
        T::encode_error(ms[0]) is None,
        encode_error_all::<T>(ms.skip(1)) is None,
    ensures
        encode_error_all::<T>(ms) is None,
    decreases ms.len(),
{
    if ms.len() == 1 {
        assert(ms.drop_last() =~= Seq::<T::Model>::empty());
    } else {
        assert(ms.drop_last().skip(1) =~= ms.skip(1).drop_last());
        assert(ms.skip(1).last() == ms.last());
        lemma_encode_error_front::<T>(ms.drop_last());
    }
}

/// What a counted sequence was parsed to is encoded to the bytes it was
/// parsed from.
pub proof fn lemma_len_vec_parse_wire<T: Lossless>(version: Option<T::Version>, input: Seq<u8>)
    ensures
        match spec_parse_len_vec::<T>(version, input) {
            Ok((rest, ms)) => all_faithful::<T>(ms) ==> encode_error_len_vec::<T>(ms) is None
                && wire_len_vec::<T>(ms) + rest == input,
            Err(_) => true,
        },
{
    match spec_le_u32(input) {
        Ok((rest1, n)) => {
            <u32 as Lossless>::lemma_parse_wire(None, input);
            lemma_count_parse_wire::<T>(version, n as nat, Seq::empty(), rest1);
            match spec_parse_count::<T>(version, n as nat, Seq::empty(), rest1) {
                Ok((rest, ms)) => {
                    if all_faithful::<T>(ms) {
                        assert(wire_all::<T>(Seq::<T::Model>::empty()) + rest1 =~= rest1);
                        lemma_append_assoc(spec_u32_to_le_bytes(n), wire_all::<T>(ms), rest);
                    }
                },
                Err(_) => {},
            }
        },
        Err(_) => {},
    }
}

/// The bytes of a counted sequence are parsed back to the sequence, whatever
/// follows them.
pub proof fn lemma_len_vec_wire_parse<T: Reparsable>(
    version: Option<T::Version>,
    ms: Seq<T::Model>,
    tail: Seq<u8>,
)
    requires
        all_well_formed::<T>(ms, version),
        ms.len() <= u32::MAX,
    ensures
        encode_error_len_vec::<T>(ms) is None,
        spec_parse_len_vec::<T>(version, wire_len_vec::<T>(ms) + tail) == Ok::<_, MdxParseError>(
            (tail, ms),
        ),
{
    lemma_append_assoc(spec_u32_to_le_bytes(ms.len() as u32), wire_all::<T>(ms), tail);
    <u32 as Reparsable>::lemma_wire_parse(ms.len() as u32, None, wire_all::<T>(ms) + tail);
    lemma_count_wire_parse::<T>(version, Seq::empty(), ms, tail);
    assert(Seq::<T::Model>::empty() + ms =~= ms);
}

impl<T: Materialized + Copy + Default, const N: usize> Materialized for [T; N] {
    type Version = u32;

    type Model = Seq<T::Model>;

    open spec fn model(&self) -> Seq<T::Model> {
        models(self@)
    }

    open spec fn spec_parse(version: Option<u32>, input: Seq<u8>) -> Parsed<Seq<T::Model>> {
        spec_parse_count::<T>(None, N as nat, Seq::empty(), input)
    }

    open spec fn wire(m: Seq<T::Model>) -> Seq<u8> {
        wire_all::<T>(m)
    }

    open spec fn encode_error(m: Seq<T::Model>) -> Option<EncodeError> {
        encode_error_all::<T>(m)
    }

    fn parse_versioned<'a>(version: Option<u32>, input: &'a [u8]) -> (r: Parser<'a, [T; N]>) {
        times::<N, T>(input)
    }

    fn encode(&self, output: &mut Vec<u8>) -> (r: Result<(), EncodeError>) {
        encode_fixed_vec(self.as_slice(), output)
    }
}

impl<T: Lossless + Copy + Default, const N: usize> Lossless for [T; N] {
    open spec fn faithful(m: Seq<T::Model>) -> bool {
        all_faithful::<T>(m)
    }

    proof fn lemma_parse_wire(version: Option<u32>, input: Seq<u8>) {
        lemma_count_parse_wire::<T>(None, N as nat, Seq::empty(), input);
        assert(wire_all::<T>(Seq::<T::Model>::empty()) + input =~= input);
    }
}

impl<T: Reparsable + Copy + Default, const N: usize> Reparsable for [T; N] {
    open spec fn well_formed(m: Seq<T::Model>, version: Option<u32>) -> bool {
        m.len() == N && all_well_formed::<T>(m, None)
    }

    proof fn lemma_wire_parse(m: Seq<T::Model>, version: Option<u32>, tail: Seq<u8>) {
        lemma_count_wire_parse::<T>(None, Seq::empty(), m, tail);
        assert(Seq::<T::Model>::empty() + m =~= m);
    }
}

/// Records whose fields stand in a span of bytes that a size field in front
/// of them announces. The body is all that the span holds: its grammar is
/// applied to the exact span.
pub trait SizedBody: Sized {
    /// What a value of the type stands for in specifications.
    type Model;

    /// The model of a value.
    spec fn body_model(&self) -> Self::Model;

    /// The grammar of the fields.
    spec fn spec_parse_body(version: Option<u32>, input: Seq<u8>) -> Parsed<Self::Model>;

    /// The bytes of the fields.
    spec fn body_wire(m: Self::Model) -> Seq<u8>;

    /// The failure of the encoder on the fields, if there is one.
    spec fn body_encode_error(m: Self::Model) -> Option<EncodeError>;

    /// Parse the fields from the span.
    fn parse_body<'a>(version: Option<u32>, input: &'a [u8]) -> (r: Parser<'a, Self>)
        ensures
            match r {
                Ok((rest, value)) => Self::spec_parse_body(version, input@) == Ok::<
                    _,
                    MdxParseError,
                >((rest@, value.body_model())),
                Err(e) => Self::spec_parse_body(version, input@) == Err::<
                    (Seq<u8>, Self::Model),
                    _,
                >(e),
            },
    ;

    /// Encode the fields at the end of the byte stream.
    fn encode_body(&self, output: &mut Vec<u8>) -> (r: Result<(), EncodeError>)
        ensures
            match Self::body_encode_error(self.body_model()) {
                None => r is Ok && final(output)@ == old(output)@ + Self::body_wire(
                    self.body_model(),
                ),
                Some(e) => r == Err::<(), _>(e),
            },
    ;
}

/// What the parser of the body returns is encoded to the bytes it was parsed
/// from.
pub trait LosslessBody: SizedBody {
    /// The values in which no optional block was met twice while parsing.
    spec fn body_faithful(m: Self::Model) -> bool;

    /// What was parsed is encoded to the bytes it was parsed from.
    proof fn lemma_body_parse_wire(version: Option<u32>, input: Seq<u8>)
        ensures
            match Self::spec_parse_body(version, input) {
                Ok((rest, m)) => Self::body_faithful(m) ==> Self::body_encode_error(m) is None
                    && Self::body_wire(m) + rest == input,
                Err(_) => true,
            },
    ;
}

/// What the encoder of the body writes is parsed back to the value.
pub trait ReparsableBody: SizedBody {
    /// The values that the parser can return at `version`.
    spec fn body_well_formed(m: Self::Model, version: Option<u32>) -> bool;

    /// What was encoded is parsed back to the value it was encoded from, and
    /// nothing is left of the span.
    proof fn lemma_body_wire_parse(m: Self::Model, version: Option<u32>)
        requires
            Self::body_well_formed(m, version),
        ensures
            Self::body_encode_error(m) is None,
            Self::spec_parse_body(version, Self::body_wire(m)) == Ok::<_, MdxParseError>(
                (Seq::<u8>::empty(), m),
            ),
    ;
}

/// The grammar of a record with a leading inclusive size `n`: the next `n - 4`
/// bytes are the span of the body, and the body has to use all of it.
pub open spec fn spec_parse_inclusive_sized<T: SizedBody>(
    version: Option<u32>,
    input: Seq<u8>,
) -> Parsed<T::Model> {
    match spec_le_u32(input) {
        Ok((rest, size)) => if size < 4 {
            Err(MdxParseError::InclusiveSizeTooSmall { size })
        } else if size - 4 > rest.len() {
            Err(MdxParseError::InclusiveSizeNotEhoughInput { size, input: rest.len() as usize })
        } else {
            match T::spec_parse_body(version, rest.take(size - 4)) {
                Ok((left, m)) => if left.len() != 0 {
                    Err(MdxParseError::InclusiveLeftover { input: left.len() as usize })
                } else {
                    Ok((rest.skip(size - 4), m))
                },
                Err(e) => Err(e),
            }
        },
        Err(e) => Err(e),
    }
}

/// The bytes of a record with a leading inclusive size: the size of the body
/// plus the four bytes of the size field, then the body.
pub open spec fn wire_inclusive_sized<T: SizedBody>(m: T::Model) -> Seq<u8> {
    spec_u32_to_le_bytes((T::body_wire(m).len() + 4) as u32) + T::body_wire(m)
}

/// The failure of the encoder on a record with a leading inclusive size: that
/// of the body, or else a size that does not fit into `u32`. The payload is
/// the size of the body.
pub open spec fn encode_error_inclusive_sized<T: SizedBody>(m: T::Model) -> Option<EncodeError> {
    match T::body_encode_error(m) {
        Some(e) => Some(e),
        None => if T::body_wire(m).len() + 4 > u32::MAX {
            Some(EncodeError::SizeUintOverflow(T::body_wire(m).len() as usize))
        } else {
            None
        },
    }
}

/// The bytes of a body with a leading exclusive size: the size of the body,
/// then the body.
pub open spec fn wire_exclusive_sized<T: SizedBody>(m: T::Model) -> Seq<u8> {
    spec_u32_to_le_bytes(T::body_wire(m).len() as u32) + T::body_wire(m)
}

/// The failure of the encoder on a body with a leading exclusive size: that of
/// the body, or else a size that does not fit into `u32`.
pub open spec fn encode_error_exclusive_sized<T: SizedBody>(m: T::Model) -> Option<EncodeError> {
    match T::body_encode_error(m) {
        Some(e) => Some(e),
        None => if T::body_wire(m).len() > u32::MAX {
            Some(EncodeError::SizeUintOverflow(T::body_wire(m).len() as usize))
        } else {
            None
        },
    }
}

/// Fetches a `u32` inclusive size, runs the parser of the body only on the
/// region of the input that the size covers, and checks that the body
/// consumes all of it.
pub fn parse_inclusive_sized<'a, T: SizedBody>(version: Option<u32>, input: &'a [u8]) -> (r:
    Parser<'a, T>)
    ensures
        match r {
            Ok((rest, value)) => spec_parse_inclusive_sized::<T>(version, input@) == Ok::<
                _,
                MdxParseError,
            >((rest@, value.body_model())),
            Err(e) => spec_parse_inclusive_sized::<T>(version, input@) == Err::<
                (Seq<u8>, T::Model),
                _,
            >(e),
        },
{
    let (input, inclusive_size) = match le_u32(input) {
        Ok(p) => p,
        Err(e) => {
            return Err(e);
        },
    };
    if inclusive_size < 4 {
        return Err(MdxParseError::InclusiveSizeTooSmall { size: inclusive_size });
    } else if ((inclusive_size - 4) as usize) > input.len() {
        return Err(
            MdxParseError::InclusiveSizeNotEhoughInput { size: inclusive_size, input: input.len() },
        );
    }
    let n = (inclusive_size - 4) as usize;
    let sub_input = vstd::slice::slice_subrange(input, 0, n);
    assert(sub_input@ =~= input@.take(n as int));
    let (inclusive_rest, value) = match T::parse_body(version, sub_input) {
        Ok(p) => p,
        Err(e) => {
            return Err(e);
        },
    };
    if inclusive_rest.len() != 0 {
        return Err(MdxParseError::InclusiveLeftover { input: inclusive_rest.len() });
    }
    let rest = vstd::slice::slice_subrange(input, n, input.len());
    assert(rest@ =~= input@.skip(n as int));
    Ok((rest, value))
}

/// Encodes the body, records its size and writes before it the inclusive size
/// as `u32`. The body is encoded aside: if it fails or its size does not fit,
/// nothing is written.
pub fn encode_inclusive_sized<T: SizedBody>(output: &mut Vec<u8>, value: &T) -> (r: Result<
    (),
    EncodeError,
>)
    ensures
        match encode_error_inclusive_sized::<T>(value.body_model()) {
            None => r is Ok && final(output)@ == old(output)@ + wire_inclusive_sized::<T>(
                value.body_model(),
            ),
            Some(e) => r == Err::<(), _>(e),
        },
        r is Err ==> final(output)@ == old(output)@,
{
    let mut buff: Vec<u8> = Vec::new();
    match value.encode_body(&mut buff) {
        Ok(()) => {},
        Err(e) => {
            return Err(e);
        },
    }
    assert(buff@ =~= T::body_wire(value.body_model()));
    if buff.len() > (u32::MAX - 4) as usize {
        return Err(EncodeError::SizeUintOverflow(buff.len()));
    }
    let inclusive_size: u32 = (buff.len() + 4) as u32;
    push_le_u32(inclusive_size, output);
    output.append(&mut buff);
    proof {
        lemma_append_assoc(
            old(output)@,
            spec_u32_to_le_bytes(inclusive_size),
            T::body_wire(value.body_model()),
        );
    }
    Ok(())
}

/// Encodes the body, records its size and writes before it the exclusive size
/// as `u32`. The body is encoded aside: if it fails or its size does not fit,
/// nothing is written.
pub fn encode_exclusive_sized<T: SizedBody>(output: &mut Vec<u8>, value: &T) -> (r: Result<
    (),
    EncodeError,
>)
    ensures
        match encode_error_exclusive_sized::<T>(value.body_model()) {
            None => r is Ok && final(output)@ == old(output)@ + wire_exclusive_sized::<T>(
                value.body_model(),
            ),
            Some(e) => r == Err::<(), _>(e),
        },
        r is Err ==> final(output)@ == old(output)@,
{
    let mut buff: Vec<u8> = Vec::new();
    match value.encode_body(&mut buff) {
        Ok(()) => {},
        Err(e) => {
            return Err(e);
        },
    }
    assert(buff@ =~= T::body_wire(value.body_model()));
    if buff.len() > u32::MAX as usize {
        return Err(EncodeError::SizeUintOverflow(buff.len()));
    }
    let exclusive_size: u32 = buff.len() as u32;
    push_le_u32(exclusive_size, output);
    output.append(&mut buff);
    proof {
        lemma_append_assoc(
            old(output)@,
            spec_u32_to_le_bytes(exclusive_size),
            T::body_wire(value.body_model()),
        );
    }
    Ok(())
}

/// What a record with a leading inclusive size was parsed to is encoded to the
/// bytes it was parsed from.
pub proof fn lemma_inclusive_parse_wire<T: LosslessBody>(version: Option<u32>, input: Seq<u8>)
    ensures
        match spec_parse_inclusive_sized::<T>(version, input) {
            Ok((rest, m)) => T::body_faithful(m) ==> encode_error_inclusive_sized::<T>(m) is None
                && wire_inclusive_sized::<T>(m) + rest == input,
            Err(_) => true,
        },
{
    u32::lemma_parse_wire(None, input);
    match spec_le_u32(input) {
        Ok((rest, size)) => {
            if size >= 4 && size - 4 <= rest.len() {
                let span = rest.take(size - 4);
                T::lemma_body_parse_wire(version, span);
                match T::spec_parse_body(version, span) {
                    Ok((left, m)) => {
                        if left.len() == 0 && T::body_faithful(m) {
                            assert(T::body_wire(m) + left =~= T::body_wire(m));
                            lemma_take_skip(rest, size - 4);
                            lemma_append_assoc(
                                spec_u32_to_le_bytes(size),
                                span,
                                rest.skip(size - 4),
                            );
                        }
                    },
                    Err(_) => {},
                }
            }
        },
        Err(_) => {},
    }
}

/// The bytes of a record with a leading inclusive size are parsed back to the
/// record, whatever follows them.
pub proof fn lemma_inclusive_wire_parse<T: ReparsableBody>(
    m: T::Model,
    version: Option<u32>,
    tail: Seq<u8>,
)
    requires
        T::body_well_formed(m, version),
        T::body_wire(m).len() + 4 <= u32::MAX,
    ensures
        encode_error_inclusive_sized::<T>(m) is None,
        spec_parse_inclusive_sized::<T>(version, wire_inclusive_sized::<T>(m) + tail) == Ok::<
            _,
            MdxParseError,
        >((tail, m)),
{
    let body = T::body_wire(m);
    let size = (body.len() + 4) as u32;
    T::lemma_body_wire_parse(m, version);
    lemma_append_assoc(spec_u32_to_le_bytes(size), body, tail);
    u32::lemma_wire_parse(size, None, body + tail);
    lemma_append_take_skip(body, tail);
}

/// A value that may be absent is faithful if it is absent or faithful.
pub open spec fn opt_faithful<T: Lossless>(m: Option<T::Model>) -> bool {
    match m {
        Some(v) => T::faithful(v),
        None => true,
    }
}

/// What a value that only later versions have was parsed to is encoded to the bytes it was
/// parsed from, and it is present exactly if the version is greater than
/// `val`.
pub proof fn lemma_versioned_greater_parse_wire<T: Lossless>(
    version: Option<u32>,
    val: u32,
    input: Seq<u8>,
)
    ensures
        match spec_parse_versioned_greater::<T>(version, val, input) {
            Ok((rest, m)) => {
                &&& m is Some <==> version is Some && version->0 > val
                &&& opt_faithful::<T>(m) ==> encode_error_opt::<T>(m) is None && wire_opt::<T>(m)
                    + rest == input
            },
            Err(_) => true,
        },
{
    if version is Some && version->0 > val {
        T::lemma_parse_wire(None, input);
    } else {
        assert(Seq::<u8>::empty() + input =~= input);
    }
}

/// A value that may be absent suits a version if it is present
/// exactly at the versions greater than `val`, and is well formed if present.
pub open spec fn opt_well_formed<T: Reparsable>(
    m: Option<T::Model>,
    version: Option<u32>,
    val: u32,
) -> bool {
    &&& m is Some <==> version is Some && version->0 > val
    &&& m is Some ==> T::well_formed(m->0, None)
}

/// The bytes of a value that only later versions have are parsed back to the value at the
/// version: to the value itself at a version greater than `val`, and to no
/// value from no bytes at any other.
pub proof fn lemma_versioned_greater_wire_parse<T: Reparsable>(
    version: Option<u32>,
    val: u32,
    m: Option<T::Model>,
    tail: Seq<u8>,
)
    requires
        opt_well_formed::<T>(m, version, val),
    ensures
        encode_error_opt::<T>(m) is None,
        spec_parse_versioned_greater::<T>(version, val, wire_opt::<T>(m) + tail) == Ok::<
            _,
            MdxParseError,
        >((tail, m)),
        !(version is Some && version->0 > val) ==> wire_opt::<T>(m) == Seq::<u8>::empty(),
{
    match m {
        Some(v) => {
            T::lemma_wire_parse(v, None, tail);
        },
        None => {
            assert(Seq::<u8>::empty() + tail =~= tail);
        },
    }
}

/// The bytes of a sequence of values of one width are as many as the values
/// times the width.
pub proof fn lemma_wire_all_len<T: Materialized>(ms: Seq<T::Model>, width: nat)
    requires
        forall|i: int| 0 <= i < ms.len() ==> (#[trigger] T::wire(ms[i])).len() == width,
    ensures
        wire_all::<T>(ms).len() == ms.len() * width,
    decreases ms.len(),
{
    if ms.len() > 0 {
        assert forall|i: int| 0 <= i < ms.drop_last().len() implies (#[trigger] T::wire(
            ms.drop_last()[i],
        )).len() == width by {
            assert(ms.drop_last()[i] == ms[i]);
        }
        lemma_wire_all_len::<T>(ms.drop_last(), width);
        assert(T::wire(ms[ms.len() - 1]).len() == width);
        assert(ms.len() * width == (ms.len() - 1) * width + width) by (nonlinear_arith);
    } else {
        assert(ms.len() * width == 0) by (nonlinear_arith)
            requires
                ms.len() == 0,
        ;
    }
}

/// The bounds of an inclusive size: one that is smaller than the four bytes of
/// the size field is too small, one that reaches beyond the input does not
/// have enough input, and one of exactly four leaves the body an empty span.
pub proof fn lemma_inclusive_size_bounds<T: SizedBody>(
    version: Option<u32>,
    size: u32,
    after: Seq<u8>,
)
    ensures
        size < 4 ==> spec_parse_inclusive_sized::<T>(version, spec_u32_to_le_bytes(size) + after)
            == Err::<(Seq<u8>, T::Model), _>(MdxParseError::InclusiveSizeTooSmall { size }),
        size >= 4 && size - 4 > after.len() ==> spec_parse_inclusive_sized::<T>(
            version,
            spec_u32_to_le_bytes(size) + after,
        ) == Err::<(Seq<u8>, T::Model), _>(
            MdxParseError::InclusiveSizeNotEhoughInput { size, input: after.len() as usize },
        ),
        size == 4 ==> spec_parse_inclusive_sized::<T>(version, spec_u32_to_le_bytes(size) + after)
            == match T::spec_parse_body(version, Seq::empty()) {
            Ok((left, m)) => if left.len() != 0 {
                Err(MdxParseError::InclusiveLeftover { input: left.len() as usize })
            } else {
                Ok((after, m))
            },
            Err(e) => Err(e),
        },
{
    u32::lemma_wire_parse(size, None, after);
    assert(after.take(0) =~= Seq::<u8>::empty());
    assert(after.skip(0) =~= after);
}

} // verus!
