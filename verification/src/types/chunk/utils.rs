use crate::encoder::error::Error as EncodeError;
use crate::encoder::primitives::{push_le_u32, spec_u32_to_le_bytes};
use crate::parser::error::MdxParseError;
use crate::parser::primitives::{le_u32, spec_le_u32, spec_take, take, Parsed, Parser};
use crate::types::materialize::{
    lemma_append_assoc, lemma_append_take_skip, lemma_take_skip, Lossless, Materialized,
    Reparsable,
};
use vstd::prelude::*;
use vstd::utf8::{
    decode_utf8, decode_utf8_encode_utf8, encode_utf8, encode_utf8_decode_utf8,
    encode_utf8_valid_utf8, valid_utf8,
};

verus! {

/// Fixed 4-byte tag, usually ASCII.
#[derive(Debug, Clone, Copy, PartialEq, Eq, PartialOrd, Ord, Hash)]
pub struct Tag(pub [u8; 4]);

impl Tag {
    /// Byte-wise equality.
    pub fn same_as(&self, other: &Tag) -> (r: bool)
        ensures
            r == (*self == *other),
    {
        let r = self.0[0] == other.0[0] && self.0[1] == other.0[1] && self.0[2] == other.0[2]
            && self.0[3] == other.0[3];
        proof {
            if r {
                assert(self.0 =~= other.0);
            } else {
                assert(self.0@ != other.0@);
            }
        }
        r
    }
}

/// The text that `{:?}` gives for four bytes.
pub uninterp spec fn spec_debug_bytes(bytes: Seq<u8>) -> Seq<char>;

/// `format!` with `{:?}` on an array of four bytes: the text depends on the
/// bytes alone.
#[verifier::external_body]
fn debug_bytes(bytes: &[u8; 4]) -> (r: String)
    ensures
        r@ == spec_debug_bytes(bytes@),
{
    format!("{:?}", bytes)
}

impl Tag {
    /// The text of the tag, in specifications: its letters if its bytes are
    /// UTF-8, else the list of its bytes.
    pub open spec fn spec_text(self) -> Seq<char> {
        if valid_utf8(self.0@) {
            decode_utf8(self.0@)
        } else {
            spec_debug_bytes(self.0@)
        }
    }

    /// The text of the tag: its letters if its bytes are UTF-8, else the list
    /// of its bytes.
    pub fn text(&self) -> (r: String)
        ensures
            r@ == self.spec_text(),
    {
        match core::str::from_utf8(self.0.as_slice()) {
            Ok(letters) => {
                proof {
                    encode_utf8_decode_utf8(letters@);
                }
                letters.to_owned()
            },
            Err(_) => debug_bytes(&self.0),
        }
    }
}

/// The tag made of the first four bytes of a sequence.
pub open spec fn tag_of(bytes: Seq<u8>) -> Tag {
    Tag([bytes[0], bytes[1], bytes[2], bytes[3]])
}

/// A tag is made of its own four bytes, and four bytes are the bytes of the
/// tag made of them.
pub proof fn lemma_tag_bytes(tag: Tag, bytes: Seq<u8>)
    ensures
        tag.0@.len() == 4,
        tag_of(tag.0@) == tag,
        bytes.len() == 4 ==> tag_of(bytes).0@ == bytes,
{
    assert(tag_of(tag.0@).0 =~= tag.0);
    if bytes.len() == 4 {
        assert(tag_of(bytes).0@ =~= bytes);
    }
}

impl Materialized for Tag {
    type Version = u32;

    type Model = Tag;

    open spec fn model(&self) -> Tag {
        *self
    }

    open spec fn spec_parse(version: Option<u32>, input: Seq<u8>) -> Parsed<Tag> {
        match spec_take(4, input) {
            Ok((rest, bytes)) => Ok((rest, tag_of(bytes))),
            Err(e) => Err(e),
        }
    }

    open spec fn wire(m: Tag) -> Seq<u8> {
        m.0@
    }

    open spec fn encode_error(m: Tag) -> Option<EncodeError> {
        None
    }

    fn parse_versioned<'a>(version: Option<u32>, input: &'a [u8]) -> (r: Parser<'a, Tag>) {
        match take(4, input) {
            Ok((rest, bytes)) => {
                let tag = Tag([bytes[0], bytes[1], bytes[2], bytes[3]]);
                assert(tag.0 =~= tag_of(bytes@).0);
                Ok((rest, tag))
            },
            Err(e) => Err(e),
        }
    }

    fn encode(&self, output: &mut Vec<u8>) -> (r: Result<(), EncodeError>) {
        output.push(self.0[0]);
        output.push(self.0[1]);
        output.push(self.0[2]);
        output.push(self.0[3]);
        assert(output@ =~= old(output)@ + self.0@);
        Ok(())
    }
}

impl Lossless for Tag {
    open spec fn faithful(m: Tag) -> bool {
        true
    }

    proof fn lemma_parse_wire(version: Option<u32>, input: Seq<u8>) {
        if input.len() >= 4 {
            lemma_take_skip(input, 4);
            lemma_tag_bytes(tag_of(input.take(4)), input.take(4));
        }
    }
}

impl Reparsable for Tag {
    open spec fn well_formed(m: Tag, version: Option<u32>) -> bool {
        true
    }

    proof fn lemma_wire_parse(m: Tag, version: Option<u32>, tail: Seq<u8>) {
        lemma_tag_bytes(m, m.0@);
        lemma_append_take_skip(m.0@, tail);
    }
}

/// The grammar of a tag that has to be `expected`.
pub open spec fn spec_expect_tag(expected: Tag, input: Seq<u8>) -> Parsed<Tag> {
    match Tag::spec_parse(None, input) {
        Ok((rest, tag)) => if tag != expected {
            Err(MdxParseError::UnexpectedChunkTag { expected, found: tag })
        } else {
            Ok((rest, tag))
        },
        Err(e) => Err(e),
    }
}

impl Tag {
    /// Parse a tag and check that it equals the expected one.
    pub fn expect<'a>(&self, input: &'a [u8]) -> (r: Parser<'a, Tag>)
        ensures
            match r {
                Ok((rest, tag)) => spec_expect_tag(*self, input@) == Ok::<_, MdxParseError>(
                    (rest@, tag),
                ) && tag == *self,
                Err(e) => spec_expect_tag(*self, input@) == Err::<(Seq<u8>, Tag), _>(e),
            },
    {
        match Tag::parse(input) {
            Ok((rest, tag)) => {
                if !tag.same_as(self) {
                    Err(MdxParseError::UnexpectedChunkTag { expected: *self, found: tag })
                } else {
                    Ok((rest, tag))
                }
            },
            Err(e) => Err(e),
        }
    }
}

/// An expected tag that was found stands at the front of the input.
pub proof fn lemma_expect_tag(expected: Tag, input: Seq<u8>)
    ensures
        match spec_expect_tag(expected, input) {
            Ok((rest, tag)) => tag == expected && expected.0@ + rest == input,
            Err(_) => true,
        },
{
    Tag::lemma_parse_wire(None, input);
}

/// The bytes of a tag, whatever follows them, are read as that tag.
pub proof fn lemma_expect_tag_wire(expected: Tag, tail: Seq<u8>)
    ensures
        spec_expect_tag(expected, expected.0@ + tail) == Ok::<_, MdxParseError>((tail, expected)),
{
    Tag::lemma_wire_parse(expected, None, tail);
}

/// Chunk header with tag and size.
#[derive(Debug, Clone, Copy, PartialEq, Eq)]
pub struct Header {
    pub tag: Tag,
    pub size: usize,
}

impl Materialized for Header {
    type Version = u32;

    type Model = Header;

    open spec fn model(&self) -> Header {
        *self
    }

    open spec fn spec_parse(version: Option<u32>, input: Seq<u8>) -> Parsed<Header> {
        match Tag::spec_parse(None, input) {
            Ok((rest, tag)) => match spec_le_u32(rest) {
                Ok((rest, size)) => Ok((rest, Header { tag, size: size as usize })),
                Err(e) => Err(e),
            },
            Err(e) => Err(e),
        }
    }

    open spec fn wire(m: Header) -> Seq<u8> {
        m.tag.0@ + spec_u32_to_le_bytes(m.size as u32)
    }

    open spec fn encode_error(m: Header) -> Option<EncodeError> {
        if m.size > u32::MAX {
            Some(EncodeError::SizeUintOverflow(m.size))
        } else {
            None
        }
    }

    fn parse_versioned<'a>(version: Option<u32>, input: &'a [u8]) -> (r: Parser<'a, Header>) {
        match Tag::parse(input) {
            Ok((rest, tag)) => match le_u32(rest) {
                Ok((rest, size)) => Ok((rest, Header { tag, size: size as usize })),
                Err(e) => Err(e),
            },
            Err(e) => Err(e),
        }
    }

    fn encode(&self, output: &mut Vec<u8>) -> (r: Result<(), EncodeError>) {
        let _ = self.tag.encode(output);
        if self.size > u32::MAX as usize {
            return Err(EncodeError::SizeUintOverflow(self.size));
        }
        push_le_u32(self.size as u32, output);
        proof {
            lemma_append_assoc(old(output)@, self.tag.0@, spec_u32_to_le_bytes(self.size as u32));
        }
        Ok(())
    }
}

impl Lossless for Header {
    open spec fn faithful(m: Header) -> bool {
        true
    }

    proof fn lemma_parse_wire(version: Option<u32>, input: Seq<u8>) {
        Tag::lemma_parse_wire(None, input);
        match Tag::spec_parse(None, input) {
            Ok((rest, tag)) => {
                u32::lemma_parse_wire(None, rest);
                match spec_le_u32(rest) {
                    Ok((rest2, size)) => {
                        lemma_append_assoc(tag.0@, spec_u32_to_le_bytes(size), rest2);
                    },
                    Err(_) => {},
                }
            },
            Err(_) => {},
        }
    }
}

impl Reparsable for Header {
    open spec fn well_formed(m: Header, version: Option<u32>) -> bool {
        m.size <= u32::MAX
    }

    proof fn lemma_wire_parse(m: Header, version: Option<u32>, tail: Seq<u8>) {
        let size = m.size as u32;
        let after_tag = spec_u32_to_le_bytes(size) + tail;
        lemma_append_assoc(m.tag.0@, spec_u32_to_le_bytes(size), tail);
        Tag::lemma_wire_parse(m.tag, None, after_tag);
        u32::lemma_wire_parse(size, None, tail);
        assert(Tag::spec_parse(None, m.tag.0@ + after_tag) == Ok::<_, MdxParseError>(
            (after_tag, m.tag),
        ));
        assert(spec_le_u32(after_tag) == Ok::<_, MdxParseError>((tail, size)));
        assert(Header::well_formed(m, version));
        assert(size as usize == m.size);
        assert(Header { tag: m.tag, size: size as usize } == m);
    }
}

/// The grammar of a header whose tag has to be `tag`.
pub open spec fn spec_expect_header(tag: Tag, input: Seq<u8>) -> Parsed<Header> {
    match Header::spec_parse(None, input) {
        Ok((rest, header)) => if tag != header.tag {
            Err(MdxParseError::UnexpectedChunkTag { expected: tag, found: header.tag })
        } else {
            Ok((rest, header))
        },
        Err(e) => Err(e),
    }
}

impl Header {
    /// Get the amount of bytes the header has when serialized.
    pub fn size() -> (r: usize)
        ensures
            r == 8,
    {
        8
    }

    /// Expect a header with the given tag.
    pub fn expect<'a>(tag: Tag, input: &'a [u8]) -> (r: Parser<'a, Header>)
        ensures
            match r {
                Ok((rest, header)) => spec_expect_header(tag, input@) == Ok::<_, MdxParseError>(
                    (rest@, header),
                ) && header.tag == tag,
                Err(e) => spec_expect_header(tag, input@) == Err::<(Seq<u8>, Header), _>(e),
            },
    {
        match Header::parse(input) {
            Ok((rest, header)) => {
                if !tag.same_as(&header.tag) {
                    Err(MdxParseError::UnexpectedChunkTag { expected: tag, found: header.tag })
                } else {
                    Ok((rest, header))
                }
            },
            Err(e) => Err(e),
        }
    }
}

/// `n` zero bytes.
pub open spec fn zeros(n: nat) -> Seq<u8> {
    Seq::new(n, |i: int| 0u8)
}

/// The error of `std::str::from_utf8`.
#[verifier::external_type_specification]
#[verifier::external_body]
pub struct ExUtf8Error(core::str::Utf8Error);

/// `std::str::from_utf8` succeeds exactly on the byte sequences that are valid
/// UTF-8, and the string slice it returns is made of the bytes it was given.
pub assume_specification<'a>[ core::str::from_utf8 ](v: &'a [u8]) -> (r: Result<
    &'a str,
    core::str::Utf8Error,
>)
    ensures
        r is Ok <==> valid_utf8(v@),
        r is Ok ==> encode_utf8(r->Ok_0@) == v@,
;

/// Appends the bytes of a slice.
pub fn push_bytes(bytes: &[u8], output: &mut Vec<u8>)
    ensures
        final(output)@ == old(output)@ + bytes@,
{
    let mut i: usize = 0;
    assert(output@ =~= old(output)@ + bytes@.take(0));
    while i < bytes.len()
        invariant
            i <= bytes.len(),
            output@ == old(output)@ + bytes@.take(i as int),
        decreases bytes.len() - i,
    {
        output.push(bytes[i]);
        assert(output@ =~= old(output)@ + bytes@.take(i + 1));
        i += 1;
    }
    assert(bytes@.take(i as int) =~= bytes@);
}

/// Appends `n` zero bytes.
pub fn push_zeros(n: usize, output: &mut Vec<u8>)
    ensures
        final(output)@ == old(output)@ + zeros(n as nat),
{
    let mut i: usize = 0;
    assert(output@ =~= old(output)@ + zeros(0));
    while i < n
        invariant
            i <= n,
            output@ == old(output)@ + zeros(i as nat),
        decreases n - i,
    {
        output.push(0);
        assert(output@ =~= old(output)@ + zeros((i + 1) as nat));
        i += 1;
    }
}

/// Literal string that has a fixed size in bytes: UTF-8 text, padded on the
/// right with zero bytes. The padding that was read stays in the string.
#[derive(Debug, Clone, PartialEq, Eq, PartialOrd, Ord, Hash)]
pub struct Literal<const S: usize> {
    pub content: String,
}

impl<const S: usize> Materialized for Literal<S> {
    type Version = u32;

    type Model = Seq<char>;

    open spec fn model(&self) -> Seq<char> {
        self.content@
    }

    open spec fn spec_parse(version: Option<u32>, input: Seq<u8>) -> Parsed<Seq<char>> {
        if input.len() < S {
            Err(MdxParseError::TooShortLiteral { expected: S, found: input.len() as usize })
        } else if !valid_utf8(input.take(S as int)) {
            Err(MdxParseError::Utf8Conv)
        } else {
            Ok((input.skip(S as int), decode_utf8(input.take(S as int))))
        }
    }

    open spec fn wire(m: Seq<char>) -> Seq<u8> {
        encode_utf8(m) + zeros((S - encode_utf8(m).len()) as nat)
    }

    open spec fn encode_error(m: Seq<char>) -> Option<EncodeError> {
        if encode_utf8(m).len() > S {
            Some(
                EncodeError::LiteralSizeOverflow {
                    expected: S,
                    passed: encode_utf8(m).len() as usize,
                },
            )
        } else {
            None
        }
    }

    fn parse_versioned<'a>(version: Option<u32>, input: &'a [u8]) -> (r: Parser<'a, Literal<S>>) {
        if input.len() < S {
            return Err(MdxParseError::TooShortLiteral { expected: S, found: input.len() });
        }
        match take(S, input) {
            Ok((rest, literal_bytes)) => match core::str::from_utf8(literal_bytes) {
                Ok(text) => {
                    proof {
                        encode_utf8_decode_utf8(text@);
                    }
                    Ok((rest, Literal { content: text.to_owned() }))
                },
                Err(_) => Err(MdxParseError::Utf8Conv),
            },
            Err(e) => Err(e),
        }
    }

    /// A string that does not fit leaves the output as it is.
    fn encode(&self, output: &mut Vec<u8>) -> (r: Result<(), EncodeError>)
        ensures
            r is Err ==> final(output)@ == old(output)@,
    {
        let content_bytes = self.content.as_str().as_bytes();
        let n = content_bytes.len();
        if n > S {
            Err(EncodeError::LiteralSizeOverflow { expected: S, passed: n })
        } else {
            push_bytes(content_bytes, output);
            push_zeros(S - n, output);
            proof {
                lemma_append_assoc(old(output)@, content_bytes@, zeros((S - n) as nat));
            }
            Ok(())
        }
    }
}

impl<const S: usize> Lossless for Literal<S> {
    open spec fn faithful(m: Seq<char>) -> bool {
        true
    }

    proof fn lemma_parse_wire(version: Option<u32>, input: Seq<u8>) {
        if input.len() >= S && valid_utf8(input.take(S as int)) {
            decode_utf8_encode_utf8(input.take(S as int));
            lemma_take_skip(input, S as int);
            assert(input.take(S as int) + zeros(0) =~= input.take(S as int));
        }
    }
}

impl<const S: usize> Reparsable for Literal<S> {
    open spec fn well_formed(m: Seq<char>, version: Option<u32>) -> bool {
        encode_utf8(m).len() == S
    }

    proof fn lemma_wire_parse(m: Seq<char>, version: Option<u32>, tail: Seq<u8>) {
        assert(encode_utf8(m) + zeros(0) =~= encode_utf8(m));
        lemma_append_take_skip(encode_utf8(m), tail);
        encode_utf8_valid_utf8(m);
        encode_utf8_decode_utf8(m);
    }
}

} // verus!
