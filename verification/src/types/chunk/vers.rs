use crate::encoder::error::Error as EncodeError;
use crate::parser::primitives::{Parsed, Parser};
use crate::types::chunk::{
    encode_chunk, encode_error_sized_chunk, lemma_sized_chunk_wire_parse, ReparsableChunk,
    lemma_sized_chunk_parse_wire, parse_chunk, spec_parse_chunk, wire_chunk, Chunk,
    LosslessChunk,
};
use crate::types::chunk::utils::Tag;
use crate::types::materialize::{
    Lossless, LosslessBody, Materialized, Reparsable, ReparsableBody, SizedBody,
};
use vstd::prelude::*;

verus! {

/// The chunk of the version of the format. The layout of some records depends
/// on it.
#[derive(Debug, Clone, PartialEq)]
pub struct Vers {
    pub version: u32,
}

/// What a value of [`Vers`] stands for in specifications.
pub struct VersModel {
    pub version: u32,
}

impl Chunk for Vers {
    open spec fn spec_tag() -> Tag {
        Tag([0x56, 0x45, 0x52, 0x53])
    }

    fn tag() -> (t: Tag) {
        let t = Tag([0x56, 0x45, 0x52, 0x53]);
        assert(t.0 =~= Self::spec_tag().0);
        t
    }
}

impl SizedBody for Vers {
    type Model = VersModel;

    open spec fn body_model(&self) -> VersModel {
        VersModel { version: self.version.model() }
    }

    open spec fn spec_parse_body(version: Option<u32>, input: Seq<u8>) -> Parsed<VersModel> {
        match u32::spec_parse(None, input) {
            Ok((rest, version)) => Ok((rest, VersModel { version })),
            Err(e) => Err(e),
        }
    }

    open spec fn body_wire(m: VersModel) -> Seq<u8> {
        u32::wire(m.version)
    }

    open spec fn body_encode_error(m: VersModel) -> Option<EncodeError> {
        u32::encode_error(m.version)
    }

    fn parse_body<'a>(version: Option<u32>, input: &'a [u8]) -> (r: Parser<'a, Vers>) {
        let (input, version) = u32::parse(input)?;
        Ok((input, Vers { version }))
    }

    fn encode_body(&self, output: &mut Vec<u8>) -> (r: Result<(), EncodeError>) {
        self.version.encode(output)?;
        Ok(())
    }
}

impl LosslessBody for Vers {
    open spec fn body_faithful(m: VersModel) -> bool {
        u32::faithful(m.version)
    }

    proof fn lemma_body_parse_wire(version: Option<u32>, input: Seq<u8>) {
        u32::lemma_parse_wire(None, input);
    }
}

impl ReparsableBody for Vers {
    open spec fn body_well_formed(m: VersModel, version: Option<u32>) -> bool {
        u32::well_formed(m.version, None)
    }

    proof fn lemma_body_wire_parse(m: VersModel, version: Option<u32>) {
        let w1 = u32::wire(m.version);
        let u2 = Seq::<u8>::empty();
        let u1 = w1 + u2;
        u32::lemma_wire_parse(m.version, None, u2);
        assert(u1 =~= Self::body_wire(m));
    }
}

impl ReparsableChunk for Vers {
    open spec fn chunk_well_formed(m: VersModel, version: Option<u32>) -> bool {
        Self::body_well_formed(m, version) && Self::body_wire(m).len() <= u32::MAX
    }

    proof fn lemma_chunk_wire_parse(m: VersModel, version: Option<u32>) {
        lemma_sized_chunk_wire_parse::<Vers>(m, version);
    }
}

impl Materialized for Vers {
    type Version = u32;

    type Model = VersModel;

    open spec fn model(&self) -> VersModel {
        self.body_model()
    }

    open spec fn spec_parse(version: Option<u32>, input: Seq<u8>) -> Parsed<VersModel> {
        spec_parse_chunk::<Vers>(version, input)
    }

    open spec fn wire(m: VersModel) -> Seq<u8> {
        wire_chunk(Self::spec_tag(), Self::body_wire(m))
    }

    open spec fn encode_error(m: VersModel) -> Option<EncodeError> {
        encode_error_sized_chunk::<Vers>(m)
    }

    fn parse_versioned<'a>(version: Option<u32>, input: &'a [u8]) -> (r: Parser<'a, Vers>) {
        parse_chunk::<Vers>(version, input)
    }

    fn encode(&self, output: &mut Vec<u8>) -> (r: Result<(), EncodeError>) {
        let mut buff: Vec<u8> = Vec::new();
        self.encode_body(&mut buff)?;
        assert(buff@ =~= Self::body_wire(self.body_model()));
        encode_chunk::<Vers>(output, buff)
    }
}

impl LosslessChunk for Vers {
    open spec fn chunk_faithful(m: VersModel) -> bool {
        Self::body_faithful(m)
    }

    proof fn lemma_chunk_parse_wire(version: Option<u32>, span: Seq<u8>) {
        lemma_sized_chunk_parse_wire::<Vers>(version, span);
    }
}

} // verus!
