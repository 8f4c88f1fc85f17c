use crate::encoder::error::Error as EncodeError;
use crate::parser::primitives::{Parsed, Parser};
use crate::types::chunk::{
    encode_chunk, encode_error_sized_chunk, lemma_sized_chunk_wire_parse, ReparsableChunk,
    lemma_sized_chunk_parse_wire, parse_chunk, spec_parse_chunk, wire_chunk, Chunk,
    LosslessChunk,
};
use crate::types::chunk::utils::Tag;
use crate::types::materialize::{LosslessBody, Materialized, ReparsableBody, SizedBody};
use vstd::prelude::*;

verus! {

/// The chunk of the sounds. No field of it is known: its body is empty.
#[derive(Debug, Clone, PartialEq)]
pub struct Snds {

}

/// What a value of [`Snds`] stands for in specifications.
pub struct SndsModel {

}

impl Chunk for Snds {
    open spec fn spec_tag() -> Tag {
        Tag([0x53, 0x4E, 0x44, 0x53])
    }

    fn tag() -> (t: Tag) {
        let t = Tag([0x53, 0x4E, 0x44, 0x53]);
        assert(t.0 =~= Self::spec_tag().0);
        t
    }
}

impl SizedBody for Snds {
    type Model = SndsModel;

    open spec fn body_model(&self) -> SndsModel {
        SndsModel {  }
    }

    open spec fn spec_parse_body(version: Option<u32>, input: Seq<u8>) -> Parsed<SndsModel> {
        Ok((input, SndsModel {  }))
    }

    open spec fn body_wire(m: SndsModel) -> Seq<u8> {
        Seq::empty()
    }

    open spec fn body_encode_error(m: SndsModel) -> Option<EncodeError> {
        None
    }

    fn parse_body<'a>(version: Option<u32>, input: &'a [u8]) -> (r: Parser<'a, Snds>) {
        Ok((input, Snds {  }))
    }

    fn encode_body(&self, output: &mut Vec<u8>) -> (r: Result<(), EncodeError>) {
        assert(output@ =~= old(output)@ + Seq::<u8>::empty());
        Ok(())
    }
}

impl LosslessBody for Snds {
    open spec fn body_faithful(m: SndsModel) -> bool {
        true
    }

    proof fn lemma_body_parse_wire(version: Option<u32>, input: Seq<u8>) {
        let m = SndsModel {  };
        if Self::body_faithful(m) {
            assert(Seq::<u8>::empty() + input =~= input);
        }
    }
}

impl ReparsableBody for Snds {
    open spec fn body_well_formed(m: SndsModel, version: Option<u32>) -> bool {
        true
    }

    proof fn lemma_body_wire_parse(m: SndsModel, version: Option<u32>) {
        let u1 = Seq::<u8>::empty();
        assert(Seq::<u8>::empty() + Seq::<u8>::empty() =~= Seq::<u8>::empty());
        assert(u1 =~= Self::body_wire(m));
    }
}

impl ReparsableChunk for Snds {
    open spec fn chunk_well_formed(m: SndsModel, version: Option<u32>) -> bool {
        Self::body_well_formed(m, version) && Self::body_wire(m).len() <= u32::MAX
    }

    proof fn lemma_chunk_wire_parse(m: SndsModel, version: Option<u32>) {
        lemma_sized_chunk_wire_parse::<Snds>(m, version);
    }
}

impl Materialized for Snds {
    type Version = u32;

    type Model = SndsModel;

    open spec fn model(&self) -> SndsModel {
        self.body_model()
    }

    open spec fn spec_parse(version: Option<u32>, input: Seq<u8>) -> Parsed<SndsModel> {
        spec_parse_chunk::<Snds>(version, input)
    }

    open spec fn wire(m: SndsModel) -> Seq<u8> {
        wire_chunk(Self::spec_tag(), Self::body_wire(m))
    }

    open spec fn encode_error(m: SndsModel) -> Option<EncodeError> {
        encode_error_sized_chunk::<Snds>(m)
    }

    fn parse_versioned<'a>(version: Option<u32>, input: &'a [u8]) -> (r: Parser<'a, Snds>) {
        parse_chunk::<Snds>(version, input)
    }

    fn encode(&self, output: &mut Vec<u8>) -> (r: Result<(), EncodeError>) {
        let mut buff: Vec<u8> = Vec::new();
        self.encode_body(&mut buff)?;
        assert(buff@ =~= Self::body_wire(self.body_model()));
        encode_chunk::<Snds>(output, buff)
    }
}

impl LosslessChunk for Snds {
    open spec fn chunk_faithful(m: SndsModel) -> bool {
        Self::body_faithful(m)
    }

    proof fn lemma_chunk_parse_wire(version: Option<u32>, span: Seq<u8>) {
        lemma_sized_chunk_parse_wire::<Snds>(version, span);
    }
}

} // verus!
