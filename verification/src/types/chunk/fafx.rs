use crate::encoder::error::Error as EncodeError;
use crate::parser::primitives::{Parsed, Parser};
use crate::types::chunk::{
    encode_chunk, encode_error_sized_chunk, lemma_sized_chunk_wire_parse, ReparsableChunk,
    lemma_sized_chunk_parse_wire, parse_chunk, spec_parse_chunk, wire_chunk, Chunk,
    LosslessChunk,
};
use crate::types::chunk::utils::Tag;
use crate::types::materialize::{LosslessBody, Materialized, ReparsableBody, SizedBody};
use vstd::prelude::*;

verus! {

/// The chunk of the facial effects. No field of it is known: its body is empty.
#[derive(Debug, Clone, PartialEq)]
pub struct Fafx {

}

/// What a value of [`Fafx`] stands for in specifications.
pub struct FafxModel {

}

impl Chunk for Fafx {
    open spec fn spec_tag() -> Tag {
        Tag([0x46, 0x41, 0x46, 0x58])
    }

    fn tag() -> (t: Tag) {
        let t = Tag([0x46, 0x41, 0x46, 0x58]);
        assert(t.0 =~= Self::spec_tag().0);
        t
    }
}

impl SizedBody for Fafx {
    type Model = FafxModel;

    open spec fn body_model(&self) -> FafxModel {
        FafxModel {  }
    }

    open spec fn spec_parse_body(version: Option<u32>, input: Seq<u8>) -> Parsed<FafxModel> {
        Ok((input, FafxModel {  }))
    }

    open spec fn body_wire(m: FafxModel) -> Seq<u8> {
        Seq::empty()
    }

    open spec fn body_encode_error(m: FafxModel) -> Option<EncodeError> {
        None
    }

    fn parse_body<'a>(version: Option<u32>, input: &'a [u8]) -> (r: Parser<'a, Fafx>) {
        Ok((input, Fafx {  }))
    }

    fn encode_body(&self, output: &mut Vec<u8>) -> (r: Result<(), EncodeError>) {
        assert(output@ =~= old(output)@ + Seq::<u8>::empty());
        Ok(())
    }
}

impl LosslessBody for Fafx {
    open spec fn body_faithful(m: FafxModel) -> bool {
        true
    }

    proof fn lemma_body_parse_wire(version: Option<u32>, input: Seq<u8>) {
        let m = FafxModel {  };
        if Self::body_faithful(m) {
            assert(Seq::<u8>::empty() + input =~= input);
        }
    }
}

impl ReparsableBody for Fafx {
    open spec fn body_well_formed(m: FafxModel, version: Option<u32>) -> bool {
        true
    }

    proof fn lemma_body_wire_parse(m: FafxModel, version: Option<u32>) {
        let u1 = Seq::<u8>::empty();
        assert(Seq::<u8>::empty() + Seq::<u8>::empty() =~= Seq::<u8>::empty());
        assert(u1 =~= Self::body_wire(m));
    }
}

impl ReparsableChunk for Fafx {
    open spec fn chunk_well_formed(m: FafxModel, version: Option<u32>) -> bool {
        Self::body_well_formed(m, version) && Self::body_wire(m).len() <= u32::MAX
    }

    proof fn lemma_chunk_wire_parse(m: FafxModel, version: Option<u32>) {
        lemma_sized_chunk_wire_parse::<Fafx>(m, version);
    }
}

impl Materialized for Fafx {
    type Version = u32;

    type Model = FafxModel;

    open spec fn model(&self) -> FafxModel {
        self.body_model()
    }

    open spec fn spec_parse(version: Option<u32>, input: Seq<u8>) -> Parsed<FafxModel> {
        spec_parse_chunk::<Fafx>(version, input)
    }

    open spec fn wire(m: FafxModel) -> Seq<u8> {
        wire_chunk(Self::spec_tag(), Self::body_wire(m))
    }

    open spec fn encode_error(m: FafxModel) -> Option<EncodeError> {
        encode_error_sized_chunk::<Fafx>(m)
    }

    fn parse_versioned<'a>(version: Option<u32>, input: &'a [u8]) -> (r: Parser<'a, Fafx>) {
        parse_chunk::<Fafx>(version, input)
    }

    fn encode(&self, output: &mut Vec<u8>) -> (r: Result<(), EncodeError>) {
        let mut buff: Vec<u8> = Vec::new();
        self.encode_body(&mut buff)?;
        assert(buff@ =~= Self::body_wire(self.body_model()));
        encode_chunk::<Fafx>(output, buff)
    }
}

impl LosslessChunk for Fafx {
    open spec fn chunk_faithful(m: FafxModel) -> bool {
        Self::body_faithful(m)
    }

    proof fn lemma_chunk_parse_wire(version: Option<u32>, span: Seq<u8>) {
        lemma_sized_chunk_parse_wire::<Fafx>(version, span);
    }
}

} // verus!
