use crate::encoder::error::Error as EncodeError;
use crate::parser::primitives::{
    lemma_all_parse_wire, lemma_all_wire_parse, parse_all, spec_parse_all, Parsed, Parser,
};
use crate::types::bone::{Bone, BoneModel};
use crate::types::chunk::{
    encode_chunk, encode_error_sized_chunk, lemma_sized_chunk_wire_parse, ReparsableChunk,
    lemma_sized_chunk_parse_wire, parse_chunk, spec_parse_chunk, wire_chunk, Chunk,
    LosslessChunk,
};
use crate::types::chunk::utils::Tag;
use crate::types::materialize::{
    all_faithful, all_well_formed, encode_error_all, encode_fixed_vec, models, wire_all,
    LosslessBody, Materialized, ReparsableBody, SizedBody,
};
use vstd::prelude::*;

verus! {

/// The chunk of the bones.
#[derive(Debug, Clone, PartialEq)]
pub struct BoneChunk {
    pub bones: Vec<Bone>,
}

/// What a value of [`BoneChunk`] stands for in specifications.
pub struct BoneChunkModel {
    pub bones: Seq<BoneModel>,
}

impl Chunk for BoneChunk {
    open spec fn spec_tag() -> Tag {
        Tag([0x42, 0x4F, 0x4E, 0x45])
    }

    fn tag() -> (t: Tag) {
        let t = Tag([0x42, 0x4F, 0x4E, 0x45]);
        assert(t.0 =~= Self::spec_tag().0);
        t
    }
}

impl SizedBody for BoneChunk {
    type Model = BoneChunkModel;

    open spec fn body_model(&self) -> BoneChunkModel {
        BoneChunkModel { bones: models(self.bones@) }
    }

    open spec fn spec_parse_body(version: Option<u32>, input: Seq<u8>) -> Parsed<BoneChunkModel> {
        match spec_parse_all::<Bone>(version, Seq::empty(), input) {
            Ok((rest, bones)) => Ok((rest, BoneChunkModel { bones })),
            Err(e) => Err(e),
        }
    }

    open spec fn body_wire(m: BoneChunkModel) -> Seq<u8> {
        wire_all::<Bone>(m.bones)
    }

    open spec fn body_encode_error(m: BoneChunkModel) -> Option<EncodeError> {
        encode_error_all::<Bone>(m.bones)
    }

    fn parse_body<'a>(version: Option<u32>, input: &'a [u8]) -> (r: Parser<'a, BoneChunk>) {
        let (input, bones) = parse_all::<Bone>(version, input)?;
        Ok((input, BoneChunk { bones }))
    }

    fn encode_body(&self, output: &mut Vec<u8>) -> (r: Result<(), EncodeError>) {
        encode_fixed_vec(self.bones.as_slice(), output)?;
        Ok(())
    }
}

impl LosslessBody for BoneChunk {
    open spec fn body_faithful(m: BoneChunkModel) -> bool {
        all_faithful::<Bone>(m.bones)
    }

    proof fn lemma_body_parse_wire(version: Option<u32>, input: Seq<u8>) {
        lemma_all_parse_wire::<Bone>(version, Seq::empty(), input);
        match spec_parse_all::<Bone>(version, Seq::empty(), input) {
            Ok((rest1, bones)) => {
                assert(wire_all::<Bone>(Seq::<BoneModel>::empty()) + input =~= input);
                assert(wire_all::<Bone>(bones) + rest1 =~= wire_all::<Bone>(bones));

            },
            Err(_) => {},
        }
    }
}

impl ReparsableBody for BoneChunk {
    open spec fn body_well_formed(m: BoneChunkModel, version: Option<u32>) -> bool {
        all_well_formed::<Bone>(m.bones, version)
        && (forall|i: int| 0 <= i < m.bones.len() ==> (#[trigger] Bone::wire(m.bones[i])).len() > 0)
    }

    proof fn lemma_body_wire_parse(m: BoneChunkModel, version: Option<u32>) {
        let w1 = wire_all::<Bone>(m.bones);
        let u2 = Seq::<u8>::empty();
        let u1 = w1 + u2;
        lemma_all_wire_parse::<Bone>(version, Seq::empty(), m.bones);
        assert(Seq::<BoneModel>::empty() + m.bones =~= m.bones);
        assert(u1 =~= Self::body_wire(m));
    }
}

impl ReparsableChunk for BoneChunk {
    open spec fn chunk_well_formed(m: BoneChunkModel, version: Option<u32>) -> bool {
        Self::body_well_formed(m, version) && Self::body_wire(m).len() <= u32::MAX
    }

    proof fn lemma_chunk_wire_parse(m: BoneChunkModel, version: Option<u32>) {
        lemma_sized_chunk_wire_parse::<BoneChunk>(m, version);
    }
}

impl Materialized for BoneChunk {
    type Version = u32;

    type Model = BoneChunkModel;

    open spec fn model(&self) -> BoneChunkModel {
        self.body_model()
    }

    open spec fn spec_parse(version: Option<u32>, input: Seq<u8>) -> Parsed<BoneChunkModel> {
        spec_parse_chunk::<BoneChunk>(version, input)
    }

    open spec fn wire(m: BoneChunkModel) -> Seq<u8> {
        wire_chunk(Self::spec_tag(), Self::body_wire(m))
    }

    open spec fn encode_error(m: BoneChunkModel) -> Option<EncodeError> {
        encode_error_sized_chunk::<BoneChunk>(m)
    }

    fn parse_versioned<'a>(version: Option<u32>, input: &'a [u8]) -> (r: Parser<'a, BoneChunk>) {
        parse_chunk::<BoneChunk>(version, input)
    }

    fn encode(&self, output: &mut Vec<u8>) -> (r: Result<(), EncodeError>) {
        let mut buff: Vec<u8> = Vec::new();
        self.encode_body(&mut buff)?;
        assert(buff@ =~= Self::body_wire(self.body_model()));
        encode_chunk::<BoneChunk>(output, buff)
    }
}

impl LosslessChunk for BoneChunk {
    open spec fn chunk_faithful(m: BoneChunkModel) -> bool {
        Self::body_faithful(m)
    }

    proof fn lemma_chunk_parse_wire(version: Option<u32>, span: Seq<u8>) {
        lemma_sized_chunk_parse_wire::<BoneChunk>(version, span);
    }
}

} // verus!
