use crate::encoder::error::Error as EncodeError;
use crate::parser::primitives::{Parsed, Parser};
use crate::types::chunk::{
    encode_chunk, encode_error_chunk, lemma_fixed_elements_chunk_parse_wire,
    lemma_fixed_elements_chunk_wire_parse, ReparsableChunk, parse_fixed_elements_chunk,
    spec_parse_fixed_elements_chunk, wire_chunk, Chunk, LosslessChunk,
};
use crate::types::chunk::utils::Tag;
use crate::types::materialize::{
    all_faithful, all_well_formed, encode_error_all, encode_fixed_vec, models, wire_all,
    Materialized,
};
use vstd::prelude::*;

verus! {

/// Size of a single global sequence.
pub const GLOBALS_SIZE: usize = 4;

/// The chunk of the global sequences: the length of each.
#[derive(Debug, Clone, PartialEq)]
pub struct Glbs {
    pub global_sequences: Vec<u32>,
}

/// What a value of [`Glbs`] stands for in specifications.
pub struct GlbsModel {
    pub global_sequences: Seq<u32>,
}

impl Chunk for Glbs {
    open spec fn spec_tag() -> Tag {
        Tag([0x47, 0x4C, 0x42, 0x53])
    }

    fn tag() -> (t: Tag) {
        let t = Tag([0x47, 0x4C, 0x42, 0x53]);
        assert(t.0 =~= Self::spec_tag().0);
        t
    }
}

impl Materialized for Glbs {
    type Version = u32;

    type Model = GlbsModel;

    open spec fn model(&self) -> GlbsModel {
        GlbsModel { global_sequences: models(self.global_sequences@) }
    }

    open spec fn spec_parse(version: Option<u32>, input: Seq<u8>) -> Parsed<GlbsModel> {
        match spec_parse_fixed_elements_chunk::<u32>(GLOBALS_SIZE as nat, Self::spec_tag(), input) {
            Ok((rest, global_sequences)) => Ok((rest, GlbsModel { global_sequences })),
            Err(e) => Err(e),
        }
    }

    open spec fn wire(m: GlbsModel) -> Seq<u8> {
        wire_chunk(Self::spec_tag(), wire_all::<u32>(m.global_sequences))
    }

    open spec fn encode_error(m: GlbsModel) -> Option<EncodeError> {
        match encode_error_all::<u32>(m.global_sequences) {
            Some(e) => Some(e),
            None => encode_error_chunk(wire_all::<u32>(m.global_sequences)),
        }
    }

    fn parse_versioned<'a>(version: Option<u32>, input: &'a [u8]) -> (r: Parser<'a, Glbs>) {
        let (input, global_sequences) = parse_fixed_elements_chunk::<GLOBALS_SIZE, Glbs, u32>(input)?;
        Ok((input, Glbs { global_sequences }))
    }

    fn encode(&self, output: &mut Vec<u8>) -> (r: Result<(), EncodeError>) {
        let mut buff: Vec<u8> = Vec::new();
        encode_fixed_vec(self.global_sequences.as_slice(), &mut buff)?;
        assert(buff@ =~= wire_all::<u32>(models(self.global_sequences@)));
        encode_chunk::<Glbs>(output, buff)
    }
}

impl LosslessChunk for Glbs {
    open spec fn chunk_faithful(m: GlbsModel) -> bool {
        all_faithful::<u32>(m.global_sequences)
    }

    proof fn lemma_chunk_parse_wire(version: Option<u32>, span: Seq<u8>) {
        lemma_fixed_elements_chunk_parse_wire::<u32>(GLOBALS_SIZE as nat, Self::spec_tag(), span);
    }
}

impl ReparsableChunk for Glbs {
    open spec fn chunk_well_formed(m: GlbsModel, version: Option<u32>) -> bool {
        all_well_formed::<u32>(m.global_sequences, None)
        && m.global_sequences.len() * GLOBALS_SIZE <= u32::MAX
        && (forall|i: int| 0 <= i < m.global_sequences.len() ==> (#[trigger] u32::wire(m.global_sequences[i])).len() == GLOBALS_SIZE)
    }

    proof fn lemma_chunk_wire_parse(m: GlbsModel, version: Option<u32>) {
        lemma_fixed_elements_chunk_wire_parse::<u32>(GLOBALS_SIZE as nat, Self::spec_tag(), m.global_sequences);
    }
}

} // verus!
