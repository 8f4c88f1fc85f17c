use crate::encoder::error::Error as EncodeError;
use crate::parser::primitives::{Parsed, Parser};
use crate::types::chunk::{
    encode_chunk, encode_error_chunk, lemma_fixed_elements_chunk_parse_wire,
    lemma_fixed_elements_chunk_wire_parse, ReparsableChunk, parse_fixed_elements_chunk,
    spec_parse_fixed_elements_chunk, wire_chunk, Chunk, LosslessChunk,
};
use crate::types::chunk::utils::Tag;
use crate::types::materialize::{
    all_faithful, all_well_formed, encode_error_all, encode_fixed_vec, models, wire_all,
    FloatBits, Materialized,
};
use vstd::prelude::*;

verus! {

/// Size of a single pivot point.
pub const PIVT_SIZE: usize = 12;

/// The chunk of the pivot points of the nodes.
#[derive(Debug, Clone, PartialEq)]
pub struct Pivt {
    pub points: Vec<[FloatBits; 3]>,
}

/// What a value of [`Pivt`] stands for in specifications.
pub struct PivtModel {
    pub points: Seq<Seq<FloatBits>>,
}

impl Chunk for Pivt {
    open spec fn spec_tag() -> Tag {
        Tag([0x50, 0x49, 0x56, 0x54])
    }

    fn tag() -> (t: Tag) {
        let t = Tag([0x50, 0x49, 0x56, 0x54]);
        assert(t.0 =~= Self::spec_tag().0);
        t
    }
}

impl Materialized for Pivt {
    type Version = u32;

    type Model = PivtModel;

    open spec fn model(&self) -> PivtModel {
        PivtModel { points: models(self.points@) }
    }

    open spec fn spec_parse(version: Option<u32>, input: Seq<u8>) -> Parsed<PivtModel> {
        match spec_parse_fixed_elements_chunk::<[FloatBits; 3]>(PIVT_SIZE as nat, Self::spec_tag(), input) {
            Ok((rest, points)) => Ok((rest, PivtModel { points })),
            Err(e) => Err(e),
        }
    }

    open spec fn wire(m: PivtModel) -> Seq<u8> {
        wire_chunk(Self::spec_tag(), wire_all::<[FloatBits; 3]>(m.points))
    }

    open spec fn encode_error(m: PivtModel) -> Option<EncodeError> {
        match encode_error_all::<[FloatBits; 3]>(m.points) {
            Some(e) => Some(e),
            None => encode_error_chunk(wire_all::<[FloatBits; 3]>(m.points)),
        }
    }

    fn parse_versioned<'a>(version: Option<u32>, input: &'a [u8]) -> (r: Parser<'a, Pivt>) {
        let (input, points) = parse_fixed_elements_chunk::<PIVT_SIZE, Pivt, [FloatBits; 3]>(input)?;
        Ok((input, Pivt { points }))
    }

    fn encode(&self, output: &mut Vec<u8>) -> (r: Result<(), EncodeError>) {
        let mut buff: Vec<u8> = Vec::new();
        encode_fixed_vec(self.points.as_slice(), &mut buff)?;
        assert(buff@ =~= wire_all::<[FloatBits; 3]>(models(self.points@)));
        encode_chunk::<Pivt>(output, buff)
    }
}

impl LosslessChunk for Pivt {
    open spec fn chunk_faithful(m: PivtModel) -> bool {
        all_faithful::<[FloatBits; 3]>(m.points)
    }

    proof fn lemma_chunk_parse_wire(version: Option<u32>, span: Seq<u8>) {
        lemma_fixed_elements_chunk_parse_wire::<[FloatBits; 3]>(PIVT_SIZE as nat, Self::spec_tag(), span);
    }
}

impl ReparsableChunk for Pivt {
    open spec fn chunk_well_formed(m: PivtModel, version: Option<u32>) -> bool {
        all_well_formed::<[FloatBits; 3]>(m.points, None)
        && m.points.len() * PIVT_SIZE <= u32::MAX
        && (forall|i: int| 0 <= i < m.points.len() ==> (#[trigger] <[FloatBits; 3]>::wire(m.points[i])).len() == PIVT_SIZE)
    }

    proof fn lemma_chunk_wire_parse(m: PivtModel, version: Option<u32>) {
        lemma_fixed_elements_chunk_wire_parse::<[FloatBits; 3]>(PIVT_SIZE as nat, Self::spec_tag(), m.points);
    }
}

} // verus!
