use crate::encoder::error::Error as EncodeError;
use crate::parser::primitives::{Parsed, Parser};
use crate::types::chunk::{
    encode_chunk, encode_error_chunk, lemma_fixed_elements_chunk_parse_wire,
    lemma_fixed_elements_chunk_wire_parse, ReparsableChunk, parse_fixed_elements_chunk,
    spec_parse_fixed_elements_chunk, wire_chunk, Chunk, LosslessChunk,
};
use crate::types::chunk::utils::Tag;
use crate::types::materialize::{
    all_faithful, all_well_formed, encode_error_all, encode_fixed_vec, models, wire_all,
    Materialized,
};
use crate::types::sequence::{Sequence, SequenceModel, SEQUENCE_SIZE};
use vstd::prelude::*;

verus! {

/// The chunk of the sequences.
#[derive(Debug, Clone, PartialEq)]
pub struct Seqs {
    pub sequences: Vec<Sequence>,
}

/// What a value of [`Seqs`] stands for in specifications.
pub struct SeqsModel {
    pub sequences: Seq<SequenceModel>,
}

impl Chunk for Seqs {
    open spec fn spec_tag() -> Tag {
        Tag([0x53, 0x45, 0x51, 0x53])
    }

    fn tag() -> (t: Tag) {
        let t = Tag([0x53, 0x45, 0x51, 0x53]);
        assert(t.0 =~= Self::spec_tag().0);
        t
    }
}

impl Materialized for Seqs {
    type Version = u32;

    type Model = SeqsModel;

    open spec fn model(&self) -> SeqsModel {
        SeqsModel { sequences: models(self.sequences@) }
    }

    open spec fn spec_parse(version: Option<u32>, input: Seq<u8>) -> Parsed<SeqsModel> {
        match spec_parse_fixed_elements_chunk::<Sequence>(SEQUENCE_SIZE as nat, Self::spec_tag(), input) {
            Ok((rest, sequences)) => Ok((rest, SeqsModel { sequences })),
            Err(e) => Err(e),
        }
    }

    open spec fn wire(m: SeqsModel) -> Seq<u8> {
        wire_chunk(Self::spec_tag(), wire_all::<Sequence>(m.sequences))
    }

    open spec fn encode_error(m: SeqsModel) -> Option<EncodeError> {
        match encode_error_all::<Sequence>(m.sequences) {
            Some(e) => Some(e),
            None => encode_error_chunk(wire_all::<Sequence>(m.sequences)),
        }
    }

    fn parse_versioned<'a>(version: Option<u32>, input: &'a [u8]) -> (r: Parser<'a, Seqs>) {
        let (input, sequences) = parse_fixed_elements_chunk::<SEQUENCE_SIZE, Seqs, Sequence>(input)?;
        Ok((input, Seqs { sequences }))
    }

    fn encode(&self, output: &mut Vec<u8>) -> (r: Result<(), EncodeError>) {
        let mut buff: Vec<u8> = Vec::new();
        encode_fixed_vec(self.sequences.as_slice(), &mut buff)?;
        assert(buff@ =~= wire_all::<Sequence>(models(self.sequences@)));
        encode_chunk::<Seqs>(output, buff)
    }
}

impl LosslessChunk for Seqs {
    open spec fn chunk_faithful(m: SeqsModel) -> bool {
        all_faithful::<Sequence>(m.sequences)
    }

    proof fn lemma_chunk_parse_wire(version: Option<u32>, span: Seq<u8>) {
        lemma_fixed_elements_chunk_parse_wire::<Sequence>(SEQUENCE_SIZE as nat, Self::spec_tag(), span);
    }
}

impl ReparsableChunk for Seqs {
    open spec fn chunk_well_formed(m: SeqsModel, version: Option<u32>) -> bool {
        all_well_formed::<Sequence>(m.sequences, None)
        && m.sequences.len() * SEQUENCE_SIZE <= u32::MAX
        && (forall|i: int| 0 <= i < m.sequences.len() ==> (#[trigger] Sequence::wire(m.sequences[i])).len() == SEQUENCE_SIZE)
    }

    proof fn lemma_chunk_wire_parse(m: SeqsModel, version: Option<u32>) {
        lemma_fixed_elements_chunk_wire_parse::<Sequence>(SEQUENCE_SIZE as nat, Self::spec_tag(), m.sequences);
    }
}

} // verus!
