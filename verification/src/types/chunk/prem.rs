use crate::encoder::error::Error as EncodeError;
use crate::parser::primitives::{
    lemma_all_parse_wire, lemma_all_wire_parse, parse_all, spec_parse_all, Parsed, Parser,
};
use crate::types::chunk::{
    encode_chunk, encode_error_sized_chunk, lemma_sized_chunk_wire_parse, ReparsableChunk,
    lemma_sized_chunk_parse_wire, parse_chunk, spec_parse_chunk, wire_chunk, Chunk,
    LosslessChunk,
};
use crate::types::chunk::utils::Tag;
use crate::types::emitter::model::{ParticleEmitter, ParticleEmitterModel};
use crate::types::materialize::{
    all_faithful, all_well_formed, encode_error_all, encode_fixed_vec, models, wire_all,
    LosslessBody, Materialized, ReparsableBody, SizedBody,
};
use vstd::prelude::*;

verus! {

/// The chunk of the emitters of models.
#[derive(Debug, Clone, PartialEq)]
pub struct Prem {
    pub emitters: Vec<ParticleEmitter>,
}

/// What a value of [`Prem`] stands for in specifications.
pub struct PremModel {
    pub emitters: Seq<ParticleEmitterModel>,
}

impl Chunk for Prem {
    open spec fn spec_tag() -> Tag {
        Tag([0x50, 0x52, 0x45, 0x4D])
    }

    fn tag() -> (t: Tag) {
        let t = Tag([0x50, 0x52, 0x45, 0x4D]);
        assert(t.0 =~= Self::spec_tag().0);
        t
    }
}

impl SizedBody for Prem {
    type Model = PremModel;

    open spec fn body_model(&self) -> PremModel {
        PremModel { emitters: models(self.emitters@) }
    }

    open spec fn spec_parse_body(version: Option<u32>, input: Seq<u8>) -> Parsed<PremModel> {
        match spec_parse_all::<ParticleEmitter>(version, Seq::empty(), input) {
            Ok((rest, emitters)) => Ok((rest, PremModel { emitters })),
            Err(e) => Err(e),
        }
    }

    open spec fn body_wire(m: PremModel) -> Seq<u8> {
        wire_all::<ParticleEmitter>(m.emitters)
    }

    open spec fn body_encode_error(m: PremModel) -> Option<EncodeError> {
        encode_error_all::<ParticleEmitter>(m.emitters)
    }

    fn parse_body<'a>(version: Option<u32>, input: &'a [u8]) -> (r: Parser<'a, Prem>) {
        let (input, emitters) = parse_all::<ParticleEmitter>(version, input)?;
        Ok((input, Prem { emitters }))
    }

    fn encode_body(&self, output: &mut Vec<u8>) -> (r: Result<(), EncodeError>) {
        encode_fixed_vec(self.emitters.as_slice(), output)?;
        Ok(())
    }
}

impl LosslessBody for Prem {
    open spec fn body_faithful(m: PremModel) -> bool {
        all_faithful::<ParticleEmitter>(m.emitters)
    }

    proof fn lemma_body_parse_wire(version: Option<u32>, input: Seq<u8>) {
        lemma_all_parse_wire::<ParticleEmitter>(version, Seq::empty(), input);
        match spec_parse_all::<ParticleEmitter>(version, Seq::empty(), input) {
            Ok((rest1, emitters)) => {
                assert(wire_all::<ParticleEmitter>(Seq::<ParticleEmitterModel>::empty()) + input =~= input);
                assert(wire_all::<ParticleEmitter>(emitters) + rest1 =~= wire_all::<ParticleEmitter>(emitters));

            },
            Err(_) => {},
        }
    }
}

impl ReparsableBody for Prem {
    open spec fn body_well_formed(m: PremModel, version: Option<u32>) -> bool {
        all_well_formed::<ParticleEmitter>(m.emitters, version)
        && (forall|i: int| 0 <= i < m.emitters.len() ==> (#[trigger] ParticleEmitter::wire(m.emitters[i])).len() > 0)
    }

    proof fn lemma_body_wire_parse(m: PremModel, version: Option<u32>) {
        let w1 = wire_all::<ParticleEmitter>(m.emitters);
        let u2 = Seq::<u8>::empty();
        let u1 = w1 + u2;
        lemma_all_wire_parse::<ParticleEmitter>(version, Seq::empty(), m.emitters);
        assert(Seq::<ParticleEmitterModel>::empty() + m.emitters =~= m.emitters);
        assert(u1 =~= Self::body_wire(m));
    }
}

impl ReparsableChunk for Prem {
    open spec fn chunk_well_formed(m: PremModel, version: Option<u32>) -> bool {
        Self::body_well_formed(m, version) && Self::body_wire(m).len() <= u32::MAX
    }

    proof fn lemma_chunk_wire_parse(m: PremModel, version: Option<u32>) {
        lemma_sized_chunk_wire_parse::<Prem>(m, version);
    }
}

impl Materialized for Prem {
    type Version = u32;

    type Model = PremModel;

    open spec fn model(&self) -> PremModel {
        self.body_model()
    }

    open spec fn spec_parse(version: Option<u32>, input: Seq<u8>) -> Parsed<PremModel> {
        spec_parse_chunk::<Prem>(version, input)
    }

    open spec fn wire(m: PremModel) -> Seq<u8> {
        wire_chunk(Self::spec_tag(), Self::body_wire(m))
    }

    open spec fn encode_error(m: PremModel) -> Option<EncodeError> {
        encode_error_sized_chunk::<Prem>(m)
    }

    fn parse_versioned<'a>(version: Option<u32>, input: &'a [u8]) -> (r: Parser<'a, Prem>) {
        parse_chunk::<Prem>(version, input)
    }

    fn encode(&self, output: &mut Vec<u8>) -> (r: Result<(), EncodeError>) {
        let mut buff: Vec<u8> = Vec::new();
        self.encode_body(&mut buff)?;
        assert(buff@ =~= Self::body_wire(self.body_model()));
        encode_chunk::<Prem>(output, buff)
    }
}

impl LosslessChunk for Prem {
    open spec fn chunk_faithful(m: PremModel) -> bool {
        Self::body_faithful(m)
    }

    proof fn lemma_chunk_parse_wire(version: Option<u32>, span: Seq<u8>) {
        lemma_sized_chunk_parse_wire::<Prem>(version, span);
    }
}

} // verus!
