use crate::encoder::error::Error as EncodeError;
use crate::parser::primitives::{
    lemma_all_parse_wire, lemma_all_wire_parse, parse_all, spec_parse_all, Parsed, Parser,
};
use crate::types::chunk::{
    encode_chunk, encode_error_sized_chunk, lemma_sized_chunk_wire_parse, ReparsableChunk,
    lemma_sized_chunk_parse_wire, parse_chunk, spec_parse_chunk, wire_chunk, Chunk,
    LosslessChunk,
};
use crate::types::chunk::utils::Tag;
use crate::types::emitter::quad::{ParticleEmitter2, ParticleEmitter2Model};
use crate::types::materialize::{
    all_faithful, all_well_formed, encode_error_all, encode_fixed_vec, models, wire_all,
    LosslessBody, Materialized, ReparsableBody, SizedBody,
};
use vstd::prelude::*;

verus! {

/// The chunk of the emitters of quads.
#[derive(Debug, Clone, PartialEq)]
pub struct Pre2 {
    pub emitters: Vec<ParticleEmitter2>,
}

/// What a value of [`Pre2`] stands for in specifications.
pub struct Pre2Model {
    pub emitters: Seq<ParticleEmitter2Model>,
}

impl Chunk for Pre2 {
    open spec fn spec_tag() -> Tag {
        Tag([0x50, 0x52, 0x45, 0x32])
    }

    fn tag() -> (t: Tag) {
        let t = Tag([0x50, 0x52, 0x45, 0x32]);
        assert(t.0 =~= Self::spec_tag().0);
        t
    }
}

impl SizedBody for Pre2 {
    type Model = Pre2Model;

    open spec fn body_model(&self) -> Pre2Model {
        Pre2Model { emitters: models(self.emitters@) }
    }

    open spec fn spec_parse_body(version: Option<u32>, input: Seq<u8>) -> Parsed<Pre2Model> {
        match spec_parse_all::<ParticleEmitter2>(version, Seq::empty(), input) {
            Ok((rest, emitters)) => Ok((rest, Pre2Model { emitters })),
            Err(e) => Err(e),
        }
    }

    open spec fn body_wire(m: Pre2Model) -> Seq<u8> {
        wire_all::<ParticleEmitter2>(m.emitters)
    }

    open spec fn body_encode_error(m: Pre2Model) -> Option<EncodeError> {
        encode_error_all::<ParticleEmitter2>(m.emitters)
    }

    fn parse_body<'a>(version: Option<u32>, input: &'a [u8]) -> (r: Parser<'a, Pre2>) {
        let (input, emitters) = parse_all::<ParticleEmitter2>(version, input)?;
        Ok((input, Pre2 { emitters }))
    }

    fn encode_body(&self, output: &mut Vec<u8>) -> (r: Result<(), EncodeError>) {
        encode_fixed_vec(self.emitters.as_slice(), output)?;
        Ok(())
    }
}

impl LosslessBody for Pre2 {
    open spec fn body_faithful(m: Pre2Model) -> bool {
        all_faithful::<ParticleEmitter2>(m.emitters)
    }

    proof fn lemma_body_parse_wire(version: Option<u32>, input: Seq<u8>) {
        lemma_all_parse_wire::<ParticleEmitter2>(version, Seq::empty(), input);
        match spec_parse_all::<ParticleEmitter2>(version, Seq::empty(), input) {
            Ok((rest1, emitters)) => {
                assert(wire_all::<ParticleEmitter2>(Seq::<ParticleEmitter2Model>::empty()) + input =~= input);
                assert(wire_all::<ParticleEmitter2>(emitters) + rest1 =~= wire_all::<ParticleEmitter2>(emitters));

            },
            Err(_) => {},
        }
    }
}

impl ReparsableBody for Pre2 {
    open spec fn body_well_formed(m: Pre2Model, version: Option<u32>) -> bool {
        all_well_formed::<ParticleEmitter2>(m.emitters, version)
        && (forall|i: int| 0 <= i < m.emitters.len() ==> (#[trigger] ParticleEmitter2::wire(m.emitters[i])).len() > 0)
    }

    proof fn lemma_body_wire_parse(m: Pre2Model, version: Option<u32>) {
        let w1 = wire_all::<ParticleEmitter2>(m.emitters);
        let u2 = Seq::<u8>::empty();
        let u1 = w1 + u2;
        lemma_all_wire_parse::<ParticleEmitter2>(version, Seq::empty(), m.emitters);
        assert(Seq::<ParticleEmitter2Model>::empty() + m.emitters =~= m.emitters);
        assert(u1 =~= Self::body_wire(m));
    }
}

impl ReparsableChunk for Pre2 {
    open spec fn chunk_well_formed(m: Pre2Model, version: Option<u32>) -> bool {
        Self::body_well_formed(m, version) && Self::body_wire(m).len() <= u32::MAX
    }

    proof fn lemma_chunk_wire_parse(m: Pre2Model, version: Option<u32>) {
        lemma_sized_chunk_wire_parse::<Pre2>(m, version);
    }
}

impl Materialized for Pre2 {
    type Version = u32;

    type Model = Pre2Model;

    open spec fn model(&self) -> Pre2Model {
        self.body_model()
    }

    open spec fn spec_parse(version: Option<u32>, input: Seq<u8>) -> Parsed<Pre2Model> {
        spec_parse_chunk::<Pre2>(version, input)
    }

    open spec fn wire(m: Pre2Model) -> Seq<u8> {
        wire_chunk(Self::spec_tag(), Self::body_wire(m))
    }

    open spec fn encode_error(m: Pre2Model) -> Option<EncodeError> {
        encode_error_sized_chunk::<Pre2>(m)
    }

    fn parse_versioned<'a>(version: Option<u32>, input: &'a [u8]) -> (r: Parser<'a, Pre2>) {
        parse_chunk::<Pre2>(version, input)
    }

    fn encode(&self, output: &mut Vec<u8>) -> (r: Result<(), EncodeError>) {
        let mut buff: Vec<u8> = Vec::new();
        self.encode_body(&mut buff)?;
        assert(buff@ =~= Self::body_wire(self.body_model()));
        encode_chunk::<Pre2>(output, buff)
    }
}

impl LosslessChunk for Pre2 {
    open spec fn chunk_faithful(m: Pre2Model) -> bool {
        Self::body_faithful(m)
    }

    proof fn lemma_chunk_parse_wire(version: Option<u32>, span: Seq<u8>) {
        lemma_sized_chunk_parse_wire::<Pre2>(version, span);
    }
}

} // verus!
