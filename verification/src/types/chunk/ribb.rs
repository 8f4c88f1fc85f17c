use crate::encoder::error::Error as EncodeError;
use crate::parser::primitives::{
    lemma_all_parse_wire, lemma_all_wire_parse, parse_all, spec_parse_all, Parsed, Parser,
};
use crate::types::chunk::{
    encode_chunk, encode_error_sized_chunk, lemma_sized_chunk_wire_parse, ReparsableChunk,
    lemma_sized_chunk_parse_wire, parse_chunk, spec_parse_chunk, wire_chunk, Chunk,
    LosslessChunk,
};
use crate::types::chunk::utils::Tag;
use crate::types::emitter::ribbon::{RibbonEmitter, RibbonEmitterModel};
use crate::types::materialize::{
    all_faithful, all_well_formed, encode_error_all, encode_fixed_vec, models, wire_all,
    LosslessBody, Materialized, ReparsableBody, SizedBody,
};
use vstd::prelude::*;

verus! {

/// The chunk of the emitters of ribbons.
#[derive(Debug, Clone, PartialEq)]
pub struct Ribb {
    pub emitters: Vec<RibbonEmitter>,
}

/// What a value of [`Ribb`] stands for in specifications.
pub struct RibbModel {
    pub emitters: Seq<RibbonEmitterModel>,
}

impl Chunk for Ribb {
    open spec fn spec_tag() -> Tag {
        Tag([0x52, 0x49, 0x42, 0x42])
    }

    fn tag() -> (t: Tag) {
        let t = Tag([0x52, 0x49, 0x42, 0x42]);
        assert(t.0 =~= Self::spec_tag().0);
        t
    }
}

impl SizedBody for Ribb {
    type Model = RibbModel;

    open spec fn body_model(&self) -> RibbModel {
        RibbModel { emitters: models(self.emitters@) }
    }

    open spec fn spec_parse_body(version: Option<u32>, input: Seq<u8>) -> Parsed<RibbModel> {
        match spec_parse_all::<RibbonEmitter>(version, Seq::empty(), input) {
            Ok((rest, emitters)) => Ok((rest, RibbModel { emitters })),
            Err(e) => Err(e),
        }
    }

    open spec fn body_wire(m: RibbModel) -> Seq<u8> {
        wire_all::<RibbonEmitter>(m.emitters)
    }

    open spec fn body_encode_error(m: RibbModel) -> Option<EncodeError> {
        encode_error_all::<RibbonEmitter>(m.emitters)
    }

    fn parse_body<'a>(version: Option<u32>, input: &'a [u8]) -> (r: Parser<'a, Ribb>) {
        let (input, emitters) = parse_all::<RibbonEmitter>(version, input)?;
        Ok((input, Ribb { emitters }))
    }

    fn encode_body(&self, output: &mut Vec<u8>) -> (r: Result<(), EncodeError>) {
        encode_fixed_vec(self.emitters.as_slice(), output)?;
        Ok(())
    }
}

impl LosslessBody for Ribb {
    open spec fn body_faithful(m: RibbModel) -> bool {
        all_faithful::<RibbonEmitter>(m.emitters)
    }

    proof fn lemma_body_parse_wire(version: Option<u32>, input: Seq<u8>) {
        lemma_all_parse_wire::<RibbonEmitter>(version, Seq::empty(), input);
        match spec_parse_all::<RibbonEmitter>(version, Seq::empty(), input) {
            Ok((rest1, emitters)) => {
                assert(wire_all::<RibbonEmitter>(Seq::<RibbonEmitterModel>::empty()) + input =~= input);
                assert(wire_all::<RibbonEmitter>(emitters) + rest1 =~= wire_all::<RibbonEmitter>(emitters));

            },
            Err(_) => {},
        }
    }
}

impl ReparsableBody for Ribb {
    open spec fn body_well_formed(m: RibbModel, version: Option<u32>) -> bool {
        all_well_formed::<RibbonEmitter>(m.emitters, version)
        && (forall|i: int| 0 <= i < m.emitters.len() ==> (#[trigger] RibbonEmitter::wire(m.emitters[i])).len() > 0)
    }

    proof fn lemma_body_wire_parse(m: RibbModel, version: Option<u32>) {
        let w1 = wire_all::<RibbonEmitter>(m.emitters);
        let u2 = Seq::<u8>::empty();
        let u1 = w1 + u2;
        lemma_all_wire_parse::<RibbonEmitter>(version, Seq::empty(), m.emitters);
        assert(Seq::<RibbonEmitterModel>::empty() + m.emitters =~= m.emitters);
        assert(u1 =~= Self::body_wire(m));
    }
}

impl ReparsableChunk for Ribb {
    open spec fn chunk_well_formed(m: RibbModel, version: Option<u32>) -> bool {
        Self::body_well_formed(m, version) && Self::body_wire(m).len() <= u32::MAX
    }

    proof fn lemma_chunk_wire_parse(m: RibbModel, version: Option<u32>) {
        lemma_sized_chunk_wire_parse::<Ribb>(m, version);
    }
}

impl Materialized for Ribb {
    type Version = u32;

    type Model = RibbModel;

    open spec fn model(&self) -> RibbModel {
        self.body_model()
    }

    open spec fn spec_parse(version: Option<u32>, input: Seq<u8>) -> Parsed<RibbModel> {
        spec_parse_chunk::<Ribb>(version, input)
    }

    open spec fn wire(m: RibbModel) -> Seq<u8> {
        wire_chunk(Self::spec_tag(), Self::body_wire(m))
    }

    open spec fn encode_error(m: RibbModel) -> Option<EncodeError> {
        encode_error_sized_chunk::<Ribb>(m)
    }

    fn parse_versioned<'a>(version: Option<u32>, input: &'a [u8]) -> (r: Parser<'a, Ribb>) {
        parse_chunk::<Ribb>(version, input)
    }

    fn encode(&self, output: &mut Vec<u8>) -> (r: Result<(), EncodeError>) {
        let mut buff: Vec<u8> = Vec::new();
        self.encode_body(&mut buff)?;
        assert(buff@ =~= Self::body_wire(self.body_model()));
        encode_chunk::<Ribb>(output, buff)
    }
}

impl LosslessChunk for Ribb {
    open spec fn chunk_faithful(m: RibbModel) -> bool {
        Self::body_faithful(m)
    }

    proof fn lemma_chunk_parse_wire(version: Option<u32>, span: Seq<u8>) {
        lemma_sized_chunk_parse_wire::<Ribb>(version, span);
    }
}

} // verus!
