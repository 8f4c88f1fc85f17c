use crate::encoder::error::Error as EncodeError;
use crate::parser::primitives::{
    lemma_all_parse_wire, lemma_all_wire_parse, parse_all, spec_parse_all, Parsed, Parser,
};
use crate::types::chunk::{
    encode_chunk, encode_error_sized_chunk, lemma_sized_chunk_wire_parse, ReparsableChunk,
    lemma_sized_chunk_parse_wire, parse_chunk, spec_parse_chunk, wire_chunk, Chunk,
    LosslessChunk,
};
use crate::types::chunk::utils::Tag;
use crate::types::light::{Light, LightModel};
use crate::types::materialize::{
    all_faithful, all_well_formed, encode_error_all, encode_fixed_vec, models, wire_all,
    LosslessBody, Materialized, ReparsableBody, SizedBody,
};
use vstd::prelude::*;

verus! {

/// The chunk of the lights.
#[derive(Debug, Clone, PartialEq)]
pub struct Lite {
    pub lights: Vec<Light>,
}

/// What a value of [`Lite`] stands for in specifications.
pub struct LiteModel {
    pub lights: Seq<LightModel>,
}

impl Chunk for Lite {
    open spec fn spec_tag() -> Tag {
        Tag([0x4C, 0x49, 0x54, 0x45])
    }

    fn tag() -> (t: Tag) {
        let t = Tag([0x4C, 0x49, 0x54, 0x45]);
        assert(t.0 =~= Self::spec_tag().0);
        t
    }
}

impl SizedBody for Lite {
    type Model = LiteModel;

    open spec fn body_model(&self) -> LiteModel {
        LiteModel { lights: models(self.lights@) }
    }

    open spec fn spec_parse_body(version: Option<u32>, input: Seq<u8>) -> Parsed<LiteModel> {
        match spec_parse_all::<Light>(version, Seq::empty(), input) {
            Ok((rest, lights)) => Ok((rest, LiteModel { lights })),
            Err(e) => Err(e),
        }
    }

    open spec fn body_wire(m: LiteModel) -> Seq<u8> {
        wire_all::<Light>(m.lights)
    }

    open spec fn body_encode_error(m: LiteModel) -> Option<EncodeError> {
        encode_error_all::<Light>(m.lights)
    }

    fn parse_body<'a>(version: Option<u32>, input: &'a [u8]) -> (r: Parser<'a, Lite>) {
        let (input, lights) = parse_all::<Light>(version, input)?;
        Ok((input, Lite { lights }))
    }

    fn encode_body(&self, output: &mut Vec<u8>) -> (r: Result<(), EncodeError>) {
        encode_fixed_vec(self.lights.as_slice(), output)?;
        Ok(())
    }
}

impl LosslessBody for Lite {
    open spec fn body_faithful(m: LiteModel) -> bool {
        all_faithful::<Light>(m.lights)
    }

    proof fn lemma_body_parse_wire(version: Option<u32>, input: Seq<u8>) {
        lemma_all_parse_wire::<Light>(version, Seq::empty(), input);
        match spec_parse_all::<Light>(version, Seq::empty(), input) {
            Ok((rest1, lights)) => {
                assert(wire_all::<Light>(Seq::<LightModel>::empty()) + input =~= input);
                assert(wire_all::<Light>(lights) + rest1 =~= wire_all::<Light>(lights));

            },
            Err(_) => {},
        }
    }
}

impl ReparsableBody for Lite {
    open spec fn body_well_formed(m: LiteModel, version: Option<u32>) -> bool {
        all_well_formed::<Light>(m.lights, version)
        && (forall|i: int| 0 <= i < m.lights.len() ==> (#[trigger] Light::wire(m.lights[i])).len() > 0)
    }

    proof fn lemma_body_wire_parse(m: LiteModel, version: Option<u32>) {
        let w1 = wire_all::<Light>(m.lights);
        let u2 = Seq::<u8>::empty();
        let u1 = w1 + u2;
        lemma_all_wire_parse::<Light>(version, Seq::empty(), m.lights);
        assert(Seq::<LightModel>::empty() + m.lights =~= m.lights);
        assert(u1 =~= Self::body_wire(m));
    }
}

impl ReparsableChunk for Lite {
    open spec fn chunk_well_formed(m: LiteModel, version: Option<u32>) -> bool {
        Self::body_well_formed(m, version) && Self::body_wire(m).len() <= u32::MAX
    }

    proof fn lemma_chunk_wire_parse(m: LiteModel, version: Option<u32>) {
        lemma_sized_chunk_wire_parse::<Lite>(m, version);
    }
}

impl Materialized for Lite {
    type Version = u32;

    type Model = LiteModel;

    open spec fn model(&self) -> LiteModel {
        self.body_model()
    }

    open spec fn spec_parse(version: Option<u32>, input: Seq<u8>) -> Parsed<LiteModel> {
        spec_parse_chunk::<Lite>(version, input)
    }

    open spec fn wire(m: LiteModel) -> Seq<u8> {
        wire_chunk(Self::spec_tag(), Self::body_wire(m))
    }

    open spec fn encode_error(m: LiteModel) -> Option<EncodeError> {
        encode_error_sized_chunk::<Lite>(m)
    }

    fn parse_versioned<'a>(version: Option<u32>, input: &'a [u8]) -> (r: Parser<'a, Lite>) {
        parse_chunk::<Lite>(version, input)
    }

    fn encode(&self, output: &mut Vec<u8>) -> (r: Result<(), EncodeError>) {
        let mut buff: Vec<u8> = Vec::new();
        self.encode_body(&mut buff)?;
        assert(buff@ =~= Self::body_wire(self.body_model()));
        encode_chunk::<Lite>(output, buff)
    }
}

impl LosslessChunk for Lite {
    open spec fn chunk_faithful(m: LiteModel) -> bool {
        Self::body_faithful(m)
    }

    proof fn lemma_chunk_parse_wire(version: Option<u32>, span: Seq<u8>) {
        lemma_sized_chunk_parse_wire::<Lite>(version, span);
    }
}

} // verus!
