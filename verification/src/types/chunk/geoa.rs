use crate::encoder::error::Error as EncodeError;
use crate::parser::primitives::{
    lemma_all_parse_wire, lemma_all_wire_parse, parse_all, spec_parse_all, Parsed, Parser,
};
use crate::types::animation::{GeosetAnimation, GeosetAnimationModel};
use crate::types::chunk::{
    encode_chunk, encode_error_sized_chunk, lemma_sized_chunk_wire_parse, ReparsableChunk,
    lemma_sized_chunk_parse_wire, parse_chunk, spec_parse_chunk, wire_chunk, Chunk,
    LosslessChunk,
};
use crate::types::chunk::utils::Tag;
use crate::types::materialize::{
    all_faithful, all_well_formed, encode_error_all, encode_fixed_vec, models, wire_all,
    LosslessBody, Materialized, ReparsableBody, SizedBody,
};
use vstd::prelude::*;

verus! {

/// The chunk of the geoset animations.
#[derive(Debug, Clone, PartialEq)]
pub struct Geoa {
    pub animations: Vec<GeosetAnimation>,
}

/// What a value of [`Geoa`] stands for in specifications.
pub struct GeoaModel {
    pub animations: Seq<GeosetAnimationModel>,
}

impl Chunk for Geoa {
    open spec fn spec_tag() -> Tag {
        Tag([0x47, 0x45, 0x4F, 0x41])
    }

    fn tag() -> (t: Tag) {
        let t = Tag([0x47, 0x45, 0x4F, 0x41]);
        assert(t.0 =~= Self::spec_tag().0);
        t
    }
}

impl SizedBody for Geoa {
    type Model = GeoaModel;

    open spec fn body_model(&self) -> GeoaModel {
        GeoaModel { animations: models(self.animations@) }
    }

    open spec fn spec_parse_body(version: Option<u32>, input: Seq<u8>) -> Parsed<GeoaModel> {
        match spec_parse_all::<GeosetAnimation>(version, Seq::empty(), input) {
            Ok((rest, animations)) => Ok((rest, GeoaModel { animations })),
            Err(e) => Err(e),
        }
    }

    open spec fn body_wire(m: GeoaModel) -> Seq<u8> {
        wire_all::<GeosetAnimation>(m.animations)
    }

    open spec fn body_encode_error(m: GeoaModel) -> Option<EncodeError> {
        encode_error_all::<GeosetAnimation>(m.animations)
    }

    fn parse_body<'a>(version: Option<u32>, input: &'a [u8]) -> (r: Parser<'a, Geoa>) {
        let (input, animations) = parse_all::<GeosetAnimation>(version, input)?;
        Ok((input, Geoa { animations }))
    }

    fn encode_body(&self, output: &mut Vec<u8>) -> (r: Result<(), EncodeError>) {
        encode_fixed_vec(self.animations.as_slice(), output)?;
        Ok(())
    }
}

impl LosslessBody for Geoa {
    open spec fn body_faithful(m: GeoaModel) -> bool {
        all_faithful::<GeosetAnimation>(m.animations)
    }

    proof fn lemma_body_parse_wire(version: Option<u32>, input: Seq<u8>) {
        lemma_all_parse_wire::<GeosetAnimation>(version, Seq::empty(), input);
        match spec_parse_all::<GeosetAnimation>(version, Seq::empty(), input) {
            Ok((rest1, animations)) => {
                assert(wire_all::<GeosetAnimation>(Seq::<GeosetAnimationModel>::empty()) + input =~= input);
                assert(wire_all::<GeosetAnimation>(animations) + rest1 =~= wire_all::<GeosetAnimation>(animations));

            },
            Err(_) => {},
        }
    }
}

impl ReparsableBody for Geoa {
    open spec fn body_well_formed(m: GeoaModel, version: Option<u32>) -> bool {
        all_well_formed::<GeosetAnimation>(m.animations, version)
        && (forall|i: int| 0 <= i < m.animations.len() ==> (#[trigger] GeosetAnimation::wire(m.animations[i])).len() > 0)
    }

    proof fn lemma_body_wire_parse(m: GeoaModel, version: Option<u32>) {
        let w1 = wire_all::<GeosetAnimation>(m.animations);
        let u2 = Seq::<u8>::empty();
        let u1 = w1 + u2;
        lemma_all_wire_parse::<GeosetAnimation>(version, Seq::empty(), m.animations);
        assert(Seq::<GeosetAnimationModel>::empty() + m.animations =~= m.animations);
        assert(u1 =~= Self::body_wire(m));
    }
}

impl ReparsableChunk for Geoa {
    open spec fn chunk_well_formed(m: GeoaModel, version: Option<u32>) -> bool {
        Self::body_well_formed(m, version) && Self::body_wire(m).len() <= u32::MAX
    }

    proof fn lemma_chunk_wire_parse(m: GeoaModel, version: Option<u32>) {
        lemma_sized_chunk_wire_parse::<Geoa>(m, version);
    }
}

impl Materialized for Geoa {
    type Version = u32;

    type Model = GeoaModel;

    open spec fn model(&self) -> GeoaModel {
        self.body_model()
    }

    open spec fn spec_parse(version: Option<u32>, input: Seq<u8>) -> Parsed<GeoaModel> {
        spec_parse_chunk::<Geoa>(version, input)
    }

    open spec fn wire(m: GeoaModel) -> Seq<u8> {
        wire_chunk(Self::spec_tag(), Self::body_wire(m))
    }

    open spec fn encode_error(m: GeoaModel) -> Option<EncodeError> {
        encode_error_sized_chunk::<Geoa>(m)
    }

    fn parse_versioned<'a>(version: Option<u32>, input: &'a [u8]) -> (r: Parser<'a, Geoa>) {
        parse_chunk::<Geoa>(version, input)
    }

    fn encode(&self, output: &mut Vec<u8>) -> (r: Result<(), EncodeError>) {
        let mut buff: Vec<u8> = Vec::new();
        self.encode_body(&mut buff)?;
        assert(buff@ =~= Self::body_wire(self.body_model()));
        encode_chunk::<Geoa>(output, buff)
    }
}

impl LosslessChunk for Geoa {
    open spec fn chunk_faithful(m: GeoaModel) -> bool {
        Self::body_faithful(m)
    }

    proof fn lemma_chunk_parse_wire(version: Option<u32>, span: Seq<u8>) {
        lemma_sized_chunk_parse_wire::<Geoa>(version, span);
    }
}

} // verus!
