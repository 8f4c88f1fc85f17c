use crate::encoder::error::Error as EncodeError;
use crate::parser::primitives::{
    lemma_all_parse_wire, lemma_all_wire_parse, parse_all, spec_parse_all, Parsed, Parser,
};
use crate::types::chunk::{
    encode_chunk, encode_error_sized_chunk, lemma_sized_chunk_wire_parse, ReparsableChunk,
    lemma_sized_chunk_parse_wire, parse_chunk, spec_parse_chunk, wire_chunk, Chunk,
    LosslessChunk,
};
use crate::types::chunk::utils::Tag;
use crate::types::collision::{CollisionShape, CollisionShapeModel};
use crate::types::materialize::{
    all_faithful, all_well_formed, encode_error_all, encode_fixed_vec, models, wire_all,
    LosslessBody, Materialized, ReparsableBody, SizedBody,
};
use vstd::prelude::*;

verus! {

/// The chunk of the collision shapes.
#[derive(Debug, Clone, PartialEq)]
pub struct Clid {
    pub shapes: Vec<CollisionShape>,
}

/// What a value of [`Clid`] stands for in specifications.
pub struct ClidModel {
    pub shapes: Seq<CollisionShapeModel>,
}

impl Chunk for Clid {
    open spec fn spec_tag() -> Tag {
        Tag([0x43, 0x4C, 0x49, 0x44])
    }

    fn tag() -> (t: Tag) {
        let t = Tag([0x43, 0x4C, 0x49, 0x44]);
        assert(t.0 =~= Self::spec_tag().0);
        t
    }
}

impl SizedBody for Clid {
    type Model = ClidModel;

    open spec fn body_model(&self) -> ClidModel {
        ClidModel { shapes: models(self.shapes@) }
    }

    open spec fn spec_parse_body(version: Option<u32>, input: Seq<u8>) -> Parsed<ClidModel> {
        match spec_parse_all::<CollisionShape>(version, Seq::empty(), input) {
            Ok((rest, shapes)) => Ok((rest, ClidModel { shapes })),
            Err(e) => Err(e),
        }
    }

    open spec fn body_wire(m: ClidModel) -> Seq<u8> {
        wire_all::<CollisionShape>(m.shapes)
    }

    open spec fn body_encode_error(m: ClidModel) -> Option<EncodeError> {
        encode_error_all::<CollisionShape>(m.shapes)
    }

    fn parse_body<'a>(version: Option<u32>, input: &'a [u8]) -> (r: Parser<'a, Clid>) {
        let (input, shapes) = parse_all::<CollisionShape>(version, input)?;
        Ok((input, Clid { shapes }))
    }

    fn encode_body(&self, output: &mut Vec<u8>) -> (r: Result<(), EncodeError>) {
        encode_fixed_vec(self.shapes.as_slice(), output)?;
        Ok(())
    }
}

impl LosslessBody for Clid {
    open spec fn body_faithful(m: ClidModel) -> bool {
        all_faithful::<CollisionShape>(m.shapes)
    }

    proof fn lemma_body_parse_wire(version: Option<u32>, input: Seq<u8>) {
        lemma_all_parse_wire::<CollisionShape>(version, Seq::empty(), input);
        match spec_parse_all::<CollisionShape>(version, Seq::empty(), input) {
            Ok((rest1, shapes)) => {
                assert(wire_all::<CollisionShape>(Seq::<CollisionShapeModel>::empty()) + input =~= input);
                assert(wire_all::<CollisionShape>(shapes) + rest1 =~= wire_all::<CollisionShape>(shapes));

            },
            Err(_) => {},
        }
    }
}

impl ReparsableBody for Clid {
    open spec fn body_well_formed(m: ClidModel, version: Option<u32>) -> bool {
        all_well_formed::<CollisionShape>(m.shapes, version)
        && (forall|i: int| 0 <= i < m.shapes.len() ==> (#[trigger] CollisionShape::wire(m.shapes[i])).len() > 0)
    }

    proof fn lemma_body_wire_parse(m: ClidModel, version: Option<u32>) {
        let w1 = wire_all::<CollisionShape>(m.shapes);
        let u2 = Seq::<u8>::empty();
        let u1 = w1 + u2;
        lemma_all_wire_parse::<CollisionShape>(version, Seq::empty(), m.shapes);
        assert(Seq::<CollisionShapeModel>::empty() + m.shapes =~= m.shapes);
        assert(u1 =~= Self::body_wire(m));
    }
}

impl ReparsableChunk for Clid {
    open spec fn chunk_well_formed(m: ClidModel, version: Option<u32>) -> bool {
        Self::body_well_formed(m, version) && Self::body_wire(m).len() <= u32::MAX
    }

    proof fn lemma_chunk_wire_parse(m: ClidModel, version: Option<u32>) {
        lemma_sized_chunk_wire_parse::<Clid>(m, version);
    }
}

impl Materialized for Clid {
    type Version = u32;

    type Model = ClidModel;

    open spec fn model(&self) -> ClidModel {
        self.body_model()
    }

    open spec fn spec_parse(version: Option<u32>, input: Seq<u8>) -> Parsed<ClidModel> {
        spec_parse_chunk::<Clid>(version, input)
    }

    open spec fn wire(m: ClidModel) -> Seq<u8> {
        wire_chunk(Self::spec_tag(), Self::body_wire(m))
    }

    open spec fn encode_error(m: ClidModel) -> Option<EncodeError> {
        encode_error_sized_chunk::<Clid>(m)
    }

    fn parse_versioned<'a>(version: Option<u32>, input: &'a [u8]) -> (r: Parser<'a, Clid>) {
        parse_chunk::<Clid>(version, input)
    }

    fn encode(&self, output: &mut Vec<u8>) -> (r: Result<(), EncodeError>) {
        let mut buff: Vec<u8> = Vec::new();
        self.encode_body(&mut buff)?;
        assert(buff@ =~= Self::body_wire(self.body_model()));
        encode_chunk::<Clid>(output, buff)
    }
}

impl LosslessChunk for Clid {
    open spec fn chunk_faithful(m: ClidModel) -> bool {
        Self::body_faithful(m)
    }

    proof fn lemma_chunk_parse_wire(version: Option<u32>, span: Seq<u8>) {
        lemma_sized_chunk_parse_wire::<Clid>(version, span);
    }
}

} // verus!
