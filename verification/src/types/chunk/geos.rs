use crate::encoder::error::Error as EncodeError;
use crate::parser::primitives::{
    lemma_all_parse_wire, lemma_all_wire_parse, parse_all, spec_parse_all, Parsed, Parser,
};
use crate::types::chunk::{
    encode_chunk, encode_error_sized_chunk, lemma_sized_chunk_wire_parse, ReparsableChunk,
    lemma_sized_chunk_parse_wire, parse_chunk, spec_parse_chunk, wire_chunk, Chunk,
    LosslessChunk,
};
use crate::types::chunk::utils::Tag;
use crate::types::geoset::{Geoset, GeosetModel};
use crate::types::materialize::{
    all_faithful, all_well_formed, encode_error_all, encode_fixed_vec, models, wire_all,
    LosslessBody, Materialized, ReparsableBody, SizedBody,
};
use vstd::prelude::*;

verus! {

/// The chunk of the geosets.
#[derive(Debug, Clone, PartialEq)]
pub struct Geos {
    pub geosets: Vec<Geoset>,
}

/// What a value of [`Geos`] stands for in specifications.
pub struct GeosModel {
    pub geosets: Seq<GeosetModel>,
}

impl Chunk for Geos {
    open spec fn spec_tag() -> Tag {
        Tag([0x47, 0x45, 0x4F, 0x53])
    }

    fn tag() -> (t: Tag) {
        let t = Tag([0x47, 0x45, 0x4F, 0x53]);
        assert(t.0 =~= Self::spec_tag().0);
        t
    }
}

impl SizedBody for Geos {
    type Model = GeosModel;

    open spec fn body_model(&self) -> GeosModel {
        GeosModel { geosets: models(self.geosets@) }
    }

    open spec fn spec_parse_body(version: Option<u32>, input: Seq<u8>) -> Parsed<GeosModel> {
        match spec_parse_all::<Geoset>(version, Seq::empty(), input) {
            Ok((rest, geosets)) => Ok((rest, GeosModel { geosets })),
            Err(e) => Err(e),
        }
    }

    open spec fn body_wire(m: GeosModel) -> Seq<u8> {
        wire_all::<Geoset>(m.geosets)
    }

    open spec fn body_encode_error(m: GeosModel) -> Option<EncodeError> {
        encode_error_all::<Geoset>(m.geosets)
    }

    fn parse_body<'a>(version: Option<u32>, input: &'a [u8]) -> (r: Parser<'a, Geos>) {
        let (input, geosets) = parse_all::<Geoset>(version, input)?;
        Ok((input, Geos { geosets }))
    }

    fn encode_body(&self, output: &mut Vec<u8>) -> (r: Result<(), EncodeError>) {
        encode_fixed_vec(self.geosets.as_slice(), output)?;
        Ok(())
    }
}

impl LosslessBody for Geos {
    open spec fn body_faithful(m: GeosModel) -> bool {
        all_faithful::<Geoset>(m.geosets)
    }

    proof fn lemma_body_parse_wire(version: Option<u32>, input: Seq<u8>) {
        lemma_all_parse_wire::<Geoset>(version, Seq::empty(), input);
        match spec_parse_all::<Geoset>(version, Seq::empty(), input) {
            Ok((rest1, geosets)) => {
                assert(wire_all::<Geoset>(Seq::<GeosetModel>::empty()) + input =~= input);
                assert(wire_all::<Geoset>(geosets) + rest1 =~= wire_all::<Geoset>(geosets));

            },
            Err(_) => {},
        }
    }
}

impl ReparsableBody for Geos {
    open spec fn body_well_formed(m: GeosModel, version: Option<u32>) -> bool {
        all_well_formed::<Geoset>(m.geosets, version)
        && (forall|i: int| 0 <= i < m.geosets.len() ==> (#[trigger] Geoset::wire(m.geosets[i])).len() > 0)
    }

    proof fn lemma_body_wire_parse(m: GeosModel, version: Option<u32>) {
        let w1 = wire_all::<Geoset>(m.geosets);
        let u2 = Seq::<u8>::empty();
        let u1 = w1 + u2;
        lemma_all_wire_parse::<Geoset>(version, Seq::empty(), m.geosets);
        assert(Seq::<GeosetModel>::empty() + m.geosets =~= m.geosets);
        assert(u1 =~= Self::body_wire(m));
    }
}

impl ReparsableChunk for Geos {
    open spec fn chunk_well_formed(m: GeosModel, version: Option<u32>) -> bool {
        Self::body_well_formed(m, version) && Self::body_wire(m).len() <= u32::MAX
    }

    proof fn lemma_chunk_wire_parse(m: GeosModel, version: Option<u32>) {
        lemma_sized_chunk_wire_parse::<Geos>(m, version);
    }
}

impl Materialized for Geos {
    type Version = u32;

    type Model = GeosModel;

    open spec fn model(&self) -> GeosModel {
        self.body_model()
    }

    open spec fn spec_parse(version: Option<u32>, input: Seq<u8>) -> Parsed<GeosModel> {
        spec_parse_chunk::<Geos>(version, input)
    }

    open spec fn wire(m: GeosModel) -> Seq<u8> {
        wire_chunk(Self::spec_tag(), Self::body_wire(m))
    }

    open spec fn encode_error(m: GeosModel) -> Option<EncodeError> {
        encode_error_sized_chunk::<Geos>(m)
    }

    fn parse_versioned<'a>(version: Option<u32>, input: &'a [u8]) -> (r: Parser<'a, Geos>) {
        parse_chunk::<Geos>(version, input)
    }

    fn encode(&self, output: &mut Vec<u8>) -> (r: Result<(), EncodeError>) {
        let mut buff: Vec<u8> = Vec::new();
        self.encode_body(&mut buff)?;
        assert(buff@ =~= Self::body_wire(self.body_model()));
        encode_chunk::<Geos>(output, buff)
    }
}

impl LosslessChunk for Geos {
    open spec fn chunk_faithful(m: GeosModel) -> bool {
        Self::body_faithful(m)
    }

    proof fn lemma_chunk_parse_wire(version: Option<u32>, span: Seq<u8>) {
        lemma_sized_chunk_parse_wire::<Geos>(version, span);
    }
}

} // verus!
