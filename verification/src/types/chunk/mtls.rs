use crate::encoder::error::Error as EncodeError;
use crate::parser::primitives::{
    lemma_all_parse_wire, lemma_all_wire_parse, parse_all, spec_parse_all, Parsed, Parser,
};
use crate::types::chunk::{
    encode_chunk, encode_error_sized_chunk, lemma_sized_chunk_wire_parse, ReparsableChunk,
    lemma_sized_chunk_parse_wire, parse_chunk, spec_parse_chunk, wire_chunk, Chunk,
    LosslessChunk,
};
use crate::types::chunk::utils::Tag;
use crate::types::material::{Material, MaterialModel};
use crate::types::materialize::{
    all_faithful, all_well_formed, encode_error_all, encode_fixed_vec, models, wire_all,
    LosslessBody, Materialized, ReparsableBody, SizedBody,
};
use vstd::prelude::*;

verus! {

/// The chunk of the materials.
#[derive(Debug, Clone, PartialEq)]
pub struct Mtls {
    pub materials: Vec<Material>,
}

/// What a value of [`Mtls`] stands for in specifications.
pub struct MtlsModel {
    pub materials: Seq<MaterialModel>,
}

impl Chunk for Mtls {
    open spec fn spec_tag() -> Tag {
        Tag([0x4D, 0x54, 0x4C, 0x53])
    }

    fn tag() -> (t: Tag) {
        let t = Tag([0x4D, 0x54, 0x4C, 0x53]);
        assert(t.0 =~= Self::spec_tag().0);
        t
    }
}

impl SizedBody for Mtls {
    type Model = MtlsModel;

    open spec fn body_model(&self) -> MtlsModel {
        MtlsModel { materials: models(self.materials@) }
    }

    open spec fn spec_parse_body(version: Option<u32>, input: Seq<u8>) -> Parsed<MtlsModel> {
        match spec_parse_all::<Material>(version, Seq::empty(), input) {
            Ok((rest, materials)) => Ok((rest, MtlsModel { materials })),
            Err(e) => Err(e),
        }
    }

    open spec fn body_wire(m: MtlsModel) -> Seq<u8> {
        wire_all::<Material>(m.materials)
    }

    open spec fn body_encode_error(m: MtlsModel) -> Option<EncodeError> {
        encode_error_all::<Material>(m.materials)
    }

    fn parse_body<'a>(version: Option<u32>, input: &'a [u8]) -> (r: Parser<'a, Mtls>) {
        let (input, materials) = parse_all::<Material>(version, input)?;
        Ok((input, Mtls { materials }))
    }

    fn encode_body(&self, output: &mut Vec<u8>) -> (r: Result<(), EncodeError>) {
        encode_fixed_vec(self.materials.as_slice(), output)?;
        Ok(())
    }
}

impl LosslessBody for Mtls {
    open spec fn body_faithful(m: MtlsModel) -> bool {
        all_faithful::<Material>(m.materials)
    }

    proof fn lemma_body_parse_wire(version: Option<u32>, input: Seq<u8>) {
        lemma_all_parse_wire::<Material>(version, Seq::empty(), input);
        match spec_parse_all::<Material>(version, Seq::empty(), input) {
            Ok((rest1, materials)) => {
                assert(wire_all::<Material>(Seq::<MaterialModel>::empty()) + input =~= input);
                assert(wire_all::<Material>(materials) + rest1 =~= wire_all::<Material>(materials));

            },
            Err(_) => {},
        }
    }
}

impl ReparsableBody for Mtls {
    open spec fn body_well_formed(m: MtlsModel, version: Option<u32>) -> bool {
        all_well_formed::<Material>(m.materials, version)
        && (forall|i: int| 0 <= i < m.materials.len() ==> (#[trigger] Material::wire(m.materials[i])).len() > 0)
    }

    proof fn lemma_body_wire_parse(m: MtlsModel, version: Option<u32>) {
        let w1 = wire_all::<Material>(m.materials);
        let u2 = Seq::<u8>::empty();
        let u1 = w1 + u2;
        lemma_all_wire_parse::<Material>(version, Seq::empty(), m.materials);
        assert(Seq::<MaterialModel>::empty() + m.materials =~= m.materials);
        assert(u1 =~= Self::body_wire(m));
    }
}

impl ReparsableChunk for Mtls {
    open spec fn chunk_well_formed(m: MtlsModel, version: Option<u32>) -> bool {
        Self::body_well_formed(m, version) && Self::body_wire(m).len() <= u32::MAX
    }

    proof fn lemma_chunk_wire_parse(m: MtlsModel, version: Option<u32>) {
        lemma_sized_chunk_wire_parse::<Mtls>(m, version);
    }
}

impl Materialized for Mtls {
    type Version = u32;

    type Model = MtlsModel;

    open spec fn model(&self) -> MtlsModel {
        self.body_model()
    }

    open spec fn spec_parse(version: Option<u32>, input: Seq<u8>) -> Parsed<MtlsModel> {
        spec_parse_chunk::<Mtls>(version, input)
    }

    open spec fn wire(m: MtlsModel) -> Seq<u8> {
        wire_chunk(Self::spec_tag(), Self::body_wire(m))
    }

    open spec fn encode_error(m: MtlsModel) -> Option<EncodeError> {
        encode_error_sized_chunk::<Mtls>(m)
    }

    fn parse_versioned<'a>(version: Option<u32>, input: &'a [u8]) -> (r: Parser<'a, Mtls>) {
        parse_chunk::<Mtls>(version, input)
    }

    fn encode(&self, output: &mut Vec<u8>) -> (r: Result<(), EncodeError>) {
        let mut buff: Vec<u8> = Vec::new();
        self.encode_body(&mut buff)?;
        assert(buff@ =~= Self::body_wire(self.body_model()));
        encode_chunk::<Mtls>(output, buff)
    }
}

impl LosslessChunk for Mtls {
    open spec fn chunk_faithful(m: MtlsModel) -> bool {
        Self::body_faithful(m)
    }

    proof fn lemma_chunk_parse_wire(version: Option<u32>, span: Seq<u8>) {
        lemma_sized_chunk_parse_wire::<Mtls>(version, span);
    }
}

} // verus!
