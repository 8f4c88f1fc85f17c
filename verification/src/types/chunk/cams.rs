use crate::encoder::error::Error as EncodeError;
use crate::parser::primitives::{
    lemma_all_parse_wire, lemma_all_wire_parse, parse_all, spec_parse_all, Parsed, Parser,
};
use crate::types::camera::{Camera, CameraModel};
use crate::types::chunk::{
    encode_chunk, encode_error_sized_chunk, lemma_sized_chunk_wire_parse, ReparsableChunk,
    lemma_sized_chunk_parse_wire, parse_chunk, spec_parse_chunk, wire_chunk, Chunk,
    LosslessChunk,
};
use crate::types::chunk::utils::Tag;
use crate::types::materialize::{
    all_faithful, all_well_formed, encode_error_all, encode_fixed_vec, models, wire_all,
    LosslessBody, Materialized, ReparsableBody, SizedBody,
};
use vstd::prelude::*;

verus! {

/// The chunk of the cameras.
#[derive(Debug, Clone, PartialEq)]
pub struct Cams {
    pub cameras: Vec<Camera>,
}

/// What a value of [`Cams`] stands for in specifications.
pub struct CamsModel {
    pub cameras: Seq<CameraModel>,
}

impl Chunk for Cams {
    open spec fn spec_tag() -> Tag {
        Tag([0x43, 0x41, 0x4D, 0x53])
    }

    fn tag() -> (t: Tag) {
        let t = Tag([0x43, 0x41, 0x4D, 0x53]);
        assert(t.0 =~= Self::spec_tag().0);
        t
    }
}

impl SizedBody for Cams {
    type Model = CamsModel;

    open spec fn body_model(&self) -> CamsModel {
        CamsModel { cameras: models(self.cameras@) }
    }

    open spec fn spec_parse_body(version: Option<u32>, input: Seq<u8>) -> Parsed<CamsModel> {
        match spec_parse_all::<Camera>(version, Seq::empty(), input) {
            Ok((rest, cameras)) => Ok((rest, CamsModel { cameras })),
            Err(e) => Err(e),
        }
    }

    open spec fn body_wire(m: CamsModel) -> Seq<u8> {
        wire_all::<Camera>(m.cameras)
    }

    open spec fn body_encode_error(m: CamsModel) -> Option<EncodeError> {
        encode_error_all::<Camera>(m.cameras)
    }

    fn parse_body<'a>(version: Option<u32>, input: &'a [u8]) -> (r: Parser<'a, Cams>) {
        let (input, cameras) = parse_all::<Camera>(version, input)?;
        Ok((input, Cams { cameras }))
    }

    fn encode_body(&self, output: &mut Vec<u8>) -> (r: Result<(), EncodeError>) {
        encode_fixed_vec(self.cameras.as_slice(), output)?;
        Ok(())
    }
}

impl LosslessBody for Cams {
    open spec fn body_faithful(m: CamsModel) -> bool {
        all_faithful::<Camera>(m.cameras)
    }

    proof fn lemma_body_parse_wire(version: Option<u32>, input: Seq<u8>) {
        lemma_all_parse_wire::<Camera>(version, Seq::empty(), input);
        match spec_parse_all::<Camera>(version, Seq::empty(), input) {
            Ok((rest1, cameras)) => {
                assert(wire_all::<Camera>(Seq::<CameraModel>::empty()) + input =~= input);
                assert(wire_all::<Camera>(cameras) + rest1 =~= wire_all::<Camera>(cameras));

            },
            Err(_) => {},
        }
    }
}

impl ReparsableBody for Cams {
    open spec fn body_well_formed(m: CamsModel, version: Option<u32>) -> bool {
        all_well_formed::<Camera>(m.cameras, version)
        && (forall|i: int| 0 <= i < m.cameras.len() ==> (#[trigger] Camera::wire(m.cameras[i])).len() > 0)
    }

    proof fn lemma_body_wire_parse(m: CamsModel, version: Option<u32>) {
        let w1 = wire_all::<Camera>(m.cameras);
        let u2 = Seq::<u8>::empty();
        let u1 = w1 + u2;
        lemma_all_wire_parse::<Camera>(version, Seq::empty(), m.cameras);
        assert(Seq::<CameraModel>::empty() + m.cameras =~= m.cameras);
        assert(u1 =~= Self::body_wire(m));
    }
}

impl ReparsableChunk for Cams {
    open spec fn chunk_well_formed(m: CamsModel, version: Option<u32>) -> bool {
        Self::body_well_formed(m, version) && Self::body_wire(m).len() <= u32::MAX
    }

    proof fn lemma_chunk_wire_parse(m: CamsModel, version: Option<u32>) {
        lemma_sized_chunk_wire_parse::<Cams>(m, version);
    }
}

impl Materialized for Cams {
    type Version = u32;

    type Model = CamsModel;

    open spec fn model(&self) -> CamsModel {
        self.body_model()
    }

    open spec fn spec_parse(version: Option<u32>, input: Seq<u8>) -> Parsed<CamsModel> {
        spec_parse_chunk::<Cams>(version, input)
    }

    open spec fn wire(m: CamsModel) -> Seq<u8> {
        wire_chunk(Self::spec_tag(), Self::body_wire(m))
    }

    open spec fn encode_error(m: CamsModel) -> Option<EncodeError> {
        encode_error_sized_chunk::<Cams>(m)
    }

    fn parse_versioned<'a>(version: Option<u32>, input: &'a [u8]) -> (r: Parser<'a, Cams>) {
        parse_chunk::<Cams>(version, input)
    }

    fn encode(&self, output: &mut Vec<u8>) -> (r: Result<(), EncodeError>) {
        let mut buff: Vec<u8> = Vec::new();
        self.encode_body(&mut buff)?;
        assert(buff@ =~= Self::body_wire(self.body_model()));
        encode_chunk::<Cams>(output, buff)
    }
}

impl LosslessChunk for Cams {
    open spec fn chunk_faithful(m: CamsModel) -> bool {
        Self::body_faithful(m)
    }

    proof fn lemma_chunk_parse_wire(version: Option<u32>, span: Seq<u8>) {
        lemma_sized_chunk_parse_wire::<Cams>(version, span);
    }
}

} // verus!
