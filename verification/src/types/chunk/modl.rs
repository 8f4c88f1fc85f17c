use crate::encoder::error::Error as EncodeError;
use crate::parser::primitives::{Parsed, Parser};
use crate::types::chunk::{
    encode_chunk, encode_error_sized_chunk, lemma_sized_chunk_wire_parse, ReparsableChunk,
    lemma_sized_chunk_parse_wire, parse_chunk, spec_parse_chunk, wire_chunk, Chunk,
    LosslessChunk,
};
use crate::types::chunk::utils::{Literal, Tag};
use crate::types::extent::{Extent, ExtentModel};
use crate::types::materialize::{
    lemma_append_assoc, Lossless, LosslessBody, Materialized, Reparsable, ReparsableBody,
    SizedBody,
};
use vstd::prelude::*;

verus! {

/// Length of the name of a model.
pub const MODL_NAME_LENGTH: usize = 80;

/// Length of the name of the file of the animations of a model.
pub const MODL_ANIMATION_FILENAME_LENGTH: usize = 260;

/// The chunk of the model as a whole: its name and its bounds.
#[derive(Debug, Clone, PartialEq)]
pub struct Modl {
    pub name: Literal<MODL_NAME_LENGTH>,
    pub animation_filename: Literal<MODL_ANIMATION_FILENAME_LENGTH>,
    pub extent: Extent,
    pub blend_time: u32,
}

/// What a value of [`Modl`] stands for in specifications.
pub struct ModlModel {
    pub name: Seq<char>,
    pub animation_filename: Seq<char>,
    pub extent: ExtentModel,
    pub blend_time: u32,
}

impl Chunk for Modl {
    open spec fn spec_tag() -> Tag {
        Tag([0x4D, 0x4F, 0x44, 0x4C])
    }

    fn tag() -> (t: Tag) {
        let t = Tag([0x4D, 0x4F, 0x44, 0x4C]);
        assert(t.0 =~= Self::spec_tag().0);
        t
    }
}

impl SizedBody for Modl {
    type Model = ModlModel;

    open spec fn body_model(&self) -> ModlModel {
        ModlModel {
            name: self.name.model(),
            animation_filename: self.animation_filename.model(),
            extent: self.extent.model(),
            blend_time: self.blend_time.model(),
        }
    }

    open spec fn spec_parse_body(version: Option<u32>, input: Seq<u8>) -> Parsed<ModlModel> {
        match <Literal<MODL_NAME_LENGTH>>::spec_parse(None, input) {
            Ok((rest, name)) => match <Literal<MODL_ANIMATION_FILENAME_LENGTH>>::spec_parse(None, rest) {
                Ok((rest, animation_filename)) => match Extent::spec_parse(None, rest) {
                    Ok((rest, extent)) => match u32::spec_parse(None, rest) {
                        Ok((rest, blend_time)) => Ok((rest, ModlModel { name, animation_filename, extent, blend_time })),
                        Err(e) => Err(e),
                    },
                    Err(e) => Err(e),
                },
                Err(e) => Err(e),
            },
            Err(e) => Err(e),
        }
    }

    open spec fn body_wire(m: ModlModel) -> Seq<u8> {
        <Literal<MODL_NAME_LENGTH>>::wire(m.name) + (<Literal<MODL_ANIMATION_FILENAME_LENGTH>>::wire(m.animation_filename) + (Extent::wire(m.extent) + (u32::wire(m.blend_time))))
    }

    open spec fn body_encode_error(m: ModlModel) -> Option<EncodeError> {
        match <Literal<MODL_NAME_LENGTH>>::encode_error(m.name) {
            Some(e) => Some(e),
            None => match <Literal<MODL_ANIMATION_FILENAME_LENGTH>>::encode_error(m.animation_filename) {
                Some(e) => Some(e),
                None => match Extent::encode_error(m.extent) {
                    Some(e) => Some(e),
                    None => u32::encode_error(m.blend_time),
                },
            },
        }
    }

    fn parse_body<'a>(version: Option<u32>, input: &'a [u8]) -> (r: Parser<'a, Modl>) {
        let (input, name) = <Literal<MODL_NAME_LENGTH>>::parse(input)?;
        let (input, animation_filename) = <Literal<MODL_ANIMATION_FILENAME_LENGTH>>::parse(input)?;
        let (input, extent) = Extent::parse(input)?;
        let (input, blend_time) = u32::parse(input)?;
        Ok((input, Modl { name, animation_filename, extent, blend_time }))
    }

    fn encode_body(&self, output: &mut Vec<u8>) -> (r: Result<(), EncodeError>) {
        let ghost p0 = output@;
        self.name.encode(output)?;
        let ghost p1 = output@;
        self.animation_filename.encode(output)?;
        let ghost p2 = output@;
        self.extent.encode(output)?;
        let ghost p3 = output@;
        self.blend_time.encode(output)?;
        proof {
            let m = self.body_model();
            let w1 = <Literal<MODL_NAME_LENGTH>>::wire(m.name);
            let w2 = <Literal<MODL_ANIMATION_FILENAME_LENGTH>>::wire(m.animation_filename);
            let w3 = Extent::wire(m.extent);
            let w4 = u32::wire(m.blend_time);
            let s3 = w3 + w4;
            let s2 = w2 + s3;
            lemma_append_assoc(p2, w3, w4);
            lemma_append_assoc(p1, w2, s3);
            lemma_append_assoc(p0, w1, s2);
        }
        Ok(())
    }
}

impl LosslessBody for Modl {
    open spec fn body_faithful(m: ModlModel) -> bool {
        <Literal<MODL_NAME_LENGTH>>::faithful(m.name) && <Literal<MODL_ANIMATION_FILENAME_LENGTH>>::faithful(m.animation_filename) && Extent::faithful(m.extent) && u32::faithful(m.blend_time)
    }

    proof fn lemma_body_parse_wire(version: Option<u32>, input: Seq<u8>) {
        <Literal<MODL_NAME_LENGTH>>::lemma_parse_wire(None, input);
        match <Literal<MODL_NAME_LENGTH>>::spec_parse(None, input) {
            Ok((rest1, name)) => {
                assert(<Literal<MODL_NAME_LENGTH>>::faithful(name) ==> <Literal<MODL_NAME_LENGTH>>::encode_error(name) is None
                    && <Literal<MODL_NAME_LENGTH>>::wire(name) + rest1 == input);
                <Literal<MODL_ANIMATION_FILENAME_LENGTH>>::lemma_parse_wire(None, rest1);
                match <Literal<MODL_ANIMATION_FILENAME_LENGTH>>::spec_parse(None, rest1) {
                    Ok((rest2, animation_filename)) => {
                        assert(<Literal<MODL_ANIMATION_FILENAME_LENGTH>>::faithful(animation_filename) ==> <Literal<MODL_ANIMATION_FILENAME_LENGTH>>::encode_error(animation_filename) is None
                            && <Literal<MODL_ANIMATION_FILENAME_LENGTH>>::wire(animation_filename) + rest2 == rest1);
                        Extent::lemma_parse_wire(None, rest2);
                        match Extent::spec_parse(None, rest2) {
                            Ok((rest3, extent)) => {
                                assert(Extent::faithful(extent) ==> Extent::encode_error(extent) is None
                                    && Extent::wire(extent) + rest3 == rest2);
                                u32::lemma_parse_wire(None, rest3);
                                match u32::spec_parse(None, rest3) {
                                    Ok((rest4, blend_time)) => {
                                        assert(u32::faithful(blend_time) ==> u32::encode_error(blend_time) is None
                                            && u32::wire(blend_time) + rest4 == rest3);
                                        let m = ModlModel { name, animation_filename, extent, blend_time };
                                        if Self::body_faithful(m) {
                                            let w1 = <Literal<MODL_NAME_LENGTH>>::wire(m.name);
                                            let w2 = <Literal<MODL_ANIMATION_FILENAME_LENGTH>>::wire(m.animation_filename);
                                            let w3 = Extent::wire(m.extent);
                                            let w4 = u32::wire(m.blend_time);
                                            let s3 = w3 + w4;
                                            let s2 = w2 + s3;
                                            lemma_append_assoc(w3, w4, rest4);
                                            lemma_append_assoc(w2, s3, rest4);
                                            lemma_append_assoc(w1, s2, rest4);
                                        }
                                    },
                                    Err(_) => {},
                                }
                            },
                            Err(_) => {},
                        }
                    },
                    Err(_) => {},
                }
            },
            Err(_) => {},
        }
    }
}

impl ReparsableBody for Modl {
    open spec fn body_well_formed(m: ModlModel, version: Option<u32>) -> bool {
        <Literal<MODL_NAME_LENGTH>>::well_formed(m.name, None)
        && <Literal<MODL_ANIMATION_FILENAME_LENGTH>>::well_formed(m.animation_filename, None)
        && Extent::well_formed(m.extent, None)
        && u32::well_formed(m.blend_time, None)
    }

    proof fn lemma_body_wire_parse(m: ModlModel, version: Option<u32>) {
        let w1 = <Literal<MODL_NAME_LENGTH>>::wire(m.name);
        let w2 = <Literal<MODL_ANIMATION_FILENAME_LENGTH>>::wire(m.animation_filename);
        let w3 = Extent::wire(m.extent);
        let w4 = u32::wire(m.blend_time);
        let u5 = Seq::<u8>::empty();
        let u4 = w4 + u5;
        let u3 = w3 + u4;
        let u2 = w2 + u3;
        let u1 = w1 + u2;
        let s3 = w3 + w4;
        let s2 = w2 + s3;
        lemma_append_assoc(w3, w4, Seq::<u8>::empty());
        lemma_append_assoc(w2, s3, Seq::<u8>::empty());
        lemma_append_assoc(w1, s2, Seq::<u8>::empty());
        <Literal<MODL_NAME_LENGTH>>::lemma_wire_parse(m.name, None, u2);
        <Literal<MODL_ANIMATION_FILENAME_LENGTH>>::lemma_wire_parse(m.animation_filename, None, u3);
        Extent::lemma_wire_parse(m.extent, None, u4);
        u32::lemma_wire_parse(m.blend_time, None, u5);
        assert(u1 =~= Self::body_wire(m));
    }
}

impl ReparsableChunk for Modl {
    open spec fn chunk_well_formed(m: ModlModel, version: Option<u32>) -> bool {
        Self::body_well_formed(m, version) && Self::body_wire(m).len() <= u32::MAX
    }

    proof fn lemma_chunk_wire_parse(m: ModlModel, version: Option<u32>) {
        lemma_sized_chunk_wire_parse::<Modl>(m, version);
    }
}

impl Materialized for Modl {
    type Version = u32;

    type Model = ModlModel;

    open spec fn model(&self) -> ModlModel {
        self.body_model()
    }

    open spec fn spec_parse(version: Option<u32>, input: Seq<u8>) -> Parsed<ModlModel> {
        spec_parse_chunk::<Modl>(version, input)
    }

    open spec fn wire(m: ModlModel) -> Seq<u8> {
        wire_chunk(Self::spec_tag(), Self::body_wire(m))
    }

    open spec fn encode_error(m: ModlModel) -> Option<EncodeError> {
        encode_error_sized_chunk::<Modl>(m)
    }

    fn parse_versioned<'a>(version: Option<u32>, input: &'a [u8]) -> (r: Parser<'a, Modl>) {
        parse_chunk::<Modl>(version, input)
    }

    fn encode(&self, output: &mut Vec<u8>) -> (r: Result<(), EncodeError>) {
        let mut buff: Vec<u8> = Vec::new();
        self.encode_body(&mut buff)?;
        assert(buff@ =~= Self::body_wire(self.body_model()));
        encode_chunk::<Modl>(output, buff)
    }
}

impl LosslessChunk for Modl {
    open spec fn chunk_faithful(m: ModlModel) -> bool {
        Self::body_faithful(m)
    }

    proof fn lemma_chunk_parse_wire(version: Option<u32>, span: Seq<u8>) {
        lemma_sized_chunk_parse_wire::<Modl>(version, span);
    }
}

} // verus!
