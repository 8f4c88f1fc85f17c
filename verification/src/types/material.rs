use crate::encoder::error::Error as EncodeError;
use crate::parser::primitives::{Parsed, Parser};
use crate::types::chunk::utils::{
    lemma_expect_tag, lemma_expect_tag_wire, spec_expect_tag, Literal, Tag,
};
use crate::types::layer::{Layer, LayerModel};
use crate::types::materialize::{
    all_faithful, all_well_formed, encode_error_inclusive_sized, encode_error_len_vec,
    encode_error_opt, encode_inclusive_sized, encode_len_vec, encode_opt, lemma_append_assoc,
    lemma_inclusive_parse_wire, lemma_inclusive_wire_parse, lemma_len_vec_parse_wire,
    lemma_len_vec_wire_parse, lemma_versioned_greater_parse_wire,
    lemma_versioned_greater_wire_parse, models, opt_faithful, opt_model, opt_well_formed,
    parse_inclusive_sized, parse_len_vec, parse_versioned_greater, spec_parse_inclusive_sized,
    spec_parse_len_vec, spec_parse_versioned_greater, wire_inclusive_sized, wire_len_vec,
    wire_opt, Lossless, LosslessBody, Materialized, Reparsable, ReparsableBody, SizedBody,
};
use vstd::prelude::*;

verus! {

/// Length of the name of the shader of a material.
pub const MATERIAL_SHADER_LEN: usize = 80;

/// A material: a stack of layers. The name of the shader is in the bytes only
/// if the version is greater than 800.
#[derive(Debug, Clone, PartialEq)]
pub struct Material {
    pub priority_plane: u32,
    pub flags: u32,
    pub shader: Option<Literal<MATERIAL_SHADER_LEN>>,
    pub layers: Vec<Layer>,
}

/// What a value of [`Material`] stands for in specifications.
pub struct MaterialModel {
    pub priority_plane: u32,
    pub flags: u32,
    pub shader: Option<Seq<char>>,
    pub layers: Seq<LayerModel>,
}

impl Material {
    /// The tag `LAYS`, in specifications.
    pub open spec fn spec_lays_tag() -> Tag {
        Tag([0x4C, 0x41, 0x59, 0x53])
    }

    /// The tag `LAYS` that stands before a part of the record.
    pub fn lays_tag() -> (t: Tag)
        ensures
            t == Self::spec_lays_tag(),
    {
        let t = Tag([0x4C, 0x41, 0x59, 0x53]);
        assert(t.0 =~= Self::spec_lays_tag().0);
        t
    }
}

impl SizedBody for Material {
    type Model = MaterialModel;

    open spec fn body_model(&self) -> MaterialModel {
        MaterialModel {
            priority_plane: self.priority_plane.model(),
            flags: self.flags.model(),
            shader: opt_model(self.shader),
            layers: models(self.layers@),
        }
    }

    open spec fn spec_parse_body(version: Option<u32>, input: Seq<u8>) -> Parsed<MaterialModel> {
        match u32::spec_parse(None, input) {
            Ok((rest, priority_plane)) => match u32::spec_parse(None, rest) {
                Ok((rest, flags)) => match spec_parse_versioned_greater::<Literal<MATERIAL_SHADER_LEN>>(version, 800, rest) {
                    Ok((rest, shader)) => match spec_expect_tag(Self::spec_lays_tag(), rest) {
                        Ok((rest, _)) => match spec_parse_len_vec::<Layer>(version, rest) {
                            Ok((rest, layers)) => Ok((rest, MaterialModel { priority_plane, flags, shader, layers })),
                            Err(e) => Err(e),
                        },
                        Err(e) => Err(e),
                    },
                    Err(e) => Err(e),
                },
                Err(e) => Err(e),
            },
            Err(e) => Err(e),
        }
    }

    open spec fn body_wire(m: MaterialModel) -> Seq<u8> {
        u32::wire(m.priority_plane) + (u32::wire(m.flags) + (wire_opt::<Literal<MATERIAL_SHADER_LEN>>(m.shader) + (Self::spec_lays_tag().0@ + (wire_len_vec::<Layer>(m.layers)))))
    }

    open spec fn body_encode_error(m: MaterialModel) -> Option<EncodeError> {
        match u32::encode_error(m.priority_plane) {
            Some(e) => Some(e),
            None => match u32::encode_error(m.flags) {
                Some(e) => Some(e),
                None => match encode_error_opt::<Literal<MATERIAL_SHADER_LEN>>(m.shader) {
                    Some(e) => Some(e),
                    None => encode_error_len_vec::<Layer>(m.layers),
                },
            },
        }
    }

    fn parse_body<'a>(version: Option<u32>, input: &'a [u8]) -> (r: Parser<'a, Material>) {
        let (input, priority_plane) = u32::parse(input)?;
        let (input, flags) = u32::parse(input)?;
        let (input, shader) = parse_versioned_greater::<Literal<MATERIAL_SHADER_LEN>>(version, 800, input)?;
        let (input, _) = Self::lays_tag().expect(input)?;
        let (input, layers) = parse_len_vec::<Layer>(version, input)?;
        Ok((input, Material { priority_plane, flags, shader, layers }))
    }

    fn encode_body(&self, output: &mut Vec<u8>) -> (r: Result<(), EncodeError>) {
        let ghost p0 = output@;
        self.priority_plane.encode(output)?;
        let ghost p1 = output@;
        self.flags.encode(output)?;
        let ghost p2 = output@;
        encode_opt(&self.shader, output)?;
        let ghost p3 = output@;
        Self::lays_tag().encode(output)?;
        let ghost p4 = output@;
        encode_len_vec(self.layers.as_slice(), output)?;
        proof {
            let m = self.body_model();
            let w1 = u32::wire(m.priority_plane);
            let w2 = u32::wire(m.flags);
            let w3 = wire_opt::<Literal<MATERIAL_SHADER_LEN>>(m.shader);
            let w4 = Self::spec_lays_tag().0@;
            let w5 = wire_len_vec::<Layer>(m.layers);
            let s4 = w4 + w5;
            let s3 = w3 + s4;
            let s2 = w2 + s3;
            lemma_append_assoc(p3, w4, w5);
            lemma_append_assoc(p2, w3, s4);
            lemma_append_assoc(p1, w2, s3);
            lemma_append_assoc(p0, w1, s2);
        }
        Ok(())
    }
}

impl LosslessBody for Material {
    open spec fn body_faithful(m: MaterialModel) -> bool {
        u32::faithful(m.priority_plane) && u32::faithful(m.flags) && opt_faithful::<Literal<MATERIAL_SHADER_LEN>>(m.shader) && all_faithful::<Layer>(m.layers)
    }

    proof fn lemma_body_parse_wire(version: Option<u32>, input: Seq<u8>) {
        u32::lemma_parse_wire(None, input);
        match u32::spec_parse(None, input) {
            Ok((rest1, priority_plane)) => {
                assert(u32::faithful(priority_plane) ==> u32::encode_error(priority_plane) is None
                    && u32::wire(priority_plane) + rest1 == input);
                u32::lemma_parse_wire(None, rest1);
                match u32::spec_parse(None, rest1) {
                    Ok((rest2, flags)) => {
                        assert(u32::faithful(flags) ==> u32::encode_error(flags) is None
                            && u32::wire(flags) + rest2 == rest1);
                        lemma_versioned_greater_parse_wire::<Literal<MATERIAL_SHADER_LEN>>(version, 800, rest2);
                        match spec_parse_versioned_greater::<Literal<MATERIAL_SHADER_LEN>>(version, 800, rest2) {
                            Ok((rest3, shader)) => {
                                assert(opt_faithful::<Literal<MATERIAL_SHADER_LEN>>(shader) ==> encode_error_opt::<Literal<MATERIAL_SHADER_LEN>>(shader) is None
                                    && wire_opt::<Literal<MATERIAL_SHADER_LEN>>(shader) + rest3 == rest2);
                                lemma_expect_tag(Self::spec_lays_tag(), rest3);
                                match spec_expect_tag(Self::spec_lays_tag(), rest3) {
                                    Ok((rest4, _)) => {
                                        assert(Self::spec_lays_tag().0@ + rest4 == rest3);
                                        lemma_len_vec_parse_wire::<Layer>(version, rest4);
                                        match spec_parse_len_vec::<Layer>(version, rest4) {
                                            Ok((rest5, layers)) => {
                                                assert(all_faithful::<Layer>(layers) ==> encode_error_len_vec::<Layer>(layers) is None
                                                    && wire_len_vec::<Layer>(layers) + rest5 == rest4);
                                                let m = MaterialModel { priority_plane, flags, shader, layers };
                                                if Self::body_faithful(m) {
                                                    let w1 = u32::wire(m.priority_plane);
                                                    let w2 = u32::wire(m.flags);
                                                    let w3 = wire_opt::<Literal<MATERIAL_SHADER_LEN>>(m.shader);
                                                    let w4 = Self::spec_lays_tag().0@;
                                                    let w5 = wire_len_vec::<Layer>(m.layers);
                                                    let s4 = w4 + w5;
                                                    let s3 = w3 + s4;
                                                    let s2 = w2 + s3;
                                                    lemma_append_assoc(w4, w5, rest5);
                                                    lemma_append_assoc(w3, s4, rest5);
                                                    lemma_append_assoc(w2, s3, rest5);
                                                    lemma_append_assoc(w1, s2, rest5);
                                                }
                                            },
                                            Err(_) => {},
                                        }
                                    },
                                    Err(_) => {},
                                }
                            },
                            Err(_) => {},
                        }
                    },
                    Err(_) => {},
                }
            },
            Err(_) => {},
        }
    }
}

impl Materialized for Material {
    type Version = u32;

    type Model = MaterialModel;

    open spec fn model(&self) -> MaterialModel {
        self.body_model()
    }

    open spec fn spec_parse(version: Option<u32>, input: Seq<u8>) -> Parsed<MaterialModel> {
        spec_parse_inclusive_sized::<Material>(version, input)
    }

    open spec fn wire(m: MaterialModel) -> Seq<u8> {
        wire_inclusive_sized::<Material>(m)
    }

    open spec fn encode_error(m: MaterialModel) -> Option<EncodeError> {
        encode_error_inclusive_sized::<Material>(m)
    }

    fn parse_versioned<'a>(version: Option<u32>, input: &'a [u8]) -> (r: Parser<'a, Material>) {
        parse_inclusive_sized::<Material>(version, input)
    }

    /// The record is encoded aside and then written with its size: if it
    /// fails, the output is left as it is.
    fn encode(&self, output: &mut Vec<u8>) -> (r: Result<(), EncodeError>)
        ensures
            r is Err ==> final(output)@ == old(output)@,
    {
        encode_inclusive_sized(output, self)
    }
}

impl Lossless for Material {
    open spec fn faithful(m: MaterialModel) -> bool {
        Material::body_faithful(m)
    }

    proof fn lemma_parse_wire(version: Option<u32>, input: Seq<u8>) {
        lemma_inclusive_parse_wire::<Material>(version, input);
    }
}

impl ReparsableBody for Material {
    open spec fn body_well_formed(m: MaterialModel, version: Option<u32>) -> bool {
        u32::well_formed(m.priority_plane, None)
        && u32::well_formed(m.flags, None)
        && opt_well_formed::<Literal<MATERIAL_SHADER_LEN>>(m.shader, version, 800)
        && m.layers.len() <= u32::MAX && all_well_formed::<Layer>(m.layers, version)
    }

    proof fn lemma_body_wire_parse(m: MaterialModel, version: Option<u32>) {
        let w1 = u32::wire(m.priority_plane);
        let w2 = u32::wire(m.flags);
        let w3 = wire_opt::<Literal<MATERIAL_SHADER_LEN>>(m.shader);
        let w4 = Self::spec_lays_tag().0@;
        let w5 = wire_len_vec::<Layer>(m.layers);
        let u6 = Seq::<u8>::empty();
        let u5 = w5 + u6;
        let u4 = w4 + u5;
        let u3 = w3 + u4;
        let u2 = w2 + u3;
        let u1 = w1 + u2;
        let s4 = w4 + w5;
        let s3 = w3 + s4;
        let s2 = w2 + s3;
        lemma_append_assoc(w4, w5, Seq::<u8>::empty());
        lemma_append_assoc(w3, s4, Seq::<u8>::empty());
        lemma_append_assoc(w2, s3, Seq::<u8>::empty());
        lemma_append_assoc(w1, s2, Seq::<u8>::empty());
        u32::lemma_wire_parse(m.priority_plane, None, u2);
        u32::lemma_wire_parse(m.flags, None, u3);
        lemma_versioned_greater_wire_parse::<Literal<MATERIAL_SHADER_LEN>>(version, 800, m.shader, u4);
        lemma_expect_tag_wire(Self::spec_lays_tag(), u5);
        lemma_len_vec_wire_parse::<Layer>(version, m.layers, u6);
        assert(u1 =~= Self::body_wire(m));
    }
}

impl Reparsable for Material {
    open spec fn well_formed(m: MaterialModel, version: Option<u32>) -> bool {
        Material::body_well_formed(m, version) && Material::body_wire(m).len() + 4 <= u32::MAX
    }

    proof fn lemma_wire_parse(m: MaterialModel, version: Option<u32>, tail: Seq<u8>) {
        lemma_inclusive_wire_parse::<Material>(m, version, tail);
    }
}

} // verus!
