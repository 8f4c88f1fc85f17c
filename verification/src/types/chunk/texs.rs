use crate::encoder::error::Error as EncodeError;
use crate::parser::primitives::{Parsed, Parser};
use crate::types::chunk::{
    encode_chunk, encode_error_chunk, lemma_fixed_elements_chunk_parse_wire,
    lemma_fixed_elements_chunk_wire_parse, ReparsableChunk, parse_fixed_elements_chunk,
    spec_parse_fixed_elements_chunk, wire_chunk, Chunk, LosslessChunk,
};
use crate::types::chunk::utils::Tag;
use crate::types::materialize::{
    all_faithful, all_well_formed, encode_error_all, encode_fixed_vec, models, wire_all,
    Materialized,
};
use crate::types::texture::{Texture, TextureModel, TEXTURE_SIZE};
use vstd::prelude::*;

verus! {

/// The chunk of the textures.
#[derive(Debug, Clone, PartialEq)]
pub struct Texs {
    pub textures: Vec<Texture>,
}

/// What a value of [`Texs`] stands for in specifications.
pub struct TexsModel {
    pub textures: Seq<TextureModel>,
}

impl Chunk for Texs {
    open spec fn spec_tag() -> Tag {
        Tag([0x54, 0x45, 0x58, 0x53])
    }

    fn tag() -> (t: Tag) {
        let t = Tag([0x54, 0x45, 0x58, 0x53]);
        assert(t.0 =~= Self::spec_tag().0);
        t
    }
}

impl Materialized for Texs {
    type Version = u32;

    type Model = TexsModel;

    open spec fn model(&self) -> TexsModel {
        TexsModel { textures: models(self.textures@) }
    }

    open spec fn spec_parse(version: Option<u32>, input: Seq<u8>) -> Parsed<TexsModel> {
        match spec_parse_fixed_elements_chunk::<Texture>(TEXTURE_SIZE as nat, Self::spec_tag(), input) {
            Ok((rest, textures)) => Ok((rest, TexsModel { textures })),
            Err(e) => Err(e),
        }
    }

    open spec fn wire(m: TexsModel) -> Seq<u8> {
        wire_chunk(Self::spec_tag(), wire_all::<Texture>(m.textures))
    }

    open spec fn encode_error(m: TexsModel) -> Option<EncodeError> {
        match encode_error_all::<Texture>(m.textures) {
            Some(e) => Some(e),
            None => encode_error_chunk(wire_all::<Texture>(m.textures)),
        }
    }

    fn parse_versioned<'a>(version: Option<u32>, input: &'a [u8]) -> (r: Parser<'a, Texs>) {
        let (input, textures) = parse_fixed_elements_chunk::<TEXTURE_SIZE, Texs, Texture>(input)?;
        Ok((input, Texs { textures }))
    }

    fn encode(&self, output: &mut Vec<u8>) -> (r: Result<(), EncodeError>) {
        let mut buff: Vec<u8> = Vec::new();
        encode_fixed_vec(self.textures.as_slice(), &mut buff)?;
        assert(buff@ =~= wire_all::<Texture>(models(self.textures@)));
        encode_chunk::<Texs>(output, buff)
    }
}

impl LosslessChunk for Texs {
    open spec fn chunk_faithful(m: TexsModel) -> bool {
        all_faithful::<Texture>(m.textures)
    }

    proof fn lemma_chunk_parse_wire(version: Option<u32>, span: Seq<u8>) {
        lemma_fixed_elements_chunk_parse_wire::<Texture>(TEXTURE_SIZE as nat, Self::spec_tag(), span);
    }
}

impl ReparsableChunk for Texs {
    open spec fn chunk_well_formed(m: TexsModel, version: Option<u32>) -> bool {
        all_well_formed::<Texture>(m.textures, None)
        && m.textures.len() * TEXTURE_SIZE <= u32::MAX
        && (forall|i: int| 0 <= i < m.textures.len() ==> (#[trigger] Texture::wire(m.textures[i])).len() == TEXTURE_SIZE)
    }

    proof fn lemma_chunk_wire_parse(m: TexsModel, version: Option<u32>) {
        lemma_fixed_elements_chunk_wire_parse::<Texture>(TEXTURE_SIZE as nat, Self::spec_tag(), m.textures);
    }
}

} // verus!
