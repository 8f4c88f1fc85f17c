use crate::encoder::error::Error as EncodeError;
use crate::parser::primitives::{
    lemma_all_parse_wire, lemma_all_wire_parse, parse_all, spec_parse_all, Parsed, Parser,
};
use crate::types::chunk::{
    encode_chunk, encode_error_sized_chunk, lemma_sized_chunk_wire_parse, ReparsableChunk,
    lemma_sized_chunk_parse_wire, parse_chunk, spec_parse_chunk, wire_chunk, Chunk,
    LosslessChunk,
};
use crate::types::chunk::utils::Tag;
use crate::types::materialize::{
    all_faithful, all_well_formed, encode_error_all, encode_fixed_vec, models, wire_all,
    LosslessBody, Materialized, ReparsableBody, SizedBody,
};
use crate::types::texture::{TextureAnimation, TextureAnimationModel};
use vstd::prelude::*;

verus! {

/// The chunk of the texture animations.
#[derive(Debug, Clone, PartialEq)]
pub struct Txan {
    pub animations: Vec<TextureAnimation>,
}

/// What a value of [`Txan`] stands for in specifications.
pub struct TxanModel {
    pub animations: Seq<TextureAnimationModel>,
}

impl Chunk for Txan {
    open spec fn spec_tag() -> Tag {
        Tag([0x54, 0x58, 0x41, 0x4E])
    }

    fn tag() -> (t: Tag) {
        let t = Tag([0x54, 0x58, 0x41, 0x4E]);
        assert(t.0 =~= Self::spec_tag().0);
        t
    }
}

impl SizedBody for Txan {
    type Model = TxanModel;

    open spec fn body_model(&self) -> TxanModel {
        TxanModel { animations: models(self.animations@) }
    }

    open spec fn spec_parse_body(version: Option<u32>, input: Seq<u8>) -> Parsed<TxanModel> {
        match spec_parse_all::<TextureAnimation>(version, Seq::empty(), input) {
            Ok((rest, animations)) => Ok((rest, TxanModel { animations })),
            Err(e) => Err(e),
        }
    }

    open spec fn body_wire(m: TxanModel) -> Seq<u8> {
        wire_all::<TextureAnimation>(m.animations)
    }

    open spec fn body_encode_error(m: TxanModel) -> Option<EncodeError> {
        encode_error_all::<TextureAnimation>(m.animations)
    }

    fn parse_body<'a>(version: Option<u32>, input: &'a [u8]) -> (r: Parser<'a, Txan>) {
        let (input, animations) = parse_all::<TextureAnimation>(version, input)?;
        Ok((input, Txan { animations }))
    }

    fn encode_body(&self, output: &mut Vec<u8>) -> (r: Result<(), EncodeError>) {
        encode_fixed_vec(self.animations.as_slice(), output)?;
        Ok(())
    }
}

impl LosslessBody for Txan {
    open spec fn body_faithful(m: TxanModel) -> bool {
        all_faithful::<TextureAnimation>(m.animations)
    }

    proof fn lemma_body_parse_wire(version: Option<u32>, input: Seq<u8>) {
        lemma_all_parse_wire::<TextureAnimation>(version, Seq::empty(), input);
        match spec_parse_all::<TextureAnimation>(version, Seq::empty(), input) {
            Ok((rest1, animations)) => {
                assert(wire_all::<TextureAnimation>(Seq::<TextureAnimationModel>::empty()) + input =~= input);
                assert(wire_all::<TextureAnimation>(animations) + rest1 =~= wire_all::<TextureAnimation>(animations));

            },
            Err(_) => {},
        }
    }
}

impl ReparsableBody for Txan {
    open spec fn body_well_formed(m: TxanModel, version: Option<u32>) -> bool {
        all_well_formed::<TextureAnimation>(m.animations, version)
        && (forall|i: int| 0 <= i < m.animations.len() ==> (#[trigger] TextureAnimation::wire(m.animations[i])).len() > 0)
    }

    proof fn lemma_body_wire_parse(m: TxanModel, version: Option<u32>) {
        let w1 = wire_all::<TextureAnimation>(m.animations);
        let u2 = Seq::<u8>::empty();
        let u1 = w1 + u2;
        lemma_all_wire_parse::<TextureAnimation>(version, Seq::empty(), m.animations);
        assert(Seq::<TextureAnimationModel>::empty() + m.animations =~= m.animations);
        assert(u1 =~= Self::body_wire(m));
    }
}

impl ReparsableChunk for Txan {
    open spec fn chunk_well_formed(m: TxanModel, version: Option<u32>) -> bool {
        Self::body_well_formed(m, version) && Self::body_wire(m).len() <= u32::MAX
    }

    proof fn lemma_chunk_wire_parse(m: TxanModel, version: Option<u32>) {
        lemma_sized_chunk_wire_parse::<Txan>(m, version);
    }
}

impl Materialized for Txan {
    type Version = u32;

    type Model = TxanModel;

    open spec fn model(&self) -> TxanModel {
        self.body_model()
    }

    open spec fn spec_parse(version: Option<u32>, input: Seq<u8>) -> Parsed<TxanModel> {
        spec_parse_chunk::<Txan>(version, input)
    }

    open spec fn wire(m: TxanModel) -> Seq<u8> {
        wire_chunk(Self::spec_tag(), Self::body_wire(m))
    }

    open spec fn encode_error(m: TxanModel) -> Option<EncodeError> {
        encode_error_sized_chunk::<Txan>(m)
    }

    fn parse_versioned<'a>(version: Option<u32>, input: &'a [u8]) -> (r: Parser<'a, Txan>) {
        parse_chunk::<Txan>(version, input)
    }

    fn encode(&self, output: &mut Vec<u8>) -> (r: Result<(), EncodeError>) {
        let mut buff: Vec<u8> = Vec::new();
        self.encode_body(&mut buff)?;
        assert(buff@ =~= Self::body_wire(self.body_model()));
        encode_chunk::<Txan>(output, buff)
    }
}

impl LosslessChunk for Txan {
    open spec fn chunk_faithful(m: TxanModel) -> bool {
        Self::body_faithful(m)
    }

    proof fn lemma_chunk_parse_wire(version: Option<u32>, span: Seq<u8>) {
        lemma_sized_chunk_parse_wire::<Txan>(version, span);
    }
}

} // verus!
