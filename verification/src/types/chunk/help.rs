use crate::encoder::error::Error as EncodeError;
use crate::parser::primitives::{
    lemma_all_parse_wire, lemma_all_wire_parse, parse_all, spec_parse_all, Parsed, Parser,
};
use crate::types::chunk::{
    encode_chunk, encode_error_sized_chunk, lemma_sized_chunk_wire_parse, ReparsableChunk,
    lemma_sized_chunk_parse_wire, parse_chunk, spec_parse_chunk, wire_chunk, Chunk,
    LosslessChunk,
};
use crate::types::chunk::utils::Tag;
use crate::types::materialize::{
    all_faithful, all_well_formed, encode_error_all, encode_fixed_vec, models, wire_all,
    LosslessBody, Materialized, ReparsableBody, SizedBody,
};
use crate::types::node::{Node, NodeModel};
use vstd::prelude::*;

verus! {

/// The chunk of the helpers: nodes that are nothing but nodes.
#[derive(Debug, Clone, PartialEq)]
pub struct Help {
    pub helpers: Vec<Node>,
}

/// What a value of [`Help`] stands for in specifications.
pub struct HelpModel {
    pub helpers: Seq<NodeModel>,
}

impl Chunk for Help {
    open spec fn spec_tag() -> Tag {
        Tag([0x48, 0x45, 0x4C, 0x50])
    }

    fn tag() -> (t: Tag) {
        let t = Tag([0x48, 0x45, 0x4C, 0x50]);
        assert(t.0 =~= Self::spec_tag().0);
        t
    }
}

impl SizedBody for Help {
    type Model = HelpModel;

    open spec fn body_model(&self) -> HelpModel {
        HelpModel { helpers: models(self.helpers@) }
    }

    open spec fn spec_parse_body(version: Option<u32>, input: Seq<u8>) -> Parsed<HelpModel> {
        match spec_parse_all::<Node>(version, Seq::empty(), input) {
            Ok((rest, helpers)) => Ok((rest, HelpModel { helpers })),
            Err(e) => Err(e),
        }
    }

    open spec fn body_wire(m: HelpModel) -> Seq<u8> {
        wire_all::<Node>(m.helpers)
    }

    open spec fn body_encode_error(m: HelpModel) -> Option<EncodeError> {
        encode_error_all::<Node>(m.helpers)
    }

    fn parse_body<'a>(version: Option<u32>, input: &'a [u8]) -> (r: Parser<'a, Help>) {
        let (input, helpers) = parse_all::<Node>(version, input)?;
        Ok((input, Help { helpers }))
    }

    fn encode_body(&self, output: &mut Vec<u8>) -> (r: Result<(), EncodeError>) {
        encode_fixed_vec(self.helpers.as_slice(), output)?;
        Ok(())
    }
}

impl LosslessBody for Help {
    open spec fn body_faithful(m: HelpModel) -> bool {
        all_faithful::<Node>(m.helpers)
    }

    proof fn lemma_body_parse_wire(version: Option<u32>, input: Seq<u8>) {
        lemma_all_parse_wire::<Node>(version, Seq::empty(), input);
        match spec_parse_all::<Node>(version, Seq::empty(), input) {
            Ok((rest1, helpers)) => {
                assert(wire_all::<Node>(Seq::<NodeModel>::empty()) + input =~= input);
                assert(wire_all::<Node>(helpers) + rest1 =~= wire_all::<Node>(helpers));

            },
            Err(_) => {},
        }
    }
}

impl ReparsableBody for Help {
    open spec fn body_well_formed(m: HelpModel, version: Option<u32>) -> bool {
        all_well_formed::<Node>(m.helpers, version)
        && (forall|i: int| 0 <= i < m.helpers.len() ==> (#[trigger] Node::wire(m.helpers[i])).len() > 0)
    }

    proof fn lemma_body_wire_parse(m: HelpModel, version: Option<u32>) {
        let w1 = wire_all::<Node>(m.helpers);
        let u2 = Seq::<u8>::empty();
        let u1 = w1 + u2;
        lemma_all_wire_parse::<Node>(version, Seq::empty(), m.helpers);
        assert(Seq::<NodeModel>::empty() + m.helpers =~= m.helpers);
        assert(u1 =~= Self::body_wire(m));
    }
}

impl ReparsableChunk for Help {
    open spec fn chunk_well_formed(m: HelpModel, version: Option<u32>) -> bool {
        Self::body_well_formed(m, version) && Self::body_wire(m).len() <= u32::MAX
    }

    proof fn lemma_chunk_wire_parse(m: HelpModel, version: Option<u32>) {
        lemma_sized_chunk_wire_parse::<Help>(m, version);
    }
}

impl Materialized for Help {
    type Version = u32;

    type Model = HelpModel;

    open spec fn model(&self) -> HelpModel {
        self.body_model()
    }

    open spec fn spec_parse(version: Option<u32>, input: Seq<u8>) -> Parsed<HelpModel> {
        spec_parse_chunk::<Help>(version, input)
    }

    open spec fn wire(m: HelpModel) -> Seq<u8> {
        wire_chunk(Self::spec_tag(), Self::body_wire(m))
    }

    open spec fn encode_error(m: HelpModel) -> Option<EncodeError> {
        encode_error_sized_chunk::<Help>(m)
    }

    fn parse_versioned<'a>(version: Option<u32>, input: &'a [u8]) -> (r: Parser<'a, Help>) {
        parse_chunk::<Help>(version, input)
    }

    fn encode(&self, output: &mut Vec<u8>) -> (r: Result<(), EncodeError>) {
        let mut buff: Vec<u8> = Vec::new();
        self.encode_body(&mut buff)?;
        assert(buff@ =~= Self::body_wire(self.body_model()));
        encode_chunk::<Help>(output, buff)
    }
}

impl LosslessChunk for Help {
    open spec fn chunk_faithful(m: HelpModel) -> bool {
        Self::body_faithful(m)
    }

    proof fn lemma_chunk_parse_wire(version: Option<u32>, span: Seq<u8>) {
        lemma_sized_chunk_parse_wire::<Help>(version, span);
    }
}

} // verus!
