use crate::encoder::error::Error as EncodeError;
use crate::parser::primitives::{
    lemma_all_parse_wire, lemma_all_wire_parse, parse_all, spec_parse_all, Parsed, Parser,
};
use crate::types::attachment::{Attachment, AttachmentModel};
use crate::types::chunk::{
    encode_chunk, encode_error_sized_chunk, lemma_sized_chunk_wire_parse, ReparsableChunk,
    lemma_sized_chunk_parse_wire, parse_chunk, spec_parse_chunk, wire_chunk, Chunk,
    LosslessChunk,
};
use crate::types::chunk::utils::Tag;
use crate::types::materialize::{
    all_faithful, all_well_formed, encode_error_all, encode_fixed_vec, models, wire_all,
    LosslessBody, Materialized, ReparsableBody, SizedBody,
};
use vstd::prelude::*;

verus! {

/// The chunk of the attachments.
#[derive(Debug, Clone, PartialEq)]
pub struct Atch {
    pub attachments: Vec<Attachment>,
}

/// What a value of [`Atch`] stands for in specifications.
pub struct AtchModel {
    pub attachments: Seq<AttachmentModel>,
}

impl Chunk for Atch {
    open spec fn spec_tag() -> Tag {
        Tag([0x41, 0x54, 0x43, 0x48])
    }

    fn tag() -> (t: Tag) {
        let t = Tag([0x41, 0x54, 0x43, 0x48]);
        assert(t.0 =~= Self::spec_tag().0);
        t
    }
}

impl SizedBody for Atch {
    type Model = AtchModel;

    open spec fn body_model(&self) -> AtchModel {
        AtchModel { attachments: models(self.attachments@) }
    }

    open spec fn spec_parse_body(version: Option<u32>, input: Seq<u8>) -> Parsed<AtchModel> {
        match spec_parse_all::<Attachment>(version, Seq::empty(), input) {
            Ok((rest, attachments)) => Ok((rest, AtchModel { attachments })),
            Err(e) => Err(e),
        }
    }

    open spec fn body_wire(m: AtchModel) -> Seq<u8> {
        wire_all::<Attachment>(m.attachments)
    }

    open spec fn body_encode_error(m: AtchModel) -> Option<EncodeError> {
        encode_error_all::<Attachment>(m.attachments)
    }

    fn parse_body<'a>(version: Option<u32>, input: &'a [u8]) -> (r: Parser<'a, Atch>) {
        let (input, attachments) = parse_all::<Attachment>(version, input)?;
        Ok((input, Atch { attachments }))
    }

    fn encode_body(&self, output: &mut Vec<u8>) -> (r: Result<(), EncodeError>) {
        encode_fixed_vec(self.attachments.as_slice(), output)?;
        Ok(())
    }
}

impl LosslessBody for Atch {
    open spec fn body_faithful(m: AtchModel) -> bool {
        all_faithful::<Attachment>(m.attachments)
    }

    proof fn lemma_body_parse_wire(version: Option<u32>, input: Seq<u8>) {
        lemma_all_parse_wire::<Attachment>(version, Seq::empty(), input);
        match spec_parse_all::<Attachment>(version, Seq::empty(), input) {
            Ok((rest1, attachments)) => {
                assert(wire_all::<Attachment>(Seq::<AttachmentModel>::empty()) + input =~= input);
                assert(wire_all::<Attachment>(attachments) + rest1 =~= wire_all::<Attachment>(attachments));

            },
            Err(_) => {},
        }
    }
}

impl ReparsableBody for Atch {
    open spec fn body_well_formed(m: AtchModel, version: Option<u32>) -> bool {
        all_well_formed::<Attachment>(m.attachments, version)
        && (forall|i: int| 0 <= i < m.attachments.len() ==> (#[trigger] Attachment::wire(m.attachments[i])).len() > 0)
    }

    proof fn lemma_body_wire_parse(m: AtchModel, version: Option<u32>) {
        let w1 = wire_all::<Attachment>(m.attachments);
        let u2 = Seq::<u8>::empty();
        let u1 = w1 + u2;
        lemma_all_wire_parse::<Attachment>(version, Seq::empty(), m.attachments);
        assert(Seq::<AttachmentModel>::empty() + m.attachments =~= m.attachments);
        assert(u1 =~= Self::body_wire(m));
    }
}

impl ReparsableChunk for Atch {
    open spec fn chunk_well_formed(m: AtchModel, version: Option<u32>) -> bool {
        Self::body_well_formed(m, version) && Self::body_wire(m).len() <= u32::MAX
    }

    proof fn lemma_chunk_wire_parse(m: AtchModel, version: Option<u32>) {
        lemma_sized_chunk_wire_parse::<Atch>(m, version);
    }
}

impl Materialized for Atch {
    type Version = u32;

    type Model = AtchModel;

    open spec fn model(&self) -> AtchModel {
        self.body_model()
    }

    open spec fn spec_parse(version: Option<u32>, input: Seq<u8>) -> Parsed<AtchModel> {
        spec_parse_chunk::<Atch>(version, input)
    }

    open spec fn wire(m: AtchModel) -> Seq<u8> {
        wire_chunk(Self::spec_tag(), Self::body_wire(m))
    }

    open spec fn encode_error(m: AtchModel) -> Option<EncodeError> {
        encode_error_sized_chunk::<Atch>(m)
    }

    fn parse_versioned<'a>(version: Option<u32>, input: &'a [u8]) -> (r: Parser<'a, Atch>) {
        parse_chunk::<Atch>(version, input)
    }

    fn encode(&self, output: &mut Vec<u8>) -> (r: Result<(), EncodeError>) {
        let mut buff: Vec<u8> = Vec::new();
        self.encode_body(&mut buff)?;
        assert(buff@ =~= Self::body_wire(self.body_model()));
        encode_chunk::<Atch>(output, buff)
    }
}

impl LosslessChunk for Atch {
    open spec fn chunk_faithful(m: AtchModel) -> bool {
        Self::body_faithful(m)
    }

    proof fn lemma_chunk_parse_wire(version: Option<u32>, span: Seq<u8>) {
        lemma_sized_chunk_parse_wire::<Atch>(version, span);
    }
}

} // verus!
