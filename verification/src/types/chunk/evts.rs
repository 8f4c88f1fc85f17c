use crate::encoder::error::Error as EncodeError;
use crate::parser::primitives::{
    lemma_all_parse_wire, lemma_all_wire_parse, parse_all, spec_parse_all, Parsed, Parser,
};
use crate::types::chunk::{
    encode_chunk, encode_error_sized_chunk, lemma_sized_chunk_wire_parse, ReparsableChunk,
    lemma_sized_chunk_parse_wire, parse_chunk, spec_parse_chunk, wire_chunk, Chunk,
    LosslessChunk,
};
use crate::types::chunk::utils::Tag;
use crate::types::event::{EventObject, EventObjectModel};
use crate::types::materialize::{
    all_faithful, all_well_formed, encode_error_all, encode_fixed_vec, models, wire_all,
    LosslessBody, Materialized, ReparsableBody, SizedBody,
};
use vstd::prelude::*;

verus! {

/// The chunk of the event objects.
#[derive(Debug, Clone, PartialEq)]
pub struct Evts {
    pub events: Vec<EventObject>,
}

/// What a value of [`Evts`] stands for in specifications.
pub struct EvtsModel {
    pub events: Seq<EventObjectModel>,
}

impl Chunk for Evts {
    open spec fn spec_tag() -> Tag {
        Tag([0x45, 0x56, 0x54, 0x53])
    }

    fn tag() -> (t: Tag) {
        let t = Tag([0x45, 0x56, 0x54, 0x53]);
        assert(t.0 =~= Self::spec_tag().0);
        t
    }
}

impl SizedBody for Evts {
    type Model = EvtsModel;

    open spec fn body_model(&self) -> EvtsModel {
        EvtsModel { events: models(self.events@) }
    }

    open spec fn spec_parse_body(version: Option<u32>, input: Seq<u8>) -> Parsed<EvtsModel> {
        match spec_parse_all::<EventObject>(version, Seq::empty(), input) {
            Ok((rest, events)) => Ok((rest, EvtsModel { events })),
            Err(e) => Err(e),
        }
    }

    open spec fn body_wire(m: EvtsModel) -> Seq<u8> {
        wire_all::<EventObject>(m.events)
    }

    open spec fn body_encode_error(m: EvtsModel) -> Option<EncodeError> {
        encode_error_all::<EventObject>(m.events)
    }

    fn parse_body<'a>(version: Option<u32>, input: &'a [u8]) -> (r: Parser<'a, Evts>) {
        let (input, events) = parse_all::<EventObject>(version, input)?;
        Ok((input, Evts { events }))
    }

    fn encode_body(&self, output: &mut Vec<u8>) -> (r: Result<(), EncodeError>) {
        encode_fixed_vec(self.events.as_slice(), output)?;
        Ok(())
    }
}

impl LosslessBody for Evts {
    open spec fn body_faithful(m: EvtsModel) -> bool {
        all_faithful::<EventObject>(m.events)
    }

    proof fn lemma_body_parse_wire(version: Option<u32>, input: Seq<u8>) {
        lemma_all_parse_wire::<EventObject>(version, Seq::empty(), input);
        match spec_parse_all::<EventObject>(version, Seq::empty(), input) {
            Ok((rest1, events)) => {
                assert(wire_all::<EventObject>(Seq::<EventObjectModel>::empty()) + input =~= input);
                assert(wire_all::<EventObject>(events) + rest1 =~= wire_all::<EventObject>(events));

            },
            Err(_) => {},
        }
    }
}

impl ReparsableBody for Evts {
    open spec fn body_well_formed(m: EvtsModel, version: Option<u32>) -> bool {
        all_well_formed::<EventObject>(m.events, version)
        && (forall|i: int| 0 <= i < m.events.len() ==> (#[trigger] EventObject::wire(m.events[i])).len() > 0)
    }

    proof fn lemma_body_wire_parse(m: EvtsModel, version: Option<u32>) {
        let w1 = wire_all::<EventObject>(m.events);
        let u2 = Seq::<u8>::empty();
        let u1 = w1 + u2;
        lemma_all_wire_parse::<EventObject>(version, Seq::empty(), m.events);
        assert(Seq::<EventObjectModel>::empty() + m.events =~= m.events);
        assert(u1 =~= Self::body_wire(m));
    }
}

impl ReparsableChunk for Evts {
    open spec fn chunk_well_formed(m: EvtsModel, version: Option<u32>) -> bool {
        Self::body_well_formed(m, version) && Self::body_wire(m).len() <= u32::MAX
    }

    proof fn lemma_chunk_wire_parse(m: EvtsModel, version: Option<u32>) {
        lemma_sized_chunk_wire_parse::<Evts>(m, version);
    }
}

impl Materialized for Evts {
    type Version = u32;

    type Model = EvtsModel;

    open spec fn model(&self) -> EvtsModel {
        self.body_model()
    }

    open spec fn spec_parse(version: Option<u32>, input: Seq<u8>) -> Parsed<EvtsModel> {
        spec_parse_chunk::<Evts>(version, input)
    }

    open spec fn wire(m: EvtsModel) -> Seq<u8> {
        wire_chunk(Self::spec_tag(), Self::body_wire(m))
    }

    open spec fn encode_error(m: EvtsModel) -> Option<EncodeError> {
        encode_error_sized_chunk::<Evts>(m)
    }

    fn parse_versioned<'a>(version: Option<u32>, input: &'a [u8]) -> (r: Parser<'a, Evts>) {
        parse_chunk::<Evts>(version, input)
    }

    fn encode(&self, output: &mut Vec<u8>) -> (r: Result<(), EncodeError>) {
        let mut buff: Vec<u8> = Vec::new();
        self.encode_body(&mut buff)?;
        assert(buff@ =~= Self::body_wire(self.body_model()));
        encode_chunk::<Evts>(output, buff)
    }
}

impl LosslessChunk for Evts {
    open spec fn chunk_faithful(m: EvtsModel) -> bool {
        Self::body_faithful(m)
    }

    proof fn lemma_chunk_parse_wire(version: Option<u32>, span: Seq<u8>) {
        lemma_sized_chunk_parse_wire::<Evts>(version, span);
    }
}

} // verus!
