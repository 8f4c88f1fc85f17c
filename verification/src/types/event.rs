use crate::encoder::error::Error as EncodeError;
use crate::encoder::primitives::{push_le_u32, spec_u32_to_le_bytes};
use crate::parser::primitives::{le_u32, spec_le_u32, Parsed, Parser};
use crate::types::chunk::utils::{lemma_expect_tag, lemma_expect_tag_wire, spec_expect_tag, Tag};
use crate::types::materialize::{
    all_faithful, all_well_formed, encode_error_all, encode_fixed_vec, lemma_append_assoc,
    lemma_count_parse_wire, lemma_count_wire_parse, models, parse_fixed_vec, spec_parse_count,
    wire_all, Lossless, Materialized, Reparsable,
};
use crate::types::node::{Node, NodeModel};
use vstd::prelude::*;

verus! {

/// An object that fires events at given frames.
#[derive(Debug, Clone, PartialEq)]
pub struct EventObject {
    pub node: Node,
    pub global_sequence_id: u32,
    pub tracks: Vec<u32>,
}

/// What a value of [`EventObject`] stands for in specifications.
pub struct EventObjectModel {
    pub node: NodeModel,
    pub global_sequence_id: u32,
    pub tracks: Seq<u32>,
}

impl EventObject {
    /// The tag `KEVT`, in specifications.
    pub open spec fn spec_kevt() -> Tag {
        Tag([0x4B, 0x45, 0x56, 0x54])
    }

    /// The tag `KEVT` that stands before a part of the record.
    pub fn kevt() -> (t: Tag)
        ensures
            t == Self::spec_kevt(),
    {
        let t = Tag([0x4B, 0x45, 0x56, 0x54]);
        assert(t.0 =~= Self::spec_kevt().0);
        t
    }
}

impl Materialized for EventObject {
    type Version = u32;

    type Model = EventObjectModel;

    open spec fn model(&self) -> EventObjectModel {
        EventObjectModel {
            node: self.node.model(),
            global_sequence_id: self.global_sequence_id.model(),
            tracks: models(self.tracks@),
        }
    }

    open spec fn spec_parse(version: Option<u32>, input: Seq<u8>) -> Parsed<EventObjectModel> {
        match Node::spec_parse(None, input) {
            Ok((rest, node)) => match spec_expect_tag(Self::spec_kevt(), rest) {
                Ok((rest, _)) => match spec_le_u32(rest) {
                    Ok((rest, tracks_count)) => match u32::spec_parse(None, rest) {
                        Ok((rest, global_sequence_id)) => match spec_parse_count::<u32>(None, tracks_count as nat, Seq::empty(), rest) {
                            Ok((rest, tracks)) => Ok((rest, EventObjectModel { node, global_sequence_id, tracks })),
                            Err(e) => Err(e),
                        },
                        Err(e) => Err(e),
                    },
                    Err(e) => Err(e),
                },
                Err(e) => Err(e),
            },
            Err(e) => Err(e),
        }
    }

    open spec fn wire(m: EventObjectModel) -> Seq<u8> {
        Node::wire(m.node) + (Self::spec_kevt().0@ + (spec_u32_to_le_bytes(m.tracks.len() as u32) + (u32::wire(m.global_sequence_id) + (wire_all::<u32>(m.tracks)))))
    }

    open spec fn encode_error(m: EventObjectModel) -> Option<EncodeError> {
        match Node::encode_error(m.node) {
            Some(e) => Some(e),
            None => match (if m.tracks.len() > u32::MAX {
                Some(EncodeError::SizeUintOverflow(m.tracks.len() as usize))
            } else {
                None
            }) {
                Some(e) => Some(e),
                None => match u32::encode_error(m.global_sequence_id) {
                    Some(e) => Some(e),
                    None => encode_error_all::<u32>(m.tracks),
                },
            },
        }
    }

    fn parse_versioned<'a>(version: Option<u32>, input: &'a [u8]) -> (r: Parser<'a, EventObject>) {
        let (input, node) = Node::parse(input)?;
        let (input, _) = Self::kevt().expect(input)?;
        let (input, tracks_count) = le_u32(input)?;
        let (input, global_sequence_id) = u32::parse(input)?;
        let (input, tracks) = parse_fixed_vec::<u32>(tracks_count as usize, input)?;
        Ok((input, EventObject { node, global_sequence_id, tracks }))
    }

    fn encode(&self, output: &mut Vec<u8>) -> (r: Result<(), EncodeError>) {
        let ghost p0 = output@;
        self.node.encode(output)?;
        let ghost p1 = output@;
        Self::kevt().encode(output)?;
        let ghost p2 = output@;
        if self.tracks.len() > u32::MAX as usize {
            return Err(EncodeError::SizeUintOverflow(self.tracks.len()));
        }
        push_le_u32(self.tracks.len() as u32, output);
        let ghost p3 = output@;
        self.global_sequence_id.encode(output)?;
        let ghost p4 = output@;
        encode_fixed_vec(self.tracks.as_slice(), output)?;
        proof {
            let m = self.model();
            let w1 = Node::wire(m.node);
            let w2 = Self::spec_kevt().0@;
            let w3 = spec_u32_to_le_bytes(m.tracks.len() as u32);
            let w4 = u32::wire(m.global_sequence_id);
            let w5 = wire_all::<u32>(m.tracks);
            let s4 = w4 + w5;
            let s3 = w3 + s4;
            let s2 = w2 + s3;
            lemma_append_assoc(p3, w4, w5);
            lemma_append_assoc(p2, w3, s4);
            lemma_append_assoc(p1, w2, s3);
            lemma_append_assoc(p0, w1, s2);
        }
        Ok(())
    }
}

impl Lossless for EventObject {
    open spec fn faithful(m: EventObjectModel) -> bool {
        Node::faithful(m.node) && u32::faithful(m.global_sequence_id) && all_faithful::<u32>(m.tracks)
    }

    proof fn lemma_parse_wire(version: Option<u32>, input: Seq<u8>) {
        Node::lemma_parse_wire(None, input);
        match Node::spec_parse(None, input) {
            Ok((rest1, node)) => {
                assert(Node::faithful(node) ==> Node::encode_error(node) is None
                    && Node::wire(node) + rest1 == input);
                lemma_expect_tag(Self::spec_kevt(), rest1);
                match spec_expect_tag(Self::spec_kevt(), rest1) {
                    Ok((rest2, _)) => {
                        assert(Self::spec_kevt().0@ + rest2 == rest1);
                        u32::lemma_parse_wire(None, rest2);
                        match spec_le_u32(rest2) {
                            Ok((rest3, tracks_count)) => {
                                u32::lemma_parse_wire(None, rest3);
                                match u32::spec_parse(None, rest3) {
                                    Ok((rest4, global_sequence_id)) => {
                                        assert(u32::faithful(global_sequence_id) ==> u32::encode_error(global_sequence_id) is None
                                            && u32::wire(global_sequence_id) + rest4 == rest3);
                                        lemma_count_parse_wire::<u32>(None, tracks_count as nat, Seq::empty(), rest4);
                                        match spec_parse_count::<u32>(None, tracks_count as nat, Seq::empty(), rest4) {
                                            Ok((rest5, tracks)) => {
                                                assert(wire_all::<u32>(Seq::<u32>::empty()) + rest4 =~= rest4);
                                                let m = EventObjectModel { node, global_sequence_id, tracks };
                                                if Self::faithful(m) {
                                                    let w1 = Node::wire(m.node);
                                                    let w2 = Self::spec_kevt().0@;
                                                    let w3 = spec_u32_to_le_bytes(m.tracks.len() as u32);
                                                    let w4 = u32::wire(m.global_sequence_id);
                                                    let w5 = wire_all::<u32>(m.tracks);
                                                    let s4 = w4 + w5;
                                                    let s3 = w3 + s4;
                                                    let s2 = w2 + s3;
                                                    lemma_append_assoc(w4, w5, rest5);
                                                    lemma_append_assoc(w3, s4, rest5);
                                                    lemma_append_assoc(w2, s3, rest5);
                                                    lemma_append_assoc(w1, s2, rest5);
                                                }
                                            },
                                            Err(_) => {},
                                        }
                                    },
                                    Err(_) => {},
                                }
                            },
                            Err(_) => {},
                        }
                    },
                    Err(_) => {},
                }
            },
            Err(_) => {},
        }
    }
}

impl Reparsable for EventObject {
    open spec fn well_formed(m: EventObjectModel, version: Option<u32>) -> bool {
        Node::well_formed(m.node, None)
        && m.tracks.len() <= u32::MAX
        && u32::well_formed(m.global_sequence_id, None)
        && all_well_formed::<u32>(m.tracks, None)
    }

    proof fn lemma_wire_parse(m: EventObjectModel, version: Option<u32>, tail: Seq<u8>) {
        let w1 = Node::wire(m.node);
        let w2 = Self::spec_kevt().0@;
        let w3 = spec_u32_to_le_bytes(m.tracks.len() as u32);
        let w4 = u32::wire(m.global_sequence_id);
        let w5 = wire_all::<u32>(m.tracks);
        let u6 = tail;
        let u5 = w5 + u6;
        let u4 = w4 + u5;
        let u3 = w3 + u4;
        let u2 = w2 + u3;
        let u1 = w1 + u2;
        let s4 = w4 + w5;
        let s3 = w3 + s4;
        let s2 = w2 + s3;
        lemma_append_assoc(w4, w5, tail);
        lemma_append_assoc(w3, s4, tail);
        lemma_append_assoc(w2, s3, tail);
        lemma_append_assoc(w1, s2, tail);
        Node::lemma_wire_parse(m.node, None, u2);
        lemma_expect_tag_wire(Self::spec_kevt(), u3);
        u32::lemma_wire_parse(m.tracks.len() as u32, None, u4);
        u32::lemma_wire_parse(m.global_sequence_id, None, u5);
        lemma_count_wire_parse::<u32>(None, Seq::empty(), m.tracks, u6);
        assert(Seq::<u32>::empty() + m.tracks =~= m.tracks);
    }
}

} // verus!
