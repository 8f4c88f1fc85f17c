use crate::encoder::error::Error as EncodeError;
use crate::parser::primitives::{Parsed, Parser};
use crate::types::materialize::{lemma_append_assoc, Lossless, Materialized, Reparsable};
use crate::types::node::{Node, NodeModel};
use vstd::prelude::*;

verus! {

/// A bone of the skeleton: a node, and the geoset and geoset animation that
/// it moves.
#[derive(Debug, Clone, PartialEq)]
pub struct Bone {
    pub node: Node,
    pub geoset_id: u32,
    pub geoset_animation_id: u32,
}

/// What a value of [`Bone`] stands for in specifications.
pub struct BoneModel {
    pub node: NodeModel,
    pub geoset_id: u32,
    pub geoset_animation_id: u32,
}

impl Materialized for Bone {
    type Version = u32;

    type Model = BoneModel;

    open spec fn model(&self) -> BoneModel {
        BoneModel {
            node: self.node.model(),
            geoset_id: self.geoset_id.model(),
            geoset_animation_id: self.geoset_animation_id.model(),
        }
    }

    open spec fn spec_parse(version: Option<u32>, input: Seq<u8>) -> Parsed<BoneModel> {
        match Node::spec_parse(None, input) {
            Ok((rest, node)) => match u32::spec_parse(None, rest) {
                Ok((rest, geoset_id)) => match u32::spec_parse(None, rest) {
                    Ok((rest, geoset_animation_id)) => Ok((rest, BoneModel { node, geoset_id, geoset_animation_id })),
                    Err(e) => Err(e),
                },
                Err(e) => Err(e),
            },
            Err(e) => Err(e),
        }
    }

    open spec fn wire(m: BoneModel) -> Seq<u8> {
        Node::wire(m.node) + (u32::wire(m.geoset_id) + (u32::wire(m.geoset_animation_id)))
    }

    open spec fn encode_error(m: BoneModel) -> Option<EncodeError> {
        match Node::encode_error(m.node) {
            Some(e) => Some(e),
            None => match u32::encode_error(m.geoset_id) {
                Some(e) => Some(e),
                None => u32::encode_error(m.geoset_animation_id),
            },
        }
    }

    fn parse_versioned<'a>(version: Option<u32>, input: &'a [u8]) -> (r: Parser<'a, Bone>) {
        let (input, node) = Node::parse(input)?;
        let (input, geoset_id) = u32::parse(input)?;
        let (input, geoset_animation_id) = u32::parse(input)?;
        Ok((input, Bone { node, geoset_id, geoset_animation_id }))
    }

    fn encode(&self, output: &mut Vec<u8>) -> (r: Result<(), EncodeError>) {
        let ghost p0 = output@;
        self.node.encode(output)?;
        let ghost p1 = output@;
        self.geoset_id.encode(output)?;
        let ghost p2 = output@;
        self.geoset_animation_id.encode(output)?;
        proof {
            let m = self.model();
            let w1 = Node::wire(m.node);
            let w2 = u32::wire(m.geoset_id);
            let w3 = u32::wire(m.geoset_animation_id);
            let s2 = w2 + w3;
            lemma_append_assoc(p1, w2, w3);
            lemma_append_assoc(p0, w1, s2);
        }
        Ok(())
    }
}

impl Lossless for Bone {
    open spec fn faithful(m: BoneModel) -> bool {
        Node::faithful(m.node) && u32::faithful(m.geoset_id) && u32::faithful(m.geoset_animation_id)
    }

    proof fn lemma_parse_wire(version: Option<u32>, input: Seq<u8>) {
        Node::lemma_parse_wire(None, input);
        match Node::spec_parse(None, input) {
            Ok((rest1, node)) => {
                assert(Node::faithful(node) ==> Node::encode_error(node) is None
                    && Node::wire(node) + rest1 == input);
                u32::lemma_parse_wire(None, rest1);
                match u32::spec_parse(None, rest1) {
                    Ok((rest2, geoset_id)) => {
                        assert(u32::faithful(geoset_id) ==> u32::encode_error(geoset_id) is None
                            && u32::wire(geoset_id) + rest2 == rest1);
                        u32::lemma_parse_wire(None, rest2);
                        match u32::spec_parse(None, rest2) {
                            Ok((rest3, geoset_animation_id)) => {
                                assert(u32::faithful(geoset_animation_id) ==> u32::encode_error(geoset_animation_id) is None
                                    && u32::wire(geoset_animation_id) + rest3 == rest2);
                                let m = BoneModel { node, geoset_id, geoset_animation_id };
                                if Self::faithful(m) {
                                    let w1 = Node::wire(m.node);
                                    let w2 = u32::wire(m.geoset_id);
                                    let w3 = u32::wire(m.geoset_animation_id);
                                    let s2 = w2 + w3;
                                    lemma_append_assoc(w2, w3, rest3);
                                    lemma_append_assoc(w1, s2, rest3);
                                }
                            },
                            Err(_) => {},
                        }
                    },
                    Err(_) => {},
                }
            },
            Err(_) => {},
        }
    }
}

impl Reparsable for Bone {
    open spec fn well_formed(m: BoneModel, version: Option<u32>) -> bool {
        Node::well_formed(m.node, None)
        && u32::well_formed(m.geoset_id, None)
        && u32::well_formed(m.geoset_animation_id, None)
    }

    proof fn lemma_wire_parse(m: BoneModel, version: Option<u32>, tail: Seq<u8>) {
        let w1 = Node::wire(m.node);
        let w2 = u32::wire(m.geoset_id);
        let w3 = u32::wire(m.geoset_animation_id);
        let u4 = tail;
        let u3 = w3 + u4;
        let u2 = w2 + u3;
        let u1 = w1 + u2;
        let s2 = w2 + w3;
        lemma_append_assoc(w2, w3, tail);
        lemma_append_assoc(w1, s2, tail);
        Node::lemma_wire_parse(m.node, None, u2);
        u32::lemma_wire_parse(m.geoset_id, None, u3);
        u32::lemma_wire_parse(m.geoset_animation_id, None, u4);
    }
}

} // verus!
