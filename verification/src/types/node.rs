use crate::encoder::error::Error as EncodeError;
use crate::encoder::primitives::{push_le_u32, spec_u32_to_le_bytes};
use crate::parser::error::MdxParseError;
use crate::parser::primitives::{le_u32, spec_le_u32, Parsed, Parser};
use crate::types::chunk::{
    encode_error_slots, encode_slots, lemma_contains_front, lemma_tagged_parse_wire,
    lemma_tagged_wire_parse, order_of, opt_seq, parse_tagged, record_tag, refill_all,
    slots_faithful, spec_parse_tagged, wire_slots, BlockStep, Chunk, LosslessBlocks,
    OrderedSlots, Replay, ReparsableBlocks, TaggedBlock, TaggedBlocks,
};
use crate::types::chunk::utils::{lemma_tag_bytes, Literal, Tag};
use crate::types::materialize::{
    encode_error_inclusive_sized, encode_error_opt, encode_inclusive_sized, encode_opt,
    lemma_append_assoc, lemma_inclusive_parse_wire, lemma_inclusive_wire_parse, opt_faithful,
    opt_model, parse_inclusive_sized, spec_parse_inclusive_sized, wire_inclusive_sized,
    wire_opt, FloatBits, Lossless, LosslessBody, Materialized, Reparsable, ReparsableBody,
    SizedBody,
};
use crate::types::tracks::{TrackChunk, TrackChunkModel};
use vstd::prelude::*;

verus! {

/// The flags of a node: what kind of object it is, and what it inherits from
/// its parent, kept as the `u32` that holds the bits.
#[derive(Debug, Clone, Copy, PartialEq, Eq, Hash, Structural)]
pub struct NodeFlags {
    pub bits: u32,
}

impl Materialized for NodeFlags {
    type Version = u32;

    type Model = NodeFlags;

    open spec fn model(&self) -> NodeFlags {
        *self
    }

    open spec fn spec_parse(version: Option<u32>, input: Seq<u8>) -> Parsed<NodeFlags> {
        match spec_le_u32(input) {
            Ok((rest, flag)) => Ok((rest, NodeFlags { bits: flag })),
            Err(e) => Err(e),
        }
    }

    open spec fn wire(m: NodeFlags) -> Seq<u8> {
        spec_u32_to_le_bytes(m.bits)
    }

    open spec fn encode_error(m: NodeFlags) -> Option<EncodeError> {
        None
    }

    fn parse_versioned<'a>(version: Option<u32>, input: &'a [u8]) -> (r: Parser<'a, NodeFlags>) {
        let (input, flag) = le_u32(input)?;
        Ok((input, NodeFlags { bits: flag }))
    }

    fn encode(&self, output: &mut Vec<u8>) -> (r: Result<(), EncodeError>) {
        push_le_u32(self.bits, output);
        Ok(())
    }
}

impl Lossless for NodeFlags {
    open spec fn faithful(m: NodeFlags) -> bool {
        true
    }

    proof fn lemma_parse_wire(version: Option<u32>, input: Seq<u8>) {
        u32::lemma_parse_wire(None, input);
    }
}

impl Reparsable for NodeFlags {
    open spec fn well_formed(m: NodeFlags, version: Option<u32>) -> bool {
        true
    }

    proof fn lemma_wire_parse(m: NodeFlags, version: Option<u32>, tail: Seq<u8>) {
        u32::lemma_wire_parse(m.bits, None, tail);
    }
}

/// Maximum length of the name of a node.
pub const NODE_NAME_LEN: usize = 80;

/// An object of the scene graph: its name, its place in the hierarchy, and the
/// tracks of its translation, rotation and scaling.
#[derive(Debug, Clone, PartialEq)]
pub struct Node {
    pub name: Literal<NODE_NAME_LEN>,
    pub object_id: u32,
    pub parent_id: u32,
    pub flags: NodeFlags,
    pub kgtr: Option<Kgtr>,
    pub kgrt: Option<Kgrt>,
    pub kgsc: Option<Kgsc>,
    /// The order in which the optional blocks were met while parsing; `None`
    /// in a value that was not parsed, which is encoded in the order of the
    /// fields.
    pub ordered: Option<Vec<Tag>>,
}

/// What a value of [`Node`] stands for in specifications.
pub struct NodeModel {
    pub name: Seq<char>,
    pub object_id: u32,
    pub parent_id: u32,
    pub flags: NodeFlags,
    pub kgtr: Option<TrackChunkModel<Seq<FloatBits>>>,
    pub kgrt: Option<TrackChunkModel<Seq<FloatBits>>>,
    pub kgsc: Option<TrackChunkModel<Seq<FloatBits>>>,
    pub ordered: Option<Seq<Tag>>,
}

impl OrderedSlots for NodeModel {
    open spec fn canonical() -> Seq<Tag> {
        seq![Kgtr::spec_tag(), Kgrt::spec_tag(), Kgsc::spec_tag()]
    }

    open spec fn recorded(self) -> bool {
        self.ordered is Some
    }

    open spec fn order(self) -> Seq<Tag> {
        order_of(self.ordered)
    }

    open spec fn slot_wire(self, tag: Tag) -> Seq<u8> {
        if tag == Kgtr::spec_tag() {
            wire_opt::<Kgtr>(self.kgtr)
        } else if tag == Kgrt::spec_tag() {
            wire_opt::<Kgrt>(self.kgrt)
        } else if tag == Kgsc::spec_tag() {
            wire_opt::<Kgsc>(self.kgsc)
        } else {
            Seq::empty()
        }
    }

    open spec fn slot_error(self, tag: Tag) -> Option<EncodeError> {
        if tag == Kgtr::spec_tag() {
            encode_error_opt::<Kgtr>(self.kgtr)
        } else if tag == Kgrt::spec_tag() {
            encode_error_opt::<Kgrt>(self.kgrt)
        } else if tag == Kgsc::spec_tag() {
            encode_error_opt::<Kgsc>(self.kgsc)
        } else {
            None
        }
    }

    open spec fn slot_faithful(self, tag: Tag) -> bool {
        if tag == Kgtr::spec_tag() {
            opt_faithful::<Kgtr>(self.kgtr)
        } else if tag == Kgrt::spec_tag() {
            opt_faithful::<Kgrt>(self.kgrt)
        } else if tag == Kgsc::spec_tag() {
            opt_faithful::<Kgsc>(self.kgsc)
        } else {
            true
        }
    }

    open spec fn frame(self) -> NodeModel {
        NodeModel {
            name: self.name,
            object_id: self.object_id,
            parent_id: self.parent_id,
            flags: self.flags,
            kgtr: None,
            kgrt: None,
            kgsc: None,
            ordered: None,
        }
    }
}

impl Replay for Node {
    type Model = NodeModel;

    open spec fn slots_model(&self) -> NodeModel {
        NodeModel {
            name: self.name.model(),
            object_id: self.object_id.model(),
            parent_id: self.parent_id.model(),
            flags: self.flags.model(),
            kgtr: opt_model(self.kgtr),
            kgrt: opt_model(self.kgrt),
            kgsc: opt_model(self.kgsc),
            ordered: opt_seq(self.ordered),
        }
    }

    fn encode_slot(&self, tag: Tag, output: &mut Vec<u8>) -> (r: Result<(), EncodeError>) {
        if tag.same_as(&Kgtr::tag()) {
            assert(self.slots_model().slot_error(tag) == encode_error_opt::<Kgtr>(
                opt_model(self.kgtr),
            ));
            assert(self.slots_model().slot_wire(tag) == wire_opt::<Kgtr>(opt_model(self.kgtr)));
            encode_opt(&self.kgtr, output)
        } else if tag.same_as(&Kgrt::tag()) {
            assert(self.slots_model().slot_error(tag) == encode_error_opt::<Kgrt>(
                opt_model(self.kgrt),
            ));
            assert(self.slots_model().slot_wire(tag) == wire_opt::<Kgrt>(opt_model(self.kgrt)));
            encode_opt(&self.kgrt, output)
        } else if tag.same_as(&Kgsc::tag()) {
            assert(self.slots_model().slot_error(tag) == encode_error_opt::<Kgsc>(
                opt_model(self.kgsc),
            ));
            assert(self.slots_model().slot_wire(tag) == wire_opt::<Kgsc>(opt_model(self.kgsc)));
            encode_opt(&self.kgsc, output)
        } else {
            assert(self.slots_model().slot_error(tag) is None);
            assert(output@ =~= old(output)@ + self.slots_model().slot_wire(tag));
            Ok(())
        }
    }
}

impl TaggedBlocks for Node {
    open spec fn spec_block(m: NodeModel, tag: Tag, input: Seq<u8>) -> BlockStep<NodeModel> {
        if tag == Kgtr::spec_tag() {
            match Kgtr::spec_parse(None, input) {
                Ok((rest, block)) => BlockStep::Parsed(
                    rest,
                    NodeModel {
                        name: m.name,
                        object_id: m.object_id,
                        parent_id: m.parent_id,
                        flags: m.flags,
                        kgtr: Some(block),
                        kgrt: m.kgrt,
                        kgsc: m.kgsc,
                        ordered: Some(m.order().push(tag)),
                    },
                ),
                Err(e) => BlockStep::Failed(e),
            }
        } else if tag == Kgrt::spec_tag() {
            match Kgrt::spec_parse(None, input) {
                Ok((rest, block)) => BlockStep::Parsed(
                    rest,
                    NodeModel {
                        name: m.name,
                        object_id: m.object_id,
                        parent_id: m.parent_id,
                        flags: m.flags,
                        kgtr: m.kgtr,
                        kgrt: Some(block),
                        kgsc: m.kgsc,
                        ordered: Some(m.order().push(tag)),
                    },
                ),
                Err(e) => BlockStep::Failed(e),
            }
        } else if tag == Kgsc::spec_tag() {
            match Kgsc::spec_parse(None, input) {
                Ok((rest, block)) => BlockStep::Parsed(
                    rest,
                    NodeModel {
                        name: m.name,
                        object_id: m.object_id,
                        parent_id: m.parent_id,
                        flags: m.flags,
                        kgtr: m.kgtr,
                        kgrt: m.kgrt,
                        kgsc: Some(block),
                        ordered: Some(m.order().push(tag)),
                    },
                ),
                Err(e) => BlockStep::Failed(e),
            }
        } else {
            BlockStep::Failed(MdxParseError::UnknownTag(tag))
        }
    }

    fn parse_block<'a>(&mut self, tag: Tag, input: &'a [u8]) -> (r: Parser<'a, bool>) {
        if tag.same_as(&Kgtr::tag()) {
            let (rest, block) = Kgtr::parse(input)?;
            self.kgtr = Some(block);
            record_tag(&mut self.ordered, tag);
            Ok((rest, false))
        } else if tag.same_as(&Kgrt::tag()) {
            let (rest, block) = Kgrt::parse(input)?;
            self.kgrt = Some(block);
            record_tag(&mut self.ordered, tag);
            Ok((rest, false))
        } else if tag.same_as(&Kgsc::tag()) {
            let (rest, block) = Kgsc::parse(input)?;
            self.kgsc = Some(block);
            record_tag(&mut self.ordered, tag);
            Ok((rest, false))
        } else {
            Err(MdxParseError::UnknownTag(tag))
        }
    }
}

impl LosslessBlocks for Node {
    proof fn lemma_block_step(m: NodeModel, tag: Tag, input: Seq<u8>) {
        if tag == Kgtr::spec_tag() {
            Kgtr::lemma_parse_wire(None, input);
        } else if tag == Kgrt::spec_tag() {
            Kgrt::lemma_parse_wire(None, input);
        } else if tag == Kgsc::spec_tag() {
            Kgsc::lemma_parse_wire(None, input);
        }
    }
}

impl SizedBody for Node {
    type Model = NodeModel;

    open spec fn body_model(&self) -> NodeModel {
        self.slots_model()
    }

    open spec fn spec_parse_body(version: Option<u32>, input: Seq<u8>) -> Parsed<NodeModel> {
        match <Literal<NODE_NAME_LEN>>::spec_parse(None, input) {
            Ok((rest, name)) => match u32::spec_parse(None, rest) {
                Ok((rest, object_id)) => match u32::spec_parse(None, rest) {
                    Ok((rest, parent_id)) => match NodeFlags::spec_parse(None, rest) {
                        Ok((rest, flags)) => match spec_parse_tagged::<Node>(
                            NodeModel {
                                name,
                                object_id,
                                parent_id,
                                flags,
                                kgtr: None,
                                kgrt: None,
                                kgsc: None,
                                ordered: Some(Seq::empty()),
                            },
                            rest,
                        ) {
                            Ok((rest, scanned)) => Ok((rest, scanned)),
                            Err(e) => Err(e),
                        },
                        Err(e) => Err(e),
                    },
                    Err(e) => Err(e),
                },
                Err(e) => Err(e),
            },
            Err(e) => Err(e),
        }
    }

    open spec fn body_wire(m: NodeModel) -> Seq<u8> {
        <Literal<NODE_NAME_LEN>>::wire(m.name) + (u32::wire(m.object_id) + (u32::wire(m.parent_id) + (NodeFlags::wire(m.flags) + (wire_slots(m)))))
    }

    open spec fn body_encode_error(m: NodeModel) -> Option<EncodeError> {
        match <Literal<NODE_NAME_LEN>>::encode_error(m.name) {
            Some(e) => Some(e),
            None => match u32::encode_error(m.object_id) {
                Some(e) => Some(e),
                None => match u32::encode_error(m.parent_id) {
                    Some(e) => Some(e),
                    None => match NodeFlags::encode_error(m.flags) {
                        Some(e) => Some(e),
                        None => encode_error_slots(m),
                    },
                },
            },
        }
    }

    fn parse_body<'a>(version: Option<u32>, input: &'a [u8]) -> (r: Parser<'a, Node>) {
        let (input, name) = <Literal<NODE_NAME_LEN>>::parse(input)?;
        let (input, object_id) = u32::parse(input)?;
        let (input, parent_id) = u32::parse(input)?;
        let (input, flags) = NodeFlags::parse(input)?;
        let mut value = Node {
            name,
            object_id,
            parent_id,
            flags,
            kgtr: None,
            kgrt: None,
            kgsc: None,
            ordered: Some(Vec::new()),
        };
        let (input, _) = parse_tagged(&mut value, input)?;
        Ok((input, value))
    }

    fn encode_body(&self, output: &mut Vec<u8>) -> (r: Result<(), EncodeError>) {
        let ghost p0 = output@;
        self.name.encode(output)?;
        let ghost p1 = output@;
        self.object_id.encode(output)?;
        let ghost p2 = output@;
        self.parent_id.encode(output)?;
        let ghost p3 = output@;
        self.flags.encode(output)?;
        let ghost p4 = output@;
        let canonical = [Kgtr::tag(), Kgrt::tag(), Kgsc::tag()];
        assert(canonical@ =~= NodeModel::canonical());
        encode_slots(self, &self.ordered, canonical.as_slice(), output)?;
        proof {
            let m = self.body_model();
            let w1 = <Literal<NODE_NAME_LEN>>::wire(m.name);
            let w2 = u32::wire(m.object_id);
            let w3 = u32::wire(m.parent_id);
            let w4 = NodeFlags::wire(m.flags);
            let w5 = wire_slots(m);
            let s4 = w4 + w5;
            let s3 = w3 + s4;
            let s2 = w2 + s3;
            lemma_append_assoc(p3, w4, w5);
            lemma_append_assoc(p2, w3, s4);
            lemma_append_assoc(p1, w2, s3);
            lemma_append_assoc(p0, w1, s2);
        }
        Ok(())
    }
}

impl LosslessBody for Node {
    open spec fn body_faithful(m: NodeModel) -> bool {
        <Literal<NODE_NAME_LEN>>::faithful(m.name) && u32::faithful(m.object_id) && u32::faithful(m.parent_id) && NodeFlags::faithful(m.flags) && m.order().no_duplicates() && slots_faithful(m, m.order())
    }

    proof fn lemma_body_parse_wire(version: Option<u32>, input: Seq<u8>) {
        <Literal<NODE_NAME_LEN>>::lemma_parse_wire(None, input);
        match <Literal<NODE_NAME_LEN>>::spec_parse(None, input) {
            Ok((rest1, name)) => {
                assert(<Literal<NODE_NAME_LEN>>::faithful(name) ==> <Literal<NODE_NAME_LEN>>::encode_error(name) is None
                    && <Literal<NODE_NAME_LEN>>::wire(name) + rest1 == input);
                u32::lemma_parse_wire(None, rest1);
                match u32::spec_parse(None, rest1) {
                    Ok((rest2, object_id)) => {
                        assert(u32::faithful(object_id) ==> u32::encode_error(object_id) is None
                            && u32::wire(object_id) + rest2 == rest1);
                        u32::lemma_parse_wire(None, rest2);
                        match u32::spec_parse(None, rest2) {
                            Ok((rest3, parent_id)) => {
                                assert(u32::faithful(parent_id) ==> u32::encode_error(parent_id) is None
                                    && u32::wire(parent_id) + rest3 == rest2);
                                NodeFlags::lemma_parse_wire(None, rest3);
                                match NodeFlags::spec_parse(None, rest3) {
                                    Ok((rest4, flags)) => {
                                        assert(NodeFlags::faithful(flags) ==> NodeFlags::encode_error(flags) is None
                                            && NodeFlags::wire(flags) + rest4 == rest3);
                                        lemma_tagged_parse_wire::<Node>(
                                            NodeModel {
                                                name,
                                                object_id,
                                                parent_id,
                                                flags,
                                                kgtr: None,
                                                kgrt: None,
                                                kgsc: None,
                                                ordered: Some(Seq::empty()),
                                            },
                                            rest4,
                                        );
                                        match spec_parse_tagged::<Node>(
                                            NodeModel {
                                                name,
                                                object_id,
                                                parent_id,
                                                flags,
                                                kgtr: None,
                                                kgrt: None,
                                                kgsc: None,
                                                ordered: Some(Seq::empty()),
                                            },
                                            rest4,
                                        ) {
                                            Ok((rest5, scanned)) => {
                                                let m = scanned;
                                                if Self::body_faithful(m) {
                                                    assert(scanned.order().skip(0) =~= scanned.order());
                                                    let w1 = <Literal<NODE_NAME_LEN>>::wire(m.name);
                                                    let w2 = u32::wire(m.object_id);
                                                    let w3 = u32::wire(m.parent_id);
                                                    let w4 = NodeFlags::wire(m.flags);
                                                    let w5 = wire_slots(m);
                                                    let s4 = w4 + w5;
                                                    let s3 = w3 + s4;
                                                    let s2 = w2 + s3;
                                                    lemma_append_assoc(w4, w5, rest5);
                                                    lemma_append_assoc(w3, s4, rest5);
                                                    lemma_append_assoc(w2, s3, rest5);
                                                    lemma_append_assoc(w1, s2, rest5);
                                                }
                                            },
                                            Err(_) => {},
                                        }
                                    },
                                    Err(_) => {},
                                }
                            },
                            Err(_) => {},
                        }
                    },
                    Err(_) => {},
                }
            },
            Err(_) => {},
        }
    }
}

impl Materialized for Node {
    type Version = u32;

    type Model = NodeModel;

    open spec fn model(&self) -> NodeModel {
        self.body_model()
    }

    open spec fn spec_parse(version: Option<u32>, input: Seq<u8>) -> Parsed<NodeModel> {
        spec_parse_inclusive_sized::<Node>(version, input)
    }

    open spec fn wire(m: NodeModel) -> Seq<u8> {
        wire_inclusive_sized::<Node>(m)
    }

    open spec fn encode_error(m: NodeModel) -> Option<EncodeError> {
        encode_error_inclusive_sized::<Node>(m)
    }

    fn parse_versioned<'a>(version: Option<u32>, input: &'a [u8]) -> (r: Parser<'a, Node>) {
        parse_inclusive_sized::<Node>(version, input)
    }

    /// The record is encoded aside and then written with its size: if it
    /// fails, the output is left as it is.
    fn encode(&self, output: &mut Vec<u8>) -> (r: Result<(), EncodeError>)
        ensures
            r is Err ==> final(output)@ == old(output)@,
    {
        encode_inclusive_sized(output, self)
    }
}

impl Lossless for Node {
    open spec fn faithful(m: NodeModel) -> bool {
        Node::body_faithful(m)
    }

    proof fn lemma_parse_wire(version: Option<u32>, input: Seq<u8>) {
        lemma_inclusive_parse_wire::<Node>(version, input);
    }
}

/// The tags of the blocks of [`Node`] differ from each other.
proof fn lemma_node_tags_differ()
    ensures
        Kgtr::spec_tag() != Kgrt::spec_tag(),
        Kgtr::spec_tag() != Kgsc::spec_tag(),
        Kgrt::spec_tag() != Kgsc::spec_tag(),
{
    assert(Kgtr::spec_tag().0[2] != Kgrt::spec_tag().0[2]);
    assert(Kgtr::spec_tag().0[2] != Kgsc::spec_tag().0[2]);
    assert(Kgrt::spec_tag().0[2] != Kgsc::spec_tag().0[2]);
}

impl ReparsableBlocks for Node {
    open spec fn slot_well_formed(m: NodeModel, tag: Tag) -> bool {
        if tag == Kgtr::spec_tag() {
            m.kgtr is Some && Kgtr::well_formed(m.kgtr->0, None)
        } else if tag == Kgrt::spec_tag() {
            m.kgrt is Some && Kgrt::well_formed(m.kgrt->0, None)
        } else if tag == Kgsc::spec_tag() {
            m.kgsc is Some && Kgsc::well_formed(m.kgsc->0, None)
        } else {
            false
        }
    }

    open spec fn refill(acc: NodeModel, m: NodeModel, tag: Tag) -> NodeModel {
        if tag == Kgtr::spec_tag() {
            NodeModel {
                name: acc.name,
                object_id: acc.object_id,
                parent_id: acc.parent_id,
                flags: acc.flags,
                kgtr: m.kgtr,
                kgrt: acc.kgrt,
                kgsc: acc.kgsc,
                ordered: Some(acc.order().push(tag)),
            }
        } else if tag == Kgrt::spec_tag() {
            NodeModel {
                name: acc.name,
                object_id: acc.object_id,
                parent_id: acc.parent_id,
                flags: acc.flags,
                kgtr: acc.kgtr,
                kgrt: m.kgrt,
                kgsc: acc.kgsc,
                ordered: Some(acc.order().push(tag)),
            }
        } else if tag == Kgsc::spec_tag() {
            NodeModel {
                name: acc.name,
                object_id: acc.object_id,
                parent_id: acc.parent_id,
                flags: acc.flags,
                kgtr: acc.kgtr,
                kgrt: acc.kgrt,
                kgsc: m.kgsc,
                ordered: Some(acc.order().push(tag)),
            }
        } else {
            acc
        }
    }

    proof fn lemma_block_refill(acc: NodeModel, m: NodeModel, tag: Tag, tail: Seq<u8>) {
        if tag == Kgtr::spec_tag() {
            Kgtr::lemma_wire_tag(m.kgtr->0);
            Kgtr::lemma_wire_parse(m.kgtr->0, None, tail);
        } else if tag == Kgrt::spec_tag() {
            Kgrt::lemma_wire_tag(m.kgrt->0);
            Kgrt::lemma_wire_parse(m.kgrt->0, None, tail);
        } else if tag == Kgsc::spec_tag() {
            Kgsc::lemma_wire_tag(m.kgsc->0);
            Kgsc::lemma_wire_parse(m.kgsc->0, None, tail);
        }
    }
}

/// What the blocks of `m` under the tags make of `acc`: the other fields are
/// the ones of `acc`, the tags are recorded behind the ones of `acc`, and a
/// block is the one of `m` if its tag is among the tags.
proof fn lemma_node_refill(acc: NodeModel, m: NodeModel, tags: Seq<Tag>)
    requires
        acc.ordered is Some,
        forall|i: int| 0 <= i < tags.len() ==> Node::slot_well_formed(m, #[trigger] tags[i]),
    ensures
        ({
            let r = refill_all::<Node>(acc, m, tags);
            &&& r.ordered == Some(acc.order() + tags)
            &&& r.name == acc.name
            &&& r.object_id == acc.object_id
            &&& r.parent_id == acc.parent_id
            &&& r.flags == acc.flags
            &&& r.kgtr == if tags.contains(Kgtr::spec_tag()) {
                m.kgtr
            } else {
                acc.kgtr
            }
            &&& r.kgrt == if tags.contains(Kgrt::spec_tag()) {
                m.kgrt
            } else {
                acc.kgrt
            }
            &&& r.kgsc == if tags.contains(Kgsc::spec_tag()) {
                m.kgsc
            } else {
                acc.kgsc
            }
        }),
    decreases tags.len(),
{
    if tags.len() == 0 {
        assert(acc.order() + tags =~= acc.order());
    } else {
        let tag = tags[0];
        let next = Node::refill(acc, m, tag);
        assert(Node::slot_well_formed(m, tags[0]));
        assert forall|i: int| 0 <= i < tags.skip(1).len() implies Node::slot_well_formed(
            m,
            #[trigger] tags.skip(1)[i],
        ) by {
            assert(tags.skip(1)[i] == tags[i + 1]);
        }
        lemma_node_refill(next, m, tags.skip(1));
        assert(next.order() + tags.skip(1) =~= acc.order() + tags);
        lemma_node_tags_differ();
        lemma_contains_front(tags, Kgtr::spec_tag());
        lemma_contains_front(tags, Kgrt::spec_tag());
        lemma_contains_front(tags, Kgsc::spec_tag());
    }
}

impl ReparsableBody for Node {
    open spec fn body_well_formed(m: NodeModel, version: Option<u32>) -> bool {
        <Literal<NODE_NAME_LEN>>::well_formed(m.name, None)
        && u32::well_formed(m.object_id, None)
        && u32::well_formed(m.parent_id, None)
        && NodeFlags::well_formed(m.flags, None)
        && m.ordered is Some
        && (forall|i: int| 0 <= i < m.order().len() ==> Node::slot_well_formed(m, #[trigger] m.order()[i]))
        && (m.kgtr is Some ==> m.order().contains(Kgtr::spec_tag()))
        && (m.kgrt is Some ==> m.order().contains(Kgrt::spec_tag()))
        && (m.kgsc is Some ==> m.order().contains(Kgsc::spec_tag()))
    }

    proof fn lemma_body_wire_parse(m: NodeModel, version: Option<u32>) {
        let w1 = <Literal<NODE_NAME_LEN>>::wire(m.name);
        let w2 = u32::wire(m.object_id);
        let w3 = u32::wire(m.parent_id);
        let w4 = NodeFlags::wire(m.flags);
        let w5 = wire_slots(m);
        let u6 = Seq::<u8>::empty();
        let u5 = w5 + u6;
        let u4 = w4 + u5;
        let u3 = w3 + u4;
        let u2 = w2 + u3;
        let u1 = w1 + u2;
        let s4 = w4 + w5;
        let s3 = w3 + s4;
        let s2 = w2 + s3;
        lemma_append_assoc(w4, w5, Seq::<u8>::empty());
        lemma_append_assoc(w3, s4, Seq::<u8>::empty());
        lemma_append_assoc(w2, s3, Seq::<u8>::empty());
        lemma_append_assoc(w1, s2, Seq::<u8>::empty());
        <Literal<NODE_NAME_LEN>>::lemma_wire_parse(m.name, None, u2);
        u32::lemma_wire_parse(m.object_id, None, u3);
        u32::lemma_wire_parse(m.parent_id, None, u4);
        NodeFlags::lemma_wire_parse(m.flags, None, u5);
        let start = NodeModel {
            name: m.name,
            object_id: m.object_id,
            parent_id: m.parent_id,
            flags: m.flags,
            kgtr: None,
            kgrt: None,
            kgsc: None,
            ordered: Some(Seq::empty()),
        };
        lemma_tagged_wire_parse::<Node>(start, m, m.order(), u6);
        lemma_node_refill(start, m, m.order());
        assert(Seq::<Tag>::empty() + m.order() =~= m.order());
        assert(u1 =~= Self::body_wire(m));
    }
}

impl Reparsable for Node {
    open spec fn well_formed(m: NodeModel, version: Option<u32>) -> bool {
        Node::body_well_formed(m, version) && Node::body_wire(m).len() + 4 <= u32::MAX
    }

    proof fn lemma_wire_parse(m: NodeModel, version: Option<u32>, tail: Seq<u8>) {
        lemma_inclusive_wire_parse::<Node>(m, version, tail);
    }
}

/// Holds the track of the translation of a node.
#[derive(Debug, Clone, PartialEq)]
pub struct Kgtr(pub TrackChunk<[FloatBits; 3]>);

impl Chunk for Kgtr {
    open spec fn spec_tag() -> Tag {
        Tag([0x4B, 0x47, 0x54, 0x52])
    }

    fn tag() -> (t: Tag) {
        let t = Tag([0x4B, 0x47, 0x54, 0x52]);
        assert(t.0 =~= Self::spec_tag().0);
        t
    }
}

impl Materialized for Kgtr {
    type Version = u32;

    type Model = TrackChunkModel<Seq<FloatBits>>;

    open spec fn model(&self) -> TrackChunkModel<Seq<FloatBits>> {
        self.0.model()
    }

    open spec fn spec_parse(version: Option<u32>, input: Seq<u8>) -> Parsed<
        TrackChunkModel<Seq<FloatBits>>,
    > {
        <TrackChunk<[FloatBits; 3]>>::spec_parse(None, input)
    }

    open spec fn wire(m: TrackChunkModel<Seq<FloatBits>>) -> Seq<u8> {
        <TrackChunk<[FloatBits; 3]>>::wire(m)
    }

    open spec fn encode_error(m: TrackChunkModel<Seq<FloatBits>>) -> Option<EncodeError> {
        <TrackChunk<[FloatBits; 3]>>::encode_error(m)
    }

    fn parse_versioned<'a>(version: Option<u32>, input: &'a [u8]) -> (r: Parser<'a, Kgtr>) {
        let (input, chunk) = <TrackChunk<[FloatBits; 3]>>::parse(input)?;
        Ok((input, Kgtr(chunk)))
    }

    fn encode(&self, output: &mut Vec<u8>) -> (r: Result<(), EncodeError>) {
        self.0.encode(output)
    }
}

impl Lossless for Kgtr {
    open spec fn faithful(m: TrackChunkModel<Seq<FloatBits>>) -> bool {
        <TrackChunk<[FloatBits; 3]>>::faithful(m)
    }

    proof fn lemma_parse_wire(version: Option<u32>, input: Seq<u8>) {
        <TrackChunk<[FloatBits; 3]>>::lemma_parse_wire(None, input);
    }
}

impl Reparsable for Kgtr {
    open spec fn well_formed(m: TrackChunkModel<Seq<FloatBits>>, version: Option<u32>) -> bool {
        <TrackChunk<[FloatBits; 3]>>::well_formed(m, None) && m.tag == Self::spec_tag()
    }

    proof fn lemma_wire_parse(m: TrackChunkModel<Seq<FloatBits>>, version: Option<u32>, tail: Seq<u8>) {
        <TrackChunk<[FloatBits; 3]>>::lemma_wire_parse(m, None, tail);
    }
}

impl TaggedBlock for Kgtr {
    proof fn lemma_wire_tag(m: TrackChunkModel<Seq<FloatBits>>) {
        lemma_tag_bytes(m.tag, m.tag.0@);
        assert(<TrackChunk<[FloatBits; 3]>>::wire(m).take(4) =~= m.tag.0@);
    }
}

/// Holds the track of the rotation of a node.
#[derive(Debug, Clone, PartialEq)]
pub struct Kgrt(pub TrackChunk<[FloatBits; 4]>);

impl Chunk for Kgrt {
    open spec fn spec_tag() -> Tag {
        Tag([0x4B, 0x47, 0x52, 0x54])
    }

    fn tag() -> (t: Tag) {
        let t = Tag([0x4B, 0x47, 0x52, 0x54]);
        assert(t.0 =~= Self::spec_tag().0);
        t
    }
}

impl Materialized for Kgrt {
    type Version = u32;

    type Model = TrackChunkModel<Seq<FloatBits>>;

    open spec fn model(&self) -> TrackChunkModel<Seq<FloatBits>> {
        self.0.model()
    }

    open spec fn spec_parse(version: Option<u32>, input: Seq<u8>) -> Parsed<
        TrackChunkModel<Seq<FloatBits>>,
    > {
        <TrackChunk<[FloatBits; 4]>>::spec_parse(None, input)
    }

    open spec fn wire(m: TrackChunkModel<Seq<FloatBits>>) -> Seq<u8> {
        <TrackChunk<[FloatBits; 4]>>::wire(m)
    }

    open spec fn encode_error(m: TrackChunkModel<Seq<FloatBits>>) -> Option<EncodeError> {
        <TrackChunk<[FloatBits; 4]>>::encode_error(m)
    }

    fn parse_versioned<'a>(version: Option<u32>, input: &'a [u8]) -> (r: Parser<'a, Kgrt>) {
        let (input, chunk) = <TrackChunk<[FloatBits; 4]>>::parse(input)?;
        Ok((input, Kgrt(chunk)))
    }

    fn encode(&self, output: &mut Vec<u8>) -> (r: Result<(), EncodeError>) {
        self.0.encode(output)
    }
}

impl Lossless for Kgrt {
    open spec fn faithful(m: TrackChunkModel<Seq<FloatBits>>) -> bool {
        <TrackChunk<[FloatBits; 4]>>::faithful(m)
    }

    proof fn lemma_parse_wire(version: Option<u32>, input: Seq<u8>) {
        <TrackChunk<[FloatBits; 4]>>::lemma_parse_wire(None, input);
    }
}

impl Reparsable for Kgrt {
    open spec fn well_formed(m: TrackChunkModel<Seq<FloatBits>>, version: Option<u32>) -> bool {
        <TrackChunk<[FloatBits; 4]>>::well_formed(m, None) && m.tag == Self::spec_tag()
    }

    proof fn lemma_wire_parse(m: TrackChunkModel<Seq<FloatBits>>, version: Option<u32>, tail: Seq<u8>) {
        <TrackChunk<[FloatBits; 4]>>::lemma_wire_parse(m, None, tail);
    }
}

impl TaggedBlock for Kgrt {
    proof fn lemma_wire_tag(m: TrackChunkModel<Seq<FloatBits>>) {
        lemma_tag_bytes(m.tag, m.tag.0@);
        assert(<TrackChunk<[FloatBits; 4]>>::wire(m).take(4) =~= m.tag.0@);
    }
}

/// Holds the track of the scaling of a node.
#[derive(Debug, Clone, PartialEq)]
pub struct Kgsc(pub TrackChunk<[FloatBits; 3]>);

impl Chunk for Kgsc {
    open spec fn spec_tag() -> Tag {
        Tag([0x4B, 0x47, 0x53, 0x43])
    }

    fn tag() -> (t: Tag) {
        let t = Tag([0x4B, 0x47, 0x53, 0x43]);
        assert(t.0 =~= Self::spec_tag().0);
        t
    }
}

impl Materialized for Kgsc {
    type Version = u32;

    type Model = TrackChunkModel<Seq<FloatBits>>;

    open spec fn model(&self) -> TrackChunkModel<Seq<FloatBits>> {
        self.0.model()
    }

    open spec fn spec_parse(version: Option<u32>, input: Seq<u8>) -> Parsed<
        TrackChunkModel<Seq<FloatBits>>,
    > {
        <TrackChunk<[FloatBits; 3]>>::spec_parse(None, input)
    }

    open spec fn wire(m: TrackChunkModel<Seq<FloatBits>>) -> Seq<u8> {
        <TrackChunk<[FloatBits; 3]>>::wire(m)
    }

    open spec fn encode_error(m: TrackChunkModel<Seq<FloatBits>>) -> Option<EncodeError> {
        <TrackChunk<[FloatBits; 3]>>::encode_error(m)
    }

    fn parse_versioned<'a>(version: Option<u32>, input: &'a [u8]) -> (r: Parser<'a, Kgsc>) {
        let (input, chunk) = <TrackChunk<[FloatBits; 3]>>::parse(input)?;
        Ok((input, Kgsc(chunk)))
    }

    fn encode(&self, output: &mut Vec<u8>) -> (r: Result<(), EncodeError>) {
        self.0.encode(output)
    }
}

impl Lossless for Kgsc {
    open spec fn faithful(m: TrackChunkModel<Seq<FloatBits>>) -> bool {
        <TrackChunk<[FloatBits; 3]>>::faithful(m)
    }

    proof fn lemma_parse_wire(version: Option<u32>, input: Seq<u8>) {
        <TrackChunk<[FloatBits; 3]>>::lemma_parse_wire(None, input);
    }
}

impl Reparsable for Kgsc {
    open spec fn well_formed(m: TrackChunkModel<Seq<FloatBits>>, version: Option<u32>) -> bool {
        <TrackChunk<[FloatBits; 3]>>::well_formed(m, None) && m.tag == Self::spec_tag()
    }

    proof fn lemma_wire_parse(m: TrackChunkModel<Seq<FloatBits>>, version: Option<u32>, tail: Seq<u8>) {
        <TrackChunk<[FloatBits; 3]>>::lemma_wire_parse(m, None, tail);
    }
}

impl TaggedBlock for Kgsc {
    proof fn lemma_wire_tag(m: TrackChunkModel<Seq<FloatBits>>) {
        lemma_tag_bytes(m.tag, m.tag.0@);
        assert(<TrackChunk<[FloatBits; 3]>>::wire(m).take(4) =~= m.tag.0@);
    }
}

} // verus!
