use crate::encoder::error::Error as EncodeError;
use crate::parser::error::MdxParseError;
use crate::parser::primitives::{Parsed, Parser};
use crate::types::chunk::{
    encode_error_slots, encode_slots, lemma_contains_front, lemma_tagged_parse_wire,
    lemma_tagged_wire_parse, order_of, opt_seq, parse_tagged, record_tag, refill_all,
    slots_faithful, spec_parse_tagged, wire_slots, BlockStep, Chunk, LosslessBlocks,
    OrderedSlots, Replay, ReparsableBlocks, TaggedBlock, TaggedBlocks,
};
use crate::types::chunk::utils::{lemma_tag_bytes, Literal, Tag};
use crate::types::materialize::{
    encode_error_inclusive_sized, encode_error_opt, encode_inclusive_sized, encode_opt,
    lemma_append_assoc, lemma_inclusive_parse_wire, lemma_inclusive_wire_parse, opt_faithful,
    opt_model, parse_inclusive_sized, spec_parse_inclusive_sized, wire_inclusive_sized,
    wire_opt, FloatBits, Lossless, LosslessBody, Materialized, Reparsable, ReparsableBody,
    SizedBody,
};
use crate::types::node::{Node, NodeModel};
use crate::types::tracks::{TrackChunk, TrackChunkModel};
use vstd::prelude::*;

verus! {

/// Maximum length of the path field of [Attachment].
pub const ATCH_PATH_LEN: usize = 260;

/// A point of a model to which another model can be attached.
#[derive(Debug, Clone, PartialEq)]
pub struct Attachment {
    pub node: Node,
    pub path: Literal<ATCH_PATH_LEN>,
    pub attachment_id: u32,
    pub katv: Option<Katv>,
    /// The order in which the optional blocks were met while parsing; `None`
    /// in a value that was not parsed, which is encoded in the order of the
    /// fields.
    pub ordered: Option<Vec<Tag>>,
}

/// What a value of [`Attachment`] stands for in specifications.
pub struct AttachmentModel {
    pub node: NodeModel,
    pub path: Seq<char>,
    pub attachment_id: u32,
    pub katv: Option<TrackChunkModel<FloatBits>>,
    pub ordered: Option<Seq<Tag>>,
}

impl OrderedSlots for AttachmentModel {
    open spec fn canonical() -> Seq<Tag> {
        seq![Katv::spec_tag()]
    }

    open spec fn recorded(self) -> bool {
        self.ordered is Some
    }

    open spec fn order(self) -> Seq<Tag> {
        order_of(self.ordered)
    }

    open spec fn slot_wire(self, tag: Tag) -> Seq<u8> {
        if tag == Katv::spec_tag() {
            wire_opt::<Katv>(self.katv)
        } else {
            Seq::empty()
        }
    }

    open spec fn slot_error(self, tag: Tag) -> Option<EncodeError> {
        if tag == Katv::spec_tag() {
            encode_error_opt::<Katv>(self.katv)
        } else {
            None
        }
    }

    open spec fn slot_faithful(self, tag: Tag) -> bool {
        if tag == Katv::spec_tag() {
            opt_faithful::<Katv>(self.katv)
        } else {
            true
        }
    }

    open spec fn frame(self) -> AttachmentModel {
        AttachmentModel {
            node: self.node,
            path: self.path,
            attachment_id: self.attachment_id,
            katv: None,
            ordered: None,
        }
    }
}

impl Replay for Attachment {
    type Model = AttachmentModel;

    open spec fn slots_model(&self) -> AttachmentModel {
        AttachmentModel {
            node: self.node.model(),
            path: self.path.model(),
            attachment_id: self.attachment_id.model(),
            katv: opt_model(self.katv),
            ordered: opt_seq(self.ordered),
        }
    }

    fn encode_slot(&self, tag: Tag, output: &mut Vec<u8>) -> (r: Result<(), EncodeError>) {
        if tag.same_as(&Katv::tag()) {
            assert(self.slots_model().slot_error(tag) == encode_error_opt::<Katv>(
                opt_model(self.katv),
            ));
            assert(self.slots_model().slot_wire(tag) == wire_opt::<Katv>(opt_model(self.katv)));
            encode_opt(&self.katv, output)
        } else {
            assert(self.slots_model().slot_error(tag) is None);
            assert(output@ =~= old(output)@ + self.slots_model().slot_wire(tag));
            Ok(())
        }
    }
}

impl TaggedBlocks for Attachment {
    open spec fn spec_block(m: AttachmentModel, tag: Tag, input: Seq<u8>) -> BlockStep<AttachmentModel> {
        if tag == Katv::spec_tag() {
            match Katv::spec_parse(None, input) {
                Ok((rest, block)) => BlockStep::Parsed(
                    rest,
                    AttachmentModel {
                        node: m.node,
                        path: m.path,
                        attachment_id: m.attachment_id,
                        katv: Some(block),
                        ordered: Some(m.order().push(tag)),
                    },
                ),
                Err(e) => BlockStep::Failed(e),
            }
        } else {
            BlockStep::Failed(MdxParseError::UnknownTag(tag))
        }
    }

    fn parse_block<'a>(&mut self, tag: Tag, input: &'a [u8]) -> (r: Parser<'a, bool>) {
        if tag.same_as(&Katv::tag()) {
            let (rest, block) = Katv::parse(input)?;
            self.katv = Some(block);
            record_tag(&mut self.ordered, tag);
            Ok((rest, false))
        } else {
            Err(MdxParseError::UnknownTag(tag))
        }
    }
}

impl LosslessBlocks for Attachment {
    proof fn lemma_block_step(m: AttachmentModel, tag: Tag, input: Seq<u8>) {
        if tag == Katv::spec_tag() {
            Katv::lemma_parse_wire(None, input);
        }
    }
}

impl SizedBody for Attachment {
    type Model = AttachmentModel;

    open spec fn body_model(&self) -> AttachmentModel {
        self.slots_model()
    }

    open spec fn spec_parse_body(version: Option<u32>, input: Seq<u8>) -> Parsed<AttachmentModel> {
        match Node::spec_parse(None, input) {
            Ok((rest, node)) => match <Literal<ATCH_PATH_LEN>>::spec_parse(None, rest) {
                Ok((rest, path)) => match u32::spec_parse(None, rest) {
                    Ok((rest, attachment_id)) => match spec_parse_tagged::<Attachment>(
                        AttachmentModel {
                            node,
                            path,
                            attachment_id,
                            katv: None,
                            ordered: Some(Seq::empty()),
                        },
                        rest,
                    ) {
                        Ok((rest, scanned)) => Ok((rest, scanned)),
                        Err(e) => Err(e),
                    },
                    Err(e) => Err(e),
                },
                Err(e) => Err(e),
            },
            Err(e) => Err(e),
        }
    }

    open spec fn body_wire(m: AttachmentModel) -> Seq<u8> {
        Node::wire(m.node) + (<Literal<ATCH_PATH_LEN>>::wire(m.path) + (u32::wire(m.attachment_id) + (wire_slots(m))))
    }

    open spec fn body_encode_error(m: AttachmentModel) -> Option<EncodeError> {
        match Node::encode_error(m.node) {
            Some(e) => Some(e),
            None => match <Literal<ATCH_PATH_LEN>>::encode_error(m.path) {
                Some(e) => Some(e),
                None => match u32::encode_error(m.attachment_id) {
                    Some(e) => Some(e),
                    None => encode_error_slots(m),
                },
            },
        }
    }

    fn parse_body<'a>(version: Option<u32>, input: &'a [u8]) -> (r: Parser<'a, Attachment>) {
        let (input, node) = Node::parse(input)?;
        let (input, path) = <Literal<ATCH_PATH_LEN>>::parse(input)?;
        let (input, attachment_id) = u32::parse(input)?;
        let mut value = Attachment {
            node,
            path,
            attachment_id,
            katv: None,
            ordered: Some(Vec::new()),
        };
        let (input, _) = parse_tagged(&mut value, input)?;
        Ok((input, value))
    }

    fn encode_body(&self, output: &mut Vec<u8>) -> (r: Result<(), EncodeError>) {
        let ghost p0 = output@;
        self.node.encode(output)?;
        let ghost p1 = output@;
        self.path.encode(output)?;
        let ghost p2 = output@;
        self.attachment_id.encode(output)?;
        let ghost p3 = output@;
        let canonical = [Katv::tag()];
        assert(canonical@ =~= AttachmentModel::canonical());
        encode_slots(self, &self.ordered, canonical.as_slice(), output)?;
        proof {
            let m = self.body_model();
            let w1 = Node::wire(m.node);
            let w2 = <Literal<ATCH_PATH_LEN>>::wire(m.path);
            let w3 = u32::wire(m.attachment_id);
            let w4 = wire_slots(m);
            let s3 = w3 + w4;
            let s2 = w2 + s3;
            lemma_append_assoc(p2, w3, w4);
            lemma_append_assoc(p1, w2, s3);
            lemma_append_assoc(p0, w1, s2);
        }
        Ok(())
    }
}

impl LosslessBody for Attachment {
    open spec fn body_faithful(m: AttachmentModel) -> bool {
        Node::faithful(m.node) && <Literal<ATCH_PATH_LEN>>::faithful(m.path) && u32::faithful(m.attachment_id) && m.order().no_duplicates() && slots_faithful(m, m.order())
    }

    proof fn lemma_body_parse_wire(version: Option<u32>, input: Seq<u8>) {
        Node::lemma_parse_wire(None, input);
        match Node::spec_parse(None, input) {
            Ok((rest1, node)) => {
                assert(Node::faithful(node) ==> Node::encode_error(node) is None
                    && Node::wire(node) + rest1 == input);
                <Literal<ATCH_PATH_LEN>>::lemma_parse_wire(None, rest1);
                match <Literal<ATCH_PATH_LEN>>::spec_parse(None, rest1) {
                    Ok((rest2, path)) => {
                        assert(<Literal<ATCH_PATH_LEN>>::faithful(path) ==> <Literal<ATCH_PATH_LEN>>::encode_error(path) is None
                            && <Literal<ATCH_PATH_LEN>>::wire(path) + rest2 == rest1);
                        u32::lemma_parse_wire(None, rest2);
                        match u32::spec_parse(None, rest2) {
                            Ok((rest3, attachment_id)) => {
                                assert(u32::faithful(attachment_id) ==> u32::encode_error(attachment_id) is None
                                    && u32::wire(attachment_id) + rest3 == rest2);
                                lemma_tagged_parse_wire::<Attachment>(
                                    AttachmentModel {
                                        node,
                                        path,
                                        attachment_id,
                                        katv: None,
                                        ordered: Some(Seq::empty()),
                                    },
                                    rest3,
                                );
                                match spec_parse_tagged::<Attachment>(
                                    AttachmentModel {
                                        node,
                                        path,
                                        attachment_id,
                                        katv: None,
                                        ordered: Some(Seq::empty()),
                                    },
                                    rest3,
                                ) {
                                    Ok((rest4, scanned)) => {
                                        let m = scanned;
                                        if Self::body_faithful(m) {
                                            assert(scanned.order().skip(0) =~= scanned.order());
                                            let w1 = Node::wire(m.node);
                                            let w2 = <Literal<ATCH_PATH_LEN>>::wire(m.path);
                                            let w3 = u32::wire(m.attachment_id);
                                            let w4 = wire_slots(m);
                                            let s3 = w3 + w4;
                                            let s2 = w2 + s3;
                                            lemma_append_assoc(w3, w4, rest4);
                                            lemma_append_assoc(w2, s3, rest4);
                                            lemma_append_assoc(w1, s2, rest4);
                                        }
                                    },
                                    Err(_) => {},
                                }
                            },
                            Err(_) => {},
                        }
                    },
                    Err(_) => {},
                }
            },
            Err(_) => {},
        }
    }
}

impl Materialized for Attachment {
    type Version = u32;

    type Model = AttachmentModel;

    open spec fn model(&self) -> AttachmentModel {
        self.body_model()
    }

    open spec fn spec_parse(version: Option<u32>, input: Seq<u8>) -> Parsed<AttachmentModel> {
        spec_parse_inclusive_sized::<Attachment>(version, input)
    }

    open spec fn wire(m: AttachmentModel) -> Seq<u8> {
        wire_inclusive_sized::<Attachment>(m)
    }

    open spec fn encode_error(m: AttachmentModel) -> Option<EncodeError> {
        encode_error_inclusive_sized::<Attachment>(m)
    }

    fn parse_versioned<'a>(version: Option<u32>, input: &'a [u8]) -> (r: Parser<'a, Attachment>) {
        parse_inclusive_sized::<Attachment>(version, input)
    }

    /// The record is encoded aside and then written with its size: if it
    /// fails, the output is left as it is.
    fn encode(&self, output: &mut Vec<u8>) -> (r: Result<(), EncodeError>)
        ensures
            r is Err ==> final(output)@ == old(output)@,
    {
        encode_inclusive_sized(output, self)
    }
}

impl Lossless for Attachment {
    open spec fn faithful(m: AttachmentModel) -> bool {
        Attachment::body_faithful(m)
    }

    proof fn lemma_parse_wire(version: Option<u32>, input: Seq<u8>) {
        lemma_inclusive_parse_wire::<Attachment>(version, input);
    }
}

impl ReparsableBlocks for Attachment {
    open spec fn slot_well_formed(m: AttachmentModel, tag: Tag) -> bool {
        if tag == Katv::spec_tag() {
            m.katv is Some && Katv::well_formed(m.katv->0, None)
        } else {
            false
        }
    }

    open spec fn refill(acc: AttachmentModel, m: AttachmentModel, tag: Tag) -> AttachmentModel {
        if tag == Katv::spec_tag() {
            AttachmentModel {
                node: acc.node,
                path: acc.path,
                attachment_id: acc.attachment_id,
                katv: m.katv,
                ordered: Some(acc.order().push(tag)),
            }
        } else {
            acc
        }
    }

    proof fn lemma_block_refill(acc: AttachmentModel, m: AttachmentModel, tag: Tag, tail: Seq<u8>) {
        if tag == Katv::spec_tag() {
            Katv::lemma_wire_tag(m.katv->0);
            Katv::lemma_wire_parse(m.katv->0, None, tail);
        }
    }
}

/// What the blocks of `m` under the tags make of `acc`: the other fields are
/// the ones of `acc`, the tags are recorded behind the ones of `acc`, and a
/// block is the one of `m` if its tag is among the tags.
proof fn lemma_attachment_refill(acc: AttachmentModel, m: AttachmentModel, tags: Seq<Tag>)
    requires
        acc.ordered is Some,
        forall|i: int| 0 <= i < tags.len() ==> Attachment::slot_well_formed(m, #[trigger] tags[i]),
    ensures
        ({
            let r = refill_all::<Attachment>(acc, m, tags);
            &&& r.ordered == Some(acc.order() + tags)
            &&& r.node == acc.node
            &&& r.path == acc.path
            &&& r.attachment_id == acc.attachment_id
            &&& r.katv == if tags.contains(Katv::spec_tag()) {
                m.katv
            } else {
                acc.katv
            }
        }),
    decreases tags.len(),
{
    if tags.len() == 0 {
        assert(acc.order() + tags =~= acc.order());
    } else {
        let tag = tags[0];
        let next = Attachment::refill(acc, m, tag);
        assert(Attachment::slot_well_formed(m, tags[0]));
        assert forall|i: int| 0 <= i < tags.skip(1).len() implies Attachment::slot_well_formed(
            m,
            #[trigger] tags.skip(1)[i],
        ) by {
            assert(tags.skip(1)[i] == tags[i + 1]);
        }
        lemma_attachment_refill(next, m, tags.skip(1));
        assert(next.order() + tags.skip(1) =~= acc.order() + tags);
        
        lemma_contains_front(tags, Katv::spec_tag());
    }
}

impl ReparsableBody for Attachment {
    open spec fn body_well_formed(m: AttachmentModel, version: Option<u32>) -> bool {
        Node::well_formed(m.node, None)
        && <Literal<ATCH_PATH_LEN>>::well_formed(m.path, None)
        && u32::well_formed(m.attachment_id, None)
        && m.ordered is Some
        && (forall|i: int| 0 <= i < m.order().len() ==> Attachment::slot_well_formed(m, #[trigger] m.order()[i]))
        && (m.katv is Some ==> m.order().contains(Katv::spec_tag()))
    }

    proof fn lemma_body_wire_parse(m: AttachmentModel, version: Option<u32>) {
        let w1 = Node::wire(m.node);
        let w2 = <Literal<ATCH_PATH_LEN>>::wire(m.path);
        let w3 = u32::wire(m.attachment_id);
        let w4 = wire_slots(m);
        let u5 = Seq::<u8>::empty();
        let u4 = w4 + u5;
        let u3 = w3 + u4;
        let u2 = w2 + u3;
        let u1 = w1 + u2;
        let s3 = w3 + w4;
        let s2 = w2 + s3;
        lemma_append_assoc(w3, w4, Seq::<u8>::empty());
        lemma_append_assoc(w2, s3, Seq::<u8>::empty());
        lemma_append_assoc(w1, s2, Seq::<u8>::empty());
        Node::lemma_wire_parse(m.node, None, u2);
        <Literal<ATCH_PATH_LEN>>::lemma_wire_parse(m.path, None, u3);
        u32::lemma_wire_parse(m.attachment_id, None, u4);
        let start = AttachmentModel {
            node: m.node,
            path: m.path,
            attachment_id: m.attachment_id,
            katv: None,
            ordered: Some(Seq::empty()),
        };
        lemma_tagged_wire_parse::<Attachment>(start, m, m.order(), u5);
        lemma_attachment_refill(start, m, m.order());
        assert(Seq::<Tag>::empty() + m.order() =~= m.order());
        assert(u1 =~= Self::body_wire(m));
    }
}

impl Reparsable for Attachment {
    open spec fn well_formed(m: AttachmentModel, version: Option<u32>) -> bool {
        Attachment::body_well_formed(m, version) && Attachment::body_wire(m).len() + 4 <= u32::MAX
    }

    proof fn lemma_wire_parse(m: AttachmentModel, version: Option<u32>, tail: Seq<u8>) {
        lemma_inclusive_wire_parse::<Attachment>(m, version, tail);
    }
}

/// Holds the track of the visibility of an attachment.
#[derive(Debug, Clone, PartialEq)]
pub struct Katv(pub TrackChunk<FloatBits>);

impl Chunk for Katv {
    open spec fn spec_tag() -> Tag {
        Tag([0x4B, 0x41, 0x54, 0x56])
    }

    fn tag() -> (t: Tag) {
        let t = Tag([0x4B, 0x41, 0x54, 0x56]);
        assert(t.0 =~= Self::spec_tag().0);
        t
    }
}

impl Materialized for Katv {
    type Version = u32;

    type Model = TrackChunkModel<FloatBits>;

    open spec fn model(&self) -> TrackChunkModel<FloatBits> {
        self.0.model()
    }

    open spec fn spec_parse(version: Option<u32>, input: Seq<u8>) -> Parsed<
        TrackChunkModel<FloatBits>,
    > {
        <TrackChunk<FloatBits>>::spec_parse(None, input)
    }

    open spec fn wire(m: TrackChunkModel<FloatBits>) -> Seq<u8> {
        <TrackChunk<FloatBits>>::wire(m)
    }

    open spec fn encode_error(m: TrackChunkModel<FloatBits>) -> Option<EncodeError> {
        <TrackChunk<FloatBits>>::encode_error(m)
    }

    fn parse_versioned<'a>(version: Option<u32>, input: &'a [u8]) -> (r: Parser<'a, Katv>) {
        let (input, chunk) = <TrackChunk<FloatBits>>::parse(input)?;
        Ok((input, Katv(chunk)))
    }

    fn encode(&self, output: &mut Vec<u8>) -> (r: Result<(), EncodeError>) {
        self.0.encode(output)
    }
}

impl Lossless for Katv {
    open spec fn faithful(m: TrackChunkModel<FloatBits>) -> bool {
        <TrackChunk<FloatBits>>::faithful(m)
    }

    proof fn lemma_parse_wire(version: Option<u32>, input: Seq<u8>) {
        <TrackChunk<FloatBits>>::lemma_parse_wire(None, input);
    }
}

impl Reparsable for Katv {
    open spec fn well_formed(m: TrackChunkModel<FloatBits>, version: Option<u32>) -> bool {
        <TrackChunk<FloatBits>>::well_formed(m, None) && m.tag == Self::spec_tag()
    }

    proof fn lemma_wire_parse(m: TrackChunkModel<FloatBits>, version: Option<u32>, tail: Seq<u8>) {
        <TrackChunk<FloatBits>>::lemma_wire_parse(m, None, tail);
    }
}

impl TaggedBlock for Katv {
    proof fn lemma_wire_tag(m: TrackChunkModel<FloatBits>) {
        lemma_tag_bytes(m.tag, m.tag.0@);
        assert(<TrackChunk<FloatBits>>::wire(m).take(4) =~= m.tag.0@);
    }
}

} // verus!
