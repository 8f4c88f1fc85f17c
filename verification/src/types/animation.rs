use crate::encoder::error::Error as EncodeError;
use crate::parser::error::MdxParseError;
use crate::parser::primitives::{Parsed, Parser};
use crate::types::chunk::{
    encode_error_slots, encode_slots, lemma_contains_front, lemma_tagged_parse_wire,
    lemma_tagged_wire_parse, order_of, opt_seq, parse_tagged, record_tag, refill_all,
    slots_faithful, spec_parse_tagged, wire_slots, BlockStep, Chunk, LosslessBlocks,
    OrderedSlots, Replay, ReparsableBlocks, TaggedBlock, TaggedBlocks,
};
use crate::types::chunk::utils::{lemma_tag_bytes, Tag};
use crate::types::materialize::{
    encode_error_inclusive_sized, encode_error_opt, encode_inclusive_sized, encode_opt,
    lemma_append_assoc, lemma_inclusive_parse_wire, lemma_inclusive_wire_parse, opt_faithful,
    opt_model, parse_inclusive_sized, spec_parse_inclusive_sized, wire_inclusive_sized,
    wire_opt, FloatBits, Lossless, LosslessBody, Materialized, Reparsable, ReparsableBody,
    SizedBody,
};
use crate::types::tracks::{TrackChunk, TrackChunkModel};
use vstd::prelude::*;

verus! {

/// The animation of the alpha and the color of a geoset.
#[derive(Debug, Clone, PartialEq)]
pub struct GeosetAnimation {
    pub alpha: FloatBits,
    pub flags: u32,
    pub color: [FloatBits; 3],
    pub geoset_id: u32,
    pub kgao: Option<Kgao>,
    pub kgac: Option<Kgac>,
    /// The order in which the optional blocks were met while parsing; `None`
    /// in a value that was not parsed, which is encoded in the order of the
    /// fields.
    pub ordered: Option<Vec<Tag>>,
}

/// What a value of [`GeosetAnimation`] stands for in specifications.
pub struct GeosetAnimationModel {
    pub alpha: FloatBits,
    pub flags: u32,
    pub color: Seq<FloatBits>,
    pub geoset_id: u32,
    pub kgao: Option<TrackChunkModel<FloatBits>>,
    pub kgac: Option<TrackChunkModel<Seq<FloatBits>>>,
    pub ordered: Option<Seq<Tag>>,
}

impl OrderedSlots for GeosetAnimationModel {
    open spec fn canonical() -> Seq<Tag> {
        seq![Kgao::spec_tag(), Kgac::spec_tag()]
    }

    open spec fn recorded(self) -> bool {
        self.ordered is Some
    }

    open spec fn order(self) -> Seq<Tag> {
        order_of(self.ordered)
    }

    open spec fn slot_wire(self, tag: Tag) -> Seq<u8> {
        if tag == Kgao::spec_tag() {
            wire_opt::<Kgao>(self.kgao)
        } else if tag == Kgac::spec_tag() {
            wire_opt::<Kgac>(self.kgac)
        } else {
            Seq::empty()
        }
    }

    open spec fn slot_error(self, tag: Tag) -> Option<EncodeError> {
        if tag == Kgao::spec_tag() {
            encode_error_opt::<Kgao>(self.kgao)
        } else if tag == Kgac::spec_tag() {
            encode_error_opt::<Kgac>(self.kgac)
        } else {
            None
        }
    }

    open spec fn slot_faithful(self, tag: Tag) -> bool {
        if tag == Kgao::spec_tag() {
            opt_faithful::<Kgao>(self.kgao)
        } else if tag == Kgac::spec_tag() {
            opt_faithful::<Kgac>(self.kgac)
        } else {
            true
        }
    }

    open spec fn frame(self) -> GeosetAnimationModel {
        GeosetAnimationModel {
            alpha: self.alpha,
            flags: self.flags,
            color: self.color,
            geoset_id: self.geoset_id,
            kgao: None,
            kgac: None,
            ordered: None,
        }
    }
}

impl Replay for GeosetAnimation {
    type Model = GeosetAnimationModel;

    open spec fn slots_model(&self) -> GeosetAnimationModel {
        GeosetAnimationModel {
            alpha: self.alpha.model(),
            flags: self.flags.model(),
            color: self.color.model(),
            geoset_id: self.geoset_id.model(),
            kgao: opt_model(self.kgao),
            kgac: opt_model(self.kgac),
            ordered: opt_seq(self.ordered),
        }
    }

    fn encode_slot(&self, tag: Tag, output: &mut Vec<u8>) -> (r: Result<(), EncodeError>) {
        if tag.same_as(&Kgao::tag()) {
            assert(self.slots_model().slot_error(tag) == encode_error_opt::<Kgao>(
                opt_model(self.kgao),
            ));
            assert(self.slots_model().slot_wire(tag) == wire_opt::<Kgao>(opt_model(self.kgao)));
            encode_opt(&self.kgao, output)
        } else if tag.same_as(&Kgac::tag()) {
            assert(self.slots_model().slot_error(tag) == encode_error_opt::<Kgac>(
                opt_model(self.kgac),
            ));
            assert(self.slots_model().slot_wire(tag) == wire_opt::<Kgac>(opt_model(self.kgac)));
            encode_opt(&self.kgac, output)
        } else {
            assert(self.slots_model().slot_error(tag) is None);
            assert(output@ =~= old(output)@ + self.slots_model().slot_wire(tag));
            Ok(())
        }
    }
}

impl TaggedBlocks for GeosetAnimation {
    open spec fn spec_block(m: GeosetAnimationModel, tag: Tag, input: Seq<u8>) -> BlockStep<GeosetAnimationModel> {
        if tag == Kgao::spec_tag() {
            match Kgao::spec_parse(None, input) {
                Ok((rest, block)) => BlockStep::Parsed(
                    rest,
                    GeosetAnimationModel {
                        alpha: m.alpha,
                        flags: m.flags,
                        color: m.color,
                        geoset_id: m.geoset_id,
                        kgao: Some(block),
                        kgac: m.kgac,
                        ordered: Some(m.order().push(tag)),
                    },
                ),
                Err(e) => BlockStep::Failed(e),
            }
        } else if tag == Kgac::spec_tag() {
            match Kgac::spec_parse(None, input) {
                Ok((rest, block)) => BlockStep::Parsed(
                    rest,
                    GeosetAnimationModel {
                        alpha: m.alpha,
                        flags: m.flags,
                        color: m.color,
                        geoset_id: m.geoset_id,
                        kgao: m.kgao,
                        kgac: Some(block),
                        ordered: Some(m.order().push(tag)),
                    },
                ),
                Err(e) => BlockStep::Failed(e),
            }
        } else {
            BlockStep::Failed(MdxParseError::UnknownTag(tag))
        }
    }

    fn parse_block<'a>(&mut self, tag: Tag, input: &'a [u8]) -> (r: Parser<'a, bool>) {
        if tag.same_as(&Kgao::tag()) {
            let (rest, block) = Kgao::parse(input)?;
            self.kgao = Some(block);
            record_tag(&mut self.ordered, tag);
            Ok((rest, false))
        } else if tag.same_as(&Kgac::tag()) {
            let (rest, block) = Kgac::parse(input)?;
            self.kgac = Some(block);
            record_tag(&mut self.ordered, tag);
            Ok((rest, false))
        } else {
            Err(MdxParseError::UnknownTag(tag))
        }
    }
}

impl LosslessBlocks for GeosetAnimation {
    proof fn lemma_block_step(m: GeosetAnimationModel, tag: Tag, input: Seq<u8>) {
        if tag == Kgao::spec_tag() {
            Kgao::lemma_parse_wire(None, input);
        } else if tag == Kgac::spec_tag() {
            Kgac::lemma_parse_wire(None, input);
        }
    }
}

impl SizedBody for GeosetAnimation {
    type Model = GeosetAnimationModel;

    open spec fn body_model(&self) -> GeosetAnimationModel {
        self.slots_model()
    }

    open spec fn spec_parse_body(version: Option<u32>, input: Seq<u8>) -> Parsed<GeosetAnimationModel> {
        match FloatBits::spec_parse(None, input) {
            Ok((rest, alpha)) => match u32::spec_parse(None, rest) {
                Ok((rest, flags)) => match <[FloatBits; 3]>::spec_parse(None, rest) {
                    Ok((rest, color)) => match u32::spec_parse(None, rest) {
                        Ok((rest, geoset_id)) => match spec_parse_tagged::<GeosetAnimation>(
                            GeosetAnimationModel {
                                alpha,
                                flags,
                                color,
                                geoset_id,
                                kgao: None,
                                kgac: None,
                                ordered: Some(Seq::empty()),
                            },
                            rest,
                        ) {
                            Ok((rest, scanned)) => Ok((rest, scanned)),
                            Err(e) => Err(e),
                        },
                        Err(e) => Err(e),
                    },
                    Err(e) => Err(e),
                },
                Err(e) => Err(e),
            },
            Err(e) => Err(e),
        }
    }

    open spec fn body_wire(m: GeosetAnimationModel) -> Seq<u8> {
        FloatBits::wire(m.alpha) + (u32::wire(m.flags) + (<[FloatBits; 3]>::wire(m.color) + (u32::wire(m.geoset_id) + (wire_slots(m)))))
    }

    open spec fn body_encode_error(m: GeosetAnimationModel) -> Option<EncodeError> {
        match FloatBits::encode_error(m.alpha) {
            Some(e) => Some(e),
            None => match u32::encode_error(m.flags) {
                Some(e) => Some(e),
                None => match <[FloatBits; 3]>::encode_error(m.color) {
                    Some(e) => Some(e),
                    None => match u32::encode_error(m.geoset_id) {
                        Some(e) => Some(e),
                        None => encode_error_slots(m),
                    },
                },
            },
        }
    }

    fn parse_body<'a>(version: Option<u32>, input: &'a [u8]) -> (r: Parser<'a, GeosetAnimation>) {
        let (input, alpha) = FloatBits::parse(input)?;
        let (input, flags) = u32::parse(input)?;
        let (input, color) = <[FloatBits; 3]>::parse(input)?;
        let (input, geoset_id) = u32::parse(input)?;
        let mut value = GeosetAnimation {
            alpha,
            flags,
            color,
            geoset_id,
            kgao: None,
            kgac: None,
            ordered: Some(Vec::new()),
        };
        let (input, _) = parse_tagged(&mut value, input)?;
        Ok((input, value))
    }

    fn encode_body(&self, output: &mut Vec<u8>) -> (r: Result<(), EncodeError>) {
        let ghost p0 = output@;
        self.alpha.encode(output)?;
        let ghost p1 = output@;
        self.flags.encode(output)?;
        let ghost p2 = output@;
        self.color.encode(output)?;
        let ghost p3 = output@;
        self.geoset_id.encode(output)?;
        let ghost p4 = output@;
        let canonical = [Kgao::tag(), Kgac::tag()];
        assert(canonical@ =~= GeosetAnimationModel::canonical());
        encode_slots(self, &self.ordered, canonical.as_slice(), output)?;
        proof {
            let m = self.body_model();
            let w1 = FloatBits::wire(m.alpha);
            let w2 = u32::wire(m.flags);
            let w3 = <[FloatBits; 3]>::wire(m.color);
            let w4 = u32::wire(m.geoset_id);
            let w5 = wire_slots(m);
            let s4 = w4 + w5;
            let s3 = w3 + s4;
            let s2 = w2 + s3;
            lemma_append_assoc(p3, w4, w5);
            lemma_append_assoc(p2, w3, s4);
            lemma_append_assoc(p1, w2, s3);
            lemma_append_assoc(p0, w1, s2);
        }
        Ok(())
    }
}

impl LosslessBody for GeosetAnimation {
    open spec fn body_faithful(m: GeosetAnimationModel) -> bool {
        FloatBits::faithful(m.alpha) && u32::faithful(m.flags) && <[FloatBits; 3]>::faithful(m.color) && u32::faithful(m.geoset_id) && m.order().no_duplicates() && slots_faithful(m, m.order())
    }

    proof fn lemma_body_parse_wire(version: Option<u32>, input: Seq<u8>) {
        FloatBits::lemma_parse_wire(None, input);
        match FloatBits::spec_parse(None, input) {
            Ok((rest1, alpha)) => {
                assert(FloatBits::faithful(alpha) ==> FloatBits::encode_error(alpha) is None
                    && FloatBits::wire(alpha) + rest1 == input);
                u32::lemma_parse_wire(None, rest1);
                match u32::spec_parse(None, rest1) {
                    Ok((rest2, flags)) => {
                        assert(u32::faithful(flags) ==> u32::encode_error(flags) is None
                            && u32::wire(flags) + rest2 == rest1);
                        <[FloatBits; 3]>::lemma_parse_wire(None, rest2);
                        match <[FloatBits; 3]>::spec_parse(None, rest2) {
                            Ok((rest3, color)) => {
                                assert(<[FloatBits; 3]>::faithful(color) ==> <[FloatBits; 3]>::encode_error(color) is None
                                    && <[FloatBits; 3]>::wire(color) + rest3 == rest2);
                                u32::lemma_parse_wire(None, rest3);
                                match u32::spec_parse(None, rest3) {
                                    Ok((rest4, geoset_id)) => {
                                        assert(u32::faithful(geoset_id) ==> u32::encode_error(geoset_id) is None
                                            && u32::wire(geoset_id) + rest4 == rest3);
                                        lemma_tagged_parse_wire::<GeosetAnimation>(
                                            GeosetAnimationModel {
                                                alpha,
                                                flags,
                                                color,
                                                geoset_id,
                                                kgao: None,
                                                kgac: None,
                                                ordered: Some(Seq::empty()),
                                            },
                                            rest4,
                                        );
                                        match spec_parse_tagged::<GeosetAnimation>(
                                            GeosetAnimationModel {
                                                alpha,
                                                flags,
                                                color,
                                                geoset_id,
                                                kgao: None,
                                                kgac: None,
                                                ordered: Some(Seq::empty()),
                                            },
                                            rest4,
                                        ) {
                                            Ok((rest5, scanned)) => {
                                                let m = scanned;
                                                if Self::body_faithful(m) {
                                                    assert(scanned.order().skip(0) =~= scanned.order());
                                                    let w1 = FloatBits::wire(m.alpha);
                                                    let w2 = u32::wire(m.flags);
                                                    let w3 = <[FloatBits; 3]>::wire(m.color);
                                                    let w4 = u32::wire(m.geoset_id);
                                                    let w5 = wire_slots(m);
                                                    let s4 = w4 + w5;
                                                    let s3 = w3 + s4;
                                                    let s2 = w2 + s3;
                                                    lemma_append_assoc(w4, w5, rest5);
                                                    lemma_append_assoc(w3, s4, rest5);
                                                    lemma_append_assoc(w2, s3, rest5);
                                                    lemma_append_assoc(w1, s2, rest5);
                                                }
                                            },
                                            Err(_) => {},
                                        }
                                    },
                                    Err(_) => {},
                                }
                            },
                            Err(_) => {},
                        }
                    },
                    Err(_) => {},
                }
            },
            Err(_) => {},
        }
    }
}

impl Materialized for GeosetAnimation {
    type Version = u32;

    type Model = GeosetAnimationModel;

    open spec fn model(&self) -> GeosetAnimationModel {
        self.body_model()
    }

    open spec fn spec_parse(version: Option<u32>, input: Seq<u8>) -> Parsed<GeosetAnimationModel> {
        spec_parse_inclusive_sized::<GeosetAnimation>(version, input)
    }

    open spec fn wire(m: GeosetAnimationModel) -> Seq<u8> {
        wire_inclusive_sized::<GeosetAnimation>(m)
    }

    open spec fn encode_error(m: GeosetAnimationModel) -> Option<EncodeError> {
        encode_error_inclusive_sized::<GeosetAnimation>(m)
    }

    fn parse_versioned<'a>(version: Option<u32>, input: &'a [u8]) -> (r: Parser<'a, GeosetAnimation>) {
        parse_inclusive_sized::<GeosetAnimation>(version, input)
    }

    /// The record is encoded aside and then written with its size: if it
    /// fails, the output is left as it is.
    fn encode(&self, output: &mut Vec<u8>) -> (r: Result<(), EncodeError>)
        ensures
            r is Err ==> final(output)@ == old(output)@,
    {
        encode_inclusive_sized(output, self)
    }
}

impl Lossless for GeosetAnimation {
    open spec fn faithful(m: GeosetAnimationModel) -> bool {
        GeosetAnimation::body_faithful(m)
    }

    proof fn lemma_parse_wire(version: Option<u32>, input: Seq<u8>) {
        lemma_inclusive_parse_wire::<GeosetAnimation>(version, input);
    }
}

/// The tags of the blocks of [`GeosetAnimation`] differ from each other.
proof fn lemma_geosetanimation_tags_differ()
    ensures
        Kgao::spec_tag() != Kgac::spec_tag(),
{
    assert(Kgao::spec_tag().0[3] != Kgac::spec_tag().0[3]);
}

impl ReparsableBlocks for GeosetAnimation {
    open spec fn slot_well_formed(m: GeosetAnimationModel, tag: Tag) -> bool {
        if tag == Kgao::spec_tag() {
            m.kgao is Some && Kgao::well_formed(m.kgao->0, None)
        } else if tag == Kgac::spec_tag() {
            m.kgac is Some && Kgac::well_formed(m.kgac->0, None)
        } else {
            false
        }
    }

    open spec fn refill(acc: GeosetAnimationModel, m: GeosetAnimationModel, tag: Tag) -> GeosetAnimationModel {
        if tag == Kgao::spec_tag() {
            GeosetAnimationModel {
                alpha: acc.alpha,
                flags: acc.flags,
                color: acc.color,
                geoset_id: acc.geoset_id,
                kgao: m.kgao,
                kgac: acc.kgac,
                ordered: Some(acc.order().push(tag)),
            }
        } else if tag == Kgac::spec_tag() {
            GeosetAnimationModel {
                alpha: acc.alpha,
                flags: acc.flags,
                color: acc.color,
                geoset_id: acc.geoset_id,
                kgao: acc.kgao,
                kgac: m.kgac,
                ordered: Some(acc.order().push(tag)),
            }
        } else {
            acc
        }
    }

    proof fn lemma_block_refill(acc: GeosetAnimationModel, m: GeosetAnimationModel, tag: Tag, tail: Seq<u8>) {
        if tag == Kgao::spec_tag() {
            Kgao::lemma_wire_tag(m.kgao->0);
            Kgao::lemma_wire_parse(m.kgao->0, None, tail);
        } else if tag == Kgac::spec_tag() {
            Kgac::lemma_wire_tag(m.kgac->0);
            Kgac::lemma_wire_parse(m.kgac->0, None, tail);
        }
    }
}

/// What the blocks of `m` under the tags make of `acc`: the other fields are
/// the ones of `acc`, the tags are recorded behind the ones of `acc`, and a
/// block is the one of `m` if its tag is among the tags.
proof fn lemma_geosetanimation_refill(acc: GeosetAnimationModel, m: GeosetAnimationModel, tags: Seq<Tag>)
    requires
        acc.ordered is Some,
        forall|i: int| 0 <= i < tags.len() ==> GeosetAnimation::slot_well_formed(m, #[trigger] tags[i]),
    ensures
        ({
            let r = refill_all::<GeosetAnimation>(acc, m, tags);
            &&& r.ordered == Some(acc.order() + tags)
            &&& r.alpha == acc.alpha
            &&& r.flags == acc.flags
            &&& r.color == acc.color
            &&& r.geoset_id == acc.geoset_id
            &&& r.kgao == if tags.contains(Kgao::spec_tag()) {
                m.kgao
            } else {
                acc.kgao
            }
            &&& r.kgac == if tags.contains(Kgac::spec_tag()) {
                m.kgac
            } else {
                acc.kgac
            }
        }),
    decreases tags.len(),
{
    if tags.len() == 0 {
        assert(acc.order() + tags =~= acc.order());
    } else {
        let tag = tags[0];
        let next = GeosetAnimation::refill(acc, m, tag);
        assert(GeosetAnimation::slot_well_formed(m, tags[0]));
        assert forall|i: int| 0 <= i < tags.skip(1).len() implies GeosetAnimation::slot_well_formed(
            m,
            #[trigger] tags.skip(1)[i],
        ) by {
            assert(tags.skip(1)[i] == tags[i + 1]);
        }
        lemma_geosetanimation_refill(next, m, tags.skip(1));
        assert(next.order() + tags.skip(1) =~= acc.order() + tags);
        lemma_geosetanimation_tags_differ();
        lemma_contains_front(tags, Kgao::spec_tag());
        lemma_contains_front(tags, Kgac::spec_tag());
    }
}

impl ReparsableBody for GeosetAnimation {
    open spec fn body_well_formed(m: GeosetAnimationModel, version: Option<u32>) -> bool {
        FloatBits::well_formed(m.alpha, None)
        && u32::well_formed(m.flags, None)
        && <[FloatBits; 3]>::well_formed(m.color, None)
        && u32::well_formed(m.geoset_id, None)
        && m.ordered is Some
        && (forall|i: int| 0 <= i < m.order().len() ==> GeosetAnimation::slot_well_formed(m, #[trigger] m.order()[i]))
        && (m.kgao is Some ==> m.order().contains(Kgao::spec_tag()))
        && (m.kgac is Some ==> m.order().contains(Kgac::spec_tag()))
    }

    proof fn lemma_body_wire_parse(m: GeosetAnimationModel, version: Option<u32>) {
        let w1 = FloatBits::wire(m.alpha);
        let w2 = u32::wire(m.flags);
        let w3 = <[FloatBits; 3]>::wire(m.color);
        let w4 = u32::wire(m.geoset_id);
        let w5 = wire_slots(m);
        let u6 = Seq::<u8>::empty();
        let u5 = w5 + u6;
        let u4 = w4 + u5;
        let u3 = w3 + u4;
        let u2 = w2 + u3;
        let u1 = w1 + u2;
        let s4 = w4 + w5;
        let s3 = w3 + s4;
        let s2 = w2 + s3;
        lemma_append_assoc(w4, w5, Seq::<u8>::empty());
        lemma_append_assoc(w3, s4, Seq::<u8>::empty());
        lemma_append_assoc(w2, s3, Seq::<u8>::empty());
        lemma_append_assoc(w1, s2, Seq::<u8>::empty());
        FloatBits::lemma_wire_parse(m.alpha, None, u2);
        u32::lemma_wire_parse(m.flags, None, u3);
        <[FloatBits; 3]>::lemma_wire_parse(m.color, None, u4);
        u32::lemma_wire_parse(m.geoset_id, None, u5);
        let start = GeosetAnimationModel {
            alpha: m.alpha,
            flags: m.flags,
            color: m.color,
            geoset_id: m.geoset_id,
            kgao: None,
            kgac: None,
            ordered: Some(Seq::empty()),
        };
        lemma_tagged_wire_parse::<GeosetAnimation>(start, m, m.order(), u6);
        lemma_geosetanimation_refill(start, m, m.order());
        assert(Seq::<Tag>::empty() + m.order() =~= m.order());
        assert(u1 =~= Self::body_wire(m));
    }
}

impl Reparsable for GeosetAnimation {
    open spec fn well_formed(m: GeosetAnimationModel, version: Option<u32>) -> bool {
        GeosetAnimation::body_well_formed(m, version) && GeosetAnimation::body_wire(m).len() + 4 <= u32::MAX
    }

    proof fn lemma_wire_parse(m: GeosetAnimationModel, version: Option<u32>, tail: Seq<u8>) {
        lemma_inclusive_wire_parse::<GeosetAnimation>(m, version, tail);
    }
}

/// Holds the track of the alpha of a geoset.
#[derive(Debug, Clone, PartialEq)]
pub struct Kgao(pub TrackChunk<FloatBits>);

impl Chunk for Kgao {
    open spec fn spec_tag() -> Tag {
        Tag([0x4B, 0x47, 0x41, 0x4F])
    }

    fn tag() -> (t: Tag) {
        let t = Tag([0x4B, 0x47, 0x41, 0x4F]);
        assert(t.0 =~= Self::spec_tag().0);
        t
    }
}

impl Materialized for Kgao {
    type Version = u32;

    type Model = TrackChunkModel<FloatBits>;

    open spec fn model(&self) -> TrackChunkModel<FloatBits> {
        self.0.model()
    }

    open spec fn spec_parse(version: Option<u32>, input: Seq<u8>) -> Parsed<
        TrackChunkModel<FloatBits>,
    > {
        <TrackChunk<FloatBits>>::spec_parse(None, input)
    }

    open spec fn wire(m: TrackChunkModel<FloatBits>) -> Seq<u8> {
        <TrackChunk<FloatBits>>::wire(m)
    }

    open spec fn encode_error(m: TrackChunkModel<FloatBits>) -> Option<EncodeError> {
        <TrackChunk<FloatBits>>::encode_error(m)
    }

    fn parse_versioned<'a>(version: Option<u32>, input: &'a [u8]) -> (r: Parser<'a, Kgao>) {
        let (input, chunk) = <TrackChunk<FloatBits>>::parse(input)?;
        Ok((input, Kgao(chunk)))
    }

    fn encode(&self, output: &mut Vec<u8>) -> (r: Result<(), EncodeError>) {
        self.0.encode(output)
    }
}

impl Lossless for Kgao {
    open spec fn faithful(m: TrackChunkModel<FloatBits>) -> bool {
        <TrackChunk<FloatBits>>::faithful(m)
    }

    proof fn lemma_parse_wire(version: Option<u32>, input: Seq<u8>) {
        <TrackChunk<FloatBits>>::lemma_parse_wire(None, input);
    }
}

impl Reparsable for Kgao {
    open spec fn well_formed(m: TrackChunkModel<FloatBits>, version: Option<u32>) -> bool {
        <TrackChunk<FloatBits>>::well_formed(m, None) && m.tag == Self::spec_tag()
    }

    proof fn lemma_wire_parse(m: TrackChunkModel<FloatBits>, version: Option<u32>, tail: Seq<u8>) {
        <TrackChunk<FloatBits>>::lemma_wire_parse(m, None, tail);
    }
}

impl TaggedBlock for Kgao {
    proof fn lemma_wire_tag(m: TrackChunkModel<FloatBits>) {
        lemma_tag_bytes(m.tag, m.tag.0@);
        assert(<TrackChunk<FloatBits>>::wire(m).take(4) =~= m.tag.0@);
    }
}

/// Holds the track of the color of a geoset.
#[derive(Debug, Clone, PartialEq)]
pub struct Kgac(pub TrackChunk<[FloatBits; 3]>);

impl Chunk for Kgac {
    open spec fn spec_tag() -> Tag {
        Tag([0x4B, 0x47, 0x41, 0x43])
    }

    fn tag() -> (t: Tag) {
        let t = Tag([0x4B, 0x47, 0x41, 0x43]);
        assert(t.0 =~= Self::spec_tag().0);
        t
    }
}

impl Materialized for Kgac {
    type Version = u32;

    type Model = TrackChunkModel<Seq<FloatBits>>;

    open spec fn model(&self) -> TrackChunkModel<Seq<FloatBits>> {
        self.0.model()
    }

    open spec fn spec_parse(version: Option<u32>, input: Seq<u8>) -> Parsed<
        TrackChunkModel<Seq<FloatBits>>,
    > {
        <TrackChunk<[FloatBits; 3]>>::spec_parse(None, input)
    }

    open spec fn wire(m: TrackChunkModel<Seq<FloatBits>>) -> Seq<u8> {
        <TrackChunk<[FloatBits; 3]>>::wire(m)
    }

    open spec fn encode_error(m: TrackChunkModel<Seq<FloatBits>>) -> Option<EncodeError> {
        <TrackChunk<[FloatBits; 3]>>::encode_error(m)
    }

    fn parse_versioned<'a>(version: Option<u32>, input: &'a [u8]) -> (r: Parser<'a, Kgac>) {
        let (input, chunk) = <TrackChunk<[FloatBits; 3]>>::parse(input)?;
        Ok((input, Kgac(chunk)))
    }

    fn encode(&self, output: &mut Vec<u8>) -> (r: Result<(), EncodeError>) {
        self.0.encode(output)
    }
}

impl Lossless for Kgac {
    open spec fn faithful(m: TrackChunkModel<Seq<FloatBits>>) -> bool {
        <TrackChunk<[FloatBits; 3]>>::faithful(m)
    }

    proof fn lemma_parse_wire(version: Option<u32>, input: Seq<u8>) {
        <TrackChunk<[FloatBits; 3]>>::lemma_parse_wire(None, input);
    }
}

impl Reparsable for Kgac {
    open spec fn well_formed(m: TrackChunkModel<Seq<FloatBits>>, version: Option<u32>) -> bool {
        <TrackChunk<[FloatBits; 3]>>::well_formed(m, None) && m.tag == Self::spec_tag()
    }

    proof fn lemma_wire_parse(m: TrackChunkModel<Seq<FloatBits>>, version: Option<u32>, tail: Seq<u8>) {
        <TrackChunk<[FloatBits; 3]>>::lemma_wire_parse(m, None, tail);
    }
}

impl TaggedBlock for Kgac {
    proof fn lemma_wire_tag(m: TrackChunkModel<Seq<FloatBits>>) {
        lemma_tag_bytes(m.tag, m.tag.0@);
        assert(<TrackChunk<[FloatBits; 3]>>::wire(m).take(4) =~= m.tag.0@);
    }
}

} // verus!
