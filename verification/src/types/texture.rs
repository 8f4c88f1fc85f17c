use crate::encoder::error::Error as EncodeError;
use crate::parser::error::MdxParseError;
use crate::parser::primitives::{Parsed, Parser};
use crate::types::chunk::{
    encode_error_slots, encode_slots, lemma_contains_front, lemma_tagged_parse_wire,
    lemma_tagged_wire_parse, order_of, opt_seq, parse_tagged, record_tag, refill_all,
    slots_faithful, spec_parse_tagged, wire_slots, BlockStep, Chunk, LosslessBlocks,
    OrderedSlots, Replay, ReparsableBlocks, TaggedBlock, TaggedBlocks,
};
use crate::types::chunk::utils::{lemma_tag_bytes, Literal, Tag};
use crate::types::materialize::{
    encode_error_inclusive_sized, encode_error_opt, encode_inclusive_sized, encode_opt,
    lemma_append_assoc, lemma_inclusive_parse_wire, lemma_inclusive_wire_parse, opt_faithful,
    opt_model, parse_inclusive_sized, spec_parse_inclusive_sized, wire_inclusive_sized,
    wire_opt, FloatBits, Lossless, LosslessBody, Materialized, Reparsable, ReparsableBody,
    SizedBody,
};
use crate::types::tracks::{TrackChunk, TrackChunkModel};
use vstd::prelude::*;

verus! {

/// Amount of bytes one texture record takes.
pub const TEXTURE_SIZE: usize = 268;

/// Length of the `file_name` field of [Texture].
pub const TEXTURE_FILENAME_LEN: usize = 260;

/// A texture: the file that holds it, or the slot that the game fills.
#[derive(Debug, Clone, PartialEq)]
pub struct Texture {
    pub replaceable_id: u32,
    pub file_name: Literal<TEXTURE_FILENAME_LEN>,
    pub flags: u32,
}

/// What a value of [`Texture`] stands for in specifications.
pub struct TextureModel {
    pub replaceable_id: u32,
    pub file_name: Seq<char>,
    pub flags: u32,
}

impl Materialized for Texture {
    type Version = u32;

    type Model = TextureModel;

    open spec fn model(&self) -> TextureModel {
        TextureModel {
            replaceable_id: self.replaceable_id.model(),
            file_name: self.file_name.model(),
            flags: self.flags.model(),
        }
    }

    open spec fn spec_parse(version: Option<u32>, input: Seq<u8>) -> Parsed<TextureModel> {
        match u32::spec_parse(None, input) {
            Ok((rest, replaceable_id)) => match <Literal<TEXTURE_FILENAME_LEN>>::spec_parse(None, rest) {
                Ok((rest, file_name)) => match u32::spec_parse(None, rest) {
                    Ok((rest, flags)) => Ok((rest, TextureModel { replaceable_id, file_name, flags })),
                    Err(e) => Err(e),
                },
                Err(e) => Err(e),
            },
            Err(e) => Err(e),
        }
    }

    open spec fn wire(m: TextureModel) -> Seq<u8> {
        u32::wire(m.replaceable_id) + (<Literal<TEXTURE_FILENAME_LEN>>::wire(m.file_name) + (u32::wire(m.flags)))
    }

    open spec fn encode_error(m: TextureModel) -> Option<EncodeError> {
        match u32::encode_error(m.replaceable_id) {
            Some(e) => Some(e),
            None => match <Literal<TEXTURE_FILENAME_LEN>>::encode_error(m.file_name) {
                Some(e) => Some(e),
                None => u32::encode_error(m.flags),
            },
        }
    }

    fn parse_versioned<'a>(version: Option<u32>, input: &'a [u8]) -> (r: Parser<'a, Texture>) {
        let (input, replaceable_id) = u32::parse(input)?;
        let (input, file_name) = <Literal<TEXTURE_FILENAME_LEN>>::parse(input)?;
        let (input, flags) = u32::parse(input)?;
        Ok((input, Texture { replaceable_id, file_name, flags }))
    }

    fn encode(&self, output: &mut Vec<u8>) -> (r: Result<(), EncodeError>) {
        let ghost p0 = output@;
        self.replaceable_id.encode(output)?;
        let ghost p1 = output@;
        self.file_name.encode(output)?;
        let ghost p2 = output@;
        self.flags.encode(output)?;
        proof {
            let m = self.model();
            let w1 = u32::wire(m.replaceable_id);
            let w2 = <Literal<TEXTURE_FILENAME_LEN>>::wire(m.file_name);
            let w3 = u32::wire(m.flags);
            let s2 = w2 + w3;
            lemma_append_assoc(p1, w2, w3);
            lemma_append_assoc(p0, w1, s2);
        }
        Ok(())
    }
}

impl Lossless for Texture {
    open spec fn faithful(m: TextureModel) -> bool {
        u32::faithful(m.replaceable_id) && <Literal<TEXTURE_FILENAME_LEN>>::faithful(m.file_name) && u32::faithful(m.flags)
    }

    proof fn lemma_parse_wire(version: Option<u32>, input: Seq<u8>) {
        u32::lemma_parse_wire(None, input);
        match u32::spec_parse(None, input) {
            Ok((rest1, replaceable_id)) => {
                assert(u32::faithful(replaceable_id) ==> u32::encode_error(replaceable_id) is None
                    && u32::wire(replaceable_id) + rest1 == input);
                <Literal<TEXTURE_FILENAME_LEN>>::lemma_parse_wire(None, rest1);
                match <Literal<TEXTURE_FILENAME_LEN>>::spec_parse(None, rest1) {
                    Ok((rest2, file_name)) => {
                        assert(<Literal<TEXTURE_FILENAME_LEN>>::faithful(file_name) ==> <Literal<TEXTURE_FILENAME_LEN>>::encode_error(file_name) is None
                            && <Literal<TEXTURE_FILENAME_LEN>>::wire(file_name) + rest2 == rest1);
                        u32::lemma_parse_wire(None, rest2);
                        match u32::spec_parse(None, rest2) {
                            Ok((rest3, flags)) => {
                                assert(u32::faithful(flags) ==> u32::encode_error(flags) is None
                                    && u32::wire(flags) + rest3 == rest2);
                                let m = TextureModel { replaceable_id, file_name, flags };
                                if Self::faithful(m) {
                                    let w1 = u32::wire(m.replaceable_id);
                                    let w2 = <Literal<TEXTURE_FILENAME_LEN>>::wire(m.file_name);
                                    let w3 = u32::wire(m.flags);
                                    let s2 = w2 + w3;
                                    lemma_append_assoc(w2, w3, rest3);
                                    lemma_append_assoc(w1, s2, rest3);
                                }
                            },
                            Err(_) => {},
                        }
                    },
                    Err(_) => {},
                }
            },
            Err(_) => {},
        }
    }
}

impl Reparsable for Texture {
    open spec fn well_formed(m: TextureModel, version: Option<u32>) -> bool {
        u32::well_formed(m.replaceable_id, None)
        && <Literal<TEXTURE_FILENAME_LEN>>::well_formed(m.file_name, None)
        && u32::well_formed(m.flags, None)
    }

    proof fn lemma_wire_parse(m: TextureModel, version: Option<u32>, tail: Seq<u8>) {
        let w1 = u32::wire(m.replaceable_id);
        let w2 = <Literal<TEXTURE_FILENAME_LEN>>::wire(m.file_name);
        let w3 = u32::wire(m.flags);
        let u4 = tail;
        let u3 = w3 + u4;
        let u2 = w2 + u3;
        let u1 = w1 + u2;
        let s2 = w2 + w3;
        lemma_append_assoc(w2, w3, tail);
        lemma_append_assoc(w1, s2, tail);
        u32::lemma_wire_parse(m.replaceable_id, None, u2);
        <Literal<TEXTURE_FILENAME_LEN>>::lemma_wire_parse(m.file_name, None, u3);
        u32::lemma_wire_parse(m.flags, None, u4);
    }
}

/// The animation of the coordinates of a texture.
#[derive(Debug, Clone, PartialEq)]
pub struct TextureAnimation {
    pub ktat: Option<Ktat>,
    pub ktar: Option<Ktar>,
    pub ktas: Option<Ktas>,
    /// The order in which the optional blocks were met while parsing; `None`
    /// in a value that was not parsed, which is encoded in the order of the
    /// fields.
    pub ordered: Option<Vec<Tag>>,
}

/// What a value of [`TextureAnimation`] stands for in specifications.
pub struct TextureAnimationModel {
    pub ktat: Option<TrackChunkModel<Seq<FloatBits>>>,
    pub ktar: Option<TrackChunkModel<Seq<FloatBits>>>,
    pub ktas: Option<TrackChunkModel<Seq<FloatBits>>>,
    pub ordered: Option<Seq<Tag>>,
}

impl OrderedSlots for TextureAnimationModel {
    open spec fn canonical() -> Seq<Tag> {
        seq![Ktat::spec_tag(), Ktar::spec_tag(), Ktas::spec_tag()]
    }

    open spec fn recorded(self) -> bool {
        self.ordered is Some
    }

    open spec fn order(self) -> Seq<Tag> {
        order_of(self.ordered)
    }

    open spec fn slot_wire(self, tag: Tag) -> Seq<u8> {
        if tag == Ktat::spec_tag() {
            wire_opt::<Ktat>(self.ktat)
        } else if tag == Ktar::spec_tag() {
            wire_opt::<Ktar>(self.ktar)
        } else if tag == Ktas::spec_tag() {
            wire_opt::<Ktas>(self.ktas)
        } else {
            Seq::empty()
        }
    }

    open spec fn slot_error(self, tag: Tag) -> Option<EncodeError> {
        if tag == Ktat::spec_tag() {
            encode_error_opt::<Ktat>(self.ktat)
        } else if tag == Ktar::spec_tag() {
            encode_error_opt::<Ktar>(self.ktar)
        } else if tag == Ktas::spec_tag() {
            encode_error_opt::<Ktas>(self.ktas)
        } else {
            None
        }
    }

    open spec fn slot_faithful(self, tag: Tag) -> bool {
        if tag == Ktat::spec_tag() {
            opt_faithful::<Ktat>(self.ktat)
        } else if tag == Ktar::spec_tag() {
            opt_faithful::<Ktar>(self.ktar)
        } else if tag == Ktas::spec_tag() {
            opt_faithful::<Ktas>(self.ktas)
        } else {
            true
        }
    }

    open spec fn frame(self) -> TextureAnimationModel {
        TextureAnimationModel {
            ktat: None,
            ktar: None,
            ktas: None,
            ordered: None,
        }
    }
}

impl Replay for TextureAnimation {
    type Model = TextureAnimationModel;

    open spec fn slots_model(&self) -> TextureAnimationModel {
        TextureAnimationModel {
            ktat: opt_model(self.ktat),
            ktar: opt_model(self.ktar),
            ktas: opt_model(self.ktas),
            ordered: opt_seq(self.ordered),
        }
    }

    fn encode_slot(&self, tag: Tag, output: &mut Vec<u8>) -> (r: Result<(), EncodeError>) {
        if tag.same_as(&Ktat::tag()) {
            assert(self.slots_model().slot_error(tag) == encode_error_opt::<Ktat>(
                opt_model(self.ktat),
            ));
            assert(self.slots_model().slot_wire(tag) == wire_opt::<Ktat>(opt_model(self.ktat)));
            encode_opt(&self.ktat, output)
        } else if tag.same_as(&Ktar::tag()) {
            assert(self.slots_model().slot_error(tag) == encode_error_opt::<Ktar>(
                opt_model(self.ktar),
            ));
            assert(self.slots_model().slot_wire(tag) == wire_opt::<Ktar>(opt_model(self.ktar)));
            encode_opt(&self.ktar, output)
        } else if tag.same_as(&Ktas::tag()) {
            assert(self.slots_model().slot_error(tag) == encode_error_opt::<Ktas>(
                opt_model(self.ktas),
            ));
            assert(self.slots_model().slot_wire(tag) == wire_opt::<Ktas>(opt_model(self.ktas)));
            encode_opt(&self.ktas, output)
        } else {
            assert(self.slots_model().slot_error(tag) is None);
            assert(output@ =~= old(output)@ + self.slots_model().slot_wire(tag));
            Ok(())
        }
    }
}

impl TaggedBlocks for TextureAnimation {
    open spec fn spec_block(m: TextureAnimationModel, tag: Tag, input: Seq<u8>) -> BlockStep<TextureAnimationModel> {
        if tag == Ktat::spec_tag() {
            match Ktat::spec_parse(None, input) {
                Ok((rest, block)) => BlockStep::Parsed(
                    rest,
                    TextureAnimationModel {
                        ktat: Some(block),
                        ktar: m.ktar,
                        ktas: m.ktas,
                        ordered: Some(m.order().push(tag)),
                    },
                ),
                Err(e) => BlockStep::Failed(e),
            }
        } else if tag == Ktar::spec_tag() {
            match Ktar::spec_parse(None, input) {
                Ok((rest, block)) => BlockStep::Parsed(
                    rest,
                    TextureAnimationModel {
                        ktat: m.ktat,
                        ktar: Some(block),
                        ktas: m.ktas,
                        ordered: Some(m.order().push(tag)),
                    },
                ),
                Err(e) => BlockStep::Failed(e),
            }
        } else if tag == Ktas::spec_tag() {
            match Ktas::spec_parse(None, input) {
                Ok((rest, block)) => BlockStep::Parsed(
                    rest,
                    TextureAnimationModel {
                        ktat: m.ktat,
                        ktar: m.ktar,
                        ktas: Some(block),
                        ordered: Some(m.order().push(tag)),
                    },
                ),
                Err(e) => BlockStep::Failed(e),
            }
        } else {
            BlockStep::Failed(MdxParseError::UnknownTag(tag))
        }
    }

    fn parse_block<'a>(&mut self, tag: Tag, input: &'a [u8]) -> (r: Parser<'a, bool>) {
        if tag.same_as(&Ktat::tag()) {
            let (rest, block) = Ktat::parse(input)?;
            self.ktat = Some(block);
            record_tag(&mut self.ordered, tag);
            Ok((rest, false))
        } else if tag.same_as(&Ktar::tag()) {
            let (rest, block) = Ktar::parse(input)?;
            self.ktar = Some(block);
            record_tag(&mut self.ordered, tag);
            Ok((rest, false))
        } else if tag.same_as(&Ktas::tag()) {
            let (rest, block) = Ktas::parse(input)?;
            self.ktas = Some(block);
            record_tag(&mut self.ordered, tag);
            Ok((rest, false))
        } else {
            Err(MdxParseError::UnknownTag(tag))
        }
    }
}

impl LosslessBlocks for TextureAnimation {
    proof fn lemma_block_step(m: TextureAnimationModel, tag: Tag, input: Seq<u8>) {
        if tag == Ktat::spec_tag() {
            Ktat::lemma_parse_wire(None, input);
        } else if tag == Ktar::spec_tag() {
            Ktar::lemma_parse_wire(None, input);
        } else if tag == Ktas::spec_tag() {
            Ktas::lemma_parse_wire(None, input);
        }
    }
}

impl SizedBody for TextureAnimation {
    type Model = TextureAnimationModel;

    open spec fn body_model(&self) -> TextureAnimationModel {
        self.slots_model()
    }

    open spec fn spec_parse_body(version: Option<u32>, input: Seq<u8>) -> Parsed<TextureAnimationModel> {
        match spec_parse_tagged::<TextureAnimation>(
            TextureAnimationModel {
                ktat: None,
                ktar: None,
                ktas: None,
                ordered: Some(Seq::empty()),
            },
            input,
        ) {
            Ok((rest, scanned)) => Ok((rest, scanned)),
            Err(e) => Err(e),
        }
    }

    open spec fn body_wire(m: TextureAnimationModel) -> Seq<u8> {
        wire_slots(m)
    }

    open spec fn body_encode_error(m: TextureAnimationModel) -> Option<EncodeError> {
        encode_error_slots(m)
    }

    fn parse_body<'a>(version: Option<u32>, input: &'a [u8]) -> (r: Parser<'a, TextureAnimation>) {
        let mut value = TextureAnimation {
            ktat: None,
            ktar: None,
            ktas: None,
            ordered: Some(Vec::new()),
        };
        let (input, _) = parse_tagged(&mut value, input)?;
        Ok((input, value))
    }

    fn encode_body(&self, output: &mut Vec<u8>) -> (r: Result<(), EncodeError>) {
        let canonical = [Ktat::tag(), Ktar::tag(), Ktas::tag()];
        assert(canonical@ =~= TextureAnimationModel::canonical());
        encode_slots(self, &self.ordered, canonical.as_slice(), output)?;
        Ok(())
    }
}

impl LosslessBody for TextureAnimation {
    open spec fn body_faithful(m: TextureAnimationModel) -> bool {
        m.order().no_duplicates() && slots_faithful(m, m.order())
    }

    proof fn lemma_body_parse_wire(version: Option<u32>, input: Seq<u8>) {
        lemma_tagged_parse_wire::<TextureAnimation>(
            TextureAnimationModel {
                ktat: None,
                ktar: None,
                ktas: None,
                ordered: Some(Seq::empty()),
            },
            input,
        );
        match spec_parse_tagged::<TextureAnimation>(
            TextureAnimationModel {
                ktat: None,
                ktar: None,
                ktas: None,
                ordered: Some(Seq::empty()),
            },
            input,
        ) {
            Ok((rest1, scanned)) => {
                let m = scanned;
                if Self::body_faithful(m) {
                    assert(scanned.order().skip(0) =~= scanned.order());
                }
            },
            Err(_) => {},
        }
    }
}

impl Materialized for TextureAnimation {
    type Version = u32;

    type Model = TextureAnimationModel;

    open spec fn model(&self) -> TextureAnimationModel {
        self.body_model()
    }

    open spec fn spec_parse(version: Option<u32>, input: Seq<u8>) -> Parsed<TextureAnimationModel> {
        spec_parse_inclusive_sized::<TextureAnimation>(version, input)
    }

    open spec fn wire(m: TextureAnimationModel) -> Seq<u8> {
        wire_inclusive_sized::<TextureAnimation>(m)
    }

    open spec fn encode_error(m: TextureAnimationModel) -> Option<EncodeError> {
        encode_error_inclusive_sized::<TextureAnimation>(m)
    }

    fn parse_versioned<'a>(version: Option<u32>, input: &'a [u8]) -> (r: Parser<'a, TextureAnimation>) {
        parse_inclusive_sized::<TextureAnimation>(version, input)
    }

    /// The record is encoded aside and then written with its size: if it
    /// fails, the output is left as it is.
    fn encode(&self, output: &mut Vec<u8>) -> (r: Result<(), EncodeError>)
        ensures
            r is Err ==> final(output)@ == old(output)@,
    {
        encode_inclusive_sized(output, self)
    }
}

impl Lossless for TextureAnimation {
    open spec fn faithful(m: TextureAnimationModel) -> bool {
        TextureAnimation::body_faithful(m)
    }

    proof fn lemma_parse_wire(version: Option<u32>, input: Seq<u8>) {
        lemma_inclusive_parse_wire::<TextureAnimation>(version, input);
    }
}

/// The tags of the blocks of [`TextureAnimation`] differ from each other.
proof fn lemma_textureanimation_tags_differ()
    ensures
        Ktat::spec_tag() != Ktar::spec_tag(),
        Ktat::spec_tag() != Ktas::spec_tag(),
        Ktar::spec_tag() != Ktas::spec_tag(),
{
    assert(Ktat::spec_tag().0[3] != Ktar::spec_tag().0[3]);
    assert(Ktat::spec_tag().0[3] != Ktas::spec_tag().0[3]);
    assert(Ktar::spec_tag().0[3] != Ktas::spec_tag().0[3]);
}

impl ReparsableBlocks for TextureAnimation {
    open spec fn slot_well_formed(m: TextureAnimationModel, tag: Tag) -> bool {
        if tag == Ktat::spec_tag() {
            m.ktat is Some && Ktat::well_formed(m.ktat->0, None)
        } else if tag == Ktar::spec_tag() {
            m.ktar is Some && Ktar::well_formed(m.ktar->0, None)
        } else if tag == Ktas::spec_tag() {
            m.ktas is Some && Ktas::well_formed(m.ktas->0, None)
        } else {
            false
        }
    }

    open spec fn refill(acc: TextureAnimationModel, m: TextureAnimationModel, tag: Tag) -> TextureAnimationModel {
        if tag == Ktat::spec_tag() {
            TextureAnimationModel {
                ktat: m.ktat,
                ktar: acc.ktar,
                ktas: acc.ktas,
                ordered: Some(acc.order().push(tag)),
            }
        } else if tag == Ktar::spec_tag() {
            TextureAnimationModel {
                ktat: acc.ktat,
                ktar: m.ktar,
                ktas: acc.ktas,
                ordered: Some(acc.order().push(tag)),
            }
        } else if tag == Ktas::spec_tag() {
            TextureAnimationModel {
                ktat: acc.ktat,
                ktar: acc.ktar,
                ktas: m.ktas,
                ordered: Some(acc.order().push(tag)),
            }
        } else {
            acc
        }
    }

    proof fn lemma_block_refill(acc: TextureAnimationModel, m: TextureAnimationModel, tag: Tag, tail: Seq<u8>) {
        if tag == Ktat::spec_tag() {
            Ktat::lemma_wire_tag(m.ktat->0);
            Ktat::lemma_wire_parse(m.ktat->0, None, tail);
        } else if tag == Ktar::spec_tag() {
            Ktar::lemma_wire_tag(m.ktar->0);
            Ktar::lemma_wire_parse(m.ktar->0, None, tail);
        } else if tag == Ktas::spec_tag() {
            Ktas::lemma_wire_tag(m.ktas->0);
            Ktas::lemma_wire_parse(m.ktas->0, None, tail);
        }
    }
}

/// What the blocks of `m` under the tags make of `acc`: the other fields are
/// the ones of `acc`, the tags are recorded behind the ones of `acc`, and a
/// block is the one of `m` if its tag is among the tags.
proof fn lemma_textureanimation_refill(acc: TextureAnimationModel, m: TextureAnimationModel, tags: Seq<Tag>)
    requires
        acc.ordered is Some,
        forall|i: int| 0 <= i < tags.len() ==> TextureAnimation::slot_well_formed(m, #[trigger] tags[i]),
    ensures
        ({
            let r = refill_all::<TextureAnimation>(acc, m, tags);
            &&& r.ordered == Some(acc.order() + tags)
            &&& r.ktat == if tags.contains(Ktat::spec_tag()) {
                m.ktat
            } else {
                acc.ktat
            }
            &&& r.ktar == if tags.contains(Ktar::spec_tag()) {
                m.ktar
            } else {
                acc.ktar
            }
            &&& r.ktas == if tags.contains(Ktas::spec_tag()) {
                m.ktas
            } else {
                acc.ktas
            }
        }),
    decreases tags.len(),
{
    if tags.len() == 0 {
        assert(acc.order() + tags =~= acc.order());
    } else {
        let tag = tags[0];
        let next = TextureAnimation::refill(acc, m, tag);
        assert(TextureAnimation::slot_well_formed(m, tags[0]));
        assert forall|i: int| 0 <= i < tags.skip(1).len() implies TextureAnimation::slot_well_formed(
            m,
            #[trigger] tags.skip(1)[i],
        ) by {
            assert(tags.skip(1)[i] == tags[i + 1]);
        }
        lemma_textureanimation_refill(next, m, tags.skip(1));
        assert(next.order() + tags.skip(1) =~= acc.order() + tags);
        lemma_textureanimation_tags_differ();
        lemma_contains_front(tags, Ktat::spec_tag());
        lemma_contains_front(tags, Ktar::spec_tag());
        lemma_contains_front(tags, Ktas::spec_tag());
    }
}

impl ReparsableBody for TextureAnimation {
    open spec fn body_well_formed(m: TextureAnimationModel, version: Option<u32>) -> bool {
        m.ordered is Some
        && (forall|i: int| 0 <= i < m.order().len() ==> TextureAnimation::slot_well_formed(m, #[trigger] m.order()[i]))
        && (m.ktat is Some ==> m.order().contains(Ktat::spec_tag()))
        && (m.ktar is Some ==> m.order().contains(Ktar::spec_tag()))
        && (m.ktas is Some ==> m.order().contains(Ktas::spec_tag()))
    }

    proof fn lemma_body_wire_parse(m: TextureAnimationModel, version: Option<u32>) {
        let w1 = wire_slots(m);
        let u2 = Seq::<u8>::empty();
        let u1 = w1 + u2;
        let start = TextureAnimationModel {
            ktat: None,
            ktar: None,
            ktas: None,
            ordered: Some(Seq::empty()),
        };
        lemma_tagged_wire_parse::<TextureAnimation>(start, m, m.order(), u2);
        lemma_textureanimation_refill(start, m, m.order());
        assert(Seq::<Tag>::empty() + m.order() =~= m.order());
        assert(u1 =~= Self::body_wire(m));
    }
}

impl Reparsable for TextureAnimation {
    open spec fn well_formed(m: TextureAnimationModel, version: Option<u32>) -> bool {
        TextureAnimation::body_well_formed(m, version) && TextureAnimation::body_wire(m).len() + 4 <= u32::MAX
    }

    proof fn lemma_wire_parse(m: TextureAnimationModel, version: Option<u32>, tail: Seq<u8>) {
        lemma_inclusive_wire_parse::<TextureAnimation>(m, version, tail);
    }
}

/// Holds the track of the translation of a texture.
#[derive(Debug, Clone, PartialEq)]
pub struct Ktat(pub TrackChunk<[FloatBits; 3]>);

impl Chunk for Ktat {
    open spec fn spec_tag() -> Tag {
        Tag([0x4B, 0x54, 0x41, 0x54])
    }

    fn tag() -> (t: Tag) {
        let t = Tag([0x4B, 0x54, 0x41, 0x54]);
        assert(t.0 =~= Self::spec_tag().0);
        t
    }
}

impl Materialized for Ktat {
    type Version = u32;

    type Model = TrackChunkModel<Seq<FloatBits>>;

    open spec fn model(&self) -> TrackChunkModel<Seq<FloatBits>> {
        self.0.model()
    }

    open spec fn spec_parse(version: Option<u32>, input: Seq<u8>) -> Parsed<
        TrackChunkModel<Seq<FloatBits>>,
    > {
        <TrackChunk<[FloatBits; 3]>>::spec_parse(None, input)
    }

    open spec fn wire(m: TrackChunkModel<Seq<FloatBits>>) -> Seq<u8> {
        <TrackChunk<[FloatBits; 3]>>::wire(m)
    }

    open spec fn encode_error(m: TrackChunkModel<Seq<FloatBits>>) -> Option<EncodeError> {
        <TrackChunk<[FloatBits; 3]>>::encode_error(m)
    }

    fn parse_versioned<'a>(version: Option<u32>, input: &'a [u8]) -> (r: Parser<'a, Ktat>) {
        let (input, chunk) = <TrackChunk<[FloatBits; 3]>>::parse(input)?;
        Ok((input, Ktat(chunk)))
    }

    fn encode(&self, output: &mut Vec<u8>) -> (r: Result<(), EncodeError>) {
        self.0.encode(output)
    }
}

impl Lossless for Ktat {
    open spec fn faithful(m: TrackChunkModel<Seq<FloatBits>>) -> bool {
        <TrackChunk<[FloatBits; 3]>>::faithful(m)
    }

    proof fn lemma_parse_wire(version: Option<u32>, input: Seq<u8>) {
        <TrackChunk<[FloatBits; 3]>>::lemma_parse_wire(None, input);
    }
}

impl Reparsable for Ktat {
    open spec fn well_formed(m: TrackChunkModel<Seq<FloatBits>>, version: Option<u32>) -> bool {
        <TrackChunk<[FloatBits; 3]>>::well_formed(m, None) && m.tag == Self::spec_tag()
    }

    proof fn lemma_wire_parse(m: TrackChunkModel<Seq<FloatBits>>, version: Option<u32>, tail: Seq<u8>) {
        <TrackChunk<[FloatBits; 3]>>::lemma_wire_parse(m, None, tail);
    }
}

impl TaggedBlock for Ktat {
    proof fn lemma_wire_tag(m: TrackChunkModel<Seq<FloatBits>>) {
        lemma_tag_bytes(m.tag, m.tag.0@);
        assert(<TrackChunk<[FloatBits; 3]>>::wire(m).take(4) =~= m.tag.0@);
    }
}

/// Holds the track of the rotation of a texture.
#[derive(Debug, Clone, PartialEq)]
pub struct Ktar(pub TrackChunk<[FloatBits; 4]>);

impl Chunk for Ktar {
    open spec fn spec_tag() -> Tag {
        Tag([0x4B, 0x54, 0x41, 0x52])
    }

    fn tag() -> (t: Tag) {
        let t = Tag([0x4B, 0x54, 0x41, 0x52]);
        assert(t.0 =~= Self::spec_tag().0);
        t
    }
}

impl Materialized for Ktar {
    type Version = u32;

    type Model = TrackChunkModel<Seq<FloatBits>>;

    open spec fn model(&self) -> TrackChunkModel<Seq<FloatBits>> {
        self.0.model()
    }

    open spec fn spec_parse(version: Option<u32>, input: Seq<u8>) -> Parsed<
        TrackChunkModel<Seq<FloatBits>>,
    > {
        <TrackChunk<[FloatBits; 4]>>::spec_parse(None, input)
    }

    open spec fn wire(m: TrackChunkModel<Seq<FloatBits>>) -> Seq<u8> {
        <TrackChunk<[FloatBits; 4]>>::wire(m)
    }

    open spec fn encode_error(m: TrackChunkModel<Seq<FloatBits>>) -> Option<EncodeError> {
        <TrackChunk<[FloatBits; 4]>>::encode_error(m)
    }

    fn parse_versioned<'a>(version: Option<u32>, input: &'a [u8]) -> (r: Parser<'a, Ktar>) {
        let (input, chunk) = <TrackChunk<[FloatBits; 4]>>::parse(input)?;
        Ok((input, Ktar(chunk)))
    }

    fn encode(&self, output: &mut Vec<u8>) -> (r: Result<(), EncodeError>) {
        self.0.encode(output)
    }
}

impl Lossless for Ktar {
    open spec fn faithful(m: TrackChunkModel<Seq<FloatBits>>) -> bool {
        <TrackChunk<[FloatBits; 4]>>::faithful(m)
    }

    proof fn lemma_parse_wire(version: Option<u32>, input: Seq<u8>) {
        <TrackChunk<[FloatBits; 4]>>::lemma_parse_wire(None, input);
    }
}

impl Reparsable for Ktar {
    open spec fn well_formed(m: TrackChunkModel<Seq<FloatBits>>, version: Option<u32>) -> bool {
        <TrackChunk<[FloatBits; 4]>>::well_formed(m, None) && m.tag == Self::spec_tag()
    }

    proof fn lemma_wire_parse(m: TrackChunkModel<Seq<FloatBits>>, version: Option<u32>, tail: Seq<u8>) {
        <TrackChunk<[FloatBits; 4]>>::lemma_wire_parse(m, None, tail);
    }
}

impl TaggedBlock for Ktar {
    proof fn lemma_wire_tag(m: TrackChunkModel<Seq<FloatBits>>) {
        lemma_tag_bytes(m.tag, m.tag.0@);
        assert(<TrackChunk<[FloatBits; 4]>>::wire(m).take(4) =~= m.tag.0@);
    }
}

/// Holds the track of the scaling of a texture.
#[derive(Debug, Clone, PartialEq)]
pub struct Ktas(pub TrackChunk<[FloatBits; 3]>);

impl Chunk for Ktas {
    open spec fn spec_tag() -> Tag {
        Tag([0x4B, 0x54, 0x41, 0x53])
    }

    fn tag() -> (t: Tag) {
        let t = Tag([0x4B, 0x54, 0x41, 0x53]);
        assert(t.0 =~= Self::spec_tag().0);
        t
    }
}

impl Materialized for Ktas {
    type Version = u32;

    type Model = TrackChunkModel<Seq<FloatBits>>;

    open spec fn model(&self) -> TrackChunkModel<Seq<FloatBits>> {
        self.0.model()
    }

    open spec fn spec_parse(version: Option<u32>, input: Seq<u8>) -> Parsed<
        TrackChunkModel<Seq<FloatBits>>,
    > {
        <TrackChunk<[FloatBits; 3]>>::spec_parse(None, input)
    }

    open spec fn wire(m: TrackChunkModel<Seq<FloatBits>>) -> Seq<u8> {
        <TrackChunk<[FloatBits; 3]>>::wire(m)
    }

    open spec fn encode_error(m: TrackChunkModel<Seq<FloatBits>>) -> Option<EncodeError> {
        <TrackChunk<[FloatBits; 3]>>::encode_error(m)
    }

    fn parse_versioned<'a>(version: Option<u32>, input: &'a [u8]) -> (r: Parser<'a, Ktas>) {
        let (input, chunk) = <TrackChunk<[FloatBits; 3]>>::parse(input)?;
        Ok((input, Ktas(chunk)))
    }

    fn encode(&self, output: &mut Vec<u8>) -> (r: Result<(), EncodeError>) {
        self.0.encode(output)
    }
}

impl Lossless for Ktas {
    open spec fn faithful(m: TrackChunkModel<Seq<FloatBits>>) -> bool {
        <TrackChunk<[FloatBits; 3]>>::faithful(m)
    }

    proof fn lemma_parse_wire(version: Option<u32>, input: Seq<u8>) {
        <TrackChunk<[FloatBits; 3]>>::lemma_parse_wire(None, input);
    }
}

impl Reparsable for Ktas {
    open spec fn well_formed(m: TrackChunkModel<Seq<FloatBits>>, version: Option<u32>) -> bool {
        <TrackChunk<[FloatBits; 3]>>::well_formed(m, None) && m.tag == Self::spec_tag()
    }

    proof fn lemma_wire_parse(m: TrackChunkModel<Seq<FloatBits>>, version: Option<u32>, tail: Seq<u8>) {
        <TrackChunk<[FloatBits; 3]>>::lemma_wire_parse(m, None, tail);
    }
}

impl TaggedBlock for Ktas {
    proof fn lemma_wire_tag(m: TrackChunkModel<Seq<FloatBits>>) {
        lemma_tag_bytes(m.tag, m.tag.0@);
        assert(<TrackChunk<[FloatBits; 3]>>::wire(m).take(4) =~= m.tag.0@);
    }
}

} // verus!
