use crate::encoder::error::Error as EncodeError;
use crate::encoder::primitives::{push_le_u32, spec_u32_to_le_bytes};
use crate::parser::error::MdxParseError;
use crate::parser::primitives::{le_u32, spec_le_u32, Parsed, Parser};
use crate::types::chunk::{
    encode_error_slots, encode_slots, lemma_contains_front, lemma_tagged_parse_wire,
    lemma_tagged_wire_parse, order_of, opt_seq, parse_tagged, record_tag, refill_all,
    slots_faithful, spec_parse_tagged, wire_slots, BlockStep, Chunk, LosslessBlocks,
    OrderedSlots, Replay, ReparsableBlocks, TaggedBlock, TaggedBlocks,
};
use crate::types::chunk::utils::{lemma_tag_bytes, Tag};
use crate::types::materialize::{
    encode_error_inclusive_sized, encode_error_opt, encode_inclusive_sized, encode_opt,
    lemma_append_assoc, lemma_inclusive_parse_wire, lemma_inclusive_wire_parse,
    lemma_versioned_greater_parse_wire, lemma_versioned_greater_wire_parse, opt_faithful,
    opt_model, opt_well_formed, parse_inclusive_sized, parse_versioned_greater,
    spec_parse_inclusive_sized, spec_parse_versioned_greater, wire_inclusive_sized, wire_opt,
    FloatBits, Lossless, LosslessBody, Materialized, Reparsable, ReparsableBody, SizedBody,
};
use crate::types::tracks::{TrackChunk, TrackChunkModel};
use vstd::prelude::*;

verus! {

/// The way in which a layer is blended with what lies under it, stored as a `u32` code.
#[derive(Debug, Clone, Copy, PartialEq, PartialOrd, Eq, Ord, Hash, Structural)]
pub enum FilterMode {
    NoFilter,
    Transparent,
    Blend,
    Additive,
    AddAlpha,
    Modulate,
    Modulate2x,
}

/// A code that is not the code of any [`FilterMode`].
#[derive(Debug, Clone, Copy, PartialEq, PartialOrd, Eq, Ord, Hash, Structural)]
pub struct UnknownFilterMode(pub u32);

impl FilterMode {
    /// The value that a code stands for.
    pub open spec fn spec_from_code(v: u32) -> Result<FilterMode, UnknownFilterMode> {
        if v == 0 {
            Ok(FilterMode::NoFilter)
        }         else if v == 1 {
            Ok(FilterMode::Transparent)
        }         else if v == 2 {
            Ok(FilterMode::Blend)
        }         else if v == 3 {
            Ok(FilterMode::Additive)
        }         else if v == 4 {
            Ok(FilterMode::AddAlpha)
        }         else if v == 5 {
            Ok(FilterMode::Modulate)
        }         else if v == 6 {
            Ok(FilterMode::Modulate2x)
        } else {
            Err(UnknownFilterMode(v))
        }
    }

    /// The code that stands for the value.
    pub open spec fn spec_code(self) -> u32 {
        match self {
            FilterMode::NoFilter => 0,
            FilterMode::Transparent => 1,
            FilterMode::Blend => 2,
            FilterMode::Additive => 3,
            FilterMode::AddAlpha => 4,
            FilterMode::Modulate => 5,
            FilterMode::Modulate2x => 6,
        }
    }
}

impl FilterMode {
    /// The value that a code stands for, or the code itself if it stands for
    /// none.
    pub fn try_from(value: u32) -> (r: Result<FilterMode, UnknownFilterMode>)
        ensures
            r == FilterMode::spec_from_code(value),
    {
        match value {
            0 => Ok(FilterMode::NoFilter),
            1 => Ok(FilterMode::Transparent),
            2 => Ok(FilterMode::Blend),
            3 => Ok(FilterMode::Additive),
            4 => Ok(FilterMode::AddAlpha),
            5 => Ok(FilterMode::Modulate),
            6 => Ok(FilterMode::Modulate2x),
            _ => Err(UnknownFilterMode(value)),
        }
    }

    /// The code that stands for the value.
    pub fn code(self) -> (r: u32)
        ensures
            r == self.spec_code(),
    {
        match self {
            FilterMode::NoFilter => 0,
            FilterMode::Transparent => 1,
            FilterMode::Blend => 2,
            FilterMode::Additive => 3,
            FilterMode::AddAlpha => 4,
            FilterMode::Modulate => 5,
            FilterMode::Modulate2x => 6,
        }
    }
}

impl Materialized for FilterMode {
    type Version = u32;

    type Model = FilterMode;

    open spec fn model(&self) -> FilterMode {
        *self
    }

    open spec fn spec_parse(version: Option<u32>, input: Seq<u8>) -> Parsed<FilterMode> {
        match spec_le_u32(input) {
            Ok((rest, flag)) => match FilterMode::spec_from_code(flag) {
                Ok(value) => Ok((rest, value)),
                Err(e) => Err(MdxParseError::UnknownLayerFilterMode(e)),
            },
            Err(e) => Err(e),
        }
    }

    open spec fn wire(m: FilterMode) -> Seq<u8> {
        spec_u32_to_le_bytes(m.spec_code())
    }

    open spec fn encode_error(m: FilterMode) -> Option<EncodeError> {
        None
    }

    fn parse_versioned<'a>(version: Option<u32>, input: &'a [u8]) -> (r: Parser<'a, FilterMode>) {
        let (input, flag) = le_u32(input)?;
        match FilterMode::try_from(flag) {
            Ok(value) => Ok((input, value)),
            Err(e) => Err(MdxParseError::UnknownLayerFilterMode(e)),
        }
    }

    fn encode(&self, output: &mut Vec<u8>) -> (r: Result<(), EncodeError>) {
        let flag: u32 = self.code();
        push_le_u32(flag, output);
        Ok(())
    }
}

impl Lossless for FilterMode {
    open spec fn faithful(m: FilterMode) -> bool {
        true
    }

    proof fn lemma_parse_wire(version: Option<u32>, input: Seq<u8>) {
        u32::lemma_parse_wire(None, input);
    }
}

impl Reparsable for FilterMode {
    open spec fn well_formed(m: FilterMode, version: Option<u32>) -> bool {
        true
    }

    proof fn lemma_wire_parse(m: FilterMode, version: Option<u32>, tail: Seq<u8>) {
        u32::lemma_wire_parse(m.spec_code(), None, tail);
    }
}

/// The flags of a layer: how it is shaded and tested against the depth buffer, kept as the `u32` that holds the bits.
#[derive(Debug, Clone, Copy, PartialEq, Eq, Hash, Structural)]
pub struct ShadingFlags {
    pub bits: u32,
}

impl Materialized for ShadingFlags {
    type Version = u32;

    type Model = ShadingFlags;

    open spec fn model(&self) -> ShadingFlags {
        *self
    }

    open spec fn spec_parse(version: Option<u32>, input: Seq<u8>) -> Parsed<ShadingFlags> {
        match spec_le_u32(input) {
            Ok((rest, flag)) => Ok((rest, ShadingFlags { bits: flag })),
            Err(e) => Err(e),
        }
    }

    open spec fn wire(m: ShadingFlags) -> Seq<u8> {
        spec_u32_to_le_bytes(m.bits)
    }

    open spec fn encode_error(m: ShadingFlags) -> Option<EncodeError> {
        None
    }

    fn parse_versioned<'a>(version: Option<u32>, input: &'a [u8]) -> (r: Parser<'a, ShadingFlags>) {
        let (input, flag) = le_u32(input)?;
        Ok((input, ShadingFlags { bits: flag }))
    }

    fn encode(&self, output: &mut Vec<u8>) -> (r: Result<(), EncodeError>) {
        push_le_u32(self.bits, output);
        Ok(())
    }
}

impl Lossless for ShadingFlags {
    open spec fn faithful(m: ShadingFlags) -> bool {
        true
    }

    proof fn lemma_parse_wire(version: Option<u32>, input: Seq<u8>) {
        u32::lemma_parse_wire(None, input);
    }
}

impl Reparsable for ShadingFlags {
    open spec fn well_formed(m: ShadingFlags, version: Option<u32>) -> bool {
        true
    }

    proof fn lemma_wire_parse(m: ShadingFlags, version: Option<u32>, tail: Seq<u8>) {
        u32::lemma_wire_parse(m.bits, None, tail);
    }
}

/// One layer of a material. The fields of `extra` are in the bytes only if the
/// version is greater than 800.
#[derive(Debug, Clone, PartialEq)]
pub struct Layer {
    pub filter_mode: FilterMode,
    pub shading_flags: ShadingFlags,
    pub texture_id: u32,
    pub texture_animation_id: u32,
    pub coord_id: u32,
    pub alpha: FloatBits,
    pub extra: Option<LayerExt>,
    pub kmtf: Option<Kmtf>,
    pub kmta: Option<Kmta>,
    pub kmte: Option<Kmte>,
    pub kfc3: Option<Kfc3>,
    pub kfca: Option<Kfca>,
    pub kftc: Option<Kftc>,
    /// The order in which the optional blocks were met while parsing; `None`
    /// in a value that was not parsed, which is encoded in the order of the
    /// fields.
    pub ordered: Option<Vec<Tag>>,
}

/// What a value of [`Layer`] stands for in specifications.
pub struct LayerModel {
    pub filter_mode: FilterMode,
    pub shading_flags: ShadingFlags,
    pub texture_id: u32,
    pub texture_animation_id: u32,
    pub coord_id: u32,
    pub alpha: FloatBits,
    pub extra: Option<LayerExtModel>,
    pub kmtf: Option<TrackChunkModel<u32>>,
    pub kmta: Option<TrackChunkModel<FloatBits>>,
    pub kmte: Option<TrackChunkModel<FloatBits>>,
    pub kfc3: Option<TrackChunkModel<Seq<FloatBits>>>,
    pub kfca: Option<TrackChunkModel<FloatBits>>,
    pub kftc: Option<TrackChunkModel<FloatBits>>,
    pub ordered: Option<Seq<Tag>>,
}

impl OrderedSlots for LayerModel {
    open spec fn canonical() -> Seq<Tag> {
        seq![Kmtf::spec_tag(), Kmta::spec_tag(), Kmte::spec_tag(), Kfc3::spec_tag(), Kfca::spec_tag(), Kftc::spec_tag()]
    }

    open spec fn recorded(self) -> bool {
        self.ordered is Some
    }

    open spec fn order(self) -> Seq<Tag> {
        order_of(self.ordered)
    }

    open spec fn slot_wire(self, tag: Tag) -> Seq<u8> {
        if tag == Kmtf::spec_tag() {
            wire_opt::<Kmtf>(self.kmtf)
        } else if tag == Kmta::spec_tag() {
            wire_opt::<Kmta>(self.kmta)
        } else if tag == Kmte::spec_tag() {
            wire_opt::<Kmte>(self.kmte)
        } else if tag == Kfc3::spec_tag() {
            wire_opt::<Kfc3>(self.kfc3)
        } else if tag == Kfca::spec_tag() {
            wire_opt::<Kfca>(self.kfca)
        } else if tag == Kftc::spec_tag() {
            wire_opt::<Kftc>(self.kftc)
        } else {
            Seq::empty()
        }
    }

    open spec fn slot_error(self, tag: Tag) -> Option<EncodeError> {
        if tag == Kmtf::spec_tag() {
            encode_error_opt::<Kmtf>(self.kmtf)
        } else if tag == Kmta::spec_tag() {
            encode_error_opt::<Kmta>(self.kmta)
        } else if tag == Kmte::spec_tag() {
            encode_error_opt::<Kmte>(self.kmte)
        } else if tag == Kfc3::spec_tag() {
            encode_error_opt::<Kfc3>(self.kfc3)
        } else if tag == Kfca::spec_tag() {
            encode_error_opt::<Kfca>(self.kfca)
        } else if tag == Kftc::spec_tag() {
            encode_error_opt::<Kftc>(self.kftc)
        } else {
            None
        }
    }

    open spec fn slot_faithful(self, tag: Tag) -> bool {
        if tag == Kmtf::spec_tag() {
            opt_faithful::<Kmtf>(self.kmtf)
        } else if tag == Kmta::spec_tag() {
            opt_faithful::<Kmta>(self.kmta)
        } else if tag == Kmte::spec_tag() {
            opt_faithful::<Kmte>(self.kmte)
        } else if tag == Kfc3::spec_tag() {
            opt_faithful::<Kfc3>(self.kfc3)
        } else if tag == Kfca::spec_tag() {
            opt_faithful::<Kfca>(self.kfca)
        } else if tag == Kftc::spec_tag() {
            opt_faithful::<Kftc>(self.kftc)
        } else {
            true
        }
    }

    open spec fn frame(self) -> LayerModel {
        LayerModel {
            filter_mode: self.filter_mode,
            shading_flags: self.shading_flags,
            texture_id: self.texture_id,
            texture_animation_id: self.texture_animation_id,
            coord_id: self.coord_id,
            alpha: self.alpha,
            extra: self.extra,
            kmtf: None,
            kmta: None,
            kmte: None,
            kfc3: None,
            kfca: None,
            kftc: None,
            ordered: None,
        }
    }
}

impl Replay for Layer {
    type Model = LayerModel;

    open spec fn slots_model(&self) -> LayerModel {
        LayerModel {
            filter_mode: self.filter_mode.model(),
            shading_flags: self.shading_flags.model(),
            texture_id: self.texture_id.model(),
            texture_animation_id: self.texture_animation_id.model(),
            coord_id: self.coord_id.model(),
            alpha: self.alpha.model(),
            extra: opt_model(self.extra),
            kmtf: opt_model(self.kmtf),
            kmta: opt_model(self.kmta),
            kmte: opt_model(self.kmte),
            kfc3: opt_model(self.kfc3),
            kfca: opt_model(self.kfca),
            kftc: opt_model(self.kftc),
            ordered: opt_seq(self.ordered),
        }
    }

    fn encode_slot(&self, tag: Tag, output: &mut Vec<u8>) -> (r: Result<(), EncodeError>) {
        if tag.same_as(&Kmtf::tag()) {
            assert(self.slots_model().slot_error(tag) == encode_error_opt::<Kmtf>(
                opt_model(self.kmtf),
            ));
            assert(self.slots_model().slot_wire(tag) == wire_opt::<Kmtf>(opt_model(self.kmtf)));
            encode_opt(&self.kmtf, output)
        } else if tag.same_as(&Kmta::tag()) {
            assert(self.slots_model().slot_error(tag) == encode_error_opt::<Kmta>(
                opt_model(self.kmta),
            ));
            assert(self.slots_model().slot_wire(tag) == wire_opt::<Kmta>(opt_model(self.kmta)));
            encode_opt(&self.kmta, output)
        } else if tag.same_as(&Kmte::tag()) {
            assert(self.slots_model().slot_error(tag) == encode_error_opt::<Kmte>(
                opt_model(self.kmte),
            ));
            assert(self.slots_model().slot_wire(tag) == wire_opt::<Kmte>(opt_model(self.kmte)));
            encode_opt(&self.kmte, output)
        } else if tag.same_as(&Kfc3::tag()) {
            assert(self.slots_model().slot_error(tag) == encode_error_opt::<Kfc3>(
                opt_model(self.kfc3),
            ));
            assert(self.slots_model().slot_wire(tag) == wire_opt::<Kfc3>(opt_model(self.kfc3)));
            encode_opt(&self.kfc3, output)
        } else if tag.same_as(&Kfca::tag()) {
            assert(self.slots_model().slot_error(tag) == encode_error_opt::<Kfca>(
                opt_model(self.kfca),
            ));
            assert(self.slots_model().slot_wire(tag) == wire_opt::<Kfca>(opt_model(self.kfca)));
            encode_opt(&self.kfca, output)
        } else if tag.same_as(&Kftc::tag()) {
            assert(self.slots_model().slot_error(tag) == encode_error_opt::<Kftc>(
                opt_model(self.kftc),
            ));
            assert(self.slots_model().slot_wire(tag) == wire_opt::<Kftc>(opt_model(self.kftc)));
            encode_opt(&self.kftc, output)
        } else {
            assert(self.slots_model().slot_error(tag) is None);
            assert(output@ =~= old(output)@ + self.slots_model().slot_wire(tag));
            Ok(())
        }
    }
}

impl TaggedBlocks for Layer {
    open spec fn spec_block(m: LayerModel, tag: Tag, input: Seq<u8>) -> BlockStep<LayerModel> {
        if tag == Kmtf::spec_tag() {
            match Kmtf::spec_parse(None, input) {
                Ok((rest, block)) => BlockStep::Parsed(
                    rest,
                    LayerModel {
                        filter_mode: m.filter_mode,
                        shading_flags: m.shading_flags,
                        texture_id: m.texture_id,
                        texture_animation_id: m.texture_animation_id,
                        coord_id: m.coord_id,
                        alpha: m.alpha,
                        extra: m.extra,
                        kmtf: Some(block),
                        kmta: m.kmta,
                        kmte: m.kmte,
                        kfc3: m.kfc3,
                        kfca: m.kfca,
                        kftc: m.kftc,
                        ordered: Some(m.order().push(tag)),
                    },
                ),
                Err(e) => BlockStep::Failed(e),
            }
        } else if tag == Kmta::spec_tag() {
            match Kmta::spec_parse(None, input) {
                Ok((rest, block)) => BlockStep::Parsed(
                    rest,
                    LayerModel {
                        filter_mode: m.filter_mode,
                        shading_flags: m.shading_flags,
                        texture_id: m.texture_id,
                        texture_animation_id: m.texture_animation_id,
                        coord_id: m.coord_id,
                        alpha: m.alpha,
                        extra: m.extra,
                        kmtf: m.kmtf,
                        kmta: Some(block),
                        kmte: m.kmte,
                        kfc3: m.kfc3,
                        kfca: m.kfca,
                        kftc: m.kftc,
                        ordered: Some(m.order().push(tag)),
                    },
                ),
                Err(e) => BlockStep::Failed(e),
            }
        } else if tag == Kmte::spec_tag() {
            match Kmte::spec_parse(None, input) {
                Ok((rest, block)) => BlockStep::Parsed(
                    rest,
                    LayerModel {
                        filter_mode: m.filter_mode,
                        shading_flags: m.shading_flags,
                        texture_id: m.texture_id,
                        texture_animation_id: m.texture_animation_id,
                        coord_id: m.coord_id,
                        alpha: m.alpha,
                        extra: m.extra,
                        kmtf: m.kmtf,
                        kmta: m.kmta,
                        kmte: Some(block),
                        kfc3: m.kfc3,
                        kfca: m.kfca,
                        kftc: m.kftc,
                        ordered: Some(m.order().push(tag)),
                    },
                ),
                Err(e) => BlockStep::Failed(e),
            }
        } else if tag == Kfc3::spec_tag() {
            match Kfc3::spec_parse(None, input) {
                Ok((rest, block)) => BlockStep::Parsed(
                    rest,
                    LayerModel {
                        filter_mode: m.filter_mode,
                        shading_flags: m.shading_flags,
                        texture_id: m.texture_id,
                        texture_animation_id: m.texture_animation_id,
                        coord_id: m.coord_id,
                        alpha: m.alpha,
                        extra: m.extra,
                        kmtf: m.kmtf,
                        kmta: m.kmta,
                        kmte: m.kmte,
                        kfc3: Some(block),
                        kfca: m.kfca,
                        kftc: m.kftc,
                        ordered: Some(m.order().push(tag)),
                    },
                ),
                Err(e) => BlockStep::Failed(e),
            }
        } else if tag == Kfca::spec_tag() {
            match Kfca::spec_parse(None, input) {
                Ok((rest, block)) => BlockStep::Parsed(
                    rest,
                    LayerModel {
                        filter_mode: m.filter_mode,
                        shading_flags: m.shading_flags,
                        texture_id: m.texture_id,
                        texture_animation_id: m.texture_animation_id,
                        coord_id: m.coord_id,
                        alpha: m.alpha,
                        extra: m.extra,
                        kmtf: m.kmtf,
                        kmta: m.kmta,
                        kmte: m.kmte,
                        kfc3: m.kfc3,
                        kfca: Some(block),
                        kftc: m.kftc,
                        ordered: Some(m.order().push(tag)),
                    },
                ),
                Err(e) => BlockStep::Failed(e),
            }
        } else if tag == Kftc::spec_tag() {
            match Kftc::spec_parse(None, input) {
                Ok((rest, block)) => BlockStep::Parsed(
                    rest,
                    LayerModel {
                        filter_mode: m.filter_mode,
                        shading_flags: m.shading_flags,
                        texture_id: m.texture_id,
                        texture_animation_id: m.texture_animation_id,
                        coord_id: m.coord_id,
                        alpha: m.alpha,
                        extra: m.extra,
                        kmtf: m.kmtf,
                        kmta: m.kmta,
                        kmte: m.kmte,
                        kfc3: m.kfc3,
                        kfca: m.kfca,
                        kftc: Some(block),
                        ordered: Some(m.order().push(tag)),
                    },
                ),
                Err(e) => BlockStep::Failed(e),
            }
        } else {
            BlockStep::Failed(MdxParseError::UnknownTag(tag))
        }
    }

    fn parse_block<'a>(&mut self, tag: Tag, input: &'a [u8]) -> (r: Parser<'a, bool>) {
        if tag.same_as(&Kmtf::tag()) {
            let (rest, block) = Kmtf::parse(input)?;
            self.kmtf = Some(block);
            record_tag(&mut self.ordered, tag);
            Ok((rest, false))
        } else if tag.same_as(&Kmta::tag()) {
            let (rest, block) = Kmta::parse(input)?;
            self.kmta = Some(block);
            record_tag(&mut self.ordered, tag);
            Ok((rest, false))
        } else if tag.same_as(&Kmte::tag()) {
            let (rest, block) = Kmte::parse(input)?;
            self.kmte = Some(block);
            record_tag(&mut self.ordered, tag);
            Ok((rest, false))
        } else if tag.same_as(&Kfc3::tag()) {
            let (rest, block) = Kfc3::parse(input)?;
            self.kfc3 = Some(block);
            record_tag(&mut self.ordered, tag);
            Ok((rest, false))
        } else if tag.same_as(&Kfca::tag()) {
            let (rest, block) = Kfca::parse(input)?;
            self.kfca = Some(block);
            record_tag(&mut self.ordered, tag);
            Ok((rest, false))
        } else if tag.same_as(&Kftc::tag()) {
            let (rest, block) = Kftc::parse(input)?;
            self.kftc = Some(block);
            record_tag(&mut self.ordered, tag);
            Ok((rest, false))
        } else {
            Err(MdxParseError::UnknownTag(tag))
        }
    }
}

impl LosslessBlocks for Layer {
    proof fn lemma_block_step(m: LayerModel, tag: Tag, input: Seq<u8>) {
        if tag == Kmtf::spec_tag() {
            Kmtf::lemma_parse_wire(None, input);
        } else if tag == Kmta::spec_tag() {
            Kmta::lemma_parse_wire(None, input);
        } else if tag == Kmte::spec_tag() {
            Kmte::lemma_parse_wire(None, input);
        } else if tag == Kfc3::spec_tag() {
            Kfc3::lemma_parse_wire(None, input);
        } else if tag == Kfca::spec_tag() {
            Kfca::lemma_parse_wire(None, input);
        } else if tag == Kftc::spec_tag() {
            Kftc::lemma_parse_wire(None, input);
        }
    }
}

impl SizedBody for Layer {
    type Model = LayerModel;

    open spec fn body_model(&self) -> LayerModel {
        self.slots_model()
    }

    open spec fn spec_parse_body(version: Option<u32>, input: Seq<u8>) -> Parsed<LayerModel> {
        match FilterMode::spec_parse(None, input) {
            Ok((rest, filter_mode)) => match ShadingFlags::spec_parse(None, rest) {
                Ok((rest, shading_flags)) => match u32::spec_parse(None, rest) {
                    Ok((rest, texture_id)) => match u32::spec_parse(None, rest) {
                        Ok((rest, texture_animation_id)) => match u32::spec_parse(None, rest) {
                            Ok((rest, coord_id)) => match FloatBits::spec_parse(None, rest) {
                                Ok((rest, alpha)) => match spec_parse_versioned_greater::<LayerExt>(version, 800, rest) {
                                    Ok((rest, extra)) => match spec_parse_tagged::<Layer>(
                                        LayerModel {
                                            filter_mode,
                                            shading_flags,
                                            texture_id,
                                            texture_animation_id,
                                            coord_id,
                                            alpha,
                                            extra,
                                            kmtf: None,
                                            kmta: None,
                                            kmte: None,
                                            kfc3: None,
                                            kfca: None,
                                            kftc: None,
                                            ordered: Some(Seq::empty()),
                                        },
                                        rest,
                                    ) {
                                        Ok((rest, scanned)) => Ok((rest, scanned)),
                                        Err(e) => Err(e),
                                    },
                                    Err(e) => Err(e),
                                },
                                Err(e) => Err(e),
                            },
                            Err(e) => Err(e),
                        },
                        Err(e) => Err(e),
                    },
                    Err(e) => Err(e),
                },
                Err(e) => Err(e),
            },
            Err(e) => Err(e),
        }
    }

    open spec fn body_wire(m: LayerModel) -> Seq<u8> {
        FilterMode::wire(m.filter_mode) + (ShadingFlags::wire(m.shading_flags) + (u32::wire(m.texture_id) + (u32::wire(m.texture_animation_id) + (u32::wire(m.coord_id) + (FloatBits::wire(m.alpha) + (wire_opt::<LayerExt>(m.extra) + (wire_slots(m))))))))
    }

    open spec fn body_encode_error(m: LayerModel) -> Option<EncodeError> {
        match FilterMode::encode_error(m.filter_mode) {
            Some(e) => Some(e),
            None => match ShadingFlags::encode_error(m.shading_flags) {
                Some(e) => Some(e),
                None => match u32::encode_error(m.texture_id) {
                    Some(e) => Some(e),
                    None => match u32::encode_error(m.texture_animation_id) {
                        Some(e) => Some(e),
                        None => match u32::encode_error(m.coord_id) {
                            Some(e) => Some(e),
                            None => match FloatBits::encode_error(m.alpha) {
                                Some(e) => Some(e),
                                None => match encode_error_opt::<LayerExt>(m.extra) {
                                    Some(e) => Some(e),
                                    None => encode_error_slots(m),
                                },
                            },
                        },
                    },
                },
            },
        }
    }

    fn parse_body<'a>(version: Option<u32>, input: &'a [u8]) -> (r: Parser<'a, Layer>) {
        let (input, filter_mode) = FilterMode::parse(input)?;
        let (input, shading_flags) = ShadingFlags::parse(input)?;
        let (input, texture_id) = u32::parse(input)?;
        let (input, texture_animation_id) = u32::parse(input)?;
        let (input, coord_id) = u32::parse(input)?;
        let (input, alpha) = FloatBits::parse(input)?;
        let (input, extra) = parse_versioned_greater::<LayerExt>(version, 800, input)?;
        let mut value = Layer {
            filter_mode,
            shading_flags,
            texture_id,
            texture_animation_id,
            coord_id,
            alpha,
            extra,
            kmtf: None,
            kmta: None,
            kmte: None,
            kfc3: None,
            kfca: None,
            kftc: None,
            ordered: Some(Vec::new()),
        };
        let (input, _) = parse_tagged(&mut value, input)?;
        Ok((input, value))
    }

    fn encode_body(&self, output: &mut Vec<u8>) -> (r: Result<(), EncodeError>) {
        let ghost p0 = output@;
        self.filter_mode.encode(output)?;
        let ghost p1 = output@;
        self.shading_flags.encode(output)?;
        let ghost p2 = output@;
        self.texture_id.encode(output)?;
        let ghost p3 = output@;
        self.texture_animation_id.encode(output)?;
        let ghost p4 = output@;
        self.coord_id.encode(output)?;
        let ghost p5 = output@;
        self.alpha.encode(output)?;
        let ghost p6 = output@;
        encode_opt(&self.extra, output)?;
        let ghost p7 = output@;
        let canonical = [Kmtf::tag(), Kmta::tag(), Kmte::tag(), Kfc3::tag(), Kfca::tag(), Kftc::tag()];
        assert(canonical@ =~= LayerModel::canonical());
        encode_slots(self, &self.ordered, canonical.as_slice(), output)?;
        proof {
            let m = self.body_model();
            let w1 = FilterMode::wire(m.filter_mode);
            let w2 = ShadingFlags::wire(m.shading_flags);
            let w3 = u32::wire(m.texture_id);
            let w4 = u32::wire(m.texture_animation_id);
            let w5 = u32::wire(m.coord_id);
            let w6 = FloatBits::wire(m.alpha);
            let w7 = wire_opt::<LayerExt>(m.extra);
            let w8 = wire_slots(m);
            let s7 = w7 + w8;
            let s6 = w6 + s7;
            let s5 = w5 + s6;
            let s4 = w4 + s5;
            let s3 = w3 + s4;
            let s2 = w2 + s3;
            lemma_append_assoc(p6, w7, w8);
            lemma_append_assoc(p5, w6, s7);
            lemma_append_assoc(p4, w5, s6);
            lemma_append_assoc(p3, w4, s5);
            lemma_append_assoc(p2, w3, s4);
            lemma_append_assoc(p1, w2, s3);
            lemma_append_assoc(p0, w1, s2);
        }
        Ok(())
    }
}

impl LosslessBody for Layer {
    open spec fn body_faithful(m: LayerModel) -> bool {
        FilterMode::faithful(m.filter_mode) && ShadingFlags::faithful(m.shading_flags) && u32::faithful(m.texture_id) && u32::faithful(m.texture_animation_id) && u32::faithful(m.coord_id) && FloatBits::faithful(m.alpha) && opt_faithful::<LayerExt>(m.extra) && m.order().no_duplicates() && slots_faithful(m, m.order())
    }

    #[verifier::rlimit(50)]
    proof fn lemma_body_parse_wire(version: Option<u32>, input: Seq<u8>) {
        FilterMode::lemma_parse_wire(None, input);
        match FilterMode::spec_parse(None, input) {
            Ok((rest1, filter_mode)) => {
                assert(FilterMode::faithful(filter_mode) ==> FilterMode::encode_error(filter_mode) is None
                    && FilterMode::wire(filter_mode) + rest1 == input);
                ShadingFlags::lemma_parse_wire(None, rest1);
                match ShadingFlags::spec_parse(None, rest1) {
                    Ok((rest2, shading_flags)) => {
                        assert(ShadingFlags::faithful(shading_flags) ==> ShadingFlags::encode_error(shading_flags) is None
                            && ShadingFlags::wire(shading_flags) + rest2 == rest1);
                        u32::lemma_parse_wire(None, rest2);
                        match u32::spec_parse(None, rest2) {
                            Ok((rest3, texture_id)) => {
                                assert(u32::faithful(texture_id) ==> u32::encode_error(texture_id) is None
                                    && u32::wire(texture_id) + rest3 == rest2);
                                u32::lemma_parse_wire(None, rest3);
                                match u32::spec_parse(None, rest3) {
                                    Ok((rest4, texture_animation_id)) => {
                                        assert(u32::faithful(texture_animation_id) ==> u32::encode_error(texture_animation_id) is None
                                            && u32::wire(texture_animation_id) + rest4 == rest3);
                                        u32::lemma_parse_wire(None, rest4);
                                        match u32::spec_parse(None, rest4) {
                                            Ok((rest5, coord_id)) => {
                                                assert(u32::faithful(coord_id) ==> u32::encode_error(coord_id) is None
                                                    && u32::wire(coord_id) + rest5 == rest4);
                                                FloatBits::lemma_parse_wire(None, rest5);
                                                match FloatBits::spec_parse(None, rest5) {
                                                    Ok((rest6, alpha)) => {
                                                        assert(FloatBits::faithful(alpha) ==> FloatBits::encode_error(alpha) is None
                                                            && FloatBits::wire(alpha) + rest6 == rest5);
                                                        lemma_versioned_greater_parse_wire::<LayerExt>(version, 800, rest6);
                                                        match spec_parse_versioned_greater::<LayerExt>(version, 800, rest6) {
                                                            Ok((rest7, extra)) => {
                                                                assert(opt_faithful::<LayerExt>(extra) ==> encode_error_opt::<LayerExt>(extra) is None
                                                                    && wire_opt::<LayerExt>(extra) + rest7 == rest6);
                                                                lemma_tagged_parse_wire::<Layer>(
                                                                    LayerModel {
                                                                        filter_mode,
                                                                        shading_flags,
                                                                        texture_id,
                                                                        texture_animation_id,
                                                                        coord_id,
                                                                        alpha,
                                                                        extra,
                                                                        kmtf: None,
                                                                        kmta: None,
                                                                        kmte: None,
                                                                        kfc3: None,
                                                                        kfca: None,
                                                                        kftc: None,
                                                                        ordered: Some(Seq::empty()),
                                                                    },
                                                                    rest7,
                                                                );
                                                                match spec_parse_tagged::<Layer>(
                                                                    LayerModel {
                                                                        filter_mode,
                                                                        shading_flags,
                                                                        texture_id,
                                                                        texture_animation_id,
                                                                        coord_id,
                                                                        alpha,
                                                                        extra,
                                                                        kmtf: None,
                                                                        kmta: None,
                                                                        kmte: None,
                                                                        kfc3: None,
                                                                        kfca: None,
                                                                        kftc: None,
                                                                        ordered: Some(Seq::empty()),
                                                                    },
                                                                    rest7,
                                                                ) {
                                                                    Ok((rest8, scanned)) => {
                                                                        let m = scanned;
                                                                        if Self::body_faithful(m) {
                                                                            assert(scanned.order().skip(0) =~= scanned.order());
                                                                            let w1 = FilterMode::wire(m.filter_mode);
                                                                            let w2 = ShadingFlags::wire(m.shading_flags);
                                                                            let w3 = u32::wire(m.texture_id);
                                                                            let w4 = u32::wire(m.texture_animation_id);
                                                                            let w5 = u32::wire(m.coord_id);
                                                                            let w6 = FloatBits::wire(m.alpha);
                                                                            let w7 = wire_opt::<LayerExt>(m.extra);
                                                                            let w8 = wire_slots(m);
                                                                            let s7 = w7 + w8;
                                                                            let s6 = w6 + s7;
                                                                            let s5 = w5 + s6;
                                                                            let s4 = w4 + s5;
                                                                            let s3 = w3 + s4;
                                                                            let s2 = w2 + s3;
                                                                            lemma_append_assoc(w7, w8, rest8);
                                                                            lemma_append_assoc(w6, s7, rest8);
                                                                            lemma_append_assoc(w5, s6, rest8);
                                                                            lemma_append_assoc(w4, s5, rest8);
                                                                            lemma_append_assoc(w3, s4, rest8);
                                                                            lemma_append_assoc(w2, s3, rest8);
                                                                            lemma_append_assoc(w1, s2, rest8);
                                                                        }
                                                                    },
                                                                    Err(_) => {},
                                                                }
                                                            },
                                                            Err(_) => {},
                                                        }
                                                    },
                                                    Err(_) => {},
                                                }
                                            },
                                            Err(_) => {},
                                        }
                                    },
                                    Err(_) => {},
                                }
                            },
                            Err(_) => {},
                        }
                    },
                    Err(_) => {},
                }
            },
            Err(_) => {},
        }
    }
}

impl Materialized for Layer {
    type Version = u32;

    type Model = LayerModel;

    open spec fn model(&self) -> LayerModel {
        self.body_model()
    }

    open spec fn spec_parse(version: Option<u32>, input: Seq<u8>) -> Parsed<LayerModel> {
        spec_parse_inclusive_sized::<Layer>(version, input)
    }

    open spec fn wire(m: LayerModel) -> Seq<u8> {
        wire_inclusive_sized::<Layer>(m)
    }

    open spec fn encode_error(m: LayerModel) -> Option<EncodeError> {
        encode_error_inclusive_sized::<Layer>(m)
    }

    fn parse_versioned<'a>(version: Option<u32>, input: &'a [u8]) -> (r: Parser<'a, Layer>) {
        parse_inclusive_sized::<Layer>(version, input)
    }

    /// The record is encoded aside and then written with its size: if it
    /// fails, the output is left as it is.
    fn encode(&self, output: &mut Vec<u8>) -> (r: Result<(), EncodeError>)
        ensures
            r is Err ==> final(output)@ == old(output)@,
    {
        encode_inclusive_sized(output, self)
    }
}

impl Lossless for Layer {
    open spec fn faithful(m: LayerModel) -> bool {
        Layer::body_faithful(m)
    }

    proof fn lemma_parse_wire(version: Option<u32>, input: Seq<u8>) {
        lemma_inclusive_parse_wire::<Layer>(version, input);
    }
}

/// The tags of the blocks of [`Layer`] differ from each other.
proof fn lemma_layer_tags_differ()
    ensures
        Kmtf::spec_tag() != Kmta::spec_tag(),
        Kmtf::spec_tag() != Kmte::spec_tag(),
        Kmtf::spec_tag() != Kfc3::spec_tag(),
        Kmtf::spec_tag() != Kfca::spec_tag(),
        Kmtf::spec_tag() != Kftc::spec_tag(),
        Kmta::spec_tag() != Kmte::spec_tag(),
        Kmta::spec_tag() != Kfc3::spec_tag(),
        Kmta::spec_tag() != Kfca::spec_tag(),
        Kmta::spec_tag() != Kftc::spec_tag(),
        Kmte::spec_tag() != Kfc3::spec_tag(),
        Kmte::spec_tag() != Kfca::spec_tag(),
        Kmte::spec_tag() != Kftc::spec_tag(),
        Kfc3::spec_tag() != Kfca::spec_tag(),
        Kfc3::spec_tag() != Kftc::spec_tag(),
        Kfca::spec_tag() != Kftc::spec_tag(),
{
    assert(Kmtf::spec_tag().0[3] != Kmta::spec_tag().0[3]);
    assert(Kmtf::spec_tag().0[3] != Kmte::spec_tag().0[3]);
    assert(Kmtf::spec_tag().0[1] != Kfc3::spec_tag().0[1]);
    assert(Kmtf::spec_tag().0[1] != Kfca::spec_tag().0[1]);
    assert(Kmtf::spec_tag().0[1] != Kftc::spec_tag().0[1]);
    assert(Kmta::spec_tag().0[3] != Kmte::spec_tag().0[3]);
    assert(Kmta::spec_tag().0[1] != Kfc3::spec_tag().0[1]);
    assert(Kmta::spec_tag().0[1] != Kfca::spec_tag().0[1]);
    assert(Kmta::spec_tag().0[1] != Kftc::spec_tag().0[1]);
    assert(Kmte::spec_tag().0[1] != Kfc3::spec_tag().0[1]);
    assert(Kmte::spec_tag().0[1] != Kfca::spec_tag().0[1]);
    assert(Kmte::spec_tag().0[1] != Kftc::spec_tag().0[1]);
    assert(Kfc3::spec_tag().0[3] != Kfca::spec_tag().0[3]);
    assert(Kfc3::spec_tag().0[2] != Kftc::spec_tag().0[2]);
    assert(Kfca::spec_tag().0[2] != Kftc::spec_tag().0[2]);
}

impl ReparsableBlocks for Layer {
    open spec fn slot_well_formed(m: LayerModel, tag: Tag) -> bool {
        if tag == Kmtf::spec_tag() {
            m.kmtf is Some && Kmtf::well_formed(m.kmtf->0, None)
        } else if tag == Kmta::spec_tag() {
            m.kmta is Some && Kmta::well_formed(m.kmta->0, None)
        } else if tag == Kmte::spec_tag() {
            m.kmte is Some && Kmte::well_formed(m.kmte->0, None)
        } else if tag == Kfc3::spec_tag() {
            m.kfc3 is Some && Kfc3::well_formed(m.kfc3->0, None)
        } else if tag == Kfca::spec_tag() {
            m.kfca is Some && Kfca::well_formed(m.kfca->0, None)
        } else if tag == Kftc::spec_tag() {
            m.kftc is Some && Kftc::well_formed(m.kftc->0, None)
        } else {
            false
        }
    }

    open spec fn refill(acc: LayerModel, m: LayerModel, tag: Tag) -> LayerModel {
        if tag == Kmtf::spec_tag() {
            LayerModel {
                filter_mode: acc.filter_mode,
                shading_flags: acc.shading_flags,
                texture_id: acc.texture_id,
                texture_animation_id: acc.texture_animation_id,
                coord_id: acc.coord_id,
                alpha: acc.alpha,
                extra: acc.extra,
                kmtf: m.kmtf,
                kmta: acc.kmta,
                kmte: acc.kmte,
                kfc3: acc.kfc3,
                kfca: acc.kfca,
                kftc: acc.kftc,
                ordered: Some(acc.order().push(tag)),
            }
        } else if tag == Kmta::spec_tag() {
            LayerModel {
                filter_mode: acc.filter_mode,
                shading_flags: acc.shading_flags,
                texture_id: acc.texture_id,
                texture_animation_id: acc.texture_animation_id,
                coord_id: acc.coord_id,
                alpha: acc.alpha,
                extra: acc.extra,
                kmtf: acc.kmtf,
                kmta: m.kmta,
                kmte: acc.kmte,
                kfc3: acc.kfc3,
                kfca: acc.kfca,
                kftc: acc.kftc,
                ordered: Some(acc.order().push(tag)),
            }
        } else if tag == Kmte::spec_tag() {
            LayerModel {
                filter_mode: acc.filter_mode,
                shading_flags: acc.shading_flags,
                texture_id: acc.texture_id,
                texture_animation_id: acc.texture_animation_id,
                coord_id: acc.coord_id,
                alpha: acc.alpha,
                extra: acc.extra,
                kmtf: acc.kmtf,
                kmta: acc.kmta,
                kmte: m.kmte,
                kfc3: acc.kfc3,
                kfca: acc.kfca,
                kftc: acc.kftc,
                ordered: Some(acc.order().push(tag)),
            }
        } else if tag == Kfc3::spec_tag() {
            LayerModel {
                filter_mode: acc.filter_mode,
                shading_flags: acc.shading_flags,
                texture_id: acc.texture_id,
                texture_animation_id: acc.texture_animation_id,
                coord_id: acc.coord_id,
                alpha: acc.alpha,
                extra: acc.extra,
                kmtf: acc.kmtf,
                kmta: acc.kmta,
                kmte: acc.kmte,
                kfc3: m.kfc3,
                kfca: acc.kfca,
                kftc: acc.kftc,
                ordered: Some(acc.order().push(tag)),
            }
        } else if tag == Kfca::spec_tag() {
            LayerModel {
                filter_mode: acc.filter_mode,
                shading_flags: acc.shading_flags,
                texture_id: acc.texture_id,
                texture_animation_id: acc.texture_animation_id,
                coord_id: acc.coord_id,
                alpha: acc.alpha,
                extra: acc.extra,
                kmtf: acc.kmtf,
                kmta: acc.kmta,
                kmte: acc.kmte,
                kfc3: acc.kfc3,
                kfca: m.kfca,
                kftc: acc.kftc,
                ordered: Some(acc.order().push(tag)),
            }
        } else if tag == Kftc::spec_tag() {
            LayerModel {
                filter_mode: acc.filter_mode,
                shading_flags: acc.shading_flags,
                texture_id: acc.texture_id,
                texture_animation_id: acc.texture_animation_id,
                coord_id: acc.coord_id,
                alpha: acc.alpha,
                extra: acc.extra,
                kmtf: acc.kmtf,
                kmta: acc.kmta,
                kmte: acc.kmte,
                kfc3: acc.kfc3,
                kfca: acc.kfca,
                kftc: m.kftc,
                ordered: Some(acc.order().push(tag)),
            }
        } else {
            acc
        }
    }

    proof fn lemma_block_refill(acc: LayerModel, m: LayerModel, tag: Tag, tail: Seq<u8>) {
        if tag == Kmtf::spec_tag() {
            Kmtf::lemma_wire_tag(m.kmtf->0);
            Kmtf::lemma_wire_parse(m.kmtf->0, None, tail);
        } else if tag == Kmta::spec_tag() {
            Kmta::lemma_wire_tag(m.kmta->0);
            Kmta::lemma_wire_parse(m.kmta->0, None, tail);
        } else if tag == Kmte::spec_tag() {
            Kmte::lemma_wire_tag(m.kmte->0);
            Kmte::lemma_wire_parse(m.kmte->0, None, tail);
        } else if tag == Kfc3::spec_tag() {
            Kfc3::lemma_wire_tag(m.kfc3->0);
            Kfc3::lemma_wire_parse(m.kfc3->0, None, tail);
        } else if tag == Kfca::spec_tag() {
            Kfca::lemma_wire_tag(m.kfca->0);
            Kfca::lemma_wire_parse(m.kfca->0, None, tail);
        } else if tag == Kftc::spec_tag() {
            Kftc::lemma_wire_tag(m.kftc->0);
            Kftc::lemma_wire_parse(m.kftc->0, None, tail);
        }
    }
}

/// What the blocks of `m` under the tags make of `acc`: the other fields are
/// the ones of `acc`, the tags are recorded behind the ones of `acc`, and a
/// block is the one of `m` if its tag is among the tags.
proof fn lemma_layer_refill(acc: LayerModel, m: LayerModel, tags: Seq<Tag>)
    requires
        acc.ordered is Some,
        forall|i: int| 0 <= i < tags.len() ==> Layer::slot_well_formed(m, #[trigger] tags[i]),
    ensures
        ({
            let r = refill_all::<Layer>(acc, m, tags);
            &&& r.ordered == Some(acc.order() + tags)
            &&& r.filter_mode == acc.filter_mode
            &&& r.shading_flags == acc.shading_flags
            &&& r.texture_id == acc.texture_id
            &&& r.texture_animation_id == acc.texture_animation_id
            &&& r.coord_id == acc.coord_id
            &&& r.alpha == acc.alpha
            &&& r.extra == acc.extra
            &&& r.kmtf == if tags.contains(Kmtf::spec_tag()) {
                m.kmtf
            } else {
                acc.kmtf
            }
            &&& r.kmta == if tags.contains(Kmta::spec_tag()) {
                m.kmta
            } else {
                acc.kmta
            }
            &&& r.kmte == if tags.contains(Kmte::spec_tag()) {
                m.kmte
            } else {
                acc.kmte
            }
            &&& r.kfc3 == if tags.contains(Kfc3::spec_tag()) {
                m.kfc3
            } else {
                acc.kfc3
            }
            &&& r.kfca == if tags.contains(Kfca::spec_tag()) {
                m.kfca
            } else {
                acc.kfca
            }
            &&& r.kftc == if tags.contains(Kftc::spec_tag()) {
                m.kftc
            } else {
                acc.kftc
            }
        }),
    decreases tags.len(),
{
    if tags.len() == 0 {
        assert(acc.order() + tags =~= acc.order());
    } else {
        let tag = tags[0];
        let next = Layer::refill(acc, m, tag);
        assert(Layer::slot_well_formed(m, tags[0]));
        assert forall|i: int| 0 <= i < tags.skip(1).len() implies Layer::slot_well_formed(
            m,
            #[trigger] tags.skip(1)[i],
        ) by {
            assert(tags.skip(1)[i] == tags[i + 1]);
        }
        lemma_layer_refill(next, m, tags.skip(1));
        assert(next.order() + tags.skip(1) =~= acc.order() + tags);
        lemma_layer_tags_differ();
        lemma_contains_front(tags, Kmtf::spec_tag());
        lemma_contains_front(tags, Kmta::spec_tag());
        lemma_contains_front(tags, Kmte::spec_tag());
        lemma_contains_front(tags, Kfc3::spec_tag());
        lemma_contains_front(tags, Kfca::spec_tag());
        lemma_contains_front(tags, Kftc::spec_tag());
    }
}

impl ReparsableBody for Layer {
    open spec fn body_well_formed(m: LayerModel, version: Option<u32>) -> bool {
        FilterMode::well_formed(m.filter_mode, None)
        && ShadingFlags::well_formed(m.shading_flags, None)
        && u32::well_formed(m.texture_id, None)
        && u32::well_formed(m.texture_animation_id, None)
        && u32::well_formed(m.coord_id, None)
        && FloatBits::well_formed(m.alpha, None)
        && opt_well_formed::<LayerExt>(m.extra, version, 800)
        && m.ordered is Some
        && (forall|i: int| 0 <= i < m.order().len() ==> Layer::slot_well_formed(m, #[trigger] m.order()[i]))
        && (m.kmtf is Some ==> m.order().contains(Kmtf::spec_tag()))
        && (m.kmta is Some ==> m.order().contains(Kmta::spec_tag()))
        && (m.kmte is Some ==> m.order().contains(Kmte::spec_tag()))
        && (m.kfc3 is Some ==> m.order().contains(Kfc3::spec_tag()))
        && (m.kfca is Some ==> m.order().contains(Kfca::spec_tag()))
        && (m.kftc is Some ==> m.order().contains(Kftc::spec_tag()))
    }

    #[verifier::rlimit(50)]
    proof fn lemma_body_wire_parse(m: LayerModel, version: Option<u32>) {
        let w1 = FilterMode::wire(m.filter_mode);
        let w2 = ShadingFlags::wire(m.shading_flags);
        let w3 = u32::wire(m.texture_id);
        let w4 = u32::wire(m.texture_animation_id);
        let w5 = u32::wire(m.coord_id);
        let w6 = FloatBits::wire(m.alpha);
        let w7 = wire_opt::<LayerExt>(m.extra);
        let w8 = wire_slots(m);
        let u9 = Seq::<u8>::empty();
        let u8 = w8 + u9;
        let u7 = w7 + u8;
        let u6 = w6 + u7;
        let u5 = w5 + u6;
        let u4 = w4 + u5;
        let u3 = w3 + u4;
        let u2 = w2 + u3;
        let u1 = w1 + u2;
        let s7 = w7 + w8;
        let s6 = w6 + s7;
        let s5 = w5 + s6;
        let s4 = w4 + s5;
        let s3 = w3 + s4;
        let s2 = w2 + s3;
        lemma_append_assoc(w7, w8, Seq::<u8>::empty());
        lemma_append_assoc(w6, s7, Seq::<u8>::empty());
        lemma_append_assoc(w5, s6, Seq::<u8>::empty());
        lemma_append_assoc(w4, s5, Seq::<u8>::empty());
        lemma_append_assoc(w3, s4, Seq::<u8>::empty());
        lemma_append_assoc(w2, s3, Seq::<u8>::empty());
        lemma_append_assoc(w1, s2, Seq::<u8>::empty());
        FilterMode::lemma_wire_parse(m.filter_mode, None, u2);
        ShadingFlags::lemma_wire_parse(m.shading_flags, None, u3);
        u32::lemma_wire_parse(m.texture_id, None, u4);
        u32::lemma_wire_parse(m.texture_animation_id, None, u5);
        u32::lemma_wire_parse(m.coord_id, None, u6);
        FloatBits::lemma_wire_parse(m.alpha, None, u7);
        lemma_versioned_greater_wire_parse::<LayerExt>(version, 800, m.extra, u8);
        let start = LayerModel {
            filter_mode: m.filter_mode,
            shading_flags: m.shading_flags,
            texture_id: m.texture_id,
            texture_animation_id: m.texture_animation_id,
            coord_id: m.coord_id,
            alpha: m.alpha,
            extra: m.extra,
            kmtf: None,
            kmta: None,
            kmte: None,
            kfc3: None,
            kfca: None,
            kftc: None,
            ordered: Some(Seq::empty()),
        };
        lemma_tagged_wire_parse::<Layer>(start, m, m.order(), u9);
        lemma_layer_refill(start, m, m.order());
        assert(Seq::<Tag>::empty() + m.order() =~= m.order());
        assert(u1 =~= Self::body_wire(m));
    }
}

impl Reparsable for Layer {
    open spec fn well_formed(m: LayerModel, version: Option<u32>) -> bool {
        Layer::body_well_formed(m, version) && Layer::body_wire(m).len() + 4 <= u32::MAX
    }

    proof fn lemma_wire_parse(m: LayerModel, version: Option<u32>, tail: Seq<u8>) {
        lemma_inclusive_wire_parse::<Layer>(m, version, tail);
    }
}

/// The fields of a layer that only versions greater than 800 have.
#[derive(Debug, Clone, PartialEq)]
pub struct LayerExt {
    pub emissive_gain: FloatBits,
    pub fresnel_color: [FloatBits; 3],
    pub fresnel_opacity: FloatBits,
    pub fresnel_team_color: FloatBits,
}

/// What a value of [`LayerExt`] stands for in specifications.
pub struct LayerExtModel {
    pub emissive_gain: FloatBits,
    pub fresnel_color: Seq<FloatBits>,
    pub fresnel_opacity: FloatBits,
    pub fresnel_team_color: FloatBits,
}

impl Materialized for LayerExt {
    type Version = u32;

    type Model = LayerExtModel;

    open spec fn model(&self) -> LayerExtModel {
        LayerExtModel {
            emissive_gain: self.emissive_gain.model(),
            fresnel_color: self.fresnel_color.model(),
            fresnel_opacity: self.fresnel_opacity.model(),
            fresnel_team_color: self.fresnel_team_color.model(),
        }
    }

    open spec fn spec_parse(version: Option<u32>, input: Seq<u8>) -> Parsed<LayerExtModel> {
        match FloatBits::spec_parse(None, input) {
            Ok((rest, emissive_gain)) => match <[FloatBits; 3]>::spec_parse(None, rest) {
                Ok((rest, fresnel_color)) => match FloatBits::spec_parse(None, rest) {
                    Ok((rest, fresnel_opacity)) => match FloatBits::spec_parse(None, rest) {
                        Ok((rest, fresnel_team_color)) => Ok((rest, LayerExtModel {
                            emissive_gain,
                            fresnel_color,
                            fresnel_opacity,
                            fresnel_team_color,
                        })),
                        Err(e) => Err(e),
                    },
                    Err(e) => Err(e),
                },
                Err(e) => Err(e),
            },
            Err(e) => Err(e),
        }
    }

    open spec fn wire(m: LayerExtModel) -> Seq<u8> {
        FloatBits::wire(m.emissive_gain) + (<[FloatBits; 3]>::wire(m.fresnel_color) + (FloatBits::wire(m.fresnel_opacity) + (FloatBits::wire(m.fresnel_team_color))))
    }

    open spec fn encode_error(m: LayerExtModel) -> Option<EncodeError> {
        match FloatBits::encode_error(m.emissive_gain) {
            Some(e) => Some(e),
            None => match <[FloatBits; 3]>::encode_error(m.fresnel_color) {
                Some(e) => Some(e),
                None => match FloatBits::encode_error(m.fresnel_opacity) {
                    Some(e) => Some(e),
                    None => FloatBits::encode_error(m.fresnel_team_color),
                },
            },
        }
    }

    fn parse_versioned<'a>(version: Option<u32>, input: &'a [u8]) -> (r: Parser<'a, LayerExt>) {
        let (input, emissive_gain) = FloatBits::parse(input)?;
        let (input, fresnel_color) = <[FloatBits; 3]>::parse(input)?;
        let (input, fresnel_opacity) = FloatBits::parse(input)?;
        let (input, fresnel_team_color) = FloatBits::parse(input)?;
        Ok((input, LayerExt {
            emissive_gain,
            fresnel_color,
            fresnel_opacity,
            fresnel_team_color,
        }))
    }

    fn encode(&self, output: &mut Vec<u8>) -> (r: Result<(), EncodeError>) {
        let ghost p0 = output@;
        self.emissive_gain.encode(output)?;
        let ghost p1 = output@;
        self.fresnel_color.encode(output)?;
        let ghost p2 = output@;
        self.fresnel_opacity.encode(output)?;
        let ghost p3 = output@;
        self.fresnel_team_color.encode(output)?;
        proof {
            let m = self.model();
            let w1 = FloatBits::wire(m.emissive_gain);
            let w2 = <[FloatBits; 3]>::wire(m.fresnel_color);
            let w3 = FloatBits::wire(m.fresnel_opacity);
            let w4 = FloatBits::wire(m.fresnel_team_color);
            let s3 = w3 + w4;
            let s2 = w2 + s3;
            lemma_append_assoc(p2, w3, w4);
            lemma_append_assoc(p1, w2, s3);
            lemma_append_assoc(p0, w1, s2);
        }
        Ok(())
    }
}

impl Lossless for LayerExt {
    open spec fn faithful(m: LayerExtModel) -> bool {
        FloatBits::faithful(m.emissive_gain) && <[FloatBits; 3]>::faithful(m.fresnel_color) && FloatBits::faithful(m.fresnel_opacity) && FloatBits::faithful(m.fresnel_team_color)
    }

    proof fn lemma_parse_wire(version: Option<u32>, input: Seq<u8>) {
        FloatBits::lemma_parse_wire(None, input);
        match FloatBits::spec_parse(None, input) {
            Ok((rest1, emissive_gain)) => {
                assert(FloatBits::faithful(emissive_gain) ==> FloatBits::encode_error(emissive_gain) is None
                    && FloatBits::wire(emissive_gain) + rest1 == input);
                <[FloatBits; 3]>::lemma_parse_wire(None, rest1);
                match <[FloatBits; 3]>::spec_parse(None, rest1) {
                    Ok((rest2, fresnel_color)) => {
                        assert(<[FloatBits; 3]>::faithful(fresnel_color) ==> <[FloatBits; 3]>::encode_error(fresnel_color) is None
                            && <[FloatBits; 3]>::wire(fresnel_color) + rest2 == rest1);
                        FloatBits::lemma_parse_wire(None, rest2);
                        match FloatBits::spec_parse(None, rest2) {
                            Ok((rest3, fresnel_opacity)) => {
                                assert(FloatBits::faithful(fresnel_opacity) ==> FloatBits::encode_error(fresnel_opacity) is None
                                    && FloatBits::wire(fresnel_opacity) + rest3 == rest2);
                                FloatBits::lemma_parse_wire(None, rest3);
                                match FloatBits::spec_parse(None, rest3) {
                                    Ok((rest4, fresnel_team_color)) => {
                                        assert(FloatBits::faithful(fresnel_team_color) ==> FloatBits::encode_error(fresnel_team_color) is None
                                            && FloatBits::wire(fresnel_team_color) + rest4 == rest3);
                                        let m = LayerExtModel {
                                            emissive_gain,
                                            fresnel_color,
                                            fresnel_opacity,
                                            fresnel_team_color,
                                        };
                                        if Self::faithful(m) {
                                            let w1 = FloatBits::wire(m.emissive_gain);
                                            let w2 = <[FloatBits; 3]>::wire(m.fresnel_color);
                                            let w3 = FloatBits::wire(m.fresnel_opacity);
                                            let w4 = FloatBits::wire(m.fresnel_team_color);
                                            let s3 = w3 + w4;
                                            let s2 = w2 + s3;
                                            lemma_append_assoc(w3, w4, rest4);
                                            lemma_append_assoc(w2, s3, rest4);
                                            lemma_append_assoc(w1, s2, rest4);
                                        }
                                    },
                                    Err(_) => {},
                                }
                            },
                            Err(_) => {},
                        }
                    },
                    Err(_) => {},
                }
            },
            Err(_) => {},
        }
    }
}

impl Reparsable for LayerExt {
    open spec fn well_formed(m: LayerExtModel, version: Option<u32>) -> bool {
        FloatBits::well_formed(m.emissive_gain, None)
        && <[FloatBits; 3]>::well_formed(m.fresnel_color, None)
        && FloatBits::well_formed(m.fresnel_opacity, None)
        && FloatBits::well_formed(m.fresnel_team_color, None)
    }

    proof fn lemma_wire_parse(m: LayerExtModel, version: Option<u32>, tail: Seq<u8>) {
        let w1 = FloatBits::wire(m.emissive_gain);
        let w2 = <[FloatBits; 3]>::wire(m.fresnel_color);
        let w3 = FloatBits::wire(m.fresnel_opacity);
        let w4 = FloatBits::wire(m.fresnel_team_color);
        let u5 = tail;
        let u4 = w4 + u5;
        let u3 = w3 + u4;
        let u2 = w2 + u3;
        let u1 = w1 + u2;
        let s3 = w3 + w4;
        let s2 = w2 + s3;
        lemma_append_assoc(w3, w4, tail);
        lemma_append_assoc(w2, s3, tail);
        lemma_append_assoc(w1, s2, tail);
        FloatBits::lemma_wire_parse(m.emissive_gain, None, u2);
        <[FloatBits; 3]>::lemma_wire_parse(m.fresnel_color, None, u3);
        FloatBits::lemma_wire_parse(m.fresnel_opacity, None, u4);
        FloatBits::lemma_wire_parse(m.fresnel_team_color, None, u5);
    }
}

/// Holds the track of the texture of a layer.
#[derive(Debug, Clone, PartialEq)]
pub struct Kmtf(pub TrackChunk<u32>);

impl Chunk for Kmtf {
    open spec fn spec_tag() -> Tag {
        Tag([0x4B, 0x4D, 0x54, 0x46])
    }

    fn tag() -> (t: Tag) {
        let t = Tag([0x4B, 0x4D, 0x54, 0x46]);
        assert(t.0 =~= Self::spec_tag().0);
        t
    }
}

impl Materialized for Kmtf {
    type Version = u32;

    type Model = TrackChunkModel<u32>;

    open spec fn model(&self) -> TrackChunkModel<u32> {
        self.0.model()
    }

    open spec fn spec_parse(version: Option<u32>, input: Seq<u8>) -> Parsed<
        TrackChunkModel<u32>,
    > {
        <TrackChunk<u32>>::spec_parse(None, input)
    }

    open spec fn wire(m: TrackChunkModel<u32>) -> Seq<u8> {
        <TrackChunk<u32>>::wire(m)
    }

    open spec fn encode_error(m: TrackChunkModel<u32>) -> Option<EncodeError> {
        <TrackChunk<u32>>::encode_error(m)
    }

    fn parse_versioned<'a>(version: Option<u32>, input: &'a [u8]) -> (r: Parser<'a, Kmtf>) {
        let (input, chunk) = <TrackChunk<u32>>::parse(input)?;
        Ok((input, Kmtf(chunk)))
    }

    fn encode(&self, output: &mut Vec<u8>) -> (r: Result<(), EncodeError>) {
        self.0.encode(output)
    }
}

impl Lossless for Kmtf {
    open spec fn faithful(m: TrackChunkModel<u32>) -> bool {
        <TrackChunk<u32>>::faithful(m)
    }

    proof fn lemma_parse_wire(version: Option<u32>, input: Seq<u8>) {
        <TrackChunk<u32>>::lemma_parse_wire(None, input);
    }
}

impl Reparsable for Kmtf {
    open spec fn well_formed(m: TrackChunkModel<u32>, version: Option<u32>) -> bool {
        <TrackChunk<u32>>::well_formed(m, None) && m.tag == Self::spec_tag()
    }

    proof fn lemma_wire_parse(m: TrackChunkModel<u32>, version: Option<u32>, tail: Seq<u8>) {
        <TrackChunk<u32>>::lemma_wire_parse(m, None, tail);
    }
}

impl TaggedBlock for Kmtf {
    proof fn lemma_wire_tag(m: TrackChunkModel<u32>) {
        lemma_tag_bytes(m.tag, m.tag.0@);
        assert(<TrackChunk<u32>>::wire(m).take(4) =~= m.tag.0@);
    }
}

/// Holds the track of the alpha of a layer.
#[derive(Debug, Clone, PartialEq)]
pub struct Kmta(pub TrackChunk<FloatBits>);

impl Chunk for Kmta {
    open spec fn spec_tag() -> Tag {
        Tag([0x4B, 0x4D, 0x54, 0x41])
    }

    fn tag() -> (t: Tag) {
        let t = Tag([0x4B, 0x4D, 0x54, 0x41]);
        assert(t.0 =~= Self::spec_tag().0);
        t
    }
}

impl Materialized for Kmta {
    type Version = u32;

    type Model = TrackChunkModel<FloatBits>;

    open spec fn model(&self) -> TrackChunkModel<FloatBits> {
        self.0.model()
    }

    open spec fn spec_parse(version: Option<u32>, input: Seq<u8>) -> Parsed<
        TrackChunkModel<FloatBits>,
    > {
        <TrackChunk<FloatBits>>::spec_parse(None, input)
    }

    open spec fn wire(m: TrackChunkModel<FloatBits>) -> Seq<u8> {
        <TrackChunk<FloatBits>>::wire(m)
    }

    open spec fn encode_error(m: TrackChunkModel<FloatBits>) -> Option<EncodeError> {
        <TrackChunk<FloatBits>>::encode_error(m)
    }

    fn parse_versioned<'a>(version: Option<u32>, input: &'a [u8]) -> (r: Parser<'a, Kmta>) {
        let (input, chunk) = <TrackChunk<FloatBits>>::parse(input)?;
        Ok((input, Kmta(chunk)))
    }

    fn encode(&self, output: &mut Vec<u8>) -> (r: Result<(), EncodeError>) {
        self.0.encode(output)
    }
}

impl Lossless for Kmta {
    open spec fn faithful(m: TrackChunkModel<FloatBits>) -> bool {
        <TrackChunk<FloatBits>>::faithful(m)
    }

    proof fn lemma_parse_wire(version: Option<u32>, input: Seq<u8>) {
        <TrackChunk<FloatBits>>::lemma_parse_wire(None, input);
    }
}

impl Reparsable for Kmta {
    open spec fn well_formed(m: TrackChunkModel<FloatBits>, version: Option<u32>) -> bool {
        <TrackChunk<FloatBits>>::well_formed(m, None) && m.tag == Self::spec_tag()
    }

    proof fn lemma_wire_parse(m: TrackChunkModel<FloatBits>, version: Option<u32>, tail: Seq<u8>) {
        <TrackChunk<FloatBits>>::lemma_wire_parse(m, None, tail);
    }
}

impl TaggedBlock for Kmta {
    proof fn lemma_wire_tag(m: TrackChunkModel<FloatBits>) {
        lemma_tag_bytes(m.tag, m.tag.0@);
        assert(<TrackChunk<FloatBits>>::wire(m).take(4) =~= m.tag.0@);
    }
}

/// Holds the track of the emissive gain of a layer.
#[derive(Debug, Clone, PartialEq)]
pub struct Kmte(pub TrackChunk<FloatBits>);

impl Chunk for Kmte {
    open spec fn spec_tag() -> Tag {
        Tag([0x4B, 0x4D, 0x54, 0x45])
    }

    fn tag() -> (t: Tag) {
        let t = Tag([0x4B, 0x4D, 0x54, 0x45]);
        assert(t.0 =~= Self::spec_tag().0);
        t
    }
}

impl Materialized for Kmte {
    type Version = u32;

    type Model = TrackChunkModel<FloatBits>;

    open spec fn model(&self) -> TrackChunkModel<FloatBits> {
        self.0.model()
    }

    open spec fn spec_parse(version: Option<u32>, input: Seq<u8>) -> Parsed<
        TrackChunkModel<FloatBits>,
    > {
        <TrackChunk<FloatBits>>::spec_parse(None, input)
    }

    open spec fn wire(m: TrackChunkModel<FloatBits>) -> Seq<u8> {
        <TrackChunk<FloatBits>>::wire(m)
    }

    open spec fn encode_error(m: TrackChunkModel<FloatBits>) -> Option<EncodeError> {
        <TrackChunk<FloatBits>>::encode_error(m)
    }

    fn parse_versioned<'a>(version: Option<u32>, input: &'a [u8]) -> (r: Parser<'a, Kmte>) {
        let (input, chunk) = <TrackChunk<FloatBits>>::parse(input)?;
        Ok((input, Kmte(chunk)))
    }

    fn encode(&self, output: &mut Vec<u8>) -> (r: Result<(), EncodeError>) {
        self.0.encode(output)
    }
}

impl Lossless for Kmte {
    open spec fn faithful(m: TrackChunkModel<FloatBits>) -> bool {
        <TrackChunk<FloatBits>>::faithful(m)
    }

    proof fn lemma_parse_wire(version: Option<u32>, input: Seq<u8>) {
        <TrackChunk<FloatBits>>::lemma_parse_wire(None, input);
    }
}

impl Reparsable for Kmte {
    open spec fn well_formed(m: TrackChunkModel<FloatBits>, version: Option<u32>) -> bool {
        <TrackChunk<FloatBits>>::well_formed(m, None) && m.tag == Self::spec_tag()
    }

    proof fn lemma_wire_parse(m: TrackChunkModel<FloatBits>, version: Option<u32>, tail: Seq<u8>) {
        <TrackChunk<FloatBits>>::lemma_wire_parse(m, None, tail);
    }
}

impl TaggedBlock for Kmte {
    proof fn lemma_wire_tag(m: TrackChunkModel<FloatBits>) {
        lemma_tag_bytes(m.tag, m.tag.0@);
        assert(<TrackChunk<FloatBits>>::wire(m).take(4) =~= m.tag.0@);
    }
}

/// Holds the track of the fresnel color of a layer.
#[derive(Debug, Clone, PartialEq)]
pub struct Kfc3(pub TrackChunk<[FloatBits; 3]>);

impl Chunk for Kfc3 {
    open spec fn spec_tag() -> Tag {
        Tag([0x4B, 0x46, 0x43, 0x33])
    }

    fn tag() -> (t: Tag) {
        let t = Tag([0x4B, 0x46, 0x43, 0x33]);
        assert(t.0 =~= Self::spec_tag().0);
        t
    }
}

impl Materialized for Kfc3 {
    type Version = u32;

    type Model = TrackChunkModel<Seq<FloatBits>>;

    open spec fn model(&self) -> TrackChunkModel<Seq<FloatBits>> {
        self.0.model()
    }

    open spec fn spec_parse(version: Option<u32>, input: Seq<u8>) -> Parsed<
        TrackChunkModel<Seq<FloatBits>>,
    > {
        <TrackChunk<[FloatBits; 3]>>::spec_parse(None, input)
    }

    open spec fn wire(m: TrackChunkModel<Seq<FloatBits>>) -> Seq<u8> {
        <TrackChunk<[FloatBits; 3]>>::wire(m)
    }

    open spec fn encode_error(m: TrackChunkModel<Seq<FloatBits>>) -> Option<EncodeError> {
        <TrackChunk<[FloatBits; 3]>>::encode_error(m)
    }

    fn parse_versioned<'a>(version: Option<u32>, input: &'a [u8]) -> (r: Parser<'a, Kfc3>) {
        let (input, chunk) = <TrackChunk<[FloatBits; 3]>>::parse(input)?;
        Ok((input, Kfc3(chunk)))
    }

    fn encode(&self, output: &mut Vec<u8>) -> (r: Result<(), EncodeError>) {
        self.0.encode(output)
    }
}

impl Lossless for Kfc3 {
    open spec fn faithful(m: TrackChunkModel<Seq<FloatBits>>) -> bool {
        <TrackChunk<[FloatBits; 3]>>::faithful(m)
    }

    proof fn lemma_parse_wire(version: Option<u32>, input: Seq<u8>) {
        <TrackChunk<[FloatBits; 3]>>::lemma_parse_wire(None, input);
    }
}

impl Reparsable for Kfc3 {
    open spec fn well_formed(m: TrackChunkModel<Seq<FloatBits>>, version: Option<u32>) -> bool {
        <TrackChunk<[FloatBits; 3]>>::well_formed(m, None) && m.tag == Self::spec_tag()
    }

    proof fn lemma_wire_parse(m: TrackChunkModel<Seq<FloatBits>>, version: Option<u32>, tail: Seq<u8>) {
        <TrackChunk<[FloatBits; 3]>>::lemma_wire_parse(m, None, tail);
    }
}

impl TaggedBlock for Kfc3 {
    proof fn lemma_wire_tag(m: TrackChunkModel<Seq<FloatBits>>) {
        lemma_tag_bytes(m.tag, m.tag.0@);
        assert(<TrackChunk<[FloatBits; 3]>>::wire(m).take(4) =~= m.tag.0@);
    }
}

/// Holds the track of the fresnel alpha of a layer.
#[derive(Debug, Clone, PartialEq)]
pub struct Kfca(pub TrackChunk<FloatBits>);

impl Chunk for Kfca {
    open spec fn spec_tag() -> Tag {
        Tag([0x4B, 0x46, 0x43, 0x41])
    }

    fn tag() -> (t: Tag) {
        let t = Tag([0x4B, 0x46, 0x43, 0x41]);
        assert(t.0 =~= Self::spec_tag().0);
        t
    }
}

impl Materialized for Kfca {
    type Version = u32;

    type Model = TrackChunkModel<FloatBits>;

    open spec fn model(&self) -> TrackChunkModel<FloatBits> {
        self.0.model()
    }

    open spec fn spec_parse(version: Option<u32>, input: Seq<u8>) -> Parsed<
        TrackChunkModel<FloatBits>,
    > {
        <TrackChunk<FloatBits>>::spec_parse(None, input)
    }

    open spec fn wire(m: TrackChunkModel<FloatBits>) -> Seq<u8> {
        <TrackChunk<FloatBits>>::wire(m)
    }

    open spec fn encode_error(m: TrackChunkModel<FloatBits>) -> Option<EncodeError> {
        <TrackChunk<FloatBits>>::encode_error(m)
    }

    fn parse_versioned<'a>(version: Option<u32>, input: &'a [u8]) -> (r: Parser<'a, Kfca>) {
        let (input, chunk) = <TrackChunk<FloatBits>>::parse(input)?;
        Ok((input, Kfca(chunk)))
    }

    fn encode(&self, output: &mut Vec<u8>) -> (r: Result<(), EncodeError>) {
        self.0.encode(output)
    }
}

impl Lossless for Kfca {
    open spec fn faithful(m: TrackChunkModel<FloatBits>) -> bool {
        <TrackChunk<FloatBits>>::faithful(m)
    }

    proof fn lemma_parse_wire(version: Option<u32>, input: Seq<u8>) {
        <TrackChunk<FloatBits>>::lemma_parse_wire(None, input);
    }
}

impl Reparsable for Kfca {
    open spec fn well_formed(m: TrackChunkModel<FloatBits>, version: Option<u32>) -> bool {
        <TrackChunk<FloatBits>>::well_formed(m, None) && m.tag == Self::spec_tag()
    }

    proof fn lemma_wire_parse(m: TrackChunkModel<FloatBits>, version: Option<u32>, tail: Seq<u8>) {
        <TrackChunk<FloatBits>>::lemma_wire_parse(m, None, tail);
    }
}

impl TaggedBlock for Kfca {
    proof fn lemma_wire_tag(m: TrackChunkModel<FloatBits>) {
        lemma_tag_bytes(m.tag, m.tag.0@);
        assert(<TrackChunk<FloatBits>>::wire(m).take(4) =~= m.tag.0@);
    }
}

/// Holds the track of the fresnel team color of a layer.
#[derive(Debug, Clone, PartialEq)]
pub struct Kftc(pub TrackChunk<FloatBits>);

impl Chunk for Kftc {
    open spec fn spec_tag() -> Tag {
        Tag([0x4B, 0x46, 0x54, 0x43])
    }

    fn tag() -> (t: Tag) {
        let t = Tag([0x4B, 0x46, 0x54, 0x43]);
        assert(t.0 =~= Self::spec_tag().0);
        t
    }
}

impl Materialized for Kftc {
    type Version = u32;

    type Model = TrackChunkModel<FloatBits>;

    open spec fn model(&self) -> TrackChunkModel<FloatBits> {
        self.0.model()
    }

    open spec fn spec_parse(version: Option<u32>, input: Seq<u8>) -> Parsed<
        TrackChunkModel<FloatBits>,
    > {
        <TrackChunk<FloatBits>>::spec_parse(None, input)
    }

    open spec fn wire(m: TrackChunkModel<FloatBits>) -> Seq<u8> {
        <TrackChunk<FloatBits>>::wire(m)
    }

    open spec fn encode_error(m: TrackChunkModel<FloatBits>) -> Option<EncodeError> {
        <TrackChunk<FloatBits>>::encode_error(m)
    }

    fn parse_versioned<'a>(version: Option<u32>, input: &'a [u8]) -> (r: Parser<'a, Kftc>) {
        let (input, chunk) = <TrackChunk<FloatBits>>::parse(input)?;
        Ok((input, Kftc(chunk)))
    }

    fn encode(&self, output: &mut Vec<u8>) -> (r: Result<(), EncodeError>) {
        self.0.encode(output)
    }
}

impl Lossless for Kftc {
    open spec fn faithful(m: TrackChunkModel<FloatBits>) -> bool {
        <TrackChunk<FloatBits>>::faithful(m)
    }

    proof fn lemma_parse_wire(version: Option<u32>, input: Seq<u8>) {
        <TrackChunk<FloatBits>>::lemma_parse_wire(None, input);
    }
}

impl Reparsable for Kftc {
    open spec fn well_formed(m: TrackChunkModel<FloatBits>, version: Option<u32>) -> bool {
        <TrackChunk<FloatBits>>::well_formed(m, None) && m.tag == Self::spec_tag()
    }

    proof fn lemma_wire_parse(m: TrackChunkModel<FloatBits>, version: Option<u32>, tail: Seq<u8>) {
        <TrackChunk<FloatBits>>::lemma_wire_parse(m, None, tail);
    }
}

impl TaggedBlock for Kftc {
    proof fn lemma_wire_tag(m: TrackChunkModel<FloatBits>) {
        lemma_tag_bytes(m.tag, m.tag.0@);
        assert(<TrackChunk<FloatBits>>::wire(m).take(4) =~= m.tag.0@);
    }
}

} // verus!
