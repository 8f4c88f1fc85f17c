use crate::encoder::error::Error as EncodeError;
use crate::encoder::primitives::{push_le_u32, spec_u32_to_le_bytes};
use crate::parser::error::MdxParseError;
use crate::parser::primitives::{le_u32, spec_le_u32, Parsed, Parser};
use crate::types::chunk::{
    encode_error_slots, encode_slots, lemma_contains_front, lemma_tagged_parse_wire,
    lemma_tagged_wire_parse, order_of, opt_seq, parse_tagged, record_tag, refill_all,
    slots_faithful, spec_parse_tagged, wire_slots, BlockStep, Chunk, LosslessBlocks,
    OrderedSlots, Replay, ReparsableBlocks, TaggedBlock, TaggedBlocks,
};
use crate::types::chunk::utils::{lemma_tag_bytes, Tag};
use crate::types::materialize::{
    encode_error_inclusive_sized, encode_error_opt, encode_inclusive_sized, encode_opt,
    lemma_append_assoc, lemma_inclusive_parse_wire, lemma_inclusive_wire_parse, opt_faithful,
    opt_model, parse_inclusive_sized, spec_parse_inclusive_sized, wire_inclusive_sized,
    wire_opt, FloatBits, Lossless, LosslessBody, Materialized, Reparsable, ReparsableBody,
    SizedBody,
};
use crate::types::node::{Node, NodeModel};
use crate::types::tracks::{TrackChunk, TrackChunkModel};
use vstd::prelude::*;

verus! {

/// The kind of a light, stored as a `u32` code.
#[derive(Debug, Clone, Copy, PartialEq, PartialOrd, Eq, Ord, Hash, Structural)]
pub enum LightType {
    Omni,
    Directional,
    Ambient,
}

/// A code that is not the code of any [`LightType`].
#[derive(Debug, Clone, Copy, PartialEq, PartialOrd, Eq, Ord, Hash, Structural)]
pub struct UnknownLightType(pub u32);

impl LightType {
    /// The value that a code stands for.
    pub open spec fn spec_from_code(v: u32) -> Result<LightType, UnknownLightType> {
        if v == 0 {
            Ok(LightType::Omni)
        }         else if v == 1 {
            Ok(LightType::Directional)
        }         else if v == 2 {
            Ok(LightType::Ambient)
        } else {
            Err(UnknownLightType(v))
        }
    }

    /// The code that stands for the value.
    pub open spec fn spec_code(self) -> u32 {
        match self {
            LightType::Omni => 0,
            LightType::Directional => 1,
            LightType::Ambient => 2,
        }
    }
}

impl LightType {
    /// The value that a code stands for, or the code itself if it stands for
    /// none.
    pub fn try_from(value: u32) -> (r: Result<LightType, UnknownLightType>)
        ensures
            r == LightType::spec_from_code(value),
    {
        match value {
            0 => Ok(LightType::Omni),
            1 => Ok(LightType::Directional),
            2 => Ok(LightType::Ambient),
            _ => Err(UnknownLightType(value)),
        }
    }

    /// The code that stands for the value.
    pub fn code(self) -> (r: u32)
        ensures
            r == self.spec_code(),
    {
        match self {
            LightType::Omni => 0,
            LightType::Directional => 1,
            LightType::Ambient => 2,
        }
    }
}

impl Materialized for LightType {
    type Version = u32;

    type Model = LightType;

    open spec fn model(&self) -> LightType {
        *self
    }

    open spec fn spec_parse(version: Option<u32>, input: Seq<u8>) -> Parsed<LightType> {
        match spec_le_u32(input) {
            Ok((rest, flag)) => match LightType::spec_from_code(flag) {
                Ok(value) => Ok((rest, value)),
                Err(e) => Err(MdxParseError::UnknownLightType(e)),
            },
            Err(e) => Err(e),
        }
    }

    open spec fn wire(m: LightType) -> Seq<u8> {
        spec_u32_to_le_bytes(m.spec_code())
    }

    open spec fn encode_error(m: LightType) -> Option<EncodeError> {
        None
    }

    fn parse_versioned<'a>(version: Option<u32>, input: &'a [u8]) -> (r: Parser<'a, LightType>) {
        let (input, flag) = le_u32(input)?;
        match LightType::try_from(flag) {
            Ok(value) => Ok((input, value)),
            Err(e) => Err(MdxParseError::UnknownLightType(e)),
        }
    }

    fn encode(&self, output: &mut Vec<u8>) -> (r: Result<(), EncodeError>) {
        let flag: u32 = self.code();
        push_le_u32(flag, output);
        Ok(())
    }
}

impl Lossless for LightType {
    open spec fn faithful(m: LightType) -> bool {
        true
    }

    proof fn lemma_parse_wire(version: Option<u32>, input: Seq<u8>) {
        u32::lemma_parse_wire(None, input);
    }
}

impl Reparsable for LightType {
    open spec fn well_formed(m: LightType, version: Option<u32>) -> bool {
        true
    }

    proof fn lemma_wire_parse(m: LightType, version: Option<u32>, tail: Seq<u8>) {
        u32::lemma_wire_parse(m.spec_code(), None, tail);
    }
}

/// A source of light.
#[derive(Debug, Clone, PartialEq)]
pub struct Light {
    pub node: Node,
    pub light_type: LightType,
    pub attenuation_start: FloatBits,
    pub attenuation_end: FloatBits,
    pub color: [FloatBits; 3],
    pub intensity: FloatBits,
    pub ambient_color: [FloatBits; 3],
    pub ambient_intensity: FloatBits,
    pub klas: Option<Klas>,
    pub klae: Option<Klae>,
    pub klac: Option<Klac>,
    pub klai: Option<Klai>,
    pub klbi: Option<Klbi>,
    pub klbc: Option<Klbc>,
    pub klav: Option<Klav>,
    /// The order in which the optional blocks were met while parsing; `None`
    /// in a value that was not parsed, which is encoded in the order of the
    /// fields.
    pub ordered: Option<Vec<Tag>>,
}

/// What a value of [`Light`] stands for in specifications.
pub struct LightModel {
    pub node: NodeModel,
    pub light_type: LightType,
    pub attenuation_start: FloatBits,
    pub attenuation_end: FloatBits,
    pub color: Seq<FloatBits>,
    pub intensity: FloatBits,
    pub ambient_color: Seq<FloatBits>,
    pub ambient_intensity: FloatBits,
    pub klas: Option<TrackChunkModel<FloatBits>>,
    pub klae: Option<TrackChunkModel<FloatBits>>,
    pub klac: Option<TrackChunkModel<Seq<FloatBits>>>,
    pub klai: Option<TrackChunkModel<FloatBits>>,
    pub klbi: Option<TrackChunkModel<FloatBits>>,
    pub klbc: Option<TrackChunkModel<Seq<FloatBits>>>,
    pub klav: Option<TrackChunkModel<FloatBits>>,
    pub ordered: Option<Seq<Tag>>,
}

impl OrderedSlots for LightModel {
    open spec fn canonical() -> Seq<Tag> {
        seq![Klas::spec_tag(), Klae::spec_tag(), Klac::spec_tag(), Klai::spec_tag(), Klbi::spec_tag(), Klbc::spec_tag(), Klav::spec_tag()]
    }

    open spec fn recorded(self) -> bool {
        self.ordered is Some
    }

    open spec fn order(self) -> Seq<Tag> {
        order_of(self.ordered)
    }

    open spec fn slot_wire(self, tag: Tag) -> Seq<u8> {
        if tag == Klas::spec_tag() {
            wire_opt::<Klas>(self.klas)
        } else if tag == Klae::spec_tag() {
            wire_opt::<Klae>(self.klae)
        } else if tag == Klac::spec_tag() {
            wire_opt::<Klac>(self.klac)
        } else if tag == Klai::spec_tag() {
            wire_opt::<Klai>(self.klai)
        } else if tag == Klbi::spec_tag() {
            wire_opt::<Klbi>(self.klbi)
        } else if tag == Klbc::spec_tag() {
            wire_opt::<Klbc>(self.klbc)
        } else if tag == Klav::spec_tag() {
            wire_opt::<Klav>(self.klav)
        } else {
            Seq::empty()
        }
    }

    open spec fn slot_error(self, tag: Tag) -> Option<EncodeError> {
        if tag == Klas::spec_tag() {
            encode_error_opt::<Klas>(self.klas)
        } else if tag == Klae::spec_tag() {
            encode_error_opt::<Klae>(self.klae)
        } else if tag == Klac::spec_tag() {
            encode_error_opt::<Klac>(self.klac)
        } else if tag == Klai::spec_tag() {
            encode_error_opt::<Klai>(self.klai)
        } else if tag == Klbi::spec_tag() {
            encode_error_opt::<Klbi>(self.klbi)
        } else if tag == Klbc::spec_tag() {
            encode_error_opt::<Klbc>(self.klbc)
        } else if tag == Klav::spec_tag() {
            encode_error_opt::<Klav>(self.klav)
        } else {
            None
        }
    }

    open spec fn slot_faithful(self, tag: Tag) -> bool {
        if tag == Klas::spec_tag() {
            opt_faithful::<Klas>(self.klas)
        } else if tag == Klae::spec_tag() {
            opt_faithful::<Klae>(self.klae)
        } else if tag == Klac::spec_tag() {
            opt_faithful::<Klac>(self.klac)
        } else if tag == Klai::spec_tag() {
            opt_faithful::<Klai>(self.klai)
        } else if tag == Klbi::spec_tag() {
            opt_faithful::<Klbi>(self.klbi)
        } else if tag == Klbc::spec_tag() {
            opt_faithful::<Klbc>(self.klbc)
        } else if tag == Klav::spec_tag() {
            opt_faithful::<Klav>(self.klav)
        } else {
            true
        }
    }

    open spec fn frame(self) -> LightModel {
        LightModel {
            node: self.node,
            light_type: self.light_type,
            attenuation_start: self.attenuation_start,
            attenuation_end: self.attenuation_end,
            color: self.color,
            intensity: self.intensity,
            ambient_color: self.ambient_color,
            ambient_intensity: self.ambient_intensity,
            klas: None,
            klae: None,
            klac: None,
            klai: None,
            klbi: None,
            klbc: None,
            klav: None,
            ordered: None,
        }
    }
}

impl Replay for Light {
    type Model = LightModel;

    open spec fn slots_model(&self) -> LightModel {
        LightModel {
            node: self.node.model(),
            light_type: self.light_type.model(),
            attenuation_start: self.attenuation_start.model(),
            attenuation_end: self.attenuation_end.model(),
            color: self.color.model(),
            intensity: self.intensity.model(),
            ambient_color: self.ambient_color.model(),
            ambient_intensity: self.ambient_intensity.model(),
            klas: opt_model(self.klas),
            klae: opt_model(self.klae),
            klac: opt_model(self.klac),
            klai: opt_model(self.klai),
            klbi: opt_model(self.klbi),
            klbc: opt_model(self.klbc),
            klav: opt_model(self.klav),
            ordered: opt_seq(self.ordered),
        }
    }

    fn encode_slot(&self, tag: Tag, output: &mut Vec<u8>) -> (r: Result<(), EncodeError>) {
        if tag.same_as(&Klas::tag()) {
            assert(self.slots_model().slot_error(tag) == encode_error_opt::<Klas>(
                opt_model(self.klas),
            ));
            assert(self.slots_model().slot_wire(tag) == wire_opt::<Klas>(opt_model(self.klas)));
            encode_opt(&self.klas, output)
        } else if tag.same_as(&Klae::tag()) {
            assert(self.slots_model().slot_error(tag) == encode_error_opt::<Klae>(
                opt_model(self.klae),
            ));
            assert(self.slots_model().slot_wire(tag) == wire_opt::<Klae>(opt_model(self.klae)));
            encode_opt(&self.klae, output)
        } else if tag.same_as(&Klac::tag()) {
            assert(self.slots_model().slot_error(tag) == encode_error_opt::<Klac>(
                opt_model(self.klac),
            ));
            assert(self.slots_model().slot_wire(tag) == wire_opt::<Klac>(opt_model(self.klac)));
            encode_opt(&self.klac, output)
        } else if tag.same_as(&Klai::tag()) {
            assert(self.slots_model().slot_error(tag) == encode_error_opt::<Klai>(
                opt_model(self.klai),
            ));
            assert(self.slots_model().slot_wire(tag) == wire_opt::<Klai>(opt_model(self.klai)));
            encode_opt(&self.klai, output)
        } else if tag.same_as(&Klbi::tag()) {
            assert(self.slots_model().slot_error(tag) == encode_error_opt::<Klbi>(
                opt_model(self.klbi),
            ));
            assert(self.slots_model().slot_wire(tag) == wire_opt::<Klbi>(opt_model(self.klbi)));
            encode_opt(&self.klbi, output)
        } else if tag.same_as(&Klbc::tag()) {
            assert(self.slots_model().slot_error(tag) == encode_error_opt::<Klbc>(
                opt_model(self.klbc),
            ));
            assert(self.slots_model().slot_wire(tag) == wire_opt::<Klbc>(opt_model(self.klbc)));
            encode_opt(&self.klbc, output)
        } else if tag.same_as(&Klav::tag()) {
            assert(self.slots_model().slot_error(tag) == encode_error_opt::<Klav>(
                opt_model(self.klav),
            ));
            assert(self.slots_model().slot_wire(tag) == wire_opt::<Klav>(opt_model(self.klav)));
            encode_opt(&self.klav, output)
        } else {
            assert(self.slots_model().slot_error(tag) is None);
            assert(output@ =~= old(output)@ + self.slots_model().slot_wire(tag));
            Ok(())
        }
    }
}

impl TaggedBlocks for Light {
    open spec fn spec_block(m: LightModel, tag: Tag, input: Seq<u8>) -> BlockStep<LightModel> {
        if tag == Klas::spec_tag() {
            match Klas::spec_parse(None, input) {
                Ok((rest, block)) => BlockStep::Parsed(
                    rest,
                    LightModel {
                        node: m.node,
                        light_type: m.light_type,
                        attenuation_start: m.attenuation_start,
                        attenuation_end: m.attenuation_end,
                        color: m.color,
                        intensity: m.intensity,
                        ambient_color: m.ambient_color,
                        ambient_intensity: m.ambient_intensity,
                        klas: Some(block),
                        klae: m.klae,
                        klac: m.klac,
                        klai: m.klai,
                        klbi: m.klbi,
                        klbc: m.klbc,
                        klav: m.klav,
                        ordered: Some(m.order().push(tag)),
                    },
                ),
                Err(e) => BlockStep::Failed(e),
            }
        } else if tag == Klae::spec_tag() {
            match Klae::spec_parse(None, input) {
                Ok((rest, block)) => BlockStep::Parsed(
                    rest,
                    LightModel {
                        node: m.node,
                        light_type: m.light_type,
                        attenuation_start: m.attenuation_start,
                        attenuation_end: m.attenuation_end,
                        color: m.color,
                        intensity: m.intensity,
                        ambient_color: m.ambient_color,
                        ambient_intensity: m.ambient_intensity,
                        klas: m.klas,
                        klae: Some(block),
                        klac: m.klac,
                        klai: m.klai,
                        klbi: m.klbi,
                        klbc: m.klbc,
                        klav: m.klav,
                        ordered: Some(m.order().push(tag)),
                    },
                ),
                Err(e) => BlockStep::Failed(e),
            }
        } else if tag == Klac::spec_tag() {
            match Klac::spec_parse(None, input) {
                Ok((rest, block)) => BlockStep::Parsed(
                    rest,
                    LightModel {
                        node: m.node,
                        light_type: m.light_type,
                        attenuation_start: m.attenuation_start,
                        attenuation_end: m.attenuation_end,
                        color: m.color,
                        intensity: m.intensity,
                        ambient_color: m.ambient_color,
                        ambient_intensity: m.ambient_intensity,
                        klas: m.klas,
                        klae: m.klae,
                        klac: Some(block),
                        klai: m.klai,
                        klbi: m.klbi,
                        klbc: m.klbc,
                        klav: m.klav,
                        ordered: Some(m.order().push(tag)),
                    },
                ),
                Err(e) => BlockStep::Failed(e),
            }
        } else if tag == Klai::spec_tag() {
            match Klai::spec_parse(None, input) {
                Ok((rest, block)) => BlockStep::Parsed(
                    rest,
                    LightModel {
                        node: m.node,
                        light_type: m.light_type,
                        attenuation_start: m.attenuation_start,
                        attenuation_end: m.attenuation_end,
                        color: m.color,
                        intensity: m.intensity,
                        ambient_color: m.ambient_color,
                        ambient_intensity: m.ambient_intensity,
                        klas: m.klas,
                        klae: m.klae,
                        klac: m.klac,
                        klai: Some(block),
                        klbi: m.klbi,
                        klbc: m.klbc,
                        klav: m.klav,
                        ordered: Some(m.order().push(tag)),
                    },
                ),
                Err(e) => BlockStep::Failed(e),
            }
        } else if tag == Klbi::spec_tag() {
            match Klbi::spec_parse(None, input) {
                Ok((rest, block)) => BlockStep::Parsed(
                    rest,
                    LightModel {
                        node: m.node,
                        light_type: m.light_type,
                        attenuation_start: m.attenuation_start,
                        attenuation_end: m.attenuation_end,
                        color: m.color,
                        intensity: m.intensity,
                        ambient_color: m.ambient_color,
                        ambient_intensity: m.ambient_intensity,
                        klas: m.klas,
                        klae: m.klae,
                        klac: m.klac,
                        klai: m.klai,
                        klbi: Some(block),
                        klbc: m.klbc,
                        klav: m.klav,
                        ordered: Some(m.order().push(tag)),
                    },
                ),
                Err(e) => BlockStep::Failed(e),
            }
        } else if tag == Klbc::spec_tag() {
            match Klbc::spec_parse(None, input) {
                Ok((rest, block)) => BlockStep::Parsed(
                    rest,
                    LightModel {
                        node: m.node,
                        light_type: m.light_type,
                        attenuation_start: m.attenuation_start,
                        attenuation_end: m.attenuation_end,
                        color: m.color,
                        intensity: m.intensity,
                        ambient_color: m.ambient_color,
                        ambient_intensity: m.ambient_intensity,
                        klas: m.klas,
                        klae: m.klae,
                        klac: m.klac,
                        klai: m.klai,
                        klbi: m.klbi,
                        klbc: Some(block),
                        klav: m.klav,
                        ordered: Some(m.order().push(tag)),
                    },
                ),
                Err(e) => BlockStep::Failed(e),
            }
        } else if tag == Klav::spec_tag() {
            match Klav::spec_parse(None, input) {
                Ok((rest, block)) => BlockStep::Parsed(
                    rest,
                    LightModel {
                        node: m.node,
                        light_type: m.light_type,
                        attenuation_start: m.attenuation_start,
                        attenuation_end: m.attenuation_end,
                        color: m.color,
                        intensity: m.intensity,
                        ambient_color: m.ambient_color,
                        ambient_intensity: m.ambient_intensity,
                        klas: m.klas,
                        klae: m.klae,
                        klac: m.klac,
                        klai: m.klai,
                        klbi: m.klbi,
                        klbc: m.klbc,
                        klav: Some(block),
                        ordered: Some(m.order().push(tag)),
                    },
                ),
                Err(e) => BlockStep::Failed(e),
            }
        } else {
            BlockStep::Failed(MdxParseError::UnknownTag(tag))
        }
    }

    fn parse_block<'a>(&mut self, tag: Tag, input: &'a [u8]) -> (r: Parser<'a, bool>) {
        if tag.same_as(&Klas::tag()) {
            let (rest, block) = Klas::parse(input)?;
            self.klas = Some(block);
            record_tag(&mut self.ordered, tag);
            Ok((rest, false))
        } else if tag.same_as(&Klae::tag()) {
            let (rest, block) = Klae::parse(input)?;
            self.klae = Some(block);
            record_tag(&mut self.ordered, tag);
            Ok((rest, false))
        } else if tag.same_as(&Klac::tag()) {
            let (rest, block) = Klac::parse(input)?;
            self.klac = Some(block);
            record_tag(&mut self.ordered, tag);
            Ok((rest, false))
        } else if tag.same_as(&Klai::tag()) {
            let (rest, block) = Klai::parse(input)?;
            self.klai = Some(block);
            record_tag(&mut self.ordered, tag);
            Ok((rest, false))
        } else if tag.same_as(&Klbi::tag()) {
            let (rest, block) = Klbi::parse(input)?;
            self.klbi = Some(block);
            record_tag(&mut self.ordered, tag);
            Ok((rest, false))
        } else if tag.same_as(&Klbc::tag()) {
            let (rest, block) = Klbc::parse(input)?;
            self.klbc = Some(block);
            record_tag(&mut self.ordered, tag);
            Ok((rest, false))
        } else if tag.same_as(&Klav::tag()) {
            let (rest, block) = Klav::parse(input)?;
            self.klav = Some(block);
            record_tag(&mut self.ordered, tag);
            Ok((rest, false))
        } else {
            Err(MdxParseError::UnknownTag(tag))
        }
    }
}

impl LosslessBlocks for Light {
    proof fn lemma_block_step(m: LightModel, tag: Tag, input: Seq<u8>) {
        if tag == Klas::spec_tag() {
            Klas::lemma_parse_wire(None, input);
        } else if tag == Klae::spec_tag() {
            Klae::lemma_parse_wire(None, input);
        } else if tag == Klac::spec_tag() {
            Klac::lemma_parse_wire(None, input);
        } else if tag == Klai::spec_tag() {
            Klai::lemma_parse_wire(None, input);
        } else if tag == Klbi::spec_tag() {
            Klbi::lemma_parse_wire(None, input);
        } else if tag == Klbc::spec_tag() {
            Klbc::lemma_parse_wire(None, input);
        } else if tag == Klav::spec_tag() {
            Klav::lemma_parse_wire(None, input);
        }
    }
}

impl SizedBody for Light {
    type Model = LightModel;

    open spec fn body_model(&self) -> LightModel {
        self.slots_model()
    }

    open spec fn spec_parse_body(version: Option<u32>, input: Seq<u8>) -> Parsed<LightModel> {
        match Node::spec_parse(None, input) {
            Ok((rest, node)) => match LightType::spec_parse(None, rest) {
                Ok((rest, light_type)) => match FloatBits::spec_parse(None, rest) {
                    Ok((rest, attenuation_start)) => match FloatBits::spec_parse(None, rest) {
                        Ok((rest, attenuation_end)) => match <[FloatBits; 3]>::spec_parse(None, rest) {
                            Ok((rest, color)) => match FloatBits::spec_parse(None, rest) {
                                Ok((rest, intensity)) => match <[FloatBits; 3]>::spec_parse(None, rest) {
                                    Ok((rest, ambient_color)) => match FloatBits::spec_parse(None, rest) {
                                        Ok((rest, ambient_intensity)) => match spec_parse_tagged::<Light>(
                                            LightModel {
                                                node,
                                                light_type,
                                                attenuation_start,
                                                attenuation_end,
                                                color,
                                                intensity,
                                                ambient_color,
                                                ambient_intensity,
                                                klas: None,
                                                klae: None,
                                                klac: None,
                                                klai: None,
                                                klbi: None,
                                                klbc: None,
                                                klav: None,
                                                ordered: Some(Seq::empty()),
                                            },
                                            rest,
                                        ) {
                                            Ok((rest, scanned)) => Ok((rest, scanned)),
                                            Err(e) => Err(e),
                                        },
                                        Err(e) => Err(e),
                                    },
                                    Err(e) => Err(e),
                                },
                                Err(e) => Err(e),
                            },
                            Err(e) => Err(e),
                        },
                        Err(e) => Err(e),
                    },
                    Err(e) => Err(e),
                },
                Err(e) => Err(e),
            },
            Err(e) => Err(e),
        }
    }

    open spec fn body_wire(m: LightModel) -> Seq<u8> {
        Node::wire(m.node) + (LightType::wire(m.light_type) + (FloatBits::wire(m.attenuation_start) + (FloatBits::wire(m.attenuation_end) + (<[FloatBits; 3]>::wire(m.color) + (FloatBits::wire(m.intensity) + (<[FloatBits; 3]>::wire(m.ambient_color) + (FloatBits::wire(m.ambient_intensity) + (wire_slots(m)))))))))
    }

    open spec fn body_encode_error(m: LightModel) -> Option<EncodeError> {
        match Node::encode_error(m.node) {
            Some(e) => Some(e),
            None => match LightType::encode_error(m.light_type) {
                Some(e) => Some(e),
                None => match FloatBits::encode_error(m.attenuation_start) {
                    Some(e) => Some(e),
                    None => match FloatBits::encode_error(m.attenuation_end) {
                        Some(e) => Some(e),
                        None => match <[FloatBits; 3]>::encode_error(m.color) {
                            Some(e) => Some(e),
                            None => match FloatBits::encode_error(m.intensity) {
                                Some(e) => Some(e),
                                None => match <[FloatBits; 3]>::encode_error(m.ambient_color) {
                                    Some(e) => Some(e),
                                    None => match FloatBits::encode_error(m.ambient_intensity) {
                                        Some(e) => Some(e),
                                        None => encode_error_slots(m),
                                    },
                                },
                            },
                        },
                    },
                },
            },
        }
    }

    fn parse_body<'a>(version: Option<u32>, input: &'a [u8]) -> (r: Parser<'a, Light>) {
        let (input, node) = Node::parse(input)?;
        let (input, light_type) = LightType::parse(input)?;
        let (input, attenuation_start) = FloatBits::parse(input)?;
        let (input, attenuation_end) = FloatBits::parse(input)?;
        let (input, color) = <[FloatBits; 3]>::parse(input)?;
        let (input, intensity) = FloatBits::parse(input)?;
        let (input, ambient_color) = <[FloatBits; 3]>::parse(input)?;
        let (input, ambient_intensity) = FloatBits::parse(input)?;
        let mut value = Light {
            node,
            light_type,
            attenuation_start,
            attenuation_end,
            color,
            intensity,
            ambient_color,
            ambient_intensity,
            klas: None,
            klae: None,
            klac: None,
            klai: None,
            klbi: None,
            klbc: None,
            klav: None,
            ordered: Some(Vec::new()),
        };
        let (input, _) = parse_tagged(&mut value, input)?;
        Ok((input, value))
    }

    fn encode_body(&self, output: &mut Vec<u8>) -> (r: Result<(), EncodeError>) {
        let ghost p0 = output@;
        self.node.encode(output)?;
        let ghost p1 = output@;
        self.light_type.encode(output)?;
        let ghost p2 = output@;
        self.attenuation_start.encode(output)?;
        let ghost p3 = output@;
        self.attenuation_end.encode(output)?;
        let ghost p4 = output@;
        self.color.encode(output)?;
        let ghost p5 = output@;
        self.intensity.encode(output)?;
        let ghost p6 = output@;
        self.ambient_color.encode(output)?;
        let ghost p7 = output@;
        self.ambient_intensity.encode(output)?;
        let ghost p8 = output@;
        let canonical = [Klas::tag(), Klae::tag(), Klac::tag(), Klai::tag(), Klbi::tag(), Klbc::tag(), Klav::tag()];
        assert(canonical@ =~= LightModel::canonical());
        encode_slots(self, &self.ordered, canonical.as_slice(), output)?;
        proof {
            let m = self.body_model();
            let w1 = Node::wire(m.node);
            let w2 = LightType::wire(m.light_type);
            let w3 = FloatBits::wire(m.attenuation_start);
            let w4 = FloatBits::wire(m.attenuation_end);
            let w5 = <[FloatBits; 3]>::wire(m.color);
            let w6 = FloatBits::wire(m.intensity);
            let w7 = <[FloatBits; 3]>::wire(m.ambient_color);
            let w8 = FloatBits::wire(m.ambient_intensity);
            let w9 = wire_slots(m);
            let s8 = w8 + w9;
            let s7 = w7 + s8;
            let s6 = w6 + s7;
            let s5 = w5 + s6;
            let s4 = w4 + s5;
            let s3 = w3 + s4;
            let s2 = w2 + s3;
            lemma_append_assoc(p7, w8, w9);
            lemma_append_assoc(p6, w7, s8);
            lemma_append_assoc(p5, w6, s7);
            lemma_append_assoc(p4, w5, s6);
            lemma_append_assoc(p3, w4, s5);
            lemma_append_assoc(p2, w3, s4);
            lemma_append_assoc(p1, w2, s3);
            lemma_append_assoc(p0, w1, s2);
        }
        Ok(())
    }
}

impl LosslessBody for Light {
    open spec fn body_faithful(m: LightModel) -> bool {
        Node::faithful(m.node) && LightType::faithful(m.light_type) && FloatBits::faithful(m.attenuation_start) && FloatBits::faithful(m.attenuation_end) && <[FloatBits; 3]>::faithful(m.color) && FloatBits::faithful(m.intensity) && <[FloatBits; 3]>::faithful(m.ambient_color) && FloatBits::faithful(m.ambient_intensity) && m.order().no_duplicates() && slots_faithful(m, m.order())
    }

    #[verifier::rlimit(50)]
    proof fn lemma_body_parse_wire(version: Option<u32>, input: Seq<u8>) {
        Node::lemma_parse_wire(None, input);
        match Node::spec_parse(None, input) {
            Ok((rest1, node)) => {
                assert(Node::faithful(node) ==> Node::encode_error(node) is None
                    && Node::wire(node) + rest1 == input);
                LightType::lemma_parse_wire(None, rest1);
                match LightType::spec_parse(None, rest1) {
                    Ok((rest2, light_type)) => {
                        assert(LightType::faithful(light_type) ==> LightType::encode_error(light_type) is None
                            && LightType::wire(light_type) + rest2 == rest1);
                        FloatBits::lemma_parse_wire(None, rest2);
                        match FloatBits::spec_parse(None, rest2) {
                            Ok((rest3, attenuation_start)) => {
                                assert(FloatBits::faithful(attenuation_start) ==> FloatBits::encode_error(attenuation_start) is None
                                    && FloatBits::wire(attenuation_start) + rest3 == rest2);
                                FloatBits::lemma_parse_wire(None, rest3);
                                match FloatBits::spec_parse(None, rest3) {
                                    Ok((rest4, attenuation_end)) => {
                                        assert(FloatBits::faithful(attenuation_end) ==> FloatBits::encode_error(attenuation_end) is None
                                            && FloatBits::wire(attenuation_end) + rest4 == rest3);
                                        <[FloatBits; 3]>::lemma_parse_wire(None, rest4);
                                        match <[FloatBits; 3]>::spec_parse(None, rest4) {
                                            Ok((rest5, color)) => {
                                                assert(<[FloatBits; 3]>::faithful(color) ==> <[FloatBits; 3]>::encode_error(color) is None
                                                    && <[FloatBits; 3]>::wire(color) + rest5 == rest4);
                                                FloatBits::lemma_parse_wire(None, rest5);
                                                match FloatBits::spec_parse(None, rest5) {
                                                    Ok((rest6, intensity)) => {
                                                        assert(FloatBits::faithful(intensity) ==> FloatBits::encode_error(intensity) is None
                                                            && FloatBits::wire(intensity) + rest6 == rest5);
                                                        <[FloatBits; 3]>::lemma_parse_wire(None, rest6);
                                                        match <[FloatBits; 3]>::spec_parse(None, rest6) {
                                                            Ok((rest7, ambient_color)) => {
                                                                assert(<[FloatBits; 3]>::faithful(ambient_color) ==> <[FloatBits; 3]>::encode_error(ambient_color) is None
                                                                    && <[FloatBits; 3]>::wire(ambient_color) + rest7 == rest6);
                                                                FloatBits::lemma_parse_wire(None, rest7);
                                                                match FloatBits::spec_parse(None, rest7) {
                                                                    Ok((rest8, ambient_intensity)) => {
                                                                        assert(FloatBits::faithful(ambient_intensity) ==> FloatBits::encode_error(ambient_intensity) is None
                                                                            && FloatBits::wire(ambient_intensity) + rest8 == rest7);
                                                                        lemma_tagged_parse_wire::<Light>(
                                                                            LightModel {
                                                                                node,
                                                                                light_type,
                                                                                attenuation_start,
                                                                                attenuation_end,
                                                                                color,
                                                                                intensity,
                                                                                ambient_color,
                                                                                ambient_intensity,
                                                                                klas: None,
                                                                                klae: None,
                                                                                klac: None,
                                                                                klai: None,
                                                                                klbi: None,
                                                                                klbc: None,
                                                                                klav: None,
                                                                                ordered: Some(Seq::empty()),
                                                                            },
                                                                            rest8,
                                                                        );
                                                                        match spec_parse_tagged::<Light>(
                                                                            LightModel {
                                                                                node,
                                                                                light_type,
                                                                                attenuation_start,
                                                                                attenuation_end,
                                                                                color,
                                                                                intensity,
                                                                                ambient_color,
                                                                                ambient_intensity,
                                                                                klas: None,
                                                                                klae: None,
                                                                                klac: None,
                                                                                klai: None,
                                                                                klbi: None,
                                                                                klbc: None,
                                                                                klav: None,
                                                                                ordered: Some(Seq::empty()),
                                                                            },
                                                                            rest8,
                                                                        ) {
                                                                            Ok((rest9, scanned)) => {
                                                                                let m = scanned;
                                                                                if Self::body_faithful(m) {
                                                                                    assert(scanned.order().skip(0) =~= scanned.order());
                                                                                    let w1 = Node::wire(m.node);
                                                                                    let w2 = LightType::wire(m.light_type);
                                                                                    let w3 = FloatBits::wire(m.attenuation_start);
                                                                                    let w4 = FloatBits::wire(m.attenuation_end);
                                                                                    let w5 = <[FloatBits; 3]>::wire(m.color);
                                                                                    let w6 = FloatBits::wire(m.intensity);
                                                                                    let w7 = <[FloatBits; 3]>::wire(m.ambient_color);
                                                                                    let w8 = FloatBits::wire(m.ambient_intensity);
                                                                                    let w9 = wire_slots(m);
                                                                                    let s8 = w8 + w9;
                                                                                    let s7 = w7 + s8;
                                                                                    let s6 = w6 + s7;
                                                                                    let s5 = w5 + s6;
                                                                                    let s4 = w4 + s5;
                                                                                    let s3 = w3 + s4;
                                                                                    let s2 = w2 + s3;
                                                                                    lemma_append_assoc(w8, w9, rest9);
                                                                                    lemma_append_assoc(w7, s8, rest9);
                                                                                    lemma_append_assoc(w6, s7, rest9);
                                                                                    lemma_append_assoc(w5, s6, rest9);
                                                                                    lemma_append_assoc(w4, s5, rest9);
                                                                                    lemma_append_assoc(w3, s4, rest9);
                                                                                    lemma_append_assoc(w2, s3, rest9);
                                                                                    lemma_append_assoc(w1, s2, rest9);
                                                                                }
                                                                            },
                                                                            Err(_) => {},
                                                                        }
                                                                    },
                                                                    Err(_) => {},
                                                                }
                                                            },
                                                            Err(_) => {},
                                                        }
                                                    },
                                                    Err(_) => {},
                                                }
                                            },
                                            Err(_) => {},
                                        }
                                    },
                                    Err(_) => {},
                                }
                            },
                            Err(_) => {},
                        }
                    },
                    Err(_) => {},
                }
            },
            Err(_) => {},
        }
    }
}

impl Materialized for Light {
    type Version = u32;

    type Model = LightModel;

    open spec fn model(&self) -> LightModel {
        self.body_model()
    }

    open spec fn spec_parse(version: Option<u32>, input: Seq<u8>) -> Parsed<LightModel> {
        spec_parse_inclusive_sized::<Light>(version, input)
    }

    open spec fn wire(m: LightModel) -> Seq<u8> {
        wire_inclusive_sized::<Light>(m)
    }

    open spec fn encode_error(m: LightModel) -> Option<EncodeError> {
        encode_error_inclusive_sized::<Light>(m)
    }

    fn parse_versioned<'a>(version: Option<u32>, input: &'a [u8]) -> (r: Parser<'a, Light>) {
        parse_inclusive_sized::<Light>(version, input)
    }

    /// The record is encoded aside and then written with its size: if it
    /// fails, the output is left as it is.
    fn encode(&self, output: &mut Vec<u8>) -> (r: Result<(), EncodeError>)
        ensures
            r is Err ==> final(output)@ == old(output)@,
    {
        encode_inclusive_sized(output, self)
    }
}

impl Lossless for Light {
    open spec fn faithful(m: LightModel) -> bool {
        Light::body_faithful(m)
    }

    proof fn lemma_parse_wire(version: Option<u32>, input: Seq<u8>) {
        lemma_inclusive_parse_wire::<Light>(version, input);
    }
}

/// The tags of the blocks of [`Light`] differ from each other.
proof fn lemma_light_tags_differ()
    ensures
        Klas::spec_tag() != Klae::spec_tag(),
        Klas::spec_tag() != Klac::spec_tag(),
        Klas::spec_tag() != Klai::spec_tag(),
        Klas::spec_tag() != Klbi::spec_tag(),
        Klas::spec_tag() != Klbc::spec_tag(),
        Klas::spec_tag() != Klav::spec_tag(),
        Klae::spec_tag() != Klac::spec_tag(),
        Klae::spec_tag() != Klai::spec_tag(),
        Klae::spec_tag() != Klbi::spec_tag(),
        Klae::spec_tag() != Klbc::spec_tag(),
        Klae::spec_tag() != Klav::spec_tag(),
        Klac::spec_tag() != Klai::spec_tag(),
        Klac::spec_tag() != Klbi::spec_tag(),
        Klac::spec_tag() != Klbc::spec_tag(),
        Klac::spec_tag() != Klav::spec_tag(),
        Klai::spec_tag() != Klbi::spec_tag(),
        Klai::spec_tag() != Klbc::spec_tag(),
        Klai::spec_tag() != Klav::spec_tag(),
        Klbi::spec_tag() != Klbc::spec_tag(),
        Klbi::spec_tag() != Klav::spec_tag(),
        Klbc::spec_tag() != Klav::spec_tag(),
{
    assert(Klas::spec_tag().0[3] != Klae::spec_tag().0[3]);
    assert(Klas::spec_tag().0[3] != Klac::spec_tag().0[3]);
    assert(Klas::spec_tag().0[3] != Klai::spec_tag().0[3]);
    assert(Klas::spec_tag().0[2] != Klbi::spec_tag().0[2]);
    assert(Klas::spec_tag().0[2] != Klbc::spec_tag().0[2]);
    assert(Klas::spec_tag().0[3] != Klav::spec_tag().0[3]);
    assert(Klae::spec_tag().0[3] != Klac::spec_tag().0[3]);
    assert(Klae::spec_tag().0[3] != Klai::spec_tag().0[3]);
    assert(Klae::spec_tag().0[2] != Klbi::spec_tag().0[2]);
    assert(Klae::spec_tag().0[2] != Klbc::spec_tag().0[2]);
    assert(Klae::spec_tag().0[3] != Klav::spec_tag().0[3]);
    assert(Klac::spec_tag().0[3] != Klai::spec_tag().0[3]);
    assert(Klac::spec_tag().0[2] != Klbi::spec_tag().0[2]);
    assert(Klac::spec_tag().0[2] != Klbc::spec_tag().0[2]);
    assert(Klac::spec_tag().0[3] != Klav::spec_tag().0[3]);
    assert(Klai::spec_tag().0[2] != Klbi::spec_tag().0[2]);
    assert(Klai::spec_tag().0[2] != Klbc::spec_tag().0[2]);
    assert(Klai::spec_tag().0[3] != Klav::spec_tag().0[3]);
    assert(Klbi::spec_tag().0[3] != Klbc::spec_tag().0[3]);
    assert(Klbi::spec_tag().0[2] != Klav::spec_tag().0[2]);
    assert(Klbc::spec_tag().0[2] != Klav::spec_tag().0[2]);
}

impl ReparsableBlocks for Light {
    open spec fn slot_well_formed(m: LightModel, tag: Tag) -> bool {
        if tag == Klas::spec_tag() {
            m.klas is Some && Klas::well_formed(m.klas->0, None)
        } else if tag == Klae::spec_tag() {
            m.klae is Some && Klae::well_formed(m.klae->0, None)
        } else if tag == Klac::spec_tag() {
            m.klac is Some && Klac::well_formed(m.klac->0, None)
        } else if tag == Klai::spec_tag() {
            m.klai is Some && Klai::well_formed(m.klai->0, None)
        } else if tag == Klbi::spec_tag() {
            m.klbi is Some && Klbi::well_formed(m.klbi->0, None)
        } else if tag == Klbc::spec_tag() {
            m.klbc is Some && Klbc::well_formed(m.klbc->0, None)
        } else if tag == Klav::spec_tag() {
            m.klav is Some && Klav::well_formed(m.klav->0, None)
        } else {
            false
        }
    }

    open spec fn refill(acc: LightModel, m: LightModel, tag: Tag) -> LightModel {
        if tag == Klas::spec_tag() {
            LightModel {
                node: acc.node,
                light_type: acc.light_type,
                attenuation_start: acc.attenuation_start,
                attenuation_end: acc.attenuation_end,
                color: acc.color,
                intensity: acc.intensity,
                ambient_color: acc.ambient_color,
                ambient_intensity: acc.ambient_intensity,
                klas: m.klas,
                klae: acc.klae,
                klac: acc.klac,
                klai: acc.klai,
                klbi: acc.klbi,
                klbc: acc.klbc,
                klav: acc.klav,
                ordered: Some(acc.order().push(tag)),
            }
        } else if tag == Klae::spec_tag() {
            LightModel {
                node: acc.node,
                light_type: acc.light_type,
                attenuation_start: acc.attenuation_start,
                attenuation_end: acc.attenuation_end,
                color: acc.color,
                intensity: acc.intensity,
                ambient_color: acc.ambient_color,
                ambient_intensity: acc.ambient_intensity,
                klas: acc.klas,
                klae: m.klae,
                klac: acc.klac,
                klai: acc.klai,
                klbi: acc.klbi,
                klbc: acc.klbc,
                klav: acc.klav,
                ordered: Some(acc.order().push(tag)),
            }
        } else if tag == Klac::spec_tag() {
            LightModel {
                node: acc.node,
                light_type: acc.light_type,
                attenuation_start: acc.attenuation_start,
                attenuation_end: acc.attenuation_end,
                color: acc.color,
                intensity: acc.intensity,
                ambient_color: acc.ambient_color,
                ambient_intensity: acc.ambient_intensity,
                klas: acc.klas,
                klae: acc.klae,
                klac: m.klac,
                klai: acc.klai,
                klbi: acc.klbi,
                klbc: acc.klbc,
                klav: acc.klav,
                ordered: Some(acc.order().push(tag)),
            }
        } else if tag == Klai::spec_tag() {
            LightModel {
                node: acc.node,
                light_type: acc.light_type,
                attenuation_start: acc.attenuation_start,
                attenuation_end: acc.attenuation_end,
                color: acc.color,
                intensity: acc.intensity,
                ambient_color: acc.ambient_color,
                ambient_intensity: acc.ambient_intensity,
                klas: acc.klas,
                klae: acc.klae,
                klac: acc.klac,
                klai: m.klai,
                klbi: acc.klbi,
                klbc: acc.klbc,
                klav: acc.klav,
                ordered: Some(acc.order().push(tag)),
            }
        } else if tag == Klbi::spec_tag() {
            LightModel {
                node: acc.node,
                light_type: acc.light_type,
                attenuation_start: acc.attenuation_start,
                attenuation_end: acc.attenuation_end,
                color: acc.color,
                intensity: acc.intensity,
                ambient_color: acc.ambient_color,
                ambient_intensity: acc.ambient_intensity,
                klas: acc.klas,
                klae: acc.klae,
                klac: acc.klac,
                klai: acc.klai,
                klbi: m.klbi,
                klbc: acc.klbc,
                klav: acc.klav,
                ordered: Some(acc.order().push(tag)),
            }
        } else if tag == Klbc::spec_tag() {
            LightModel {
                node: acc.node,
                light_type: acc.light_type,
                attenuation_start: acc.attenuation_start,
                attenuation_end: acc.attenuation_end,
                color: acc.color,
                intensity: acc.intensity,
                ambient_color: acc.ambient_color,
                ambient_intensity: acc.ambient_intensity,
                klas: acc.klas,
                klae: acc.klae,
                klac: acc.klac,
                klai: acc.klai,
                klbi: acc.klbi,
                klbc: m.klbc,
                klav: acc.klav,
                ordered: Some(acc.order().push(tag)),
            }
        } else if tag == Klav::spec_tag() {
            LightModel {
                node: acc.node,
                light_type: acc.light_type,
                attenuation_start: acc.attenuation_start,
                attenuation_end: acc.attenuation_end,
                color: acc.color,
                intensity: acc.intensity,
                ambient_color: acc.ambient_color,
                ambient_intensity: acc.ambient_intensity,
                klas: acc.klas,
                klae: acc.klae,
                klac: acc.klac,
                klai: acc.klai,
                klbi: acc.klbi,
                klbc: acc.klbc,
                klav: m.klav,
                ordered: Some(acc.order().push(tag)),
            }
        } else {
            acc
        }
    }

    proof fn lemma_block_refill(acc: LightModel, m: LightModel, tag: Tag, tail: Seq<u8>) {
        if tag == Klas::spec_tag() {
            Klas::lemma_wire_tag(m.klas->0);
            Klas::lemma_wire_parse(m.klas->0, None, tail);
        } else if tag == Klae::spec_tag() {
            Klae::lemma_wire_tag(m.klae->0);
            Klae::lemma_wire_parse(m.klae->0, None, tail);
        } else if tag == Klac::spec_tag() {
            Klac::lemma_wire_tag(m.klac->0);
            Klac::lemma_wire_parse(m.klac->0, None, tail);
        } else if tag == Klai::spec_tag() {
            Klai::lemma_wire_tag(m.klai->0);
            Klai::lemma_wire_parse(m.klai->0, None, tail);
        } else if tag == Klbi::spec_tag() {
            Klbi::lemma_wire_tag(m.klbi->0);
            Klbi::lemma_wire_parse(m.klbi->0, None, tail);
        } else if tag == Klbc::spec_tag() {
            Klbc::lemma_wire_tag(m.klbc->0);
            Klbc::lemma_wire_parse(m.klbc->0, None, tail);
        } else if tag == Klav::spec_tag() {
            Klav::lemma_wire_tag(m.klav->0);
            Klav::lemma_wire_parse(m.klav->0, None, tail);
        }
    }
}

/// What the blocks of `m` under the tags make of `acc`: the other fields are
/// the ones of `acc`, the tags are recorded behind the ones of `acc`, and a
/// block is the one of `m` if its tag is among the tags.
proof fn lemma_light_refill(acc: LightModel, m: LightModel, tags: Seq<Tag>)
    requires
        acc.ordered is Some,
        forall|i: int| 0 <= i < tags.len() ==> Light::slot_well_formed(m, #[trigger] tags[i]),
    ensures
        ({
            let r = refill_all::<Light>(acc, m, tags);
            &&& r.ordered == Some(acc.order() + tags)
            &&& r.node == acc.node
            &&& r.light_type == acc.light_type
            &&& r.attenuation_start == acc.attenuation_start
            &&& r.attenuation_end == acc.attenuation_end
            &&& r.color == acc.color
            &&& r.intensity == acc.intensity
            &&& r.ambient_color == acc.ambient_color
            &&& r.ambient_intensity == acc.ambient_intensity
            &&& r.klas == if tags.contains(Klas::spec_tag()) {
                m.klas
            } else {
                acc.klas
            }
            &&& r.klae == if tags.contains(Klae::spec_tag()) {
                m.klae
            } else {
                acc.klae
            }
            &&& r.klac == if tags.contains(Klac::spec_tag()) {
                m.klac
            } else {
                acc.klac
            }
            &&& r.klai == if tags.contains(Klai::spec_tag()) {
                m.klai
            } else {
                acc.klai
            }
            &&& r.klbi == if tags.contains(Klbi::spec_tag()) {
                m.klbi
            } else {
                acc.klbi
            }
            &&& r.klbc == if tags.contains(Klbc::spec_tag()) {
                m.klbc
            } else {
                acc.klbc
            }
            &&& r.klav == if tags.contains(Klav::spec_tag()) {
                m.klav
            } else {
                acc.klav
            }
        }),
    decreases tags.len(),
{
    if tags.len() == 0 {
        assert(acc.order() + tags =~= acc.order());
    } else {
        let tag = tags[0];
        let next = Light::refill(acc, m, tag);
        assert(Light::slot_well_formed(m, tags[0]));
        assert forall|i: int| 0 <= i < tags.skip(1).len() implies Light::slot_well_formed(
            m,
            #[trigger] tags.skip(1)[i],
        ) by {
            assert(tags.skip(1)[i] == tags[i + 1]);
        }
        lemma_light_refill(next, m, tags.skip(1));
        assert(next.order() + tags.skip(1) =~= acc.order() + tags);
        lemma_light_tags_differ();
        lemma_contains_front(tags, Klas::spec_tag());
        lemma_contains_front(tags, Klae::spec_tag());
        lemma_contains_front(tags, Klac::spec_tag());
        lemma_contains_front(tags, Klai::spec_tag());
        lemma_contains_front(tags, Klbi::spec_tag());
        lemma_contains_front(tags, Klbc::spec_tag());
        lemma_contains_front(tags, Klav::spec_tag());
    }
}

impl ReparsableBody for Light {
    open spec fn body_well_formed(m: LightModel, version: Option<u32>) -> bool {
        Node::well_formed(m.node, None)
        && LightType::well_formed(m.light_type, None)
        && FloatBits::well_formed(m.attenuation_start, None)
        && FloatBits::well_formed(m.attenuation_end, None)
        && <[FloatBits; 3]>::well_formed(m.color, None)
        && FloatBits::well_formed(m.intensity, None)
        && <[FloatBits; 3]>::well_formed(m.ambient_color, None)
        && FloatBits::well_formed(m.ambient_intensity, None)
        && m.ordered is Some
        && (forall|i: int| 0 <= i < m.order().len() ==> Light::slot_well_formed(m, #[trigger] m.order()[i]))
        && (m.klas is Some ==> m.order().contains(Klas::spec_tag()))
        && (m.klae is Some ==> m.order().contains(Klae::spec_tag()))
        && (m.klac is Some ==> m.order().contains(Klac::spec_tag()))
        && (m.klai is Some ==> m.order().contains(Klai::spec_tag()))
        && (m.klbi is Some ==> m.order().contains(Klbi::spec_tag()))
        && (m.klbc is Some ==> m.order().contains(Klbc::spec_tag()))
        && (m.klav is Some ==> m.order().contains(Klav::spec_tag()))
    }

    #[verifier::rlimit(50)]
    proof fn lemma_body_wire_parse(m: LightModel, version: Option<u32>) {
        let w1 = Node::wire(m.node);
        let w2 = LightType::wire(m.light_type);
        let w3 = FloatBits::wire(m.attenuation_start);
        let w4 = FloatBits::wire(m.attenuation_end);
        let w5 = <[FloatBits; 3]>::wire(m.color);
        let w6 = FloatBits::wire(m.intensity);
        let w7 = <[FloatBits; 3]>::wire(m.ambient_color);
        let w8 = FloatBits::wire(m.ambient_intensity);
        let w9 = wire_slots(m);
        let u10 = Seq::<u8>::empty();
        let u9 = w9 + u10;
        let u8 = w8 + u9;
        let u7 = w7 + u8;
        let u6 = w6 + u7;
        let u5 = w5 + u6;
        let u4 = w4 + u5;
        let u3 = w3 + u4;
        let u2 = w2 + u3;
        let u1 = w1 + u2;
        let s8 = w8 + w9;
        let s7 = w7 + s8;
        let s6 = w6 + s7;
        let s5 = w5 + s6;
        let s4 = w4 + s5;
        let s3 = w3 + s4;
        let s2 = w2 + s3;
        lemma_append_assoc(w8, w9, Seq::<u8>::empty());
        lemma_append_assoc(w7, s8, Seq::<u8>::empty());
        lemma_append_assoc(w6, s7, Seq::<u8>::empty());
        lemma_append_assoc(w5, s6, Seq::<u8>::empty());
        lemma_append_assoc(w4, s5, Seq::<u8>::empty());
        lemma_append_assoc(w3, s4, Seq::<u8>::empty());
        lemma_append_assoc(w2, s3, Seq::<u8>::empty());
        lemma_append_assoc(w1, s2, Seq::<u8>::empty());
        Node::lemma_wire_parse(m.node, None, u2);
        LightType::lemma_wire_parse(m.light_type, None, u3);
        FloatBits::lemma_wire_parse(m.attenuation_start, None, u4);
        FloatBits::lemma_wire_parse(m.attenuation_end, None, u5);
        <[FloatBits; 3]>::lemma_wire_parse(m.color, None, u6);
        FloatBits::lemma_wire_parse(m.intensity, None, u7);
        <[FloatBits; 3]>::lemma_wire_parse(m.ambient_color, None, u8);
        FloatBits::lemma_wire_parse(m.ambient_intensity, None, u9);
        let start = LightModel {
            node: m.node,
            light_type: m.light_type,
            attenuation_start: m.attenuation_start,
            attenuation_end: m.attenuation_end,
            color: m.color,
            intensity: m.intensity,
            ambient_color: m.ambient_color,
            ambient_intensity: m.ambient_intensity,
            klas: None,
            klae: None,
            klac: None,
            klai: None,
            klbi: None,
            klbc: None,
            klav: None,
            ordered: Some(Seq::empty()),
        };
        lemma_tagged_wire_parse::<Light>(start, m, m.order(), u10);
        lemma_light_refill(start, m, m.order());
        assert(Seq::<Tag>::empty() + m.order() =~= m.order());
        assert(u1 =~= Self::body_wire(m));
    }
}

impl Reparsable for Light {
    open spec fn well_formed(m: LightModel, version: Option<u32>) -> bool {
        Light::body_well_formed(m, version) && Light::body_wire(m).len() + 4 <= u32::MAX
    }

    proof fn lemma_wire_parse(m: LightModel, version: Option<u32>, tail: Seq<u8>) {
        lemma_inclusive_wire_parse::<Light>(m, version, tail);
    }
}

/// Holds the track of the start of the attenuation of a light.
#[derive(Debug, Clone, PartialEq)]
pub struct Klas(pub TrackChunk<FloatBits>);

impl Chunk for Klas {
    open spec fn spec_tag() -> Tag {
        Tag([0x4B, 0x4C, 0x41, 0x53])
    }

    fn tag() -> (t: Tag) {
        let t = Tag([0x4B, 0x4C, 0x41, 0x53]);
        assert(t.0 =~= Self::spec_tag().0);
        t
    }
}

impl Materialized for Klas {
    type Version = u32;

    type Model = TrackChunkModel<FloatBits>;

    open spec fn model(&self) -> TrackChunkModel<FloatBits> {
        self.0.model()
    }

    open spec fn spec_parse(version: Option<u32>, input: Seq<u8>) -> Parsed<
        TrackChunkModel<FloatBits>,
    > {
        <TrackChunk<FloatBits>>::spec_parse(None, input)
    }

    open spec fn wire(m: TrackChunkModel<FloatBits>) -> Seq<u8> {
        <TrackChunk<FloatBits>>::wire(m)
    }

    open spec fn encode_error(m: TrackChunkModel<FloatBits>) -> Option<EncodeError> {
        <TrackChunk<FloatBits>>::encode_error(m)
    }

    fn parse_versioned<'a>(version: Option<u32>, input: &'a [u8]) -> (r: Parser<'a, Klas>) {
        let (input, chunk) = <TrackChunk<FloatBits>>::parse(input)?;
        Ok((input, Klas(chunk)))
    }

    fn encode(&self, output: &mut Vec<u8>) -> (r: Result<(), EncodeError>) {
        self.0.encode(output)
    }
}

impl Lossless for Klas {
    open spec fn faithful(m: TrackChunkModel<FloatBits>) -> bool {
        <TrackChunk<FloatBits>>::faithful(m)
    }

    proof fn lemma_parse_wire(version: Option<u32>, input: Seq<u8>) {
        <TrackChunk<FloatBits>>::lemma_parse_wire(None, input);
    }
}

impl Reparsable for Klas {
    open spec fn well_formed(m: TrackChunkModel<FloatBits>, version: Option<u32>) -> bool {
        <TrackChunk<FloatBits>>::well_formed(m, None) && m.tag == Self::spec_tag()
    }

    proof fn lemma_wire_parse(m: TrackChunkModel<FloatBits>, version: Option<u32>, tail: Seq<u8>) {
        <TrackChunk<FloatBits>>::lemma_wire_parse(m, None, tail);
    }
}

impl TaggedBlock for Klas {
    proof fn lemma_wire_tag(m: TrackChunkModel<FloatBits>) {
        lemma_tag_bytes(m.tag, m.tag.0@);
        assert(<TrackChunk<FloatBits>>::wire(m).take(4) =~= m.tag.0@);
    }
}

/// Holds the track of the end of the attenuation of a light.
#[derive(Debug, Clone, PartialEq)]
pub struct Klae(pub TrackChunk<FloatBits>);

impl Chunk for Klae {
    open spec fn spec_tag() -> Tag {
        Tag([0x4B, 0x4C, 0x41, 0x45])
    }

    fn tag() -> (t: Tag) {
        let t = Tag([0x4B, 0x4C, 0x41, 0x45]);
        assert(t.0 =~= Self::spec_tag().0);
        t
    }
}

impl Materialized for Klae {
    type Version = u32;

    type Model = TrackChunkModel<FloatBits>;

    open spec fn model(&self) -> TrackChunkModel<FloatBits> {
        self.0.model()
    }

    open spec fn spec_parse(version: Option<u32>, input: Seq<u8>) -> Parsed<
        TrackChunkModel<FloatBits>,
    > {
        <TrackChunk<FloatBits>>::spec_parse(None, input)
    }

    open spec fn wire(m: TrackChunkModel<FloatBits>) -> Seq<u8> {
        <TrackChunk<FloatBits>>::wire(m)
    }

    open spec fn encode_error(m: TrackChunkModel<FloatBits>) -> Option<EncodeError> {
        <TrackChunk<FloatBits>>::encode_error(m)
    }

    fn parse_versioned<'a>(version: Option<u32>, input: &'a [u8]) -> (r: Parser<'a, Klae>) {
        let (input, chunk) = <TrackChunk<FloatBits>>::parse(input)?;
        Ok((input, Klae(chunk)))
    }

    fn encode(&self, output: &mut Vec<u8>) -> (r: Result<(), EncodeError>) {
        self.0.encode(output)
    }
}

impl Lossless for Klae {
    open spec fn faithful(m: TrackChunkModel<FloatBits>) -> bool {
        <TrackChunk<FloatBits>>::faithful(m)
    }

    proof fn lemma_parse_wire(version: Option<u32>, input: Seq<u8>) {
        <TrackChunk<FloatBits>>::lemma_parse_wire(None, input);
    }
}

impl Reparsable for Klae {
    open spec fn well_formed(m: TrackChunkModel<FloatBits>, version: Option<u32>) -> bool {
        <TrackChunk<FloatBits>>::well_formed(m, None) && m.tag == Self::spec_tag()
    }

    proof fn lemma_wire_parse(m: TrackChunkModel<FloatBits>, version: Option<u32>, tail: Seq<u8>) {
        <TrackChunk<FloatBits>>::lemma_wire_parse(m, None, tail);
    }
}

impl TaggedBlock for Klae {
    proof fn lemma_wire_tag(m: TrackChunkModel<FloatBits>) {
        lemma_tag_bytes(m.tag, m.tag.0@);
        assert(<TrackChunk<FloatBits>>::wire(m).take(4) =~= m.tag.0@);
    }
}

/// Holds the track of the color of a light.
#[derive(Debug, Clone, PartialEq)]
pub struct Klac(pub TrackChunk<[FloatBits; 3]>);

impl Chunk for Klac {
    open spec fn spec_tag() -> Tag {
        Tag([0x4B, 0x4C, 0x41, 0x43])
    }

    fn tag() -> (t: Tag) {
        let t = Tag([0x4B, 0x4C, 0x41, 0x43]);
        assert(t.0 =~= Self::spec_tag().0);
        t
    }
}

impl Materialized for Klac {
    type Version = u32;

    type Model = TrackChunkModel<Seq<FloatBits>>;

    open spec fn model(&self) -> TrackChunkModel<Seq<FloatBits>> {
        self.0.model()
    }

    open spec fn spec_parse(version: Option<u32>, input: Seq<u8>) -> Parsed<
        TrackChunkModel<Seq<FloatBits>>,
    > {
        <TrackChunk<[FloatBits; 3]>>::spec_parse(None, input)
    }

    open spec fn wire(m: TrackChunkModel<Seq<FloatBits>>) -> Seq<u8> {
        <TrackChunk<[FloatBits; 3]>>::wire(m)
    }

    open spec fn encode_error(m: TrackChunkModel<Seq<FloatBits>>) -> Option<EncodeError> {
        <TrackChunk<[FloatBits; 3]>>::encode_error(m)
    }

    fn parse_versioned<'a>(version: Option<u32>, input: &'a [u8]) -> (r: Parser<'a, Klac>) {
        let (input, chunk) = <TrackChunk<[FloatBits; 3]>>::parse(input)?;
        Ok((input, Klac(chunk)))
    }

    fn encode(&self, output: &mut Vec<u8>) -> (r: Result<(), EncodeError>) {
        self.0.encode(output)
    }
}

impl Lossless for Klac {
    open spec fn faithful(m: TrackChunkModel<Seq<FloatBits>>) -> bool {
        <TrackChunk<[FloatBits; 3]>>::faithful(m)
    }

    proof fn lemma_parse_wire(version: Option<u32>, input: Seq<u8>) {
        <TrackChunk<[FloatBits; 3]>>::lemma_parse_wire(None, input);
    }
}

impl Reparsable for Klac {
    open spec fn well_formed(m: TrackChunkModel<Seq<FloatBits>>, version: Option<u32>) -> bool {
        <TrackChunk<[FloatBits; 3]>>::well_formed(m, None) && m.tag == Self::spec_tag()
    }

    proof fn lemma_wire_parse(m: TrackChunkModel<Seq<FloatBits>>, version: Option<u32>, tail: Seq<u8>) {
        <TrackChunk<[FloatBits; 3]>>::lemma_wire_parse(m, None, tail);
    }
}

impl TaggedBlock for Klac {
    proof fn lemma_wire_tag(m: TrackChunkModel<Seq<FloatBits>>) {
        lemma_tag_bytes(m.tag, m.tag.0@);
        assert(<TrackChunk<[FloatBits; 3]>>::wire(m).take(4) =~= m.tag.0@);
    }
}

/// Holds the track of the intensity of a light.
#[derive(Debug, Clone, PartialEq)]
pub struct Klai(pub TrackChunk<FloatBits>);

impl Chunk for Klai {
    open spec fn spec_tag() -> Tag {
        Tag([0x4B, 0x4C, 0x41, 0x49])
    }

    fn tag() -> (t: Tag) {
        let t = Tag([0x4B, 0x4C, 0x41, 0x49]);
        assert(t.0 =~= Self::spec_tag().0);
        t
    }
}

impl Materialized for Klai {
    type Version = u32;

    type Model = TrackChunkModel<FloatBits>;

    open spec fn model(&self) -> TrackChunkModel<FloatBits> {
        self.0.model()
    }

    open spec fn spec_parse(version: Option<u32>, input: Seq<u8>) -> Parsed<
        TrackChunkModel<FloatBits>,
    > {
        <TrackChunk<FloatBits>>::spec_parse(None, input)
    }

    open spec fn wire(m: TrackChunkModel<FloatBits>) -> Seq<u8> {
        <TrackChunk<FloatBits>>::wire(m)
    }

    open spec fn encode_error(m: TrackChunkModel<FloatBits>) -> Option<EncodeError> {
        <TrackChunk<FloatBits>>::encode_error(m)
    }

    fn parse_versioned<'a>(version: Option<u32>, input: &'a [u8]) -> (r: Parser<'a, Klai>) {
        let (input, chunk) = <TrackChunk<FloatBits>>::parse(input)?;
        Ok((input, Klai(chunk)))
    }

    fn encode(&self, output: &mut Vec<u8>) -> (r: Result<(), EncodeError>) {
        self.0.encode(output)
    }
}

impl Lossless for Klai {
    open spec fn faithful(m: TrackChunkModel<FloatBits>) -> bool {
        <TrackChunk<FloatBits>>::faithful(m)
    }

    proof fn lemma_parse_wire(version: Option<u32>, input: Seq<u8>) {
        <TrackChunk<FloatBits>>::lemma_parse_wire(None, input);
    }
}

impl Reparsable for Klai {
    open spec fn well_formed(m: TrackChunkModel<FloatBits>, version: Option<u32>) -> bool {
        <TrackChunk<FloatBits>>::well_formed(m, None) && m.tag == Self::spec_tag()
    }

    proof fn lemma_wire_parse(m: TrackChunkModel<FloatBits>, version: Option<u32>, tail: Seq<u8>) {
        <TrackChunk<FloatBits>>::lemma_wire_parse(m, None, tail);
    }
}

impl TaggedBlock for Klai {
    proof fn lemma_wire_tag(m: TrackChunkModel<FloatBits>) {
        lemma_tag_bytes(m.tag, m.tag.0@);
        assert(<TrackChunk<FloatBits>>::wire(m).take(4) =~= m.tag.0@);
    }
}

/// Holds the track of the ambient intensity of a light.
#[derive(Debug, Clone, PartialEq)]
pub struct Klbi(pub TrackChunk<FloatBits>);

impl Chunk for Klbi {
    open spec fn spec_tag() -> Tag {
        Tag([0x4B, 0x4C, 0x42, 0x49])
    }

    fn tag() -> (t: Tag) {
        let t = Tag([0x4B, 0x4C, 0x42, 0x49]);
        assert(t.0 =~= Self::spec_tag().0);
        t
    }
}

impl Materialized for Klbi {
    type Version = u32;

    type Model = TrackChunkModel<FloatBits>;

    open spec fn model(&self) -> TrackChunkModel<FloatBits> {
        self.0.model()
    }

    open spec fn spec_parse(version: Option<u32>, input: Seq<u8>) -> Parsed<
        TrackChunkModel<FloatBits>,
    > {
        <TrackChunk<FloatBits>>::spec_parse(None, input)
    }

    open spec fn wire(m: TrackChunkModel<FloatBits>) -> Seq<u8> {
        <TrackChunk<FloatBits>>::wire(m)
    }

    open spec fn encode_error(m: TrackChunkModel<FloatBits>) -> Option<EncodeError> {
        <TrackChunk<FloatBits>>::encode_error(m)
    }

    fn parse_versioned<'a>(version: Option<u32>, input: &'a [u8]) -> (r: Parser<'a, Klbi>) {
        let (input, chunk) = <TrackChunk<FloatBits>>::parse(input)?;
        Ok((input, Klbi(chunk)))
    }

    fn encode(&self, output: &mut Vec<u8>) -> (r: Result<(), EncodeError>) {
        self.0.encode(output)
    }
}

impl Lossless for Klbi {
    open spec fn faithful(m: TrackChunkModel<FloatBits>) -> bool {
        <TrackChunk<FloatBits>>::faithful(m)
    }

    proof fn lemma_parse_wire(version: Option<u32>, input: Seq<u8>) {
        <TrackChunk<FloatBits>>::lemma_parse_wire(None, input);
    }
}

impl Reparsable for Klbi {
    open spec fn well_formed(m: TrackChunkModel<FloatBits>, version: Option<u32>) -> bool {
        <TrackChunk<FloatBits>>::well_formed(m, None) && m.tag == Self::spec_tag()
    }

    proof fn lemma_wire_parse(m: TrackChunkModel<FloatBits>, version: Option<u32>, tail: Seq<u8>) {
        <TrackChunk<FloatBits>>::lemma_wire_parse(m, None, tail);
    }
}

impl TaggedBlock for Klbi {
    proof fn lemma_wire_tag(m: TrackChunkModel<FloatBits>) {
        lemma_tag_bytes(m.tag, m.tag.0@);
        assert(<TrackChunk<FloatBits>>::wire(m).take(4) =~= m.tag.0@);
    }
}

/// Holds the track of the ambient color of a light.
#[derive(Debug, Clone, PartialEq)]
pub struct Klbc(pub TrackChunk<[FloatBits; 3]>);

impl Chunk for Klbc {
    open spec fn spec_tag() -> Tag {
        Tag([0x4B, 0x4C, 0x42, 0x43])
    }

    fn tag() -> (t: Tag) {
        let t = Tag([0x4B, 0x4C, 0x42, 0x43]);
        assert(t.0 =~= Self::spec_tag().0);
        t
    }
}

impl Materialized for Klbc {
    type Version = u32;

    type Model = TrackChunkModel<Seq<FloatBits>>;

    open spec fn model(&self) -> TrackChunkModel<Seq<FloatBits>> {
        self.0.model()
    }

    open spec fn spec_parse(version: Option<u32>, input: Seq<u8>) -> Parsed<
        TrackChunkModel<Seq<FloatBits>>,
    > {
        <TrackChunk<[FloatBits; 3]>>::spec_parse(None, input)
    }

    open spec fn wire(m: TrackChunkModel<Seq<FloatBits>>) -> Seq<u8> {
        <TrackChunk<[FloatBits; 3]>>::wire(m)
    }

    open spec fn encode_error(m: TrackChunkModel<Seq<FloatBits>>) -> Option<EncodeError> {
        <TrackChunk<[FloatBits; 3]>>::encode_error(m)
    }

    fn parse_versioned<'a>(version: Option<u32>, input: &'a [u8]) -> (r: Parser<'a, Klbc>) {
        let (input, chunk) = <TrackChunk<[FloatBits; 3]>>::parse(input)?;
        Ok((input, Klbc(chunk)))
    }

    fn encode(&self, output: &mut Vec<u8>) -> (r: Result<(), EncodeError>) {
        self.0.encode(output)
    }
}

impl Lossless for Klbc {
    open spec fn faithful(m: TrackChunkModel<Seq<FloatBits>>) -> bool {
        <TrackChunk<[FloatBits; 3]>>::faithful(m)
    }

    proof fn lemma_parse_wire(version: Option<u32>, input: Seq<u8>) {
        <TrackChunk<[FloatBits; 3]>>::lemma_parse_wire(None, input);
    }
}

impl Reparsable for Klbc {
    open spec fn well_formed(m: TrackChunkModel<Seq<FloatBits>>, version: Option<u32>) -> bool {
        <TrackChunk<[FloatBits; 3]>>::well_formed(m, None) && m.tag == Self::spec_tag()
    }

    proof fn lemma_wire_parse(m: TrackChunkModel<Seq<FloatBits>>, version: Option<u32>, tail: Seq<u8>) {
        <TrackChunk<[FloatBits; 3]>>::lemma_wire_parse(m, None, tail);
    }
}

impl TaggedBlock for Klbc {
    proof fn lemma_wire_tag(m: TrackChunkModel<Seq<FloatBits>>) {
        lemma_tag_bytes(m.tag, m.tag.0@);
        assert(<TrackChunk<[FloatBits; 3]>>::wire(m).take(4) =~= m.tag.0@);
    }
}

/// Holds the track of the visibility of a light.
#[derive(Debug, Clone, PartialEq)]
pub struct Klav(pub TrackChunk<FloatBits>);

impl Chunk for Klav {
    open spec fn spec_tag() -> Tag {
        Tag([0x4B, 0x4C, 0x41, 0x56])
    }

    fn tag() -> (t: Tag) {
        let t = Tag([0x4B, 0x4C, 0x41, 0x56]);
        assert(t.0 =~= Self::spec_tag().0);
        t
    }
}

impl Materialized for Klav {
    type Version = u32;

    type Model = TrackChunkModel<FloatBits>;

    open spec fn model(&self) -> TrackChunkModel<FloatBits> {
        self.0.model()
    }

    open spec fn spec_parse(version: Option<u32>, input: Seq<u8>) -> Parsed<
        TrackChunkModel<FloatBits>,
    > {
        <TrackChunk<FloatBits>>::spec_parse(None, input)
    }

    open spec fn wire(m: TrackChunkModel<FloatBits>) -> Seq<u8> {
        <TrackChunk<FloatBits>>::wire(m)
    }

    open spec fn encode_error(m: TrackChunkModel<FloatBits>) -> Option<EncodeError> {
        <TrackChunk<FloatBits>>::encode_error(m)
    }

    fn parse_versioned<'a>(version: Option<u32>, input: &'a [u8]) -> (r: Parser<'a, Klav>) {
        let (input, chunk) = <TrackChunk<FloatBits>>::parse(input)?;
        Ok((input, Klav(chunk)))
    }

    fn encode(&self, output: &mut Vec<u8>) -> (r: Result<(), EncodeError>) {
        self.0.encode(output)
    }
}

impl Lossless for Klav {
    open spec fn faithful(m: TrackChunkModel<FloatBits>) -> bool {
        <TrackChunk<FloatBits>>::faithful(m)
    }

    proof fn lemma_parse_wire(version: Option<u32>, input: Seq<u8>) {
        <TrackChunk<FloatBits>>::lemma_parse_wire(None, input);
    }
}

impl Reparsable for Klav {
    open spec fn well_formed(m: TrackChunkModel<FloatBits>, version: Option<u32>) -> bool {
        <TrackChunk<FloatBits>>::well_formed(m, None) && m.tag == Self::spec_tag()
    }

    proof fn lemma_wire_parse(m: TrackChunkModel<FloatBits>, version: Option<u32>, tail: Seq<u8>) {
        <TrackChunk<FloatBits>>::lemma_wire_parse(m, None, tail);
    }
}

impl TaggedBlock for Klav {
    proof fn lemma_wire_tag(m: TrackChunkModel<FloatBits>) {
        lemma_tag_bytes(m.tag, m.tag.0@);
        assert(<TrackChunk<FloatBits>>::wire(m).take(4) =~= m.tag.0@);
    }
}

} // verus!
