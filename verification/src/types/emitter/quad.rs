use crate::encoder::error::Error as EncodeError;
use crate::encoder::primitives::{push_le_u32, spec_u32_to_le_bytes};
use crate::parser::error::MdxParseError;
use crate::parser::primitives::{le_u32, spec_le_u32, Parsed, Parser};
use crate::types::chunk::{
    encode_error_slots, encode_slots, lemma_contains_front, lemma_tagged_parse_wire,
    lemma_tagged_wire_parse, order_of, opt_seq, parse_tagged, record_tag, refill_all,
    slots_faithful, spec_parse_tagged, wire_slots, BlockStep, Chunk, LosslessBlocks,
    OrderedSlots, Replay, ReparsableBlocks, TaggedBlock, TaggedBlocks,
};
use crate::types::chunk::utils::{lemma_tag_bytes, Tag};
use crate::types::materialize::{
    encode_error_inclusive_sized, encode_error_opt, encode_inclusive_sized, encode_opt,
    lemma_append_assoc, lemma_inclusive_parse_wire, lemma_inclusive_wire_parse, opt_faithful,
    opt_model, parse_inclusive_sized, spec_parse_inclusive_sized, wire_inclusive_sized,
    wire_opt, FloatBits, Lossless, LosslessBody, Materialized, Reparsable, ReparsableBody,
    SizedBody,
};
use crate::types::node::{Node, NodeModel};
use crate::types::tracks::{TrackChunk, TrackChunkModel};
use vstd::prelude::*;

verus! {

/// The way in which the particles of an emitter are blended with what lies under them, stored as a `u32` code.
#[derive(Debug, Clone, Copy, PartialEq, PartialOrd, Eq, Ord, Hash, Structural)]
pub enum FilterMode {
    Blend,
    Additive,
    Modulate,
    Modulate2x,
    AlphaKey,
}

/// A code that is not the code of any [`FilterMode`].
#[derive(Debug, Clone, Copy, PartialEq, PartialOrd, Eq, Ord, Hash, Structural)]
pub struct UnknownFilterMode(pub u32);

impl FilterMode {
    /// The value that a code stands for.
    pub open spec fn spec_from_code(v: u32) -> Result<FilterMode, UnknownFilterMode> {
        if v == 0 {
            Ok(FilterMode::Blend)
        }         else if v == 1 {
            Ok(FilterMode::Additive)
        }         else if v == 2 {
            Ok(FilterMode::Modulate)
        }         else if v == 3 {
            Ok(FilterMode::Modulate2x)
        }         else if v == 4 {
            Ok(FilterMode::AlphaKey)
        } else {
            Err(UnknownFilterMode(v))
        }
    }

    /// The code that stands for the value.
    pub open spec fn spec_code(self) -> u32 {
        match self {
            FilterMode::Blend => 0,
            FilterMode::Additive => 1,
            FilterMode::Modulate => 2,
            FilterMode::Modulate2x => 3,
            FilterMode::AlphaKey => 4,
        }
    }
}

impl FilterMode {
    /// The value that a code stands for, or the code itself if it stands for
    /// none.
    pub fn try_from(value: u32) -> (r: Result<FilterMode, UnknownFilterMode>)
        ensures
            r == FilterMode::spec_from_code(value),
    {
        match value {
            0 => Ok(FilterMode::Blend),
            1 => Ok(FilterMode::Additive),
            2 => Ok(FilterMode::Modulate),
            3 => Ok(FilterMode::Modulate2x),
            4 => Ok(FilterMode::AlphaKey),
            _ => Err(UnknownFilterMode(value)),
        }
    }

    /// The code that stands for the value.
    pub fn code(self) -> (r: u32)
        ensures
            r == self.spec_code(),
    {
        match self {
            FilterMode::Blend => 0,
            FilterMode::Additive => 1,
            FilterMode::Modulate => 2,
            FilterMode::Modulate2x => 3,
            FilterMode::AlphaKey => 4,
        }
    }
}

impl Materialized for FilterMode {
    type Version = u32;

    type Model = FilterMode;

    open spec fn model(&self) -> FilterMode {
        *self
    }

    open spec fn spec_parse(version: Option<u32>, input: Seq<u8>) -> Parsed<FilterMode> {
        match spec_le_u32(input) {
            Ok((rest, flag)) => match FilterMode::spec_from_code(flag) {
                Ok(value) => Ok((rest, value)),
                Err(e) => Err(MdxParseError::UnknownEmitterFilterMode(e)),
            },
            Err(e) => Err(e),
        }
    }

    open spec fn wire(m: FilterMode) -> Seq<u8> {
        spec_u32_to_le_bytes(m.spec_code())
    }

    open spec fn encode_error(m: FilterMode) -> Option<EncodeError> {
        None
    }

    fn parse_versioned<'a>(version: Option<u32>, input: &'a [u8]) -> (r: Parser<'a, FilterMode>) {
        let (input, flag) = le_u32(input)?;
        match FilterMode::try_from(flag) {
            Ok(value) => Ok((input, value)),
            Err(e) => Err(MdxParseError::UnknownEmitterFilterMode(e)),
        }
    }

    fn encode(&self, output: &mut Vec<u8>) -> (r: Result<(), EncodeError>) {
        let flag: u32 = self.code();
        push_le_u32(flag, output);
        Ok(())
    }
}

impl Lossless for FilterMode {
    open spec fn faithful(m: FilterMode) -> bool {
        true
    }

    proof fn lemma_parse_wire(version: Option<u32>, input: Seq<u8>) {
        u32::lemma_parse_wire(None, input);
    }
}

impl Reparsable for FilterMode {
    open spec fn well_formed(m: FilterMode, version: Option<u32>) -> bool {
        true
    }

    proof fn lemma_wire_parse(m: FilterMode, version: Option<u32>, tail: Seq<u8>) {
        u32::lemma_wire_parse(m.spec_code(), None, tail);
    }
}

/// The part of a particle that is drawn, stored as a `u32` code.
#[derive(Debug, Clone, Copy, PartialEq, PartialOrd, Eq, Ord, Hash, Structural)]
pub enum HeadTail {
    Head,
    Tail,
    Both,
}

/// A code that is not the code of any [`HeadTail`].
#[derive(Debug, Clone, Copy, PartialEq, PartialOrd, Eq, Ord, Hash, Structural)]
pub struct UnknownHeadTail(pub u32);

impl HeadTail {
    /// The value that a code stands for.
    pub open spec fn spec_from_code(v: u32) -> Result<HeadTail, UnknownHeadTail> {
        if v == 0 {
            Ok(HeadTail::Head)
        }         else if v == 1 {
            Ok(HeadTail::Tail)
        }         else if v == 2 {
            Ok(HeadTail::Both)
        } else {
            Err(UnknownHeadTail(v))
        }
    }

    /// The code that stands for the value.
    pub open spec fn spec_code(self) -> u32 {
        match self {
            HeadTail::Head => 0,
            HeadTail::Tail => 1,
            HeadTail::Both => 2,
        }
    }
}

impl HeadTail {
    /// The value that a code stands for, or the code itself if it stands for
    /// none.
    pub fn try_from(value: u32) -> (r: Result<HeadTail, UnknownHeadTail>)
        ensures
            r == HeadTail::spec_from_code(value),
    {
        match value {
            0 => Ok(HeadTail::Head),
            1 => Ok(HeadTail::Tail),
            2 => Ok(HeadTail::Both),
            _ => Err(UnknownHeadTail(value)),
        }
    }

    /// The code that stands for the value.
    pub fn code(self) -> (r: u32)
        ensures
            r == self.spec_code(),
    {
        match self {
            HeadTail::Head => 0,
            HeadTail::Tail => 1,
            HeadTail::Both => 2,
        }
    }
}

impl Materialized for HeadTail {
    type Version = u32;

    type Model = HeadTail;

    open spec fn model(&self) -> HeadTail {
        *self
    }

    open spec fn spec_parse(version: Option<u32>, input: Seq<u8>) -> Parsed<HeadTail> {
        match spec_le_u32(input) {
            Ok((rest, flag)) => match HeadTail::spec_from_code(flag) {
                Ok(value) => Ok((rest, value)),
                Err(e) => Err(MdxParseError::UnknownHeadTail(e)),
            },
            Err(e) => Err(e),
        }
    }

    open spec fn wire(m: HeadTail) -> Seq<u8> {
        spec_u32_to_le_bytes(m.spec_code())
    }

    open spec fn encode_error(m: HeadTail) -> Option<EncodeError> {
        None
    }

    fn parse_versioned<'a>(version: Option<u32>, input: &'a [u8]) -> (r: Parser<'a, HeadTail>) {
        let (input, flag) = le_u32(input)?;
        match HeadTail::try_from(flag) {
            Ok(value) => Ok((input, value)),
            Err(e) => Err(MdxParseError::UnknownHeadTail(e)),
        }
    }

    fn encode(&self, output: &mut Vec<u8>) -> (r: Result<(), EncodeError>) {
        let flag: u32 = self.code();
        push_le_u32(flag, output);
        Ok(())
    }
}

impl Lossless for HeadTail {
    open spec fn faithful(m: HeadTail) -> bool {
        true
    }

    proof fn lemma_parse_wire(version: Option<u32>, input: Seq<u8>) {
        u32::lemma_parse_wire(None, input);
    }
}

impl Reparsable for HeadTail {
    open spec fn well_formed(m: HeadTail, version: Option<u32>) -> bool {
        true
    }

    proof fn lemma_wire_parse(m: HeadTail, version: Option<u32>, tail: Seq<u8>) {
        u32::lemma_wire_parse(m.spec_code(), None, tail);
    }
}

/// An emitter of particles that are textured quads.
#[derive(Debug, Clone, PartialEq)]
pub struct ParticleEmitter2 {
    pub node: Node,
    pub speed: FloatBits,
    pub variation: FloatBits,
    pub latitude: FloatBits,
    pub gravity: FloatBits,
    pub lifespan: FloatBits,
    pub emission_rate: FloatBits,
    pub length: FloatBits,
    pub width: FloatBits,
    pub filter_mode: FilterMode,
    pub rows: u32,
    pub columns: u32,
    pub head_or_tail: HeadTail,
    pub tail_length: FloatBits,
    pub time: FloatBits,
    pub segment_color: [[FloatBits; 3]; 3],
    pub segment_alpha: [u8; 3],
    pub segment_scaling: [FloatBits; 3],
    pub head_interval: [u32; 3],
    pub head_decay_interval: [u32; 3],
    pub tail_interval: [u32; 3],
    pub tail_decay_interval: [u32; 3],
    pub texture_id: u32,
    pub squirt: u32,
    pub priority_plane: u32,
    pub replaceable_id: u32,
    pub kp2s: Option<Kp2s>,
    pub kp2r: Option<Kp2r>,
    pub kp2l: Option<Kp2l>,
    pub kp2g: Option<Kp2g>,
    pub kp2e: Option<Kp2e>,
    pub kp2n: Option<Kp2n>,
    pub kp2w: Option<Kp2w>,
    pub kp2v: Option<Kp2v>,
    /// The order in which the optional blocks were met while parsing; `None`
    /// in a value that was not parsed, which is encoded in the order of the
    /// fields.
    pub ordered: Option<Vec<Tag>>,
}

/// What a value of [`ParticleEmitter2`] stands for in specifications.
pub struct ParticleEmitter2Model {
    pub node: NodeModel,
    pub speed: FloatBits,
    pub variation: FloatBits,
    pub latitude: FloatBits,
    pub gravity: FloatBits,
    pub lifespan: FloatBits,
    pub emission_rate: FloatBits,
    pub length: FloatBits,
    pub width: FloatBits,
    pub filter_mode: FilterMode,
    pub rows: u32,
    pub columns: u32,
    pub head_or_tail: HeadTail,
    pub tail_length: FloatBits,
    pub time: FloatBits,
    pub segment_color: Seq<Seq<FloatBits>>,
    pub segment_alpha: Seq<u8>,
    pub segment_scaling: Seq<FloatBits>,
    pub head_interval: Seq<u32>,
    pub head_decay_interval: Seq<u32>,
    pub tail_interval: Seq<u32>,
    pub tail_decay_interval: Seq<u32>,
    pub texture_id: u32,
    pub squirt: u32,
    pub priority_plane: u32,
    pub replaceable_id: u32,
    pub kp2s: Option<TrackChunkModel<FloatBits>>,
    pub kp2r: Option<TrackChunkModel<FloatBits>>,
    pub kp2l: Option<TrackChunkModel<FloatBits>>,
    pub kp2g: Option<TrackChunkModel<FloatBits>>,
    pub kp2e: Option<TrackChunkModel<FloatBits>>,
    pub kp2n: Option<TrackChunkModel<FloatBits>>,
    pub kp2w: Option<TrackChunkModel<FloatBits>>,
    pub kp2v: Option<TrackChunkModel<FloatBits>>,
    pub ordered: Option<Seq<Tag>>,
}

impl OrderedSlots for ParticleEmitter2Model {
    open spec fn canonical() -> Seq<Tag> {
        seq![Kp2s::spec_tag(), Kp2r::spec_tag(), Kp2l::spec_tag(), Kp2g::spec_tag(), Kp2e::spec_tag(), Kp2n::spec_tag(), Kp2w::spec_tag(), Kp2v::spec_tag()]
    }

    open spec fn recorded(self) -> bool {
        self.ordered is Some
    }

    open spec fn order(self) -> Seq<Tag> {
        order_of(self.ordered)
    }

    open spec fn slot_wire(self, tag: Tag) -> Seq<u8> {
        if tag == Kp2s::spec_tag() {
            wire_opt::<Kp2s>(self.kp2s)
        } else if tag == Kp2r::spec_tag() {
            wire_opt::<Kp2r>(self.kp2r)
        } else if tag == Kp2l::spec_tag() {
            wire_opt::<Kp2l>(self.kp2l)
        } else if tag == Kp2g::spec_tag() {
            wire_opt::<Kp2g>(self.kp2g)
        } else if tag == Kp2e::spec_tag() {
            wire_opt::<Kp2e>(self.kp2e)
        } else if tag == Kp2n::spec_tag() {
            wire_opt::<Kp2n>(self.kp2n)
        } else if tag == Kp2w::spec_tag() {
            wire_opt::<Kp2w>(self.kp2w)
        } else if tag == Kp2v::spec_tag() {
            wire_opt::<Kp2v>(self.kp2v)
        } else {
            Seq::empty()
        }
    }

    open spec fn slot_error(self, tag: Tag) -> Option<EncodeError> {
        if tag == Kp2s::spec_tag() {
            encode_error_opt::<Kp2s>(self.kp2s)
        } else if tag == Kp2r::spec_tag() {
            encode_error_opt::<Kp2r>(self.kp2r)
        } else if tag == Kp2l::spec_tag() {
            encode_error_opt::<Kp2l>(self.kp2l)
        } else if tag == Kp2g::spec_tag() {
            encode_error_opt::<Kp2g>(self.kp2g)
        } else if tag == Kp2e::spec_tag() {
            encode_error_opt::<Kp2e>(self.kp2e)
        } else if tag == Kp2n::spec_tag() {
            encode_error_opt::<Kp2n>(self.kp2n)
        } else if tag == Kp2w::spec_tag() {
            encode_error_opt::<Kp2w>(self.kp2w)
        } else if tag == Kp2v::spec_tag() {
            encode_error_opt::<Kp2v>(self.kp2v)
        } else {
            None
        }
    }

    open spec fn slot_faithful(self, tag: Tag) -> bool {
        if tag == Kp2s::spec_tag() {
            opt_faithful::<Kp2s>(self.kp2s)
        } else if tag == Kp2r::spec_tag() {
            opt_faithful::<Kp2r>(self.kp2r)
        } else if tag == Kp2l::spec_tag() {
            opt_faithful::<Kp2l>(self.kp2l)
        } else if tag == Kp2g::spec_tag() {
            opt_faithful::<Kp2g>(self.kp2g)
        } else if tag == Kp2e::spec_tag() {
            opt_faithful::<Kp2e>(self.kp2e)
        } else if tag == Kp2n::spec_tag() {
            opt_faithful::<Kp2n>(self.kp2n)
        } else if tag == Kp2w::spec_tag() {
            opt_faithful::<Kp2w>(self.kp2w)
        } else if tag == Kp2v::spec_tag() {
            opt_faithful::<Kp2v>(self.kp2v)
        } else {
            true
        }
    }

    open spec fn frame(self) -> ParticleEmitter2Model {
        ParticleEmitter2Model {
            node: self.node,
            speed: self.speed,
            variation: self.variation,
            latitude: self.latitude,
            gravity: self.gravity,
            lifespan: self.lifespan,
            emission_rate: self.emission_rate,
            length: self.length,
            width: self.width,
            filter_mode: self.filter_mode,
            rows: self.rows,
            columns: self.columns,
            head_or_tail: self.head_or_tail,
            tail_length: self.tail_length,
            time: self.time,
            segment_color: self.segment_color,
            segment_alpha: self.segment_alpha,
            segment_scaling: self.segment_scaling,
            head_interval: self.head_interval,
            head_decay_interval: self.head_decay_interval,
            tail_interval: self.tail_interval,
            tail_decay_interval: self.tail_decay_interval,
            texture_id: self.texture_id,
            squirt: self.squirt,
            priority_plane: self.priority_plane,
            replaceable_id: self.replaceable_id,
            kp2s: None,
            kp2r: None,
            kp2l: None,
            kp2g: None,
            kp2e: None,
            kp2n: None,
            kp2w: None,
            kp2v: None,
            ordered: None,
        }
    }
}

impl Replay for ParticleEmitter2 {
    type Model = ParticleEmitter2Model;

    open spec fn slots_model(&self) -> ParticleEmitter2Model {
        ParticleEmitter2Model {
            node: self.node.model(),
            speed: self.speed.model(),
            variation: self.variation.model(),
            latitude: self.latitude.model(),
            gravity: self.gravity.model(),
            lifespan: self.lifespan.model(),
            emission_rate: self.emission_rate.model(),
            length: self.length.model(),
            width: self.width.model(),
            filter_mode: self.filter_mode.model(),
            rows: self.rows.model(),
            columns: self.columns.model(),
            head_or_tail: self.head_or_tail.model(),
            tail_length: self.tail_length.model(),
            time: self.time.model(),
            segment_color: self.segment_color.model(),
            segment_alpha: self.segment_alpha.model(),
            segment_scaling: self.segment_scaling.model(),
            head_interval: self.head_interval.model(),
            head_decay_interval: self.head_decay_interval.model(),
            tail_interval: self.tail_interval.model(),
            tail_decay_interval: self.tail_decay_interval.model(),
            texture_id: self.texture_id.model(),
            squirt: self.squirt.model(),
            priority_plane: self.priority_plane.model(),
            replaceable_id: self.replaceable_id.model(),
            kp2s: opt_model(self.kp2s),
            kp2r: opt_model(self.kp2r),
            kp2l: opt_model(self.kp2l),
            kp2g: opt_model(self.kp2g),
            kp2e: opt_model(self.kp2e),
            kp2n: opt_model(self.kp2n),
            kp2w: opt_model(self.kp2w),
            kp2v: opt_model(self.kp2v),
            ordered: opt_seq(self.ordered),
        }
    }

    fn encode_slot(&self, tag: Tag, output: &mut Vec<u8>) -> (r: Result<(), EncodeError>) {
        if tag.same_as(&Kp2s::tag()) {
            assert(self.slots_model().slot_error(tag) == encode_error_opt::<Kp2s>(
                opt_model(self.kp2s),
            ));
            assert(self.slots_model().slot_wire(tag) == wire_opt::<Kp2s>(opt_model(self.kp2s)));
            encode_opt(&self.kp2s, output)
        } else if tag.same_as(&Kp2r::tag()) {
            assert(self.slots_model().slot_error(tag) == encode_error_opt::<Kp2r>(
                opt_model(self.kp2r),
            ));
            assert(self.slots_model().slot_wire(tag) == wire_opt::<Kp2r>(opt_model(self.kp2r)));
            encode_opt(&self.kp2r, output)
        } else if tag.same_as(&Kp2l::tag()) {
            assert(self.slots_model().slot_error(tag) == encode_error_opt::<Kp2l>(
                opt_model(self.kp2l),
            ));
            assert(self.slots_model().slot_wire(tag) == wire_opt::<Kp2l>(opt_model(self.kp2l)));
            encode_opt(&self.kp2l, output)
        } else if tag.same_as(&Kp2g::tag()) {
            assert(self.slots_model().slot_error(tag) == encode_error_opt::<Kp2g>(
                opt_model(self.kp2g),
            ));
            assert(self.slots_model().slot_wire(tag) == wire_opt::<Kp2g>(opt_model(self.kp2g)));
            encode_opt(&self.kp2g, output)
        } else if tag.same_as(&Kp2e::tag()) {
            assert(self.slots_model().slot_error(tag) == encode_error_opt::<Kp2e>(
                opt_model(self.kp2e),
            ));
            assert(self.slots_model().slot_wire(tag) == wire_opt::<Kp2e>(opt_model(self.kp2e)));
            encode_opt(&self.kp2e, output)
        } else if tag.same_as(&Kp2n::tag()) {
            assert(self.slots_model().slot_error(tag) == encode_error_opt::<Kp2n>(
                opt_model(self.kp2n),
            ));
            assert(self.slots_model().slot_wire(tag) == wire_opt::<Kp2n>(opt_model(self.kp2n)));
            encode_opt(&self.kp2n, output)
        } else if tag.same_as(&Kp2w::tag()) {
            assert(self.slots_model().slot_error(tag) == encode_error_opt::<Kp2w>(
                opt_model(self.kp2w),
            ));
            assert(self.slots_model().slot_wire(tag) == wire_opt::<Kp2w>(opt_model(self.kp2w)));
            encode_opt(&self.kp2w, output)
        } else if tag.same_as(&Kp2v::tag()) {
            assert(self.slots_model().slot_error(tag) == encode_error_opt::<Kp2v>(
                opt_model(self.kp2v),
            ));
            assert(self.slots_model().slot_wire(tag) == wire_opt::<Kp2v>(opt_model(self.kp2v)));
            encode_opt(&self.kp2v, output)
        } else {
            assert(self.slots_model().slot_error(tag) is None);
            assert(output@ =~= old(output)@ + self.slots_model().slot_wire(tag));
            Ok(())
        }
    }
}

impl TaggedBlocks for ParticleEmitter2 {
    open spec fn spec_block(m: ParticleEmitter2Model, tag: Tag, input: Seq<u8>) -> BlockStep<ParticleEmitter2Model> {
        if tag == Kp2s::spec_tag() {
            match Kp2s::spec_parse(None, input) {
                Ok((rest, block)) => BlockStep::Parsed(
                    rest,
                    ParticleEmitter2Model {
                        node: m.node,
                        speed: m.speed,
                        variation: m.variation,
                        latitude: m.latitude,
                        gravity: m.gravity,
                        lifespan: m.lifespan,
                        emission_rate: m.emission_rate,
                        length: m.length,
                        width: m.width,
                        filter_mode: m.filter_mode,
                        rows: m.rows,
                        columns: m.columns,
                        head_or_tail: m.head_or_tail,
                        tail_length: m.tail_length,
                        time: m.time,
                        segment_color: m.segment_color,
                        segment_alpha: m.segment_alpha,
                        segment_scaling: m.segment_scaling,
                        head_interval: m.head_interval,
                        head_decay_interval: m.head_decay_interval,
                        tail_interval: m.tail_interval,
                        tail_decay_interval: m.tail_decay_interval,
                        texture_id: m.texture_id,
                        squirt: m.squirt,
                        priority_plane: m.priority_plane,
                        replaceable_id: m.replaceable_id,
                        kp2s: Some(block),
                        kp2r: m.kp2r,
                        kp2l: m.kp2l,
                        kp2g: m.kp2g,
                        kp2e: m.kp2e,
                        kp2n: m.kp2n,
                        kp2w: m.kp2w,
                        kp2v: m.kp2v,
                        ordered: Some(m.order().push(tag)),
                    },
                ),
                Err(e) => BlockStep::Failed(e),
            }
        } else if tag == Kp2r::spec_tag() {
            match Kp2r::spec_parse(None, input) {
                Ok((rest, block)) => BlockStep::Parsed(
                    rest,
                    ParticleEmitter2Model {
                        node: m.node,
                        speed: m.speed,
                        variation: m.variation,
                        latitude: m.latitude,
                        gravity: m.gravity,
                        lifespan: m.lifespan,
                        emission_rate: m.emission_rate,
                        length: m.length,
                        width: m.width,
                        filter_mode: m.filter_mode,
                        rows: m.rows,
                        columns: m.columns,
                        head_or_tail: m.head_or_tail,
                        tail_length: m.tail_length,
                        time: m.time,
                        segment_color: m.segment_color,
                        segment_alpha: m.segment_alpha,
                        segment_scaling: m.segment_scaling,
                        head_interval: m.head_interval,
                        head_decay_interval: m.head_decay_interval,
                        tail_interval: m.tail_interval,
                        tail_decay_interval: m.tail_decay_interval,
                        texture_id: m.texture_id,
                        squirt: m.squirt,
                        priority_plane: m.priority_plane,
                        replaceable_id: m.replaceable_id,
                        kp2s: m.kp2s,
                        kp2r: Some(block),
                        kp2l: m.kp2l,
                        kp2g: m.kp2g,
                        kp2e: m.kp2e,
                        kp2n: m.kp2n,
                        kp2w: m.kp2w,
                        kp2v: m.kp2v,
                        ordered: Some(m.order().push(tag)),
                    },
                ),
                Err(e) => BlockStep::Failed(e),
            }
        } else if tag == Kp2l::spec_tag() {
            match Kp2l::spec_parse(None, input) {
                Ok((rest, block)) => BlockStep::Parsed(
                    rest,
                    ParticleEmitter2Model {
                        node: m.node,
                        speed: m.speed,
                        variation: m.variation,
                        latitude: m.latitude,
                        gravity: m.gravity,
                        lifespan: m.lifespan,
                        emission_rate: m.emission_rate,
                        length: m.length,
                        width: m.width,
                        filter_mode: m.filter_mode,
                        rows: m.rows,
                        columns: m.columns,
                        head_or_tail: m.head_or_tail,
                        tail_length: m.tail_length,
                        time: m.time,
                        segment_color: m.segment_color,
                        segment_alpha: m.segment_alpha,
                        segment_scaling: m.segment_scaling,
                        head_interval: m.head_interval,
                        head_decay_interval: m.head_decay_interval,
                        tail_interval: m.tail_interval,
                        tail_decay_interval: m.tail_decay_interval,
                        texture_id: m.texture_id,
                        squirt: m.squirt,
                        priority_plane: m.priority_plane,
                        replaceable_id: m.replaceable_id,
                        kp2s: m.kp2s,
                        kp2r: m.kp2r,
                        kp2l: Some(block),
                        kp2g: m.kp2g,
                        kp2e: m.kp2e,
                        kp2n: m.kp2n,
                        kp2w: m.kp2w,
                        kp2v: m.kp2v,
                        ordered: Some(m.order().push(tag)),
                    },
                ),
                Err(e) => BlockStep::Failed(e),
            }
        } else if tag == Kp2g::spec_tag() {
            match Kp2g::spec_parse(None, input) {
                Ok((rest, block)) => BlockStep::Parsed(
                    rest,
                    ParticleEmitter2Model {
                        node: m.node,
                        speed: m.speed,
                        variation: m.variation,
                        latitude: m.latitude,
                        gravity: m.gravity,
                        lifespan: m.lifespan,
                        emission_rate: m.emission_rate,
                        length: m.length,
                        width: m.width,
                        filter_mode: m.filter_mode,
                        rows: m.rows,
                        columns: m.columns,
                        head_or_tail: m.head_or_tail,
                        tail_length: m.tail_length,
                        time: m.time,
                        segment_color: m.segment_color,
                        segment_alpha: m.segment_alpha,
                        segment_scaling: m.segment_scaling,
                        head_interval: m.head_interval,
                        head_decay_interval: m.head_decay_interval,
                        tail_interval: m.tail_interval,
                        tail_decay_interval: m.tail_decay_interval,
                        texture_id: m.texture_id,
                        squirt: m.squirt,
                        priority_plane: m.priority_plane,
                        replaceable_id: m.replaceable_id,
                        kp2s: m.kp2s,
                        kp2r: m.kp2r,
                        kp2l: m.kp2l,
                        kp2g: Some(block),
                        kp2e: m.kp2e,
                        kp2n: m.kp2n,
                        kp2w: m.kp2w,
                        kp2v: m.kp2v,
                        ordered: Some(m.order().push(tag)),
                    },
                ),
                Err(e) => BlockStep::Failed(e),
            }
        } else if tag == Kp2e::spec_tag() {
            match Kp2e::spec_parse(None, input) {
                Ok((rest, block)) => BlockStep::Parsed(
                    rest,
                    ParticleEmitter2Model {
                        node: m.node,
                        speed: m.speed,
                        variation: m.variation,
                        latitude: m.latitude,
                        gravity: m.gravity,
                        lifespan: m.lifespan,
                        emission_rate: m.emission_rate,
                        length: m.length,
                        width: m.width,
                        filter_mode: m.filter_mode,
                        rows: m.rows,
                        columns: m.columns,
                        head_or_tail: m.head_or_tail,
                        tail_length: m.tail_length,
                        time: m.time,
                        segment_color: m.segment_color,
                        segment_alpha: m.segment_alpha,
                        segment_scaling: m.segment_scaling,
                        head_interval: m.head_interval,
                        head_decay_interval: m.head_decay_interval,
                        tail_interval: m.tail_interval,
                        tail_decay_interval: m.tail_decay_interval,
                        texture_id: m.texture_id,
                        squirt: m.squirt,
                        priority_plane: m.priority_plane,
                        replaceable_id: m.replaceable_id,
                        kp2s: m.kp2s,
                        kp2r: m.kp2r,
                        kp2l: m.kp2l,
                        kp2g: m.kp2g,
                        kp2e: Some(block),
                        kp2n: m.kp2n,
                        kp2w: m.kp2w,
                        kp2v: m.kp2v,
                        ordered: Some(m.order().push(tag)),
                    },
                ),
                Err(e) => BlockStep::Failed(e),
            }
        } else if tag == Kp2n::spec_tag() {
            match Kp2n::spec_parse(None, input) {
                Ok((rest, block)) => BlockStep::Parsed(
                    rest,
                    ParticleEmitter2Model {
                        node: m.node,
                        speed: m.speed,
                        variation: m.variation,
                        latitude: m.latitude,
                        gravity: m.gravity,
                        lifespan: m.lifespan,
                        emission_rate: m.emission_rate,
                        length: m.length,
                        width: m.width,
                        filter_mode: m.filter_mode,
                        rows: m.rows,
                        columns: m.columns,
                        head_or_tail: m.head_or_tail,
                        tail_length: m.tail_length,
                        time: m.time,
                        segment_color: m.segment_color,
                        segment_alpha: m.segment_alpha,
                        segment_scaling: m.segment_scaling,
                        head_interval: m.head_interval,
                        head_decay_interval: m.head_decay_interval,
                        tail_interval: m.tail_interval,
                        tail_decay_interval: m.tail_decay_interval,
                        texture_id: m.texture_id,
                        squirt: m.squirt,
                        priority_plane: m.priority_plane,
                        replaceable_id: m.replaceable_id,
                        kp2s: m.kp2s,
                        kp2r: m.kp2r,
                        kp2l: m.kp2l,
                        kp2g: m.kp2g,
                        kp2e: m.kp2e,
                        kp2n: Some(block),
                        kp2w: m.kp2w,
                        kp2v: m.kp2v,
                        ordered: Some(m.order().push(tag)),
                    },
                ),
                Err(e) => BlockStep::Failed(e),
            }
        } else if tag == Kp2w::spec_tag() {
            match Kp2w::spec_parse(None, input) {
                Ok((rest, block)) => BlockStep::Parsed(
                    rest,
                    ParticleEmitter2Model {
                        node: m.node,
                        speed: m.speed,
                        variation: m.variation,
                        latitude: m.latitude,
                        gravity: m.gravity,
                        lifespan: m.lifespan,
                        emission_rate: m.emission_rate,
                        length: m.length,
                        width: m.width,
                        filter_mode: m.filter_mode,
                        rows: m.rows,
                        columns: m.columns,
                        head_or_tail: m.head_or_tail,
                        tail_length: m.tail_length,
                        time: m.time,
                        segment_color: m.segment_color,
                        segment_alpha: m.segment_alpha,
                        segment_scaling: m.segment_scaling,
                        head_interval: m.head_interval,
                        head_decay_interval: m.head_decay_interval,
                        tail_interval: m.tail_interval,
                        tail_decay_interval: m.tail_decay_interval,
                        texture_id: m.texture_id,
                        squirt: m.squirt,
                        priority_plane: m.priority_plane,
                        replaceable_id: m.replaceable_id,
                        kp2s: m.kp2s,
                        kp2r: m.kp2r,
                        kp2l: m.kp2l,
                        kp2g: m.kp2g,
                        kp2e: m.kp2e,
                        kp2n: m.kp2n,
                        kp2w: Some(block),
                        kp2v: m.kp2v,
                        ordered: Some(m.order().push(tag)),
                    },
                ),
                Err(e) => BlockStep::Failed(e),
            }
        } else if tag == Kp2v::spec_tag() {
            match Kp2v::spec_parse(None, input) {
                Ok((rest, block)) => BlockStep::Parsed(
                    rest,
                    ParticleEmitter2Model {
                        node: m.node,
                        speed: m.speed,
                        variation: m.variation,
                        latitude: m.latitude,
                        gravity: m.gravity,
                        lifespan: m.lifespan,
                        emission_rate: m.emission_rate,
                        length: m.length,
                        width: m.width,
                        filter_mode: m.filter_mode,
                        rows: m.rows,
                        columns: m.columns,
                        head_or_tail: m.head_or_tail,
                        tail_length: m.tail_length,
                        time: m.time,
                        segment_color: m.segment_color,
                        segment_alpha: m.segment_alpha,
                        segment_scaling: m.segment_scaling,
                        head_interval: m.head_interval,
                        head_decay_interval: m.head_decay_interval,
                        tail_interval: m.tail_interval,
                        tail_decay_interval: m.tail_decay_interval,
                        texture_id: m.texture_id,
                        squirt: m.squirt,
                        priority_plane: m.priority_plane,
                        replaceable_id: m.replaceable_id,
                        kp2s: m.kp2s,
                        kp2r: m.kp2r,
                        kp2l: m.kp2l,
                        kp2g: m.kp2g,
                        kp2e: m.kp2e,
                        kp2n: m.kp2n,
                        kp2w: m.kp2w,
                        kp2v: Some(block),
                        ordered: Some(m.order().push(tag)),
                    },
                ),
                Err(e) => BlockStep::Failed(e),
            }
        } else {
            BlockStep::Failed(MdxParseError::UnknownTag(tag))
        }
    }

    fn parse_block<'a>(&mut self, tag: Tag, input: &'a [u8]) -> (r: Parser<'a, bool>) {
        if tag.same_as(&Kp2s::tag()) {
            let (rest, block) = Kp2s::parse(input)?;
            self.kp2s = Some(block);
            record_tag(&mut self.ordered, tag);
            Ok((rest, false))
        } else if tag.same_as(&Kp2r::tag()) {
            let (rest, block) = Kp2r::parse(input)?;
            self.kp2r = Some(block);
            record_tag(&mut self.ordered, tag);
            Ok((rest, false))
        } else if tag.same_as(&Kp2l::tag()) {
            let (rest, block) = Kp2l::parse(input)?;
            self.kp2l = Some(block);
            record_tag(&mut self.ordered, tag);
            Ok((rest, false))
        } else if tag.same_as(&Kp2g::tag()) {
            let (rest, block) = Kp2g::parse(input)?;
            self.kp2g = Some(block);
            record_tag(&mut self.ordered, tag);
            Ok((rest, false))
        } else if tag.same_as(&Kp2e::tag()) {
            let (rest, block) = Kp2e::parse(input)?;
            self.kp2e = Some(block);
            record_tag(&mut self.ordered, tag);
            Ok((rest, false))
        } else if tag.same_as(&Kp2n::tag()) {
            let (rest, block) = Kp2n::parse(input)?;
            self.kp2n = Some(block);
            record_tag(&mut self.ordered, tag);
            Ok((rest, false))
        } else if tag.same_as(&Kp2w::tag()) {
            let (rest, block) = Kp2w::parse(input)?;
            self.kp2w = Some(block);
            record_tag(&mut self.ordered, tag);
            Ok((rest, false))
        } else if tag.same_as(&Kp2v::tag()) {
            let (rest, block) = Kp2v::parse(input)?;
            self.kp2v = Some(block);
            record_tag(&mut self.ordered, tag);
            Ok((rest, false))
        } else {
            Err(MdxParseError::UnknownTag(tag))
        }
    }
}

impl LosslessBlocks for ParticleEmitter2 {
    proof fn lemma_block_step(m: ParticleEmitter2Model, tag: Tag, input: Seq<u8>) {
        if tag == Kp2s::spec_tag() {
            Kp2s::lemma_parse_wire(None, input);
        } else if tag == Kp2r::spec_tag() {
            Kp2r::lemma_parse_wire(None, input);
        } else if tag == Kp2l::spec_tag() {
            Kp2l::lemma_parse_wire(None, input);
        } else if tag == Kp2g::spec_tag() {
            Kp2g::lemma_parse_wire(None, input);
        } else if tag == Kp2e::spec_tag() {
            Kp2e::lemma_parse_wire(None, input);
        } else if tag == Kp2n::spec_tag() {
            Kp2n::lemma_parse_wire(None, input);
        } else if tag == Kp2w::spec_tag() {
            Kp2w::lemma_parse_wire(None, input);
        } else if tag == Kp2v::spec_tag() {
            Kp2v::lemma_parse_wire(None, input);
        }
    }
}

impl SizedBody for ParticleEmitter2 {
    type Model = ParticleEmitter2Model;

    open spec fn body_model(&self) -> ParticleEmitter2Model {
        self.slots_model()
    }

    open spec fn spec_parse_body(version: Option<u32>, input: Seq<u8>) -> Parsed<ParticleEmitter2Model> {
        match Node::spec_parse(None, input) {
            Ok((rest, node)) => match FloatBits::spec_parse(None, rest) {
                Ok((rest, speed)) => match FloatBits::spec_parse(None, rest) {
                    Ok((rest, variation)) => match FloatBits::spec_parse(None, rest) {
                        Ok((rest, latitude)) => match FloatBits::spec_parse(None, rest) {
                            Ok((rest, gravity)) => match FloatBits::spec_parse(None, rest) {
                                Ok((rest, lifespan)) => match FloatBits::spec_parse(None, rest) {
                                    Ok((rest, emission_rate)) => match FloatBits::spec_parse(None, rest) {
                                        Ok((rest, length)) => match FloatBits::spec_parse(None, rest) {
                                            Ok((rest, width)) => match FilterMode::spec_parse(None, rest) {
                                                Ok((rest, filter_mode)) => match u32::spec_parse(None, rest) {
                                                    Ok((rest, rows)) => match u32::spec_parse(None, rest) {
                                                        Ok((rest, columns)) => match HeadTail::spec_parse(None, rest) {
                                                            Ok((rest, head_or_tail)) => match FloatBits::spec_parse(None, rest) {
                                                                Ok((rest, tail_length)) => match FloatBits::spec_parse(None, rest) {
                                                                    Ok((rest, time)) => match <[[FloatBits; 3]; 3]>::spec_parse(None, rest) {
                                                                        Ok((rest, segment_color)) => match <[u8; 3]>::spec_parse(None, rest) {
                                                                            Ok((rest, segment_alpha)) => match <[FloatBits; 3]>::spec_parse(None, rest) {
                                                                                Ok((rest, segment_scaling)) => match <[u32; 3]>::spec_parse(None, rest) {
                                                                                    Ok((rest, head_interval)) => match <[u32; 3]>::spec_parse(None, rest) {
                                                                                        Ok((rest, head_decay_interval)) => match <[u32; 3]>::spec_parse(None, rest) {
                                                                                            Ok((rest, tail_interval)) => match <[u32; 3]>::spec_parse(None, rest) {
                                                                                                Ok((rest, tail_decay_interval)) => match u32::spec_parse(None, rest) {
                                                                                                    Ok((rest, texture_id)) => match u32::spec_parse(None, rest) {
                                                                                                        Ok((rest, squirt)) => match u32::spec_parse(None, rest) {
                                                                                                            Ok((rest, priority_plane)) => match u32::spec_parse(None, rest) {
                                                                                                                Ok((rest, replaceable_id)) => match spec_parse_tagged::<ParticleEmitter2>(
                                                                                                                    ParticleEmitter2Model {
                                                                                                                        node,
                                                                                                                        speed,
                                                                                                                        variation,
                                                                                                                        latitude,
                                                                                                                        gravity,
                                                                                                                        lifespan,
                                                                                                                        emission_rate,
                                                                                                                        length,
                                                                                                                        width,
                                                                                                                        filter_mode,
                                                                                                                        rows,
                                                                                                                        columns,
                                                                                                                        head_or_tail,
                                                                                                                        tail_length,
                                                                                                                        time,
                                                                                                                        segment_color,
                                                                                                                        segment_alpha,
                                                                                                                        segment_scaling,
                                                                                                                        head_interval,
                                                                                                                        head_decay_interval,
                                                                                                                        tail_interval,
                                                                                                                        tail_decay_interval,
                                                                                                                        texture_id,
                                                                                                                        squirt,
                                                                                                                        priority_plane,
                                                                                                                        replaceable_id,
                                                                                                                        kp2s: None,
                                                                                                                        kp2r: None,
                                                                                                                        kp2l: None,
                                                                                                                        kp2g: None,
                                                                                                                        kp2e: None,
                                                                                                                        kp2n: None,
                                                                                                                        kp2w: None,
                                                                                                                        kp2v: None,
                                                                                                                        ordered: Some(Seq::empty()),
                                                                                                                    },
                                                                                                                    rest,
                                                                                                                ) {
                                                                                                                    Ok((rest, scanned)) => Ok((rest, scanned)),
                                                                                                                    Err(e) => Err(e),
                                                                                                                },
                                                                                                                Err(e) => Err(e),
                                                                                                            },
                                                                                                            Err(e) => Err(e),
                                                                                                        },
                                                                                                        Err(e) => Err(e),
                                                                                                    },
                                                                                                    Err(e) => Err(e),
                                                                                                },
                                                                                                Err(e) => Err(e),
                                                                                            },
                                                                                            Err(e) => Err(e),
                                                                                        },
                                                                                        Err(e) => Err(e),
                                                                                    },
                                                                                    Err(e) => Err(e),
                                                                                },
                                                                                Err(e) => Err(e),
                                                                            },
                                                                            Err(e) => Err(e),
                                                                        },
                                                                        Err(e) => Err(e),
                                                                    },
                                                                    Err(e) => Err(e),
                                                                },
                                                                Err(e) => Err(e),
                                                            },
                                                            Err(e) => Err(e),
                                                        },
                                                        Err(e) => Err(e),
                                                    },
                                                    Err(e) => Err(e),
                                                },
                                                Err(e) => Err(e),
                                            },
                                            Err(e) => Err(e),
                                        },
                                        Err(e) => Err(e),
                                    },
                                    Err(e) => Err(e),
                                },
                                Err(e) => Err(e),
                            },
                            Err(e) => Err(e),
                        },
                        Err(e) => Err(e),
                    },
                    Err(e) => Err(e),
                },
                Err(e) => Err(e),
            },
            Err(e) => Err(e),
        }
    }

    open spec fn body_wire(m: ParticleEmitter2Model) -> Seq<u8> {
        Node::wire(m.node) + (FloatBits::wire(m.speed) + (FloatBits::wire(m.variation) + (FloatBits::wire(m.latitude) + (FloatBits::wire(m.gravity) + (FloatBits::wire(m.lifespan) + (FloatBits::wire(m.emission_rate) + (FloatBits::wire(m.length) + (FloatBits::wire(m.width) + (FilterMode::wire(m.filter_mode) + (u32::wire(m.rows) + (u32::wire(m.columns) + (HeadTail::wire(m.head_or_tail) + (FloatBits::wire(m.tail_length) + (FloatBits::wire(m.time) + (<[[FloatBits; 3]; 3]>::wire(m.segment_color) + (<[u8; 3]>::wire(m.segment_alpha) + (<[FloatBits; 3]>::wire(m.segment_scaling) + (<[u32; 3]>::wire(m.head_interval) + (<[u32; 3]>::wire(m.head_decay_interval) + (<[u32; 3]>::wire(m.tail_interval) + (<[u32; 3]>::wire(m.tail_decay_interval) + (u32::wire(m.texture_id) + (u32::wire(m.squirt) + (u32::wire(m.priority_plane) + (u32::wire(m.replaceable_id) + (wire_slots(m)))))))))))))))))))))))))))
    }

    open spec fn body_encode_error(m: ParticleEmitter2Model) -> Option<EncodeError> {
        match Node::encode_error(m.node) {
            Some(e) => Some(e),
            None => match FloatBits::encode_error(m.speed) {
                Some(e) => Some(e),
                None => match FloatBits::encode_error(m.variation) {
                    Some(e) => Some(e),
                    None => match FloatBits::encode_error(m.latitude) {
                        Some(e) => Some(e),
                        None => match FloatBits::encode_error(m.gravity) {
                            Some(e) => Some(e),
                            None => match FloatBits::encode_error(m.lifespan) {
                                Some(e) => Some(e),
                                None => match FloatBits::encode_error(m.emission_rate) {
                                    Some(e) => Some(e),
                                    None => match FloatBits::encode_error(m.length) {
                                        Some(e) => Some(e),
                                        None => match FloatBits::encode_error(m.width) {
                                            Some(e) => Some(e),
                                            None => match FilterMode::encode_error(m.filter_mode) {
                                                Some(e) => Some(e),
                                                None => match u32::encode_error(m.rows) {
                                                    Some(e) => Some(e),
                                                    None => match u32::encode_error(m.columns) {
                                                        Some(e) => Some(e),
                                                        None => match HeadTail::encode_error(m.head_or_tail) {
                                                            Some(e) => Some(e),
                                                            None => match FloatBits::encode_error(m.tail_length) {
                                                                Some(e) => Some(e),
                                                                None => match FloatBits::encode_error(m.time) {
                                                                    Some(e) => Some(e),
                                                                    None => match <[[FloatBits; 3]; 3]>::encode_error(m.segment_color) {
                                                                        Some(e) => Some(e),
                                                                        None => match <[u8; 3]>::encode_error(m.segment_alpha) {
                                                                            Some(e) => Some(e),
                                                                            None => match <[FloatBits; 3]>::encode_error(m.segment_scaling) {
                                                                                Some(e) => Some(e),
                                                                                None => match <[u32; 3]>::encode_error(m.head_interval) {
                                                                                    Some(e) => Some(e),
                                                                                    None => match <[u32; 3]>::encode_error(m.head_decay_interval) {
                                                                                        Some(e) => Some(e),
                                                                                        None => match <[u32; 3]>::encode_error(m.tail_interval) {
                                                                                            Some(e) => Some(e),
                                                                                            None => match <[u32; 3]>::encode_error(m.tail_decay_interval) {
                                                                                                Some(e) => Some(e),
                                                                                                None => match u32::encode_error(m.texture_id) {
                                                                                                    Some(e) => Some(e),
                                                                                                    None => match u32::encode_error(m.squirt) {
                                                                                                        Some(e) => Some(e),
                                                                                                        None => match u32::encode_error(m.priority_plane) {
                                                                                                            Some(e) => Some(e),
                                                                                                            None => match u32::encode_error(m.replaceable_id) {
                                                                                                                Some(e) => Some(e),
                                                                                                                None => encode_error_slots(m),
                                                                                                            },
                                                                                                        },
                                                                                                    },
                                                                                                },
                                                                                            },
                                                                                        },
                                                                                    },
                                                                                },
                                                                            },
                                                                        },
                                                                    },
                                                                },
                                                            },
                                                        },
                                                    },
                                                },
                                            },
                                        },
                                    },
                                },
                            },
                        },
                    },
                },
            },
        }
    }

    fn parse_body<'a>(version: Option<u32>, input: &'a [u8]) -> (r: Parser<'a, ParticleEmitter2>) {
        let (input, node) = Node::parse(input)?;
        let (input, speed) = FloatBits::parse(input)?;
        let (input, variation) = FloatBits::parse(input)?;
        let (input, latitude) = FloatBits::parse(input)?;
        let (input, gravity) = FloatBits::parse(input)?;
        let (input, lifespan) = FloatBits::parse(input)?;
        let (input, emission_rate) = FloatBits::parse(input)?;
        let (input, length) = FloatBits::parse(input)?;
        let (input, width) = FloatBits::parse(input)?;
        let (input, filter_mode) = FilterMode::parse(input)?;
        let (input, rows) = u32::parse(input)?;
        let (input, columns) = u32::parse(input)?;
        let (input, head_or_tail) = HeadTail::parse(input)?;
        let (input, tail_length) = FloatBits::parse(input)?;
        let (input, time) = FloatBits::parse(input)?;
        let (input, segment_color) = <[[FloatBits; 3]; 3]>::parse(input)?;
        let (input, segment_alpha) = <[u8; 3]>::parse(input)?;
        let (input, segment_scaling) = <[FloatBits; 3]>::parse(input)?;
        let (input, head_interval) = <[u32; 3]>::parse(input)?;
        let (input, head_decay_interval) = <[u32; 3]>::parse(input)?;
        let (input, tail_interval) = <[u32; 3]>::parse(input)?;
        let (input, tail_decay_interval) = <[u32; 3]>::parse(input)?;
        let (input, texture_id) = u32::parse(input)?;
        let (input, squirt) = u32::parse(input)?;
        let (input, priority_plane) = u32::parse(input)?;
        let (input, replaceable_id) = u32::parse(input)?;
        let mut value = ParticleEmitter2 {
            node,
            speed,
            variation,
            latitude,
            gravity,
            lifespan,
            emission_rate,
            length,
            width,
            filter_mode,
            rows,
            columns,
            head_or_tail,
            tail_length,
            time,
            segment_color,
            segment_alpha,
            segment_scaling,
            head_interval,
            head_decay_interval,
            tail_interval,
            tail_decay_interval,
            texture_id,
            squirt,
            priority_plane,
            replaceable_id,
            kp2s: None,
            kp2r: None,
            kp2l: None,
            kp2g: None,
            kp2e: None,
            kp2n: None,
            kp2w: None,
            kp2v: None,
            ordered: Some(Vec::new()),
        };
        let (input, _) = parse_tagged(&mut value, input)?;
        Ok((input, value))
    }

    fn encode_body(&self, output: &mut Vec<u8>) -> (r: Result<(), EncodeError>) {
        let ghost p0 = output@;
        self.node.encode(output)?;
        let ghost p1 = output@;
        self.speed.encode(output)?;
        let ghost p2 = output@;
        self.variation.encode(output)?;
        let ghost p3 = output@;
        self.latitude.encode(output)?;
        let ghost p4 = output@;
        self.gravity.encode(output)?;
        let ghost p5 = output@;
        self.lifespan.encode(output)?;
        let ghost p6 = output@;
        self.emission_rate.encode(output)?;
        let ghost p7 = output@;
        self.length.encode(output)?;
        let ghost p8 = output@;
        self.width.encode(output)?;
        let ghost p9 = output@;
        self.filter_mode.encode(output)?;
        let ghost p10 = output@;
        self.rows.encode(output)?;
        let ghost p11 = output@;
        self.columns.encode(output)?;
        let ghost p12 = output@;
        self.head_or_tail.encode(output)?;
        let ghost p13 = output@;
        self.tail_length.encode(output)?;
        let ghost p14 = output@;
        self.time.encode(output)?;
        let ghost p15 = output@;
        self.segment_color.encode(output)?;
        let ghost p16 = output@;
        self.segment_alpha.encode(output)?;
        let ghost p17 = output@;
        self.segment_scaling.encode(output)?;
        let ghost p18 = output@;
        self.head_interval.encode(output)?;
        let ghost p19 = output@;
        self.head_decay_interval.encode(output)?;
        let ghost p20 = output@;
        self.tail_interval.encode(output)?;
        let ghost p21 = output@;
        self.tail_decay_interval.encode(output)?;
        let ghost p22 = output@;
        self.texture_id.encode(output)?;
        let ghost p23 = output@;
        self.squirt.encode(output)?;
        let ghost p24 = output@;
        self.priority_plane.encode(output)?;
        let ghost p25 = output@;
        self.replaceable_id.encode(output)?;
        let ghost p26 = output@;
        let canonical = [Kp2s::tag(), Kp2r::tag(), Kp2l::tag(), Kp2g::tag(), Kp2e::tag(), Kp2n::tag(), Kp2w::tag(), Kp2v::tag()];
        assert(canonical@ =~= ParticleEmitter2Model::canonical());
        encode_slots(self, &self.ordered, canonical.as_slice(), output)?;
        proof {
            let m = self.body_model();
            let w1 = Node::wire(m.node);
            let w2 = FloatBits::wire(m.speed);
            let w3 = FloatBits::wire(m.variation);
            let w4 = FloatBits::wire(m.latitude);
            let w5 = FloatBits::wire(m.gravity);
            let w6 = FloatBits::wire(m.lifespan);
            let w7 = FloatBits::wire(m.emission_rate);
            let w8 = FloatBits::wire(m.length);
            let w9 = FloatBits::wire(m.width);
            let w10 = FilterMode::wire(m.filter_mode);
            let w11 = u32::wire(m.rows);
            let w12 = u32::wire(m.columns);
            let w13 = HeadTail::wire(m.head_or_tail);
            let w14 = FloatBits::wire(m.tail_length);
            let w15 = FloatBits::wire(m.time);
            let w16 = <[[FloatBits; 3]; 3]>::wire(m.segment_color);
            let w17 = <[u8; 3]>::wire(m.segment_alpha);
            let w18 = <[FloatBits; 3]>::wire(m.segment_scaling);
            let w19 = <[u32; 3]>::wire(m.head_interval);
            let w20 = <[u32; 3]>::wire(m.head_decay_interval);
            let w21 = <[u32; 3]>::wire(m.tail_interval);
            let w22 = <[u32; 3]>::wire(m.tail_decay_interval);
            let w23 = u32::wire(m.texture_id);
            let w24 = u32::wire(m.squirt);
            let w25 = u32::wire(m.priority_plane);
            let w26 = u32::wire(m.replaceable_id);
            let w27 = wire_slots(m);
            let s26 = w26 + w27;
            let s25 = w25 + s26;
            let s24 = w24 + s25;
            let s23 = w23 + s24;
            let s22 = w22 + s23;
            let s21 = w21 + s22;
            let s20 = w20 + s21;
            let s19 = w19 + s20;
            let s18 = w18 + s19;
            let s17 = w17 + s18;
            let s16 = w16 + s17;
            let s15 = w15 + s16;
            let s14 = w14 + s15;
            let s13 = w13 + s14;
            let s12 = w12 + s13;
            let s11 = w11 + s12;
            let s10 = w10 + s11;
            let s9 = w9 + s10;
            let s8 = w8 + s9;
            let s7 = w7 + s8;
            let s6 = w6 + s7;
            let s5 = w5 + s6;
            let s4 = w4 + s5;
            let s3 = w3 + s4;
            let s2 = w2 + s3;
            lemma_append_assoc(p25, w26, w27);
            lemma_append_assoc(p24, w25, s26);
            lemma_append_assoc(p23, w24, s25);
            lemma_append_assoc(p22, w23, s24);
            lemma_append_assoc(p21, w22, s23);
            lemma_append_assoc(p20, w21, s22);
            lemma_append_assoc(p19, w20, s21);
            lemma_append_assoc(p18, w19, s20);
            lemma_append_assoc(p17, w18, s19);
            lemma_append_assoc(p16, w17, s18);
            lemma_append_assoc(p15, w16, s17);
            lemma_append_assoc(p14, w15, s16);
            lemma_append_assoc(p13, w14, s15);
            lemma_append_assoc(p12, w13, s14);
            lemma_append_assoc(p11, w12, s13);
            lemma_append_assoc(p10, w11, s12);
            lemma_append_assoc(p9, w10, s11);
            lemma_append_assoc(p8, w9, s10);
            lemma_append_assoc(p7, w8, s9);
            lemma_append_assoc(p6, w7, s8);
            lemma_append_assoc(p5, w6, s7);
            lemma_append_assoc(p4, w5, s6);
            lemma_append_assoc(p3, w4, s5);
            lemma_append_assoc(p2, w3, s4);
            lemma_append_assoc(p1, w2, s3);
            lemma_append_assoc(p0, w1, s2);
        }
        Ok(())
    }
}

impl LosslessBody for ParticleEmitter2 {
    open spec fn body_faithful(m: ParticleEmitter2Model) -> bool {
        Node::faithful(m.node) && FloatBits::faithful(m.speed) && FloatBits::faithful(m.variation) && FloatBits::faithful(m.latitude) && FloatBits::faithful(m.gravity) && FloatBits::faithful(m.lifespan) && FloatBits::faithful(m.emission_rate) && FloatBits::faithful(m.length) && FloatBits::faithful(m.width) && FilterMode::faithful(m.filter_mode) && u32::faithful(m.rows) && u32::faithful(m.columns) && HeadTail::faithful(m.head_or_tail) && FloatBits::faithful(m.tail_length) && FloatBits::faithful(m.time) && <[[FloatBits; 3]; 3]>::faithful(m.segment_color) && <[u8; 3]>::faithful(m.segment_alpha) && <[FloatBits; 3]>::faithful(m.segment_scaling) && <[u32; 3]>::faithful(m.head_interval) && <[u32; 3]>::faithful(m.head_decay_interval) && <[u32; 3]>::faithful(m.tail_interval) && <[u32; 3]>::faithful(m.tail_decay_interval) && u32::faithful(m.texture_id) && u32::faithful(m.squirt) && u32::faithful(m.priority_plane) && u32::faithful(m.replaceable_id) && m.order().no_duplicates() && slots_faithful(m, m.order())
    }

    #[verifier::rlimit(50)]
    proof fn lemma_body_parse_wire(version: Option<u32>, input: Seq<u8>) {
        Node::lemma_parse_wire(None, input);
        match Node::spec_parse(None, input) {
            Ok((rest1, node)) => {
                assert(Node::faithful(node) ==> Node::encode_error(node) is None
                    && Node::wire(node) + rest1 == input);
                FloatBits::lemma_parse_wire(None, rest1);
                match FloatBits::spec_parse(None, rest1) {
                    Ok((rest2, speed)) => {
                        assert(FloatBits::faithful(speed) ==> FloatBits::encode_error(speed) is None
                            && FloatBits::wire(speed) + rest2 == rest1);
                        FloatBits::lemma_parse_wire(None, rest2);
                        match FloatBits::spec_parse(None, rest2) {
                            Ok((rest3, variation)) => {
                                assert(FloatBits::faithful(variation) ==> FloatBits::encode_error(variation) is None
                                    && FloatBits::wire(variation) + rest3 == rest2);
                                FloatBits::lemma_parse_wire(None, rest3);
                                match FloatBits::spec_parse(None, rest3) {
                                    Ok((rest4, latitude)) => {
                                        assert(FloatBits::faithful(latitude) ==> FloatBits::encode_error(latitude) is None
                                            && FloatBits::wire(latitude) + rest4 == rest3);
                                        FloatBits::lemma_parse_wire(None, rest4);
                                        match FloatBits::spec_parse(None, rest4) {
                                            Ok((rest5, gravity)) => {
                                                assert(FloatBits::faithful(gravity) ==> FloatBits::encode_error(gravity) is None
                                                    && FloatBits::wire(gravity) + rest5 == rest4);
                                                FloatBits::lemma_parse_wire(None, rest5);
                                                match FloatBits::spec_parse(None, rest5) {
                                                    Ok((rest6, lifespan)) => {
                                                        assert(FloatBits::faithful(lifespan) ==> FloatBits::encode_error(lifespan) is None
                                                            && FloatBits::wire(lifespan) + rest6 == rest5);
                                                        FloatBits::lemma_parse_wire(None, rest6);
                                                        match FloatBits::spec_parse(None, rest6) {
                                                            Ok((rest7, emission_rate)) => {
                                                                assert(FloatBits::faithful(emission_rate) ==> FloatBits::encode_error(emission_rate) is None
                                                                    && FloatBits::wire(emission_rate) + rest7 == rest6);
                                                                FloatBits::lemma_parse_wire(None, rest7);
                                                                match FloatBits::spec_parse(None, rest7) {
                                                                    Ok((rest8, length)) => {
                                                                        assert(FloatBits::faithful(length) ==> FloatBits::encode_error(length) is None
                                                                            && FloatBits::wire(length) + rest8 == rest7);
                                                                        FloatBits::lemma_parse_wire(None, rest8);
                                                                        match FloatBits::spec_parse(None, rest8) {
                                                                            Ok((rest9, width)) => {
                                                                                assert(FloatBits::faithful(width) ==> FloatBits::encode_error(width) is None
                                                                                    && FloatBits::wire(width) + rest9 == rest8);
                                                                                FilterMode::lemma_parse_wire(None, rest9);
                                                                                match FilterMode::spec_parse(None, rest9) {
                                                                                    Ok((rest10, filter_mode)) => {
                                                                                        assert(FilterMode::faithful(filter_mode) ==> FilterMode::encode_error(filter_mode) is None
                                                                                            && FilterMode::wire(filter_mode) + rest10 == rest9);
                                                                                        u32::lemma_parse_wire(None, rest10);
                                                                                        match u32::spec_parse(None, rest10) {
                                                                                            Ok((rest11, rows)) => {
                                                                                                assert(u32::faithful(rows) ==> u32::encode_error(rows) is None
                                                                                                    && u32::wire(rows) + rest11 == rest10);
                                                                                                u32::lemma_parse_wire(None, rest11);
                                                                                                match u32::spec_parse(None, rest11) {
                                                                                                    Ok((rest12, columns)) => {
                                                                                                        assert(u32::faithful(columns) ==> u32::encode_error(columns) is None
                                                                                                            && u32::wire(columns) + rest12 == rest11);
                                                                                                        HeadTail::lemma_parse_wire(None, rest12);
                                                                                                        match HeadTail::spec_parse(None, rest12) {
                                                                                                            Ok((rest13, head_or_tail)) => {
                                                                                                                assert(HeadTail::faithful(head_or_tail) ==> HeadTail::encode_error(head_or_tail) is None
                                                                                                                    && HeadTail::wire(head_or_tail) + rest13 == rest12);
                                                                                                                FloatBits::lemma_parse_wire(None, rest13);
                                                                                                                match FloatBits::spec_parse(None, rest13) {
                                                                                                                    Ok((rest14, tail_length)) => {
                                                                                                                        assert(FloatBits::faithful(tail_length) ==> FloatBits::encode_error(tail_length) is None
                                                                                                                            && FloatBits::wire(tail_length) + rest14 == rest13);
                                                                                                                        FloatBits::lemma_parse_wire(None, rest14);
                                                                                                                        match FloatBits::spec_parse(None, rest14) {
                                                                                                                            Ok((rest15, time)) => {
                                                                                                                                assert(FloatBits::faithful(time) ==> FloatBits::encode_error(time) is None
                                                                                                                                    && FloatBits::wire(time) + rest15 == rest14);
                                                                                                                                <[[FloatBits; 3]; 3]>::lemma_parse_wire(None, rest15);
                                                                                                                                match <[[FloatBits; 3]; 3]>::spec_parse(None, rest15) {
                                                                                                                                    Ok((rest16, segment_color)) => {
                                                                                                                                        assert(<[[FloatBits; 3]; 3]>::faithful(segment_color) ==> <[[FloatBits; 3]; 3]>::encode_error(segment_color) is None
                                                                                                                                            && <[[FloatBits; 3]; 3]>::wire(segment_color) + rest16 == rest15);
                                                                                                                                        <[u8; 3]>::lemma_parse_wire(None, rest16);
                                                                                                                                        match <[u8; 3]>::spec_parse(None, rest16) {
                                                                                                                                            Ok((rest17, segment_alpha)) => {
                                                                                                                                                assert(<[u8; 3]>::faithful(segment_alpha) ==> <[u8; 3]>::encode_error(segment_alpha) is None
                                                                                                                                                    && <[u8; 3]>::wire(segment_alpha) + rest17 == rest16);
                                                                                                                                                <[FloatBits; 3]>::lemma_parse_wire(None, rest17);
                                                                                                                                                match <[FloatBits; 3]>::spec_parse(None, rest17) {
                                                                                                                                                    Ok((rest18, segment_scaling)) => {
                                                                                                                                                        assert(<[FloatBits; 3]>::faithful(segment_scaling) ==> <[FloatBits; 3]>::encode_error(segment_scaling) is None
                                                                                                                                                            && <[FloatBits; 3]>::wire(segment_scaling) + rest18 == rest17);
                                                                                                                                                        <[u32; 3]>::lemma_parse_wire(None, rest18);
                                                                                                                                                        match <[u32; 3]>::spec_parse(None, rest18) {
                                                                                                                                                            Ok((rest19, head_interval)) => {
                                                                                                                                                                assert(<[u32; 3]>::faithful(head_interval) ==> <[u32; 3]>::encode_error(head_interval) is None
                                                                                                                                                                    && <[u32; 3]>::wire(head_interval) + rest19 == rest18);
                                                                                                                                                                <[u32; 3]>::lemma_parse_wire(None, rest19);
                                                                                                                                                                match <[u32; 3]>::spec_parse(None, rest19) {
                                                                                                                                                                    Ok((rest20, head_decay_interval)) => {
                                                                                                                                                                        assert(<[u32; 3]>::faithful(head_decay_interval) ==> <[u32; 3]>::encode_error(head_decay_interval) is None
                                                                                                                                                                            && <[u32; 3]>::wire(head_decay_interval) + rest20 == rest19);
                                                                                                                                                                        <[u32; 3]>::lemma_parse_wire(None, rest20);
                                                                                                                                                                        match <[u32; 3]>::spec_parse(None, rest20) {
                                                                                                                                                                            Ok((rest21, tail_interval)) => {
                                                                                                                                                                                assert(<[u32; 3]>::faithful(tail_interval) ==> <[u32; 3]>::encode_error(tail_interval) is None
                                                                                                                                                                                    && <[u32; 3]>::wire(tail_interval) + rest21 == rest20);
                                                                                                                                                                                <[u32; 3]>::lemma_parse_wire(None, rest21);
                                                                                                                                                                                match <[u32; 3]>::spec_parse(None, rest21) {
                                                                                                                                                                                    Ok((rest22, tail_decay_interval)) => {
                                                                                                                                                                                        assert(<[u32; 3]>::faithful(tail_decay_interval) ==> <[u32; 3]>::encode_error(tail_decay_interval) is None
                                                                                                                                                                                            && <[u32; 3]>::wire(tail_decay_interval) + rest22 == rest21);
                                                                                                                                                                                        u32::lemma_parse_wire(None, rest22);
                                                                                                                                                                                        match u32::spec_parse(None, rest22) {
                                                                                                                                                                                            Ok((rest23, texture_id)) => {
                                                                                                                                                                                                assert(u32::faithful(texture_id) ==> u32::encode_error(texture_id) is None
                                                                                                                                                                                                    && u32::wire(texture_id) + rest23 == rest22);
                                                                                                                                                                                                u32::lemma_parse_wire(None, rest23);
                                                                                                                                                                                                match u32::spec_parse(None, rest23) {
                                                                                                                                                                                                    Ok((rest24, squirt)) => {
                                                                                                                                                                                                        assert(u32::faithful(squirt) ==> u32::encode_error(squirt) is None
                                                                                                                                                                                                            && u32::wire(squirt) + rest24 == rest23);
                                                                                                                                                                                                        u32::lemma_parse_wire(None, rest24);
                                                                                                                                                                                                        match u32::spec_parse(None, rest24) {
                                                                                                                                                                                                            Ok((rest25, priority_plane)) => {
                                                                                                                                                                                                                assert(u32::faithful(priority_plane) ==> u32::encode_error(priority_plane) is None
                                                                                                                                                                                                                    && u32::wire(priority_plane) + rest25 == rest24);
                                                                                                                                                                                                                u32::lemma_parse_wire(None, rest25);
                                                                                                                                                                                                                match u32::spec_parse(None, rest25) {
                                                                                                                                                                                                                    Ok((rest26, replaceable_id)) => {
                                                                                                                                                                                                                        assert(u32::faithful(replaceable_id) ==> u32::encode_error(replaceable_id) is None
                                                                                                                                                                                                                            && u32::wire(replaceable_id) + rest26 == rest25);
                                                                                                                                                                                                                        lemma_tagged_parse_wire::<ParticleEmitter2>(
                                                                                                                                                                                                                            ParticleEmitter2Model {
                                                                                                                                                                                                                                node,
                                                                                                                                                                                                                                speed,
                                                                                                                                                                                                                                variation,
                                                                                                                                                                                                                                latitude,
                                                                                                                                                                                                                                gravity,
                                                                                                                                                                                                                                lifespan,
                                                                                                                                                                                                                                emission_rate,
                                                                                                                                                                                                                                length,
                                                                                                                                                                                                                                width,
                                                                                                                                                                                                                                filter_mode,
                                                                                                                                                                                                                                rows,
                                                                                                                                                                                                                                columns,
                                                                                                                                                                                                                                head_or_tail,
                                                                                                                                                                                                                                tail_length,
                                                                                                                                                                                                                                time,
                                                                                                                                                                                                                                segment_color,
                                                                                                                                                                                                                                segment_alpha,
                                                                                                                                                                                                                                segment_scaling,
                                                                                                                                                                                                                                head_interval,
                                                                                                                                                                                                                                head_decay_interval,
                                                                                                                                                                                                                                tail_interval,
                                                                                                                                                                                                                                tail_decay_interval,
                                                                                                                                                                                                                                texture_id,
                                                                                                                                                                                                                                squirt,
                                                                                                                                                                                                                                priority_plane,
                                                                                                                                                                                                                                replaceable_id,
                                                                                                                                                                                                                                kp2s: None,
                                                                                                                                                                                                                                kp2r: None,
                                                                                                                                                                                                                                kp2l: None,
                                                                                                                                                                                                                                kp2g: None,
                                                                                                                                                                                                                                kp2e: None,
                                                                                                                                                                                                                                kp2n: None,
                                                                                                                                                                                                                                kp2w: None,
                                                                                                                                                                                                                                kp2v: None,
                                                                                                                                                                                                                                ordered: Some(Seq::empty()),
                                                                                                                                                                                                                            },
                                                                                                                                                                                                                            rest26,
                                                                                                                                                                                                                        );
                                                                                                                                                                                                                        match spec_parse_tagged::<ParticleEmitter2>(
                                                                                                                                                                                                                            ParticleEmitter2Model {
                                                                                                                                                                                                                                node,
                                                                                                                                                                                                                                speed,
                                                                                                                                                                                                                                variation,
                                                                                                                                                                                                                                latitude,
                                                                                                                                                                                                                                gravity,
                                                                                                                                                                                                                                lifespan,
                                                                                                                                                                                                                                emission_rate,
                                                                                                                                                                                                                                length,
                                                                                                                                                                                                                                width,
                                                                                                                                                                                                                                filter_mode,
                                                                                                                                                                                                                                rows,
                                                                                                                                                                                                                                columns,
                                                                                                                                                                                                                                head_or_tail,
                                                                                                                                                                                                                                tail_length,
                                                                                                                                                                                                                                time,
                                                                                                                                                                                                                                segment_color,
                                                                                                                                                                                                                                segment_alpha,
                                                                                                                                                                                                                                segment_scaling,
                                                                                                                                                                                                                                head_interval,
                                                                                                                                                                                                                                head_decay_interval,
                                                                                                                                                                                                                                tail_interval,
                                                                                                                                                                                                                                tail_decay_interval,
                                                                                                                                                                                                                                texture_id,
                                                                                                                                                                                                                                squirt,
                                                                                                                                                                                                                                priority_plane,
                                                                                                                                                                                                                                replaceable_id,
                                                                                                                                                                                                                                kp2s: None,
                                                                                                                                                                                                                                kp2r: None,
                                                                                                                                                                                                                                kp2l: None,
                                                                                                                                                                                                                                kp2g: None,
                                                                                                                                                                                                                                kp2e: None,
                                                                                                                                                                                                                                kp2n: None,
                                                                                                                                                                                                                                kp2w: None,
                                                                                                                                                                                                                                kp2v: None,
                                                                                                                                                                                                                                ordered: Some(Seq::empty()),
                                                                                                                                                                                                                            },
                                                                                                                                                                                                                            rest26,
                                                                                                                                                                                                                        ) {
                                                                                                                                                                                                                            Ok((rest27, scanned)) => {
                                                                                                                                                                                                                                let m = scanned;
                                                                                                                                                                                                                                if Self::body_faithful(m) {
                                                                                                                                                                                                                                    assert(scanned.order().skip(0) =~= scanned.order());
                                                                                                                                                                                                                                    let w1 = Node::wire(m.node);
                                                                                                                                                                                                                                    let w2 = FloatBits::wire(m.speed);
                                                                                                                                                                                                                                    let w3 = FloatBits::wire(m.variation);
                                                                                                                                                                                                                                    let w4 = FloatBits::wire(m.latitude);
                                                                                                                                                                                                                                    let w5 = FloatBits::wire(m.gravity);
                                                                                                                                                                                                                                    let w6 = FloatBits::wire(m.lifespan);
                                                                                                                                                                                                                                    let w7 = FloatBits::wire(m.emission_rate);
                                                                                                                                                                                                                                    let w8 = FloatBits::wire(m.length);
                                                                                                                                                                                                                                    let w9 = FloatBits::wire(m.width);
                                                                                                                                                                                                                                    let w10 = FilterMode::wire(m.filter_mode);
                                                                                                                                                                                                                                    let w11 = u32::wire(m.rows);
                                                                                                                                                                                                                                    let w12 = u32::wire(m.columns);
                                                                                                                                                                                                                                    let w13 = HeadTail::wire(m.head_or_tail);
                                                                                                                                                                                                                                    let w14 = FloatBits::wire(m.tail_length);
                                                                                                                                                                                                                                    let w15 = FloatBits::wire(m.time);
                                                                                                                                                                                                                                    let w16 = <[[FloatBits; 3]; 3]>::wire(m.segment_color);
                                                                                                                                                                                                                                    let w17 = <[u8; 3]>::wire(m.segment_alpha);
                                                                                                                                                                                                                                    let w18 = <[FloatBits; 3]>::wire(m.segment_scaling);
                                                                                                                                                                                                                                    let w19 = <[u32; 3]>::wire(m.head_interval);
                                                                                                                                                                                                                                    let w20 = <[u32; 3]>::wire(m.head_decay_interval);
                                                                                                                                                                                                                                    let w21 = <[u32; 3]>::wire(m.tail_interval);
                                                                                                                                                                                                                                    let w22 = <[u32; 3]>::wire(m.tail_decay_interval);
                                                                                                                                                                                                                                    let w23 = u32::wire(m.texture_id);
                                                                                                                                                                                                                                    let w24 = u32::wire(m.squirt);
                                                                                                                                                                                                                                    let w25 = u32::wire(m.priority_plane);
                                                                                                                                                                                                                                    let w26 = u32::wire(m.replaceable_id);
                                                                                                                                                                                                                                    let w27 = wire_slots(m);
                                                                                                                                                                                                                                    let s26 = w26 + w27;
                                                                                                                                                                                                                                    let s25 = w25 + s26;
                                                                                                                                                                                                                                    let s24 = w24 + s25;
                                                                                                                                                                                                                                    let s23 = w23 + s24;
                                                                                                                                                                                                                                    let s22 = w22 + s23;
                                                                                                                                                                                                                                    let s21 = w21 + s22;
                                                                                                                                                                                                                                    let s20 = w20 + s21;
                                                                                                                                                                                                                                    let s19 = w19 + s20;
                                                                                                                                                                                                                                    let s18 = w18 + s19;
                                                                                                                                                                                                                                    let s17 = w17 + s18;
                                                                                                                                                                                                                                    let s16 = w16 + s17;
                                                                                                                                                                                                                                    let s15 = w15 + s16;
                                                                                                                                                                                                                                    let s14 = w14 + s15;
                                                                                                                                                                                                                                    let s13 = w13 + s14;
                                                                                                                                                                                                                                    let s12 = w12 + s13;
                                                                                                                                                                                                                                    let s11 = w11 + s12;
                                                                                                                                                                                                                                    let s10 = w10 + s11;
                                                                                                                                                                                                                                    let s9 = w9 + s10;
                                                                                                                                                                                                                                    let s8 = w8 + s9;
                                                                                                                                                                                                                                    let s7 = w7 + s8;
                                                                                                                                                                                                                                    let s6 = w6 + s7;
                                                                                                                                                                                                                                    let s5 = w5 + s6;
                                                                                                                                                                                                                                    let s4 = w4 + s5;
                                                                                                                                                                                                                                    let s3 = w3 + s4;
                                                                                                                                                                                                                                    let s2 = w2 + s3;
                                                                                                                                                                                                                                    lemma_append_assoc(w26, w27, rest27);
                                                                                                                                                                                                                                    lemma_append_assoc(w25, s26, rest27);
                                                                                                                                                                                                                                    lemma_append_assoc(w24, s25, rest27);
                                                                                                                                                                                                                                    lemma_append_assoc(w23, s24, rest27);
                                                                                                                                                                                                                                    lemma_append_assoc(w22, s23, rest27);
                                                                                                                                                                                                                                    lemma_append_assoc(w21, s22, rest27);
                                                                                                                                                                                                                                    lemma_append_assoc(w20, s21, rest27);
                                                                                                                                                                                                                                    lemma_append_assoc(w19, s20, rest27);
                                                                                                                                                                                                                                    lemma_append_assoc(w18, s19, rest27);
                                                                                                                                                                                                                                    lemma_append_assoc(w17, s18, rest27);
                                                                                                                                                                                                                                    lemma_append_assoc(w16, s17, rest27);
                                                                                                                                                                                                                                    lemma_append_assoc(w15, s16, rest27);
                                                                                                                                                                                                                                    lemma_append_assoc(w14, s15, rest27);
                                                                                                                                                                                                                                    lemma_append_assoc(w13, s14, rest27);
                                                                                                                                                                                                                                    lemma_append_assoc(w12, s13, rest27);
                                                                                                                                                                                                                                    lemma_append_assoc(w11, s12, rest27);
                                                                                                                                                                                                                                    lemma_append_assoc(w10, s11, rest27);
                                                                                                                                                                                                                                    lemma_append_assoc(w9, s10, rest27);
                                                                                                                                                                                                                                    lemma_append_assoc(w8, s9, rest27);
                                                                                                                                                                                                                                    lemma_append_assoc(w7, s8, rest27);
                                                                                                                                                                                                                                    lemma_append_assoc(w6, s7, rest27);
                                                                                                                                                                                                                                    lemma_append_assoc(w5, s6, rest27);
                                                                                                                                                                                                                                    lemma_append_assoc(w4, s5, rest27);
                                                                                                                                                                                                                                    lemma_append_assoc(w3, s4, rest27);
                                                                                                                                                                                                                                    lemma_append_assoc(w2, s3, rest27);
                                                                                                                                                                                                                                    lemma_append_assoc(w1, s2, rest27);
                                                                                                                                                                                                                                }
                                                                                                                                                                                                                            },
                                                                                                                                                                                                                            Err(_) => {},
                                                                                                                                                                                                                        }
                                                                                                                                                                                                                    },
                                                                                                                                                                                                                    Err(_) => {},
                                                                                                                                                                                                                }
                                                                                                                                                                                                            },
                                                                                                                                                                                                            Err(_) => {},
                                                                                                                                                                                                        }
                                                                                                                                                                                                    },
                                                                                                                                                                                                    Err(_) => {},
                                                                                                                                                                                                }
                                                                                                                                                                                            },
                                                                                                                                                                                            Err(_) => {},
                                                                                                                                                                                        }
                                                                                                                                                                                    },
                                                                                                                                                                                    Err(_) => {},
                                                                                                                                                                                }
                                                                                                                                                                            },
                                                                                                                                                                            Err(_) => {},
                                                                                                                                                                        }
                                                                                                                                                                    },
                                                                                                                                                                    Err(_) => {},
                                                                                                                                                                }
                                                                                                                                                            },
                                                                                                                                                            Err(_) => {},
                                                                                                                                                        }
                                                                                                                                                    },
                                                                                                                                                    Err(_) => {},
                                                                                                                                                }
                                                                                                                                            },
                                                                                                                                            Err(_) => {},
                                                                                                                                        }
                                                                                                                                    },
                                                                                                                                    Err(_) => {},
                                                                                                                                }
                                                                                                                            },
                                                                                                                            Err(_) => {},
                                                                                                                        }
                                                                                                                    },
                                                                                                                    Err(_) => {},
                                                                                                                }
                                                                                                            },
                                                                                                            Err(_) => {},
                                                                                                        }
                                                                                                    },
                                                                                                    Err(_) => {},
                                                                                                }
                                                                                            },
                                                                                            Err(_) => {},
                                                                                        }
                                                                                    },
                                                                                    Err(_) => {},
                                                                                }
                                                                            },
                                                                            Err(_) => {},
                                                                        }
                                                                    },
                                                                    Err(_) => {},
                                                                }
                                                            },
                                                            Err(_) => {},
                                                        }
                                                    },
                                                    Err(_) => {},
                                                }
                                            },
                                            Err(_) => {},
                                        }
                                    },
                                    Err(_) => {},
                                }
                            },
                            Err(_) => {},
                        }
                    },
                    Err(_) => {},
                }
            },
            Err(_) => {},
        }
    }
}

impl Materialized for ParticleEmitter2 {
    type Version = u32;

    type Model = ParticleEmitter2Model;

    open spec fn model(&self) -> ParticleEmitter2Model {
        self.body_model()
    }

    open spec fn spec_parse(version: Option<u32>, input: Seq<u8>) -> Parsed<ParticleEmitter2Model> {
        spec_parse_inclusive_sized::<ParticleEmitter2>(version, input)
    }

    open spec fn wire(m: ParticleEmitter2Model) -> Seq<u8> {
        wire_inclusive_sized::<ParticleEmitter2>(m)
    }

    open spec fn encode_error(m: ParticleEmitter2Model) -> Option<EncodeError> {
        encode_error_inclusive_sized::<ParticleEmitter2>(m)
    }

    fn parse_versioned<'a>(version: Option<u32>, input: &'a [u8]) -> (r: Parser<'a, ParticleEmitter2>) {
        parse_inclusive_sized::<ParticleEmitter2>(version, input)
    }

    /// The record is encoded aside and then written with its size: if it
    /// fails, the output is left as it is.
    fn encode(&self, output: &mut Vec<u8>) -> (r: Result<(), EncodeError>)
        ensures
            r is Err ==> final(output)@ == old(output)@,
    {
        encode_inclusive_sized(output, self)
    }
}

impl Lossless for ParticleEmitter2 {
    open spec fn faithful(m: ParticleEmitter2Model) -> bool {
        ParticleEmitter2::body_faithful(m)
    }

    proof fn lemma_parse_wire(version: Option<u32>, input: Seq<u8>) {
        lemma_inclusive_parse_wire::<ParticleEmitter2>(version, input);
    }
}

/// The tags of the blocks of [`ParticleEmitter2`] differ from each other.
proof fn lemma_particleemitter2_tags_differ()
    ensures
        Kp2s::spec_tag() != Kp2r::spec_tag(),
        Kp2s::spec_tag() != Kp2l::spec_tag(),
        Kp2s::spec_tag() != Kp2g::spec_tag(),
        Kp2s::spec_tag() != Kp2e::spec_tag(),
        Kp2s::spec_tag() != Kp2n::spec_tag(),
        Kp2s::spec_tag() != Kp2w::spec_tag(),
        Kp2s::spec_tag() != Kp2v::spec_tag(),
        Kp2r::spec_tag() != Kp2l::spec_tag(),
        Kp2r::spec_tag() != Kp2g::spec_tag(),
        Kp2r::spec_tag() != Kp2e::spec_tag(),
        Kp2r::spec_tag() != Kp2n::spec_tag(),
        Kp2r::spec_tag() != Kp2w::spec_tag(),
        Kp2r::spec_tag() != Kp2v::spec_tag(),
        Kp2l::spec_tag() != Kp2g::spec_tag(),
        Kp2l::spec_tag() != Kp2e::spec_tag(),
        Kp2l::spec_tag() != Kp2n::spec_tag(),
        Kp2l::spec_tag() != Kp2w::spec_tag(),
        Kp2l::spec_tag() != Kp2v::spec_tag(),
        Kp2g::spec_tag() != Kp2e::spec_tag(),
        Kp2g::spec_tag() != Kp2n::spec_tag(),
        Kp2g::spec_tag() != Kp2w::spec_tag(),
        Kp2g::spec_tag() != Kp2v::spec_tag(),
        Kp2e::spec_tag() != Kp2n::spec_tag(),
        Kp2e::spec_tag() != Kp2w::spec_tag(),
        Kp2e::spec_tag() != Kp2v::spec_tag(),
        Kp2n::spec_tag() != Kp2w::spec_tag(),
        Kp2n::spec_tag() != Kp2v::spec_tag(),
        Kp2w::spec_tag() != Kp2v::spec_tag(),
{
    assert(Kp2s::spec_tag().0[3] != Kp2r::spec_tag().0[3]);
    assert(Kp2s::spec_tag().0[3] != Kp2l::spec_tag().0[3]);
    assert(Kp2s::spec_tag().0[3] != Kp2g::spec_tag().0[3]);
    assert(Kp2s::spec_tag().0[3] != Kp2e::spec_tag().0[3]);
    assert(Kp2s::spec_tag().0[3] != Kp2n::spec_tag().0[3]);
    assert(Kp2s::spec_tag().0[3] != Kp2w::spec_tag().0[3]);
    assert(Kp2s::spec_tag().0[3] != Kp2v::spec_tag().0[3]);
    assert(Kp2r::spec_tag().0[3] != Kp2l::spec_tag().0[3]);
    assert(Kp2r::spec_tag().0[3] != Kp2g::spec_tag().0[3]);
    assert(Kp2r::spec_tag().0[3] != Kp2e::spec_tag().0[3]);
    assert(Kp2r::spec_tag().0[3] != Kp2n::spec_tag().0[3]);
    assert(Kp2r::spec_tag().0[3] != Kp2w::spec_tag().0[3]);
    assert(Kp2r::spec_tag().0[3] != Kp2v::spec_tag().0[3]);
    assert(Kp2l::spec_tag().0[3] != Kp2g::spec_tag().0[3]);
    assert(Kp2l::spec_tag().0[3] != Kp2e::spec_tag().0[3]);
    assert(Kp2l::spec_tag().0[3] != Kp2n::spec_tag().0[3]);
    assert(Kp2l::spec_tag().0[3] != Kp2w::spec_tag().0[3]);
    assert(Kp2l::spec_tag().0[3] != Kp2v::spec_tag().0[3]);
    assert(Kp2g::spec_tag().0[3] != Kp2e::spec_tag().0[3]);
    assert(Kp2g::spec_tag().0[3] != Kp2n::spec_tag().0[3]);
    assert(Kp2g::spec_tag().0[3] != Kp2w::spec_tag().0[3]);
    assert(Kp2g::spec_tag().0[3] != Kp2v::spec_tag().0[3]);
    assert(Kp2e::spec_tag().0[3] != Kp2n::spec_tag().0[3]);
    assert(Kp2e::spec_tag().0[3] != Kp2w::spec_tag().0[3]);
    assert(Kp2e::spec_tag().0[3] != Kp2v::spec_tag().0[3]);
    assert(Kp2n::spec_tag().0[3] != Kp2w::spec_tag().0[3]);
    assert(Kp2n::spec_tag().0[3] != Kp2v::spec_tag().0[3]);
    assert(Kp2w::spec_tag().0[3] != Kp2v::spec_tag().0[3]);
}

impl ReparsableBlocks for ParticleEmitter2 {
    open spec fn slot_well_formed(m: ParticleEmitter2Model, tag: Tag) -> bool {
        if tag == Kp2s::spec_tag() {
            m.kp2s is Some && Kp2s::well_formed(m.kp2s->0, None)
        } else if tag == Kp2r::spec_tag() {
            m.kp2r is Some && Kp2r::well_formed(m.kp2r->0, None)
        } else if tag == Kp2l::spec_tag() {
            m.kp2l is Some && Kp2l::well_formed(m.kp2l->0, None)
        } else if tag == Kp2g::spec_tag() {
            m.kp2g is Some && Kp2g::well_formed(m.kp2g->0, None)
        } else if tag == Kp2e::spec_tag() {
            m.kp2e is Some && Kp2e::well_formed(m.kp2e->0, None)
        } else if tag == Kp2n::spec_tag() {
            m.kp2n is Some && Kp2n::well_formed(m.kp2n->0, None)
        } else if tag == Kp2w::spec_tag() {
            m.kp2w is Some && Kp2w::well_formed(m.kp2w->0, None)
        } else if tag == Kp2v::spec_tag() {
            m.kp2v is Some && Kp2v::well_formed(m.kp2v->0, None)
        } else {
            false
        }
    }

    open spec fn refill(acc: ParticleEmitter2Model, m: ParticleEmitter2Model, tag: Tag) -> ParticleEmitter2Model {
        if tag == Kp2s::spec_tag() {
            ParticleEmitter2Model {
                node: acc.node,
                speed: acc.speed,
                variation: acc.variation,
                latitude: acc.latitude,
                gravity: acc.gravity,
                lifespan: acc.lifespan,
                emission_rate: acc.emission_rate,
                length: acc.length,
                width: acc.width,
                filter_mode: acc.filter_mode,
                rows: acc.rows,
                columns: acc.columns,
                head_or_tail: acc.head_or_tail,
                tail_length: acc.tail_length,
                time: acc.time,
                segment_color: acc.segment_color,
                segment_alpha: acc.segment_alpha,
                segment_scaling: acc.segment_scaling,
                head_interval: acc.head_interval,
                head_decay_interval: acc.head_decay_interval,
                tail_interval: acc.tail_interval,
                tail_decay_interval: acc.tail_decay_interval,
                texture_id: acc.texture_id,
                squirt: acc.squirt,
                priority_plane: acc.priority_plane,
                replaceable_id: acc.replaceable_id,
                kp2s: m.kp2s,
                kp2r: acc.kp2r,
                kp2l: acc.kp2l,
                kp2g: acc.kp2g,
                kp2e: acc.kp2e,
                kp2n: acc.kp2n,
                kp2w: acc.kp2w,
                kp2v: acc.kp2v,
                ordered: Some(acc.order().push(tag)),
            }
        } else if tag == Kp2r::spec_tag() {
            ParticleEmitter2Model {
                node: acc.node,
                speed: acc.speed,
                variation: acc.variation,
                latitude: acc.latitude,
                gravity: acc.gravity,
                lifespan: acc.lifespan,
                emission_rate: acc.emission_rate,
                length: acc.length,
                width: acc.width,
                filter_mode: acc.filter_mode,
                rows: acc.rows,
                columns: acc.columns,
                head_or_tail: acc.head_or_tail,
                tail_length: acc.tail_length,
                time: acc.time,
                segment_color: acc.segment_color,
                segment_alpha: acc.segment_alpha,
                segment_scaling: acc.segment_scaling,
                head_interval: acc.head_interval,
                head_decay_interval: acc.head_decay_interval,
                tail_interval: acc.tail_interval,
                tail_decay_interval: acc.tail_decay_interval,
                texture_id: acc.texture_id,
                squirt: acc.squirt,
                priority_plane: acc.priority_plane,
                replaceable_id: acc.replaceable_id,
                kp2s: acc.kp2s,
                kp2r: m.kp2r,
                kp2l: acc.kp2l,
                kp2g: acc.kp2g,
                kp2e: acc.kp2e,
                kp2n: acc.kp2n,
                kp2w: acc.kp2w,
                kp2v: acc.kp2v,
                ordered: Some(acc.order().push(tag)),
            }
        } else if tag == Kp2l::spec_tag() {
            ParticleEmitter2Model {
                node: acc.node,
                speed: acc.speed,
                variation: acc.variation,
                latitude: acc.latitude,
                gravity: acc.gravity,
                lifespan: acc.lifespan,
                emission_rate: acc.emission_rate,
                length: acc.length,
                width: acc.width,
                filter_mode: acc.filter_mode,
                rows: acc.rows,
                columns: acc.columns,
                head_or_tail: acc.head_or_tail,
                tail_length: acc.tail_length,
                time: acc.time,
                segment_color: acc.segment_color,
                segment_alpha: acc.segment_alpha,
                segment_scaling: acc.segment_scaling,
                head_interval: acc.head_interval,
                head_decay_interval: acc.head_decay_interval,
                tail_interval: acc.tail_interval,
                tail_decay_interval: acc.tail_decay_interval,
                texture_id: acc.texture_id,
                squirt: acc.squirt,
                priority_plane: acc.priority_plane,
                replaceable_id: acc.replaceable_id,
                kp2s: acc.kp2s,
                kp2r: acc.kp2r,
                kp2l: m.kp2l,
                kp2g: acc.kp2g,
                kp2e: acc.kp2e,
                kp2n: acc.kp2n,
                kp2w: acc.kp2w,
                kp2v: acc.kp2v,
                ordered: Some(acc.order().push(tag)),
            }
        } else if tag == Kp2g::spec_tag() {
            ParticleEmitter2Model {
                node: acc.node,
                speed: acc.speed,
                variation: acc.variation,
                latitude: acc.latitude,
                gravity: acc.gravity,
                lifespan: acc.lifespan,
                emission_rate: acc.emission_rate,
                length: acc.length,
                width: acc.width,
                filter_mode: acc.filter_mode,
                rows: acc.rows,
                columns: acc.columns,
                head_or_tail: acc.head_or_tail,
                tail_length: acc.tail_length,
                time: acc.time,
                segment_color: acc.segment_color,
                segment_alpha: acc.segment_alpha,
                segment_scaling: acc.segment_scaling,
                head_interval: acc.head_interval,
                head_decay_interval: acc.head_decay_interval,
                tail_interval: acc.tail_interval,
                tail_decay_interval: acc.tail_decay_interval,
                texture_id: acc.texture_id,
                squirt: acc.squirt,
                priority_plane: acc.priority_plane,
                replaceable_id: acc.replaceable_id,
                kp2s: acc.kp2s,
                kp2r: acc.kp2r,
                kp2l: acc.kp2l,
                kp2g: m.kp2g,
                kp2e: acc.kp2e,
                kp2n: acc.kp2n,
                kp2w: acc.kp2w,
                kp2v: acc.kp2v,
                ordered: Some(acc.order().push(tag)),
            }
        } else if tag == Kp2e::spec_tag() {
            ParticleEmitter2Model {
                node: acc.node,
                speed: acc.speed,
                variation: acc.variation,
                latitude: acc.latitude,
                gravity: acc.gravity,
                lifespan: acc.lifespan,
                emission_rate: acc.emission_rate,
                length: acc.length,
                width: acc.width,
                filter_mode: acc.filter_mode,
                rows: acc.rows,
                columns: acc.columns,
                head_or_tail: acc.head_or_tail,
                tail_length: acc.tail_length,
                time: acc.time,
                segment_color: acc.segment_color,
                segment_alpha: acc.segment_alpha,
                segment_scaling: acc.segment_scaling,
                head_interval: acc.head_interval,
                head_decay_interval: acc.head_decay_interval,
                tail_interval: acc.tail_interval,
                tail_decay_interval: acc.tail_decay_interval,
                texture_id: acc.texture_id,
                squirt: acc.squirt,
                priority_plane: acc.priority_plane,
                replaceable_id: acc.replaceable_id,
                kp2s: acc.kp2s,
                kp2r: acc.kp2r,
                kp2l: acc.kp2l,
                kp2g: acc.kp2g,
                kp2e: m.kp2e,
                kp2n: acc.kp2n,
                kp2w: acc.kp2w,
                kp2v: acc.kp2v,
                ordered: Some(acc.order().push(tag)),
            }
        } else if tag == Kp2n::spec_tag() {
            ParticleEmitter2Model {
                node: acc.node,
                speed: acc.speed,
                variation: acc.variation,
                latitude: acc.latitude,
                gravity: acc.gravity,
                lifespan: acc.lifespan,
                emission_rate: acc.emission_rate,
                length: acc.length,
                width: acc.width,
                filter_mode: acc.filter_mode,
                rows: acc.rows,
                columns: acc.columns,
                head_or_tail: acc.head_or_tail,
                tail_length: acc.tail_length,
                time: acc.time,
                segment_color: acc.segment_color,
                segment_alpha: acc.segment_alpha,
                segment_scaling: acc.segment_scaling,
                head_interval: acc.head_interval,
                head_decay_interval: acc.head_decay_interval,
                tail_interval: acc.tail_interval,
                tail_decay_interval: acc.tail_decay_interval,
                texture_id: acc.texture_id,
                squirt: acc.squirt,
                priority_plane: acc.priority_plane,
                replaceable_id: acc.replaceable_id,
                kp2s: acc.kp2s,
                kp2r: acc.kp2r,
                kp2l: acc.kp2l,
                kp2g: acc.kp2g,
                kp2e: acc.kp2e,
                kp2n: m.kp2n,
                kp2w: acc.kp2w,
                kp2v: acc.kp2v,
                ordered: Some(acc.order().push(tag)),
            }
        } else if tag == Kp2w::spec_tag() {
            ParticleEmitter2Model {
                node: acc.node,
                speed: acc.speed,
                variation: acc.variation,
                latitude: acc.latitude,
                gravity: acc.gravity,
                lifespan: acc.lifespan,
                emission_rate: acc.emission_rate,
                length: acc.length,
                width: acc.width,
                filter_mode: acc.filter_mode,
                rows: acc.rows,
                columns: acc.columns,
                head_or_tail: acc.head_or_tail,
                tail_length: acc.tail_length,
                time: acc.time,
                segment_color: acc.segment_color,
                segment_alpha: acc.segment_alpha,
                segment_scaling: acc.segment_scaling,
                head_interval: acc.head_interval,
                head_decay_interval: acc.head_decay_interval,
                tail_interval: acc.tail_interval,
                tail_decay_interval: acc.tail_decay_interval,
                texture_id: acc.texture_id,
                squirt: acc.squirt,
                priority_plane: acc.priority_plane,
                replaceable_id: acc.replaceable_id,
                kp2s: acc.kp2s,
                kp2r: acc.kp2r,
                kp2l: acc.kp2l,
                kp2g: acc.kp2g,
                kp2e: acc.kp2e,
                kp2n: acc.kp2n,
                kp2w: m.kp2w,
                kp2v: acc.kp2v,
                ordered: Some(acc.order().push(tag)),
            }
        } else if tag == Kp2v::spec_tag() {
            ParticleEmitter2Model {
                node: acc.node,
                speed: acc.speed,
                variation: acc.variation,
                latitude: acc.latitude,
                gravity: acc.gravity,
                lifespan: acc.lifespan,
                emission_rate: acc.emission_rate,
                length: acc.length,
                width: acc.width,
                filter_mode: acc.filter_mode,
                rows: acc.rows,
                columns: acc.columns,
                head_or_tail: acc.head_or_tail,
                tail_length: acc.tail_length,
                time: acc.time,
                segment_color: acc.segment_color,
                segment_alpha: acc.segment_alpha,
                segment_scaling: acc.segment_scaling,
                head_interval: acc.head_interval,
                head_decay_interval: acc.head_decay_interval,
                tail_interval: acc.tail_interval,
                tail_decay_interval: acc.tail_decay_interval,
                texture_id: acc.texture_id,
                squirt: acc.squirt,
                priority_plane: acc.priority_plane,
                replaceable_id: acc.replaceable_id,
                kp2s: acc.kp2s,
                kp2r: acc.kp2r,
                kp2l: acc.kp2l,
                kp2g: acc.kp2g,
                kp2e: acc.kp2e,
                kp2n: acc.kp2n,
                kp2w: acc.kp2w,
                kp2v: m.kp2v,
                ordered: Some(acc.order().push(tag)),
            }
        } else {
            acc
        }
    }

    proof fn lemma_block_refill(acc: ParticleEmitter2Model, m: ParticleEmitter2Model, tag: Tag, tail: Seq<u8>) {
        if tag == Kp2s::spec_tag() {
            Kp2s::lemma_wire_tag(m.kp2s->0);
            Kp2s::lemma_wire_parse(m.kp2s->0, None, tail);
        } else if tag == Kp2r::spec_tag() {
            Kp2r::lemma_wire_tag(m.kp2r->0);
            Kp2r::lemma_wire_parse(m.kp2r->0, None, tail);
        } else if tag == Kp2l::spec_tag() {
            Kp2l::lemma_wire_tag(m.kp2l->0);
            Kp2l::lemma_wire_parse(m.kp2l->0, None, tail);
        } else if tag == Kp2g::spec_tag() {
            Kp2g::lemma_wire_tag(m.kp2g->0);
            Kp2g::lemma_wire_parse(m.kp2g->0, None, tail);
        } else if tag == Kp2e::spec_tag() {
            Kp2e::lemma_wire_tag(m.kp2e->0);
            Kp2e::lemma_wire_parse(m.kp2e->0, None, tail);
        } else if tag == Kp2n::spec_tag() {
            Kp2n::lemma_wire_tag(m.kp2n->0);
            Kp2n::lemma_wire_parse(m.kp2n->0, None, tail);
        } else if tag == Kp2w::spec_tag() {
            Kp2w::lemma_wire_tag(m.kp2w->0);
            Kp2w::lemma_wire_parse(m.kp2w->0, None, tail);
        } else if tag == Kp2v::spec_tag() {
            Kp2v::lemma_wire_tag(m.kp2v->0);
            Kp2v::lemma_wire_parse(m.kp2v->0, None, tail);
        }
    }
}

/// What the blocks of `m` under the tags make of `acc`: the other fields are
/// the ones of `acc`, the tags are recorded behind the ones of `acc`, and a
/// block is the one of `m` if its tag is among the tags.
proof fn lemma_particleemitter2_refill(acc: ParticleEmitter2Model, m: ParticleEmitter2Model, tags: Seq<Tag>)
    requires
        acc.ordered is Some,
        forall|i: int| 0 <= i < tags.len() ==> ParticleEmitter2::slot_well_formed(m, #[trigger] tags[i]),
    ensures
        ({
            let r = refill_all::<ParticleEmitter2>(acc, m, tags);
            &&& r.ordered == Some(acc.order() + tags)
            &&& r.node == acc.node
            &&& r.speed == acc.speed
            &&& r.variation == acc.variation
            &&& r.latitude == acc.latitude
            &&& r.gravity == acc.gravity
            &&& r.lifespan == acc.lifespan
            &&& r.emission_rate == acc.emission_rate
            &&& r.length == acc.length
            &&& r.width == acc.width
            &&& r.filter_mode == acc.filter_mode
            &&& r.rows == acc.rows
            &&& r.columns == acc.columns
            &&& r.head_or_tail == acc.head_or_tail
            &&& r.tail_length == acc.tail_length
            &&& r.time == acc.time
            &&& r.segment_color == acc.segment_color
            &&& r.segment_alpha == acc.segment_alpha
            &&& r.segment_scaling == acc.segment_scaling
            &&& r.head_interval == acc.head_interval
            &&& r.head_decay_interval == acc.head_decay_interval
            &&& r.tail_interval == acc.tail_interval
            &&& r.tail_decay_interval == acc.tail_decay_interval
            &&& r.texture_id == acc.texture_id
            &&& r.squirt == acc.squirt
            &&& r.priority_plane == acc.priority_plane
            &&& r.replaceable_id == acc.replaceable_id
            &&& r.kp2s == if tags.contains(Kp2s::spec_tag()) {
                m.kp2s
            } else {
                acc.kp2s
            }
            &&& r.kp2r == if tags.contains(Kp2r::spec_tag()) {
                m.kp2r
            } else {
                acc.kp2r
            }
            &&& r.kp2l == if tags.contains(Kp2l::spec_tag()) {
                m.kp2l
            } else {
                acc.kp2l
            }
            &&& r.kp2g == if tags.contains(Kp2g::spec_tag()) {
                m.kp2g
            } else {
                acc.kp2g
            }
            &&& r.kp2e == if tags.contains(Kp2e::spec_tag()) {
                m.kp2e
            } else {
                acc.kp2e
            }
            &&& r.kp2n == if tags.contains(Kp2n::spec_tag()) {
                m.kp2n
            } else {
                acc.kp2n
            }
            &&& r.kp2w == if tags.contains(Kp2w::spec_tag()) {
                m.kp2w
            } else {
                acc.kp2w
            }
            &&& r.kp2v == if tags.contains(Kp2v::spec_tag()) {
                m.kp2v
            } else {
                acc.kp2v
            }
        }),
    decreases tags.len(),
{
    if tags.len() == 0 {
        assert(acc.order() + tags =~= acc.order());
    } else {
        let tag = tags[0];
        let next = ParticleEmitter2::refill(acc, m, tag);
        assert(ParticleEmitter2::slot_well_formed(m, tags[0]));
        assert forall|i: int| 0 <= i < tags.skip(1).len() implies ParticleEmitter2::slot_well_formed(
            m,
            #[trigger] tags.skip(1)[i],
        ) by {
            assert(tags.skip(1)[i] == tags[i + 1]);
        }
        lemma_particleemitter2_refill(next, m, tags.skip(1));
        assert(next.order() + tags.skip(1) =~= acc.order() + tags);
        lemma_particleemitter2_tags_differ();
        lemma_contains_front(tags, Kp2s::spec_tag());
        lemma_contains_front(tags, Kp2r::spec_tag());
        lemma_contains_front(tags, Kp2l::spec_tag());
        lemma_contains_front(tags, Kp2g::spec_tag());
        lemma_contains_front(tags, Kp2e::spec_tag());
        lemma_contains_front(tags, Kp2n::spec_tag());
        lemma_contains_front(tags, Kp2w::spec_tag());
        lemma_contains_front(tags, Kp2v::spec_tag());
    }
}

impl ReparsableBody for ParticleEmitter2 {
    open spec fn body_well_formed(m: ParticleEmitter2Model, version: Option<u32>) -> bool {
        Node::well_formed(m.node, None)
        && FloatBits::well_formed(m.speed, None)
        && FloatBits::well_formed(m.variation, None)
        && FloatBits::well_formed(m.latitude, None)
        && FloatBits::well_formed(m.gravity, None)
        && FloatBits::well_formed(m.lifespan, None)
        && FloatBits::well_formed(m.emission_rate, None)
        && FloatBits::well_formed(m.length, None)
        && FloatBits::well_formed(m.width, None)
        && FilterMode::well_formed(m.filter_mode, None)
        && u32::well_formed(m.rows, None)
        && u32::well_formed(m.columns, None)
        && HeadTail::well_formed(m.head_or_tail, None)
        && FloatBits::well_formed(m.tail_length, None)
        && FloatBits::well_formed(m.time, None)
        && <[[FloatBits; 3]; 3]>::well_formed(m.segment_color, None)
        && <[u8; 3]>::well_formed(m.segment_alpha, None)
        && <[FloatBits; 3]>::well_formed(m.segment_scaling, None)
        && <[u32; 3]>::well_formed(m.head_interval, None)
        && <[u32; 3]>::well_formed(m.head_decay_interval, None)
        && <[u32; 3]>::well_formed(m.tail_interval, None)
        && <[u32; 3]>::well_formed(m.tail_decay_interval, None)
        && u32::well_formed(m.texture_id, None)
        && u32::well_formed(m.squirt, None)
        && u32::well_formed(m.priority_plane, None)
        && u32::well_formed(m.replaceable_id, None)
        && m.ordered is Some
        && (forall|i: int| 0 <= i < m.order().len() ==> ParticleEmitter2::slot_well_formed(m, #[trigger] m.order()[i]))
        && (m.kp2s is Some ==> m.order().contains(Kp2s::spec_tag()))
        && (m.kp2r is Some ==> m.order().contains(Kp2r::spec_tag()))
        && (m.kp2l is Some ==> m.order().contains(Kp2l::spec_tag()))
        && (m.kp2g is Some ==> m.order().contains(Kp2g::spec_tag()))
        && (m.kp2e is Some ==> m.order().contains(Kp2e::spec_tag()))
        && (m.kp2n is Some ==> m.order().contains(Kp2n::spec_tag()))
        && (m.kp2w is Some ==> m.order().contains(Kp2w::spec_tag()))
        && (m.kp2v is Some ==> m.order().contains(Kp2v::spec_tag()))
    }

    #[verifier::rlimit(50)]
    proof fn lemma_body_wire_parse(m: ParticleEmitter2Model, version: Option<u32>) {
        let w1 = Node::wire(m.node);
        let w2 = FloatBits::wire(m.speed);
        let w3 = FloatBits::wire(m.variation);
        let w4 = FloatBits::wire(m.latitude);
        let w5 = FloatBits::wire(m.gravity);
        let w6 = FloatBits::wire(m.lifespan);
        let w7 = FloatBits::wire(m.emission_rate);
        let w8 = FloatBits::wire(m.length);
        let w9 = FloatBits::wire(m.width);
        let w10 = FilterMode::wire(m.filter_mode);
        let w11 = u32::wire(m.rows);
        let w12 = u32::wire(m.columns);
        let w13 = HeadTail::wire(m.head_or_tail);
        let w14 = FloatBits::wire(m.tail_length);
        let w15 = FloatBits::wire(m.time);
        let w16 = <[[FloatBits; 3]; 3]>::wire(m.segment_color);
        let w17 = <[u8; 3]>::wire(m.segment_alpha);
        let w18 = <[FloatBits; 3]>::wire(m.segment_scaling);
        let w19 = <[u32; 3]>::wire(m.head_interval);
        let w20 = <[u32; 3]>::wire(m.head_decay_interval);
        let w21 = <[u32; 3]>::wire(m.tail_interval);
        let w22 = <[u32; 3]>::wire(m.tail_decay_interval);
        let w23 = u32::wire(m.texture_id);
        let w24 = u32::wire(m.squirt);
        let w25 = u32::wire(m.priority_plane);
        let w26 = u32::wire(m.replaceable_id);
        let w27 = wire_slots(m);
        let u28 = Seq::<u8>::empty();
        let u27 = w27 + u28;
        let u26 = w26 + u27;
        let u25 = w25 + u26;
        let u24 = w24 + u25;
        let u23 = w23 + u24;
        let u22 = w22 + u23;
        let u21 = w21 + u22;
        let u20 = w20 + u21;
        let u19 = w19 + u20;
        let u18 = w18 + u19;
        let u17 = w17 + u18;
        let u16 = w16 + u17;
        let u15 = w15 + u16;
        let u14 = w14 + u15;
        let u13 = w13 + u14;
        let u12 = w12 + u13;
        let u11 = w11 + u12;
        let u10 = w10 + u11;
        let u9 = w9 + u10;
        let u8 = w8 + u9;
        let u7 = w7 + u8;
        let u6 = w6 + u7;
        let u5 = w5 + u6;
        let u4 = w4 + u5;
        let u3 = w3 + u4;
        let u2 = w2 + u3;
        let u1 = w1 + u2;
        let s26 = w26 + w27;
        let s25 = w25 + s26;
        let s24 = w24 + s25;
        let s23 = w23 + s24;
        let s22 = w22 + s23;
        let s21 = w21 + s22;
        let s20 = w20 + s21;
        let s19 = w19 + s20;
        let s18 = w18 + s19;
        let s17 = w17 + s18;
        let s16 = w16 + s17;
        let s15 = w15 + s16;
        let s14 = w14 + s15;
        let s13 = w13 + s14;
        let s12 = w12 + s13;
        let s11 = w11 + s12;
        let s10 = w10 + s11;
        let s9 = w9 + s10;
        let s8 = w8 + s9;
        let s7 = w7 + s8;
        let s6 = w6 + s7;
        let s5 = w5 + s6;
        let s4 = w4 + s5;
        let s3 = w3 + s4;
        let s2 = w2 + s3;
        lemma_append_assoc(w26, w27, Seq::<u8>::empty());
        lemma_append_assoc(w25, s26, Seq::<u8>::empty());
        lemma_append_assoc(w24, s25, Seq::<u8>::empty());
        lemma_append_assoc(w23, s24, Seq::<u8>::empty());
        lemma_append_assoc(w22, s23, Seq::<u8>::empty());
        lemma_append_assoc(w21, s22, Seq::<u8>::empty());
        lemma_append_assoc(w20, s21, Seq::<u8>::empty());
        lemma_append_assoc(w19, s20, Seq::<u8>::empty());
        lemma_append_assoc(w18, s19, Seq::<u8>::empty());
        lemma_append_assoc(w17, s18, Seq::<u8>::empty());
        lemma_append_assoc(w16, s17, Seq::<u8>::empty());
        lemma_append_assoc(w15, s16, Seq::<u8>::empty());
        lemma_append_assoc(w14, s15, Seq::<u8>::empty());
        lemma_append_assoc(w13, s14, Seq::<u8>::empty());
        lemma_append_assoc(w12, s13, Seq::<u8>::empty());
        lemma_append_assoc(w11, s12, Seq::<u8>::empty());
        lemma_append_assoc(w10, s11, Seq::<u8>::empty());
        lemma_append_assoc(w9, s10, Seq::<u8>::empty());
        lemma_append_assoc(w8, s9, Seq::<u8>::empty());
        lemma_append_assoc(w7, s8, Seq::<u8>::empty());
        lemma_append_assoc(w6, s7, Seq::<u8>::empty());
        lemma_append_assoc(w5, s6, Seq::<u8>::empty());
        lemma_append_assoc(w4, s5, Seq::<u8>::empty());
        lemma_append_assoc(w3, s4, Seq::<u8>::empty());
        lemma_append_assoc(w2, s3, Seq::<u8>::empty());
        lemma_append_assoc(w1, s2, Seq::<u8>::empty());
        Node::lemma_wire_parse(m.node, None, u2);
        FloatBits::lemma_wire_parse(m.speed, None, u3);
        FloatBits::lemma_wire_parse(m.variation, None, u4);
        FloatBits::lemma_wire_parse(m.latitude, None, u5);
        FloatBits::lemma_wire_parse(m.gravity, None, u6);
        FloatBits::lemma_wire_parse(m.lifespan, None, u7);
        FloatBits::lemma_wire_parse(m.emission_rate, None, u8);
        FloatBits::lemma_wire_parse(m.length, None, u9);
        FloatBits::lemma_wire_parse(m.width, None, u10);
        FilterMode::lemma_wire_parse(m.filter_mode, None, u11);
        u32::lemma_wire_parse(m.rows, None, u12);
        u32::lemma_wire_parse(m.columns, None, u13);
        HeadTail::lemma_wire_parse(m.head_or_tail, None, u14);
        FloatBits::lemma_wire_parse(m.tail_length, None, u15);
        FloatBits::lemma_wire_parse(m.time, None, u16);
        <[[FloatBits; 3]; 3]>::lemma_wire_parse(m.segment_color, None, u17);
        <[u8; 3]>::lemma_wire_parse(m.segment_alpha, None, u18);
        <[FloatBits; 3]>::lemma_wire_parse(m.segment_scaling, None, u19);
        <[u32; 3]>::lemma_wire_parse(m.head_interval, None, u20);
        <[u32; 3]>::lemma_wire_parse(m.head_decay_interval, None, u21);
        <[u32; 3]>::lemma_wire_parse(m.tail_interval, None, u22);
        <[u32; 3]>::lemma_wire_parse(m.tail_decay_interval, None, u23);
        u32::lemma_wire_parse(m.texture_id, None, u24);
        u32::lemma_wire_parse(m.squirt, None, u25);
        u32::lemma_wire_parse(m.priority_plane, None, u26);
        u32::lemma_wire_parse(m.replaceable_id, None, u27);
        let start = ParticleEmitter2Model {
            node: m.node,
            speed: m.speed,
            variation: m.variation,
            latitude: m.latitude,
            gravity: m.gravity,
            lifespan: m.lifespan,
            emission_rate: m.emission_rate,
            length: m.length,
            width: m.width,
            filter_mode: m.filter_mode,
            rows: m.rows,
            columns: m.columns,
            head_or_tail: m.head_or_tail,
            tail_length: m.tail_length,
            time: m.time,
            segment_color: m.segment_color,
            segment_alpha: m.segment_alpha,
            segment_scaling: m.segment_scaling,
            head_interval: m.head_interval,
            head_decay_interval: m.head_decay_interval,
            tail_interval: m.tail_interval,
            tail_decay_interval: m.tail_decay_interval,
            texture_id: m.texture_id,
            squirt: m.squirt,
            priority_plane: m.priority_plane,
            replaceable_id: m.replaceable_id,
            kp2s: None,
            kp2r: None,
            kp2l: None,
            kp2g: None,
            kp2e: None,
            kp2n: None,
            kp2w: None,
            kp2v: None,
            ordered: Some(Seq::empty()),
        };
        lemma_tagged_wire_parse::<ParticleEmitter2>(start, m, m.order(), u28);
        lemma_particleemitter2_refill(start, m, m.order());
        assert(Seq::<Tag>::empty() + m.order() =~= m.order());
        assert(u1 =~= Self::body_wire(m));
    }
}

impl Reparsable for ParticleEmitter2 {
    open spec fn well_formed(m: ParticleEmitter2Model, version: Option<u32>) -> bool {
        ParticleEmitter2::body_well_formed(m, version) && ParticleEmitter2::body_wire(m).len() + 4 <= u32::MAX
    }

    proof fn lemma_wire_parse(m: ParticleEmitter2Model, version: Option<u32>, tail: Seq<u8>) {
        lemma_inclusive_wire_parse::<ParticleEmitter2>(m, version, tail);
    }
}

/// Holds the track of the speed of the particles of an emitter.
#[derive(Debug, Clone, PartialEq)]
pub struct Kp2s(pub TrackChunk<FloatBits>);

impl Chunk for Kp2s {
    open spec fn spec_tag() -> Tag {
        Tag([0x4B, 0x50, 0x32, 0x53])
    }

    fn tag() -> (t: Tag) {
        let t = Tag([0x4B, 0x50, 0x32, 0x53]);
        assert(t.0 =~= Self::spec_tag().0);
        t
    }
}

impl Materialized for Kp2s {
    type Version = u32;

    type Model = TrackChunkModel<FloatBits>;

    open spec fn model(&self) -> TrackChunkModel<FloatBits> {
        self.0.model()
    }

    open spec fn spec_parse(version: Option<u32>, input: Seq<u8>) -> Parsed<
        TrackChunkModel<FloatBits>,
    > {
        <TrackChunk<FloatBits>>::spec_parse(None, input)
    }

    open spec fn wire(m: TrackChunkModel<FloatBits>) -> Seq<u8> {
        <TrackChunk<FloatBits>>::wire(m)
    }

    open spec fn encode_error(m: TrackChunkModel<FloatBits>) -> Option<EncodeError> {
        <TrackChunk<FloatBits>>::encode_error(m)
    }

    fn parse_versioned<'a>(version: Option<u32>, input: &'a [u8]) -> (r: Parser<'a, Kp2s>) {
        let (input, chunk) = <TrackChunk<FloatBits>>::parse(input)?;
        Ok((input, Kp2s(chunk)))
    }

    fn encode(&self, output: &mut Vec<u8>) -> (r: Result<(), EncodeError>) {
        self.0.encode(output)
    }
}

impl Lossless for Kp2s {
    open spec fn faithful(m: TrackChunkModel<FloatBits>) -> bool {
        <TrackChunk<FloatBits>>::faithful(m)
    }

    proof fn lemma_parse_wire(version: Option<u32>, input: Seq<u8>) {
        <TrackChunk<FloatBits>>::lemma_parse_wire(None, input);
    }
}

impl Reparsable for Kp2s {
    open spec fn well_formed(m: TrackChunkModel<FloatBits>, version: Option<u32>) -> bool {
        <TrackChunk<FloatBits>>::well_formed(m, None) && m.tag == Self::spec_tag()
    }

    proof fn lemma_wire_parse(m: TrackChunkModel<FloatBits>, version: Option<u32>, tail: Seq<u8>) {
        <TrackChunk<FloatBits>>::lemma_wire_parse(m, None, tail);
    }
}

impl TaggedBlock for Kp2s {
    proof fn lemma_wire_tag(m: TrackChunkModel<FloatBits>) {
        lemma_tag_bytes(m.tag, m.tag.0@);
        assert(<TrackChunk<FloatBits>>::wire(m).take(4) =~= m.tag.0@);
    }
}

/// Holds the track of the variation of the speed of the particles of an emitter.
#[derive(Debug, Clone, PartialEq)]
pub struct Kp2r(pub TrackChunk<FloatBits>);

impl Chunk for Kp2r {
    open spec fn spec_tag() -> Tag {
        Tag([0x4B, 0x50, 0x32, 0x52])
    }

    fn tag() -> (t: Tag) {
        let t = Tag([0x4B, 0x50, 0x32, 0x52]);
        assert(t.0 =~= Self::spec_tag().0);
        t
    }
}

impl Materialized for Kp2r {
    type Version = u32;

    type Model = TrackChunkModel<FloatBits>;

    open spec fn model(&self) -> TrackChunkModel<FloatBits> {
        self.0.model()
    }

    open spec fn spec_parse(version: Option<u32>, input: Seq<u8>) -> Parsed<
        TrackChunkModel<FloatBits>,
    > {
        <TrackChunk<FloatBits>>::spec_parse(None, input)
    }

    open spec fn wire(m: TrackChunkModel<FloatBits>) -> Seq<u8> {
        <TrackChunk<FloatBits>>::wire(m)
    }

    open spec fn encode_error(m: TrackChunkModel<FloatBits>) -> Option<EncodeError> {
        <TrackChunk<FloatBits>>::encode_error(m)
    }

    fn parse_versioned<'a>(version: Option<u32>, input: &'a [u8]) -> (r: Parser<'a, Kp2r>) {
        let (input, chunk) = <TrackChunk<FloatBits>>::parse(input)?;
        Ok((input, Kp2r(chunk)))
    }

    fn encode(&self, output: &mut Vec<u8>) -> (r: Result<(), EncodeError>) {
        self.0.encode(output)
    }
}

impl Lossless for Kp2r {
    open spec fn faithful(m: TrackChunkModel<FloatBits>) -> bool {
        <TrackChunk<FloatBits>>::faithful(m)
    }

    proof fn lemma_parse_wire(version: Option<u32>, input: Seq<u8>) {
        <TrackChunk<FloatBits>>::lemma_parse_wire(None, input);
    }
}

impl Reparsable for Kp2r {
    open spec fn well_formed(m: TrackChunkModel<FloatBits>, version: Option<u32>) -> bool {
        <TrackChunk<FloatBits>>::well_formed(m, None) && m.tag == Self::spec_tag()
    }

    proof fn lemma_wire_parse(m: TrackChunkModel<FloatBits>, version: Option<u32>, tail: Seq<u8>) {
        <TrackChunk<FloatBits>>::lemma_wire_parse(m, None, tail);
    }
}

impl TaggedBlock for Kp2r {
    proof fn lemma_wire_tag(m: TrackChunkModel<FloatBits>) {
        lemma_tag_bytes(m.tag, m.tag.0@);
        assert(<TrackChunk<FloatBits>>::wire(m).take(4) =~= m.tag.0@);
    }
}

/// Holds the track of the latitude of a particle emitter.
#[derive(Debug, Clone, PartialEq)]
pub struct Kp2l(pub TrackChunk<FloatBits>);

impl Chunk for Kp2l {
    open spec fn spec_tag() -> Tag {
        Tag([0x4B, 0x50, 0x32, 0x4C])
    }

    fn tag() -> (t: Tag) {
        let t = Tag([0x4B, 0x50, 0x32, 0x4C]);
        assert(t.0 =~= Self::spec_tag().0);
        t
    }
}

impl Materialized for Kp2l {
    type Version = u32;

    type Model = TrackChunkModel<FloatBits>;

    open spec fn model(&self) -> TrackChunkModel<FloatBits> {
        self.0.model()
    }

    open spec fn spec_parse(version: Option<u32>, input: Seq<u8>) -> Parsed<
        TrackChunkModel<FloatBits>,
    > {
        <TrackChunk<FloatBits>>::spec_parse(None, input)
    }

    open spec fn wire(m: TrackChunkModel<FloatBits>) -> Seq<u8> {
        <TrackChunk<FloatBits>>::wire(m)
    }

    open spec fn encode_error(m: TrackChunkModel<FloatBits>) -> Option<EncodeError> {
        <TrackChunk<FloatBits>>::encode_error(m)
    }

    fn parse_versioned<'a>(version: Option<u32>, input: &'a [u8]) -> (r: Parser<'a, Kp2l>) {
        let (input, chunk) = <TrackChunk<FloatBits>>::parse(input)?;
        Ok((input, Kp2l(chunk)))
    }

    fn encode(&self, output: &mut Vec<u8>) -> (r: Result<(), EncodeError>) {
        self.0.encode(output)
    }
}

impl Lossless for Kp2l {
    open spec fn faithful(m: TrackChunkModel<FloatBits>) -> bool {
        <TrackChunk<FloatBits>>::faithful(m)
    }

    proof fn lemma_parse_wire(version: Option<u32>, input: Seq<u8>) {
        <TrackChunk<FloatBits>>::lemma_parse_wire(None, input);
    }
}

impl Reparsable for Kp2l {
    open spec fn well_formed(m: TrackChunkModel<FloatBits>, version: Option<u32>) -> bool {
        <TrackChunk<FloatBits>>::well_formed(m, None) && m.tag == Self::spec_tag()
    }

    proof fn lemma_wire_parse(m: TrackChunkModel<FloatBits>, version: Option<u32>, tail: Seq<u8>) {
        <TrackChunk<FloatBits>>::lemma_wire_parse(m, None, tail);
    }
}

impl TaggedBlock for Kp2l {
    proof fn lemma_wire_tag(m: TrackChunkModel<FloatBits>) {
        lemma_tag_bytes(m.tag, m.tag.0@);
        assert(<TrackChunk<FloatBits>>::wire(m).take(4) =~= m.tag.0@);
    }
}

/// Holds the track of the gravity of a particle emitter.
#[derive(Debug, Clone, PartialEq)]
pub struct Kp2g(pub TrackChunk<FloatBits>);

impl Chunk for Kp2g {
    open spec fn spec_tag() -> Tag {
        Tag([0x4B, 0x50, 0x32, 0x47])
    }

    fn tag() -> (t: Tag) {
        let t = Tag([0x4B, 0x50, 0x32, 0x47]);
        assert(t.0 =~= Self::spec_tag().0);
        t
    }
}

impl Materialized for Kp2g {
    type Version = u32;

    type Model = TrackChunkModel<FloatBits>;

    open spec fn model(&self) -> TrackChunkModel<FloatBits> {
        self.0.model()
    }

    open spec fn spec_parse(version: Option<u32>, input: Seq<u8>) -> Parsed<
        TrackChunkModel<FloatBits>,
    > {
        <TrackChunk<FloatBits>>::spec_parse(None, input)
    }

    open spec fn wire(m: TrackChunkModel<FloatBits>) -> Seq<u8> {
        <TrackChunk<FloatBits>>::wire(m)
    }

    open spec fn encode_error(m: TrackChunkModel<FloatBits>) -> Option<EncodeError> {
        <TrackChunk<FloatBits>>::encode_error(m)
    }

    fn parse_versioned<'a>(version: Option<u32>, input: &'a [u8]) -> (r: Parser<'a, Kp2g>) {
        let (input, chunk) = <TrackChunk<FloatBits>>::parse(input)?;
        Ok((input, Kp2g(chunk)))
    }

    fn encode(&self, output: &mut Vec<u8>) -> (r: Result<(), EncodeError>) {
        self.0.encode(output)
    }
}

impl Lossless for Kp2g {
    open spec fn faithful(m: TrackChunkModel<FloatBits>) -> bool {
        <TrackChunk<FloatBits>>::faithful(m)
    }

    proof fn lemma_parse_wire(version: Option<u32>, input: Seq<u8>) {
        <TrackChunk<FloatBits>>::lemma_parse_wire(None, input);
    }
}

impl Reparsable for Kp2g {
    open spec fn well_formed(m: TrackChunkModel<FloatBits>, version: Option<u32>) -> bool {
        <TrackChunk<FloatBits>>::well_formed(m, None) && m.tag == Self::spec_tag()
    }

    proof fn lemma_wire_parse(m: TrackChunkModel<FloatBits>, version: Option<u32>, tail: Seq<u8>) {
        <TrackChunk<FloatBits>>::lemma_wire_parse(m, None, tail);
    }
}

impl TaggedBlock for Kp2g {
    proof fn lemma_wire_tag(m: TrackChunkModel<FloatBits>) {
        lemma_tag_bytes(m.tag, m.tag.0@);
        assert(<TrackChunk<FloatBits>>::wire(m).take(4) =~= m.tag.0@);
    }
}

/// Holds the track of the emission rate of a particle emitter.
#[derive(Debug, Clone, PartialEq)]
pub struct Kp2e(pub TrackChunk<FloatBits>);

impl Chunk for Kp2e {
    open spec fn spec_tag() -> Tag {
        Tag([0x4B, 0x50, 0x32, 0x45])
    }

    fn tag() -> (t: Tag) {
        let t = Tag([0x4B, 0x50, 0x32, 0x45]);
        assert(t.0 =~= Self::spec_tag().0);
        t
    }
}

impl Materialized for Kp2e {
    type Version = u32;

    type Model = TrackChunkModel<FloatBits>;

    open spec fn model(&self) -> TrackChunkModel<FloatBits> {
        self.0.model()
    }

    open spec fn spec_parse(version: Option<u32>, input: Seq<u8>) -> Parsed<
        TrackChunkModel<FloatBits>,
    > {
        <TrackChunk<FloatBits>>::spec_parse(None, input)
    }

    open spec fn wire(m: TrackChunkModel<FloatBits>) -> Seq<u8> {
        <TrackChunk<FloatBits>>::wire(m)
    }

    open spec fn encode_error(m: TrackChunkModel<FloatBits>) -> Option<EncodeError> {
        <TrackChunk<FloatBits>>::encode_error(m)
    }

    fn parse_versioned<'a>(version: Option<u32>, input: &'a [u8]) -> (r: Parser<'a, Kp2e>) {
        let (input, chunk) = <TrackChunk<FloatBits>>::parse(input)?;
        Ok((input, Kp2e(chunk)))
    }

    fn encode(&self, output: &mut Vec<u8>) -> (r: Result<(), EncodeError>) {
        self.0.encode(output)
    }
}

impl Lossless for Kp2e {
    open spec fn faithful(m: TrackChunkModel<FloatBits>) -> bool {
        <TrackChunk<FloatBits>>::faithful(m)
    }

    proof fn lemma_parse_wire(version: Option<u32>, input: Seq<u8>) {
        <TrackChunk<FloatBits>>::lemma_parse_wire(None, input);
    }
}

impl Reparsable for Kp2e {
    open spec fn well_formed(m: TrackChunkModel<FloatBits>, version: Option<u32>) -> bool {
        <TrackChunk<FloatBits>>::well_formed(m, None) && m.tag == Self::spec_tag()
    }

    proof fn lemma_wire_parse(m: TrackChunkModel<FloatBits>, version: Option<u32>, tail: Seq<u8>) {
        <TrackChunk<FloatBits>>::lemma_wire_parse(m, None, tail);
    }
}

impl TaggedBlock for Kp2e {
    proof fn lemma_wire_tag(m: TrackChunkModel<FloatBits>) {
        lemma_tag_bytes(m.tag, m.tag.0@);
        assert(<TrackChunk<FloatBits>>::wire(m).take(4) =~= m.tag.0@);
    }
}

/// Holds the track of the length of a particle emitter.
#[derive(Debug, Clone, PartialEq)]
pub struct Kp2n(pub TrackChunk<FloatBits>);

impl Chunk for Kp2n {
    open spec fn spec_tag() -> Tag {
        Tag([0x4B, 0x50, 0x32, 0x4E])
    }

    fn tag() -> (t: Tag) {
        let t = Tag([0x4B, 0x50, 0x32, 0x4E]);
        assert(t.0 =~= Self::spec_tag().0);
        t
    }
}

impl Materialized for Kp2n {
    type Version = u32;

    type Model = TrackChunkModel<FloatBits>;

    open spec fn model(&self) -> TrackChunkModel<FloatBits> {
        self.0.model()
    }

    open spec fn spec_parse(version: Option<u32>, input: Seq<u8>) -> Parsed<
        TrackChunkModel<FloatBits>,
    > {
        <TrackChunk<FloatBits>>::spec_parse(None, input)
    }

    open spec fn wire(m: TrackChunkModel<FloatBits>) -> Seq<u8> {
        <TrackChunk<FloatBits>>::wire(m)
    }

    open spec fn encode_error(m: TrackChunkModel<FloatBits>) -> Option<EncodeError> {
        <TrackChunk<FloatBits>>::encode_error(m)
    }

    fn parse_versioned<'a>(version: Option<u32>, input: &'a [u8]) -> (r: Parser<'a, Kp2n>) {
        let (input, chunk) = <TrackChunk<FloatBits>>::parse(input)?;
        Ok((input, Kp2n(chunk)))
    }

    fn encode(&self, output: &mut Vec<u8>) -> (r: Result<(), EncodeError>) {
        self.0.encode(output)
    }
}

impl Lossless for Kp2n {
    open spec fn faithful(m: TrackChunkModel<FloatBits>) -> bool {
        <TrackChunk<FloatBits>>::faithful(m)
    }

    proof fn lemma_parse_wire(version: Option<u32>, input: Seq<u8>) {
        <TrackChunk<FloatBits>>::lemma_parse_wire(None, input);
    }
}

impl Reparsable for Kp2n {
    open spec fn well_formed(m: TrackChunkModel<FloatBits>, version: Option<u32>) -> bool {
        <TrackChunk<FloatBits>>::well_formed(m, None) && m.tag == Self::spec_tag()
    }

    proof fn lemma_wire_parse(m: TrackChunkModel<FloatBits>, version: Option<u32>, tail: Seq<u8>) {
        <TrackChunk<FloatBits>>::lemma_wire_parse(m, None, tail);
    }
}

impl TaggedBlock for Kp2n {
    proof fn lemma_wire_tag(m: TrackChunkModel<FloatBits>) {
        lemma_tag_bytes(m.tag, m.tag.0@);
        assert(<TrackChunk<FloatBits>>::wire(m).take(4) =~= m.tag.0@);
    }
}

/// Holds the track of the width of a particle emitter.
#[derive(Debug, Clone, PartialEq)]
pub struct Kp2w(pub TrackChunk<FloatBits>);

impl Chunk for Kp2w {
    open spec fn spec_tag() -> Tag {
        Tag([0x4B, 0x50, 0x32, 0x57])
    }

    fn tag() -> (t: Tag) {
        let t = Tag([0x4B, 0x50, 0x32, 0x57]);
        assert(t.0 =~= Self::spec_tag().0);
        t
    }
}

impl Materialized for Kp2w {
    type Version = u32;

    type Model = TrackChunkModel<FloatBits>;

    open spec fn model(&self) -> TrackChunkModel<FloatBits> {
        self.0.model()
    }

    open spec fn spec_parse(version: Option<u32>, input: Seq<u8>) -> Parsed<
        TrackChunkModel<FloatBits>,
    > {
        <TrackChunk<FloatBits>>::spec_parse(None, input)
    }

    open spec fn wire(m: TrackChunkModel<FloatBits>) -> Seq<u8> {
        <TrackChunk<FloatBits>>::wire(m)
    }

    open spec fn encode_error(m: TrackChunkModel<FloatBits>) -> Option<EncodeError> {
        <TrackChunk<FloatBits>>::encode_error(m)
    }

    fn parse_versioned<'a>(version: Option<u32>, input: &'a [u8]) -> (r: Parser<'a, Kp2w>) {
        let (input, chunk) = <TrackChunk<FloatBits>>::parse(input)?;
        Ok((input, Kp2w(chunk)))
    }

    fn encode(&self, output: &mut Vec<u8>) -> (r: Result<(), EncodeError>) {
        self.0.encode(output)
    }
}

impl Lossless for Kp2w {
    open spec fn faithful(m: TrackChunkModel<FloatBits>) -> bool {
        <TrackChunk<FloatBits>>::faithful(m)
    }

    proof fn lemma_parse_wire(version: Option<u32>, input: Seq<u8>) {
        <TrackChunk<FloatBits>>::lemma_parse_wire(None, input);
    }
}

impl Reparsable for Kp2w {
    open spec fn well_formed(m: TrackChunkModel<FloatBits>, version: Option<u32>) -> bool {
        <TrackChunk<FloatBits>>::well_formed(m, None) && m.tag == Self::spec_tag()
    }

    proof fn lemma_wire_parse(m: TrackChunkModel<FloatBits>, version: Option<u32>, tail: Seq<u8>) {
        <TrackChunk<FloatBits>>::lemma_wire_parse(m, None, tail);
    }
}

impl TaggedBlock for Kp2w {
    proof fn lemma_wire_tag(m: TrackChunkModel<FloatBits>) {
        lemma_tag_bytes(m.tag, m.tag.0@);
        assert(<TrackChunk<FloatBits>>::wire(m).take(4) =~= m.tag.0@);
    }
}

/// Holds the track of the visibility of a particle emitter.
#[derive(Debug, Clone, PartialEq)]
pub struct Kp2v(pub TrackChunk<FloatBits>);

impl Chunk for Kp2v {
    open spec fn spec_tag() -> Tag {
        Tag([0x4B, 0x50, 0x32, 0x56])
    }

    fn tag() -> (t: Tag) {
        let t = Tag([0x4B, 0x50, 0x32, 0x56]);
        assert(t.0 =~= Self::spec_tag().0);
        t
    }
}

impl Materialized for Kp2v {
    type Version = u32;

    type Model = TrackChunkModel<FloatBits>;

    open spec fn model(&self) -> TrackChunkModel<FloatBits> {
        self.0.model()
    }

    open spec fn spec_parse(version: Option<u32>, input: Seq<u8>) -> Parsed<
        TrackChunkModel<FloatBits>,
    > {
        <TrackChunk<FloatBits>>::spec_parse(None, input)
    }

    open spec fn wire(m: TrackChunkModel<FloatBits>) -> Seq<u8> {
        <TrackChunk<FloatBits>>::wire(m)
    }

    open spec fn encode_error(m: TrackChunkModel<FloatBits>) -> Option<EncodeError> {
        <TrackChunk<FloatBits>>::encode_error(m)
    }

    fn parse_versioned<'a>(version: Option<u32>, input: &'a [u8]) -> (r: Parser<'a, Kp2v>) {
        let (input, chunk) = <TrackChunk<FloatBits>>::parse(input)?;
        Ok((input, Kp2v(chunk)))
    }

    fn encode(&self, output: &mut Vec<u8>) -> (r: Result<(), EncodeError>) {
        self.0.encode(output)
    }
}

impl Lossless for Kp2v {
    open spec fn faithful(m: TrackChunkModel<FloatBits>) -> bool {
        <TrackChunk<FloatBits>>::faithful(m)
    }

    proof fn lemma_parse_wire(version: Option<u32>, input: Seq<u8>) {
        <TrackChunk<FloatBits>>::lemma_parse_wire(None, input);
    }
}

impl Reparsable for Kp2v {
    open spec fn well_formed(m: TrackChunkModel<FloatBits>, version: Option<u32>) -> bool {
        <TrackChunk<FloatBits>>::well_formed(m, None) && m.tag == Self::spec_tag()
    }

    proof fn lemma_wire_parse(m: TrackChunkModel<FloatBits>, version: Option<u32>, tail: Seq<u8>) {
        <TrackChunk<FloatBits>>::lemma_wire_parse(m, None, tail);
    }
}

impl TaggedBlock for Kp2v {
    proof fn lemma_wire_tag(m: TrackChunkModel<FloatBits>) {
        lemma_tag_bytes(m.tag, m.tag.0@);
        assert(<TrackChunk<FloatBits>>::wire(m).take(4) =~= m.tag.0@);
    }
}

} // verus!
