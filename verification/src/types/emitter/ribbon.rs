use crate::encoder::error::Error as EncodeError;
use crate::parser::error::MdxParseError;
use crate::parser::primitives::{Parsed, Parser};
use crate::types::chunk::{
    encode_error_slots, encode_slots, lemma_contains_front, lemma_tagged_parse_wire,
    lemma_tagged_wire_parse, order_of, opt_seq, parse_tagged, record_tag, refill_all,
    slots_faithful, spec_parse_tagged, wire_slots, BlockStep, Chunk, LosslessBlocks,
    OrderedSlots, Replay, ReparsableBlocks, TaggedBlock, TaggedBlocks,
};
use crate::types::chunk::utils::{lemma_tag_bytes, Tag};
use crate::types::materialize::{
    encode_error_inclusive_sized, encode_error_opt, encode_inclusive_sized, encode_opt,
    lemma_append_assoc, lemma_inclusive_parse_wire, lemma_inclusive_wire_parse, opt_faithful,
    opt_model, parse_inclusive_sized, spec_parse_inclusive_sized, wire_inclusive_sized,
    wire_opt, FloatBits, Lossless, LosslessBody, Materialized, Reparsable, ReparsableBody,
    SizedBody,
};
use crate::types::node::{Node, NodeModel};
use crate::types::tracks::{TrackChunk, TrackChunkModel};
use vstd::prelude::*;

verus! {

/// An emitter of ribbons.
#[derive(Debug, Clone, PartialEq)]
pub struct RibbonEmitter {
    pub node: Node,
    pub height_above: FloatBits,
    pub height_below: FloatBits,
    pub alpha: FloatBits,
    pub color: [FloatBits; 3],
    pub lifespan: FloatBits,
    pub texture_slot: u32,
    pub emission_rate: u32,
    pub rows: u32,
    pub columns: u32,
    pub material_id: u32,
    pub gravity: FloatBits,
    pub krha: Option<Krha>,
    pub krhb: Option<Krhb>,
    pub kral: Option<Kral>,
    pub krco: Option<Krco>,
    pub krtx: Option<Krtx>,
    pub krvs: Option<Krvs>,
    /// The order in which the optional blocks were met while parsing; `None`
    /// in a value that was not parsed, which is encoded in the order of the
    /// fields.
    pub ordered: Option<Vec<Tag>>,
}

/// What a value of [`RibbonEmitter`] stands for in specifications.
pub struct RibbonEmitterModel {
    pub node: NodeModel,
    pub height_above: FloatBits,
    pub height_below: FloatBits,
    pub alpha: FloatBits,
    pub color: Seq<FloatBits>,
    pub lifespan: FloatBits,
    pub texture_slot: u32,
    pub emission_rate: u32,
    pub rows: u32,
    pub columns: u32,
    pub material_id: u32,
    pub gravity: FloatBits,
    pub krha: Option<TrackChunkModel<FloatBits>>,
    pub krhb: Option<TrackChunkModel<FloatBits>>,
    pub kral: Option<TrackChunkModel<FloatBits>>,
    pub krco: Option<TrackChunkModel<Seq<FloatBits>>>,
    pub krtx: Option<TrackChunkModel<u32>>,
    pub krvs: Option<TrackChunkModel<FloatBits>>,
    pub ordered: Option<Seq<Tag>>,
}

impl OrderedSlots for RibbonEmitterModel {
    open spec fn canonical() -> Seq<Tag> {
        seq![Krha::spec_tag(), Krhb::spec_tag(), Kral::spec_tag(), Krco::spec_tag(), Krtx::spec_tag(), Krvs::spec_tag()]
    }

    open spec fn recorded(self) -> bool {
        self.ordered is Some
    }

    open spec fn order(self) -> Seq<Tag> {
        order_of(self.ordered)
    }

    open spec fn slot_wire(self, tag: Tag) -> Seq<u8> {
        if tag == Krha::spec_tag() {
            wire_opt::<Krha>(self.krha)
        } else if tag == Krhb::spec_tag() {
            wire_opt::<Krhb>(self.krhb)
        } else if tag == Kral::spec_tag() {
            wire_opt::<Kral>(self.kral)
        } else if tag == Krco::spec_tag() {
            wire_opt::<Krco>(self.krco)
        } else if tag == Krtx::spec_tag() {
            wire_opt::<Krtx>(self.krtx)
        } else if tag == Krvs::spec_tag() {
            wire_opt::<Krvs>(self.krvs)
        } else {
            Seq::empty()
        }
    }

    open spec fn slot_error(self, tag: Tag) -> Option<EncodeError> {
        if tag == Krha::spec_tag() {
            encode_error_opt::<Krha>(self.krha)
        } else if tag == Krhb::spec_tag() {
            encode_error_opt::<Krhb>(self.krhb)
        } else if tag == Kral::spec_tag() {
            encode_error_opt::<Kral>(self.kral)
        } else if tag == Krco::spec_tag() {
            encode_error_opt::<Krco>(self.krco)
        } else if tag == Krtx::spec_tag() {
            encode_error_opt::<Krtx>(self.krtx)
        } else if tag == Krvs::spec_tag() {
            encode_error_opt::<Krvs>(self.krvs)
        } else {
            None
        }
    }

    open spec fn slot_faithful(self, tag: Tag) -> bool {
        if tag == Krha::spec_tag() {
            opt_faithful::<Krha>(self.krha)
        } else if tag == Krhb::spec_tag() {
            opt_faithful::<Krhb>(self.krhb)
        } else if tag == Kral::spec_tag() {
            opt_faithful::<Kral>(self.kral)
        } else if tag == Krco::spec_tag() {
            opt_faithful::<Krco>(self.krco)
        } else if tag == Krtx::spec_tag() {
            opt_faithful::<Krtx>(self.krtx)
        } else if tag == Krvs::spec_tag() {
            opt_faithful::<Krvs>(self.krvs)
        } else {
            true
        }
    }

    open spec fn frame(self) -> RibbonEmitterModel {
        RibbonEmitterModel {
            node: self.node,
            height_above: self.height_above,
            height_below: self.height_below,
            alpha: self.alpha,
            color: self.color,
            lifespan: self.lifespan,
            texture_slot: self.texture_slot,
            emission_rate: self.emission_rate,
            rows: self.rows,
            columns: self.columns,
            material_id: self.material_id,
            gravity: self.gravity,
            krha: None,
            krhb: None,
            kral: None,
            krco: None,
            krtx: None,
            krvs: None,
            ordered: None,
        }
    }
}

impl Replay for RibbonEmitter {
    type Model = RibbonEmitterModel;

    open spec fn slots_model(&self) -> RibbonEmitterModel {
        RibbonEmitterModel {
            node: self.node.model(),
            height_above: self.height_above.model(),
            height_below: self.height_below.model(),
            alpha: self.alpha.model(),
            color: self.color.model(),
            lifespan: self.lifespan.model(),
            texture_slot: self.texture_slot.model(),
            emission_rate: self.emission_rate.model(),
            rows: self.rows.model(),
            columns: self.columns.model(),
            material_id: self.material_id.model(),
            gravity: self.gravity.model(),
            krha: opt_model(self.krha),
            krhb: opt_model(self.krhb),
            kral: opt_model(self.kral),
            krco: opt_model(self.krco),
            krtx: opt_model(self.krtx),
            krvs: opt_model(self.krvs),
            ordered: opt_seq(self.ordered),
        }
    }

    fn encode_slot(&self, tag: Tag, output: &mut Vec<u8>) -> (r: Result<(), EncodeError>) {
        if tag.same_as(&Krha::tag()) {
            assert(self.slots_model().slot_error(tag) == encode_error_opt::<Krha>(
                opt_model(self.krha),
            ));
            assert(self.slots_model().slot_wire(tag) == wire_opt::<Krha>(opt_model(self.krha)));
            encode_opt(&self.krha, output)
        } else if tag.same_as(&Krhb::tag()) {
            assert(self.slots_model().slot_error(tag) == encode_error_opt::<Krhb>(
                opt_model(self.krhb),
            ));
            assert(self.slots_model().slot_wire(tag) == wire_opt::<Krhb>(opt_model(self.krhb)));
            encode_opt(&self.krhb, output)
        } else if tag.same_as(&Kral::tag()) {
            assert(self.slots_model().slot_error(tag) == encode_error_opt::<Kral>(
                opt_model(self.kral),
            ));
            assert(self.slots_model().slot_wire(tag) == wire_opt::<Kral>(opt_model(self.kral)));
            encode_opt(&self.kral, output)
        } else if tag.same_as(&Krco::tag()) {
            assert(self.slots_model().slot_error(tag) == encode_error_opt::<Krco>(
                opt_model(self.krco),
            ));
            assert(self.slots_model().slot_wire(tag) == wire_opt::<Krco>(opt_model(self.krco)));
            encode_opt(&self.krco, output)
        } else if tag.same_as(&Krtx::tag()) {
            assert(self.slots_model().slot_error(tag) == encode_error_opt::<Krtx>(
                opt_model(self.krtx),
            ));
            assert(self.slots_model().slot_wire(tag) == wire_opt::<Krtx>(opt_model(self.krtx)));
            encode_opt(&self.krtx, output)
        } else if tag.same_as(&Krvs::tag()) {
            assert(self.slots_model().slot_error(tag) == encode_error_opt::<Krvs>(
                opt_model(self.krvs),
            ));
            assert(self.slots_model().slot_wire(tag) == wire_opt::<Krvs>(opt_model(self.krvs)));
            encode_opt(&self.krvs, output)
        } else {
            assert(self.slots_model().slot_error(tag) is None);
            assert(output@ =~= old(output)@ + self.slots_model().slot_wire(tag));
            Ok(())
        }
    }
}

impl TaggedBlocks for RibbonEmitter {
    open spec fn spec_block(m: RibbonEmitterModel, tag: Tag, input: Seq<u8>) -> BlockStep<RibbonEmitterModel> {
        if tag == Krha::spec_tag() {
            match Krha::spec_parse(None, input) {
                Ok((rest, block)) => BlockStep::Parsed(
                    rest,
                    RibbonEmitterModel {
                        node: m.node,
                        height_above: m.height_above,
                        height_below: m.height_below,
                        alpha: m.alpha,
                        color: m.color,
                        lifespan: m.lifespan,
                        texture_slot: m.texture_slot,
                        emission_rate: m.emission_rate,
                        rows: m.rows,
                        columns: m.columns,
                        material_id: m.material_id,
                        gravity: m.gravity,
                        krha: Some(block),
                        krhb: m.krhb,
                        kral: m.kral,
                        krco: m.krco,
                        krtx: m.krtx,
                        krvs: m.krvs,
                        ordered: Some(m.order().push(tag)),
                    },
                ),
                Err(e) => BlockStep::Failed(e),
            }
        } else if tag == Krhb::spec_tag() {
            match Krhb::spec_parse(None, input) {
                Ok((rest, block)) => BlockStep::Parsed(
                    rest,
                    RibbonEmitterModel {
                        node: m.node,
                        height_above: m.height_above,
                        height_below: m.height_below,
                        alpha: m.alpha,
                        color: m.color,
                        lifespan: m.lifespan,
                        texture_slot: m.texture_slot,
                        emission_rate: m.emission_rate,
                        rows: m.rows,
                        columns: m.columns,
                        material_id: m.material_id,
                        gravity: m.gravity,
                        krha: m.krha,
                        krhb: Some(block),
                        kral: m.kral,
                        krco: m.krco,
                        krtx: m.krtx,
                        krvs: m.krvs,
                        ordered: Some(m.order().push(tag)),
                    },
                ),
                Err(e) => BlockStep::Failed(e),
            }
        } else if tag == Kral::spec_tag() {
            match Kral::spec_parse(None, input) {
                Ok((rest, block)) => BlockStep::Parsed(
                    rest,
                    RibbonEmitterModel {
                        node: m.node,
                        height_above: m.height_above,
                        height_below: m.height_below,
                        alpha: m.alpha,
                        color: m.color,
                        lifespan: m.lifespan,
                        texture_slot: m.texture_slot,
                        emission_rate: m.emission_rate,
                        rows: m.rows,
                        columns: m.columns,
                        material_id: m.material_id,
                        gravity: m.gravity,
                        krha: m.krha,
                        krhb: m.krhb,
                        kral: Some(block),
                        krco: m.krco,
                        krtx: m.krtx,
                        krvs: m.krvs,
                        ordered: Some(m.order().push(tag)),
                    },
                ),
                Err(e) => BlockStep::Failed(e),
            }
        } else if tag == Krco::spec_tag() {
            match Krco::spec_parse(None, input) {
                Ok((rest, block)) => BlockStep::Parsed(
                    rest,
                    RibbonEmitterModel {
                        node: m.node,
                        height_above: m.height_above,
                        height_below: m.height_below,
                        alpha: m.alpha,
                        color: m.color,
                        lifespan: m.lifespan,
                        texture_slot: m.texture_slot,
                        emission_rate: m.emission_rate,
                        rows: m.rows,
                        columns: m.columns,
                        material_id: m.material_id,
                        gravity: m.gravity,
                        krha: m.krha,
                        krhb: m.krhb,
                        kral: m.kral,
                        krco: Some(block),
                        krtx: m.krtx,
                        krvs: m.krvs,
                        ordered: Some(m.order().push(tag)),
                    },
                ),
                Err(e) => BlockStep::Failed(e),
            }
        } else if tag == Krtx::spec_tag() {
            match Krtx::spec_parse(None, input) {
                Ok((rest, block)) => BlockStep::Parsed(
                    rest,
                    RibbonEmitterModel {
                        node: m.node,
                        height_above: m.height_above,
                        height_below: m.height_below,
                        alpha: m.alpha,
                        color: m.color,
                        lifespan: m.lifespan,
                        texture_slot: m.texture_slot,
                        emission_rate: m.emission_rate,
                        rows: m.rows,
                        columns: m.columns,
                        material_id: m.material_id,
                        gravity: m.gravity,
                        krha: m.krha,
                        krhb: m.krhb,
                        kral: m.kral,
                        krco: m.krco,
                        krtx: Some(block),
                        krvs: m.krvs,
                        ordered: Some(m.order().push(tag)),
                    },
                ),
                Err(e) => BlockStep::Failed(e),
            }
        } else if tag == Krvs::spec_tag() {
            match Krvs::spec_parse(None, input) {
                Ok((rest, block)) => BlockStep::Parsed(
                    rest,
                    RibbonEmitterModel {
                        node: m.node,
                        height_above: m.height_above,
                        height_below: m.height_below,
                        alpha: m.alpha,
                        color: m.color,
                        lifespan: m.lifespan,
                        texture_slot: m.texture_slot,
                        emission_rate: m.emission_rate,
                        rows: m.rows,
                        columns: m.columns,
                        material_id: m.material_id,
                        gravity: m.gravity,
                        krha: m.krha,
                        krhb: m.krhb,
                        kral: m.kral,
                        krco: m.krco,
                        krtx: m.krtx,
                        krvs: Some(block),
                        ordered: Some(m.order().push(tag)),
                    },
                ),
                Err(e) => BlockStep::Failed(e),
            }
        } else {
            BlockStep::Failed(MdxParseError::UnknownTag(tag))
        }
    }

    fn parse_block<'a>(&mut self, tag: Tag, input: &'a [u8]) -> (r: Parser<'a, bool>) {
        if tag.same_as(&Krha::tag()) {
            let (rest, block) = Krha::parse(input)?;
            self.krha = Some(block);
            record_tag(&mut self.ordered, tag);
            Ok((rest, false))
        } else if tag.same_as(&Krhb::tag()) {
            let (rest, block) = Krhb::parse(input)?;
            self.krhb = Some(block);
            record_tag(&mut self.ordered, tag);
            Ok((rest, false))
        } else if tag.same_as(&Kral::tag()) {
            let (rest, block) = Kral::parse(input)?;
            self.kral = Some(block);
            record_tag(&mut self.ordered, tag);
            Ok((rest, false))
        } else if tag.same_as(&Krco::tag()) {
            let (rest, block) = Krco::parse(input)?;
            self.krco = Some(block);
            record_tag(&mut self.ordered, tag);
            Ok((rest, false))
        } else if tag.same_as(&Krtx::tag()) {
            let (rest, block) = Krtx::parse(input)?;
            self.krtx = Some(block);
            record_tag(&mut self.ordered, tag);
            Ok((rest, false))
        } else if tag.same_as(&Krvs::tag()) {
            let (rest, block) = Krvs::parse(input)?;
            self.krvs = Some(block);
            record_tag(&mut self.ordered, tag);
            Ok((rest, false))
        } else {
            Err(MdxParseError::UnknownTag(tag))
        }
    }
}

impl LosslessBlocks for RibbonEmitter {
    proof fn lemma_block_step(m: RibbonEmitterModel, tag: Tag, input: Seq<u8>) {
        if tag == Krha::spec_tag() {
            Krha::lemma_parse_wire(None, input);
        } else if tag == Krhb::spec_tag() {
            Krhb::lemma_parse_wire(None, input);
        } else if tag == Kral::spec_tag() {
            Kral::lemma_parse_wire(None, input);
        } else if tag == Krco::spec_tag() {
            Krco::lemma_parse_wire(None, input);
        } else if tag == Krtx::spec_tag() {
            Krtx::lemma_parse_wire(None, input);
        } else if tag == Krvs::spec_tag() {
            Krvs::lemma_parse_wire(None, input);
        }
    }
}

impl SizedBody for RibbonEmitter {
    type Model = RibbonEmitterModel;

    open spec fn body_model(&self) -> RibbonEmitterModel {
        self.slots_model()
    }

    open spec fn spec_parse_body(version: Option<u32>, input: Seq<u8>) -> Parsed<RibbonEmitterModel> {
        match Node::spec_parse(None, input) {
            Ok((rest, node)) => match FloatBits::spec_parse(None, rest) {
                Ok((rest, height_above)) => match FloatBits::spec_parse(None, rest) {
                    Ok((rest, height_below)) => match FloatBits::spec_parse(None, rest) {
                        Ok((rest, alpha)) => match <[FloatBits; 3]>::spec_parse(None, rest) {
                            Ok((rest, color)) => match FloatBits::spec_parse(None, rest) {
                                Ok((rest, lifespan)) => match u32::spec_parse(None, rest) {
                                    Ok((rest, texture_slot)) => match u32::spec_parse(None, rest) {
                                        Ok((rest, emission_rate)) => match u32::spec_parse(None, rest) {
                                            Ok((rest, rows)) => match u32::spec_parse(None, rest) {
                                                Ok((rest, columns)) => match u32::spec_parse(None, rest) {
                                                    Ok((rest, material_id)) => match FloatBits::spec_parse(None, rest) {
                                                        Ok((rest, gravity)) => match spec_parse_tagged::<RibbonEmitter>(
                                                            RibbonEmitterModel {
                                                                node,
                                                                height_above,
                                                                height_below,
                                                                alpha,
                                                                color,
                                                                lifespan,
                                                                texture_slot,
                                                                emission_rate,
                                                                rows,
                                                                columns,
                                                                material_id,
                                                                gravity,
                                                                krha: None,
                                                                krhb: None,
                                                                kral: None,
                                                                krco: None,
                                                                krtx: None,
                                                                krvs: None,
                                                                ordered: Some(Seq::empty()),
                                                            },
                                                            rest,
                                                        ) {
                                                            Ok((rest, scanned)) => Ok((rest, scanned)),
                                                            Err(e) => Err(e),
                                                        },
                                                        Err(e) => Err(e),
                                                    },
                                                    Err(e) => Err(e),
                                                },
                                                Err(e) => Err(e),
                                            },
                                            Err(e) => Err(e),
                                        },
                                        Err(e) => Err(e),
                                    },
                                    Err(e) => Err(e),
                                },
                                Err(e) => Err(e),
                            },
                            Err(e) => Err(e),
                        },
                        Err(e) => Err(e),
                    },
                    Err(e) => Err(e),
                },
                Err(e) => Err(e),
            },
            Err(e) => Err(e),
        }
    }

    open spec fn body_wire(m: RibbonEmitterModel) -> Seq<u8> {
        Node::wire(m.node) + (FloatBits::wire(m.height_above) + (FloatBits::wire(m.height_below) + (FloatBits::wire(m.alpha) + (<[FloatBits; 3]>::wire(m.color) + (FloatBits::wire(m.lifespan) + (u32::wire(m.texture_slot) + (u32::wire(m.emission_rate) + (u32::wire(m.rows) + (u32::wire(m.columns) + (u32::wire(m.material_id) + (FloatBits::wire(m.gravity) + (wire_slots(m)))))))))))))
    }

    open spec fn body_encode_error(m: RibbonEmitterModel) -> Option<EncodeError> {
        match Node::encode_error(m.node) {
            Some(e) => Some(e),
            None => match FloatBits::encode_error(m.height_above) {
                Some(e) => Some(e),
                None => match FloatBits::encode_error(m.height_below) {
                    Some(e) => Some(e),
                    None => match FloatBits::encode_error(m.alpha) {
                        Some(e) => Some(e),
                        None => match <[FloatBits; 3]>::encode_error(m.color) {
                            Some(e) => Some(e),
                            None => match FloatBits::encode_error(m.lifespan) {
                                Some(e) => Some(e),
                                None => match u32::encode_error(m.texture_slot) {
                                    Some(e) => Some(e),
                                    None => match u32::encode_error(m.emission_rate) {
                                        Some(e) => Some(e),
                                        None => match u32::encode_error(m.rows) {
                                            Some(e) => Some(e),
                                            None => match u32::encode_error(m.columns) {
                                                Some(e) => Some(e),
                                                None => match u32::encode_error(m.material_id) {
                                                    Some(e) => Some(e),
                                                    None => match FloatBits::encode_error(m.gravity) {
                                                        Some(e) => Some(e),
                                                        None => encode_error_slots(m),
                                                    },
                                                },
                                            },
                                        },
                                    },
                                },
                            },
                        },
                    },
                },
            },
        }
    }

    fn parse_body<'a>(version: Option<u32>, input: &'a [u8]) -> (r: Parser<'a, RibbonEmitter>) {
        let (input, node) = Node::parse(input)?;
        let (input, height_above) = FloatBits::parse(input)?;
        let (input, height_below) = FloatBits::parse(input)?;
        let (input, alpha) = FloatBits::parse(input)?;
        let (input, color) = <[FloatBits; 3]>::parse(input)?;
        let (input, lifespan) = FloatBits::parse(input)?;
        let (input, texture_slot) = u32::parse(input)?;
        let (input, emission_rate) = u32::parse(input)?;
        let (input, rows) = u32::parse(input)?;
        let (input, columns) = u32::parse(input)?;
        let (input, material_id) = u32::parse(input)?;
        let (input, gravity) = FloatBits::parse(input)?;
        let mut value = RibbonEmitter {
            node,
            height_above,
            height_below,
            alpha,
            color,
            lifespan,
            texture_slot,
            emission_rate,
            rows,
            columns,
            material_id,
            gravity,
            krha: None,
            krhb: None,
            kral: None,
            krco: None,
            krtx: None,
            krvs: None,
            ordered: Some(Vec::new()),
        };
        let (input, _) = parse_tagged(&mut value, input)?;
        Ok((input, value))
    }

    fn encode_body(&self, output: &mut Vec<u8>) -> (r: Result<(), EncodeError>) {
        let ghost p0 = output@;
        self.node.encode(output)?;
        let ghost p1 = output@;
        self.height_above.encode(output)?;
        let ghost p2 = output@;
        self.height_below.encode(output)?;
        let ghost p3 = output@;
        self.alpha.encode(output)?;
        let ghost p4 = output@;
        self.color.encode(output)?;
        let ghost p5 = output@;
        self.lifespan.encode(output)?;
        let ghost p6 = output@;
        self.texture_slot.encode(output)?;
        let ghost p7 = output@;
        self.emission_rate.encode(output)?;
        let ghost p8 = output@;
        self.rows.encode(output)?;
        let ghost p9 = output@;
        self.columns.encode(output)?;
        let ghost p10 = output@;
        self.material_id.encode(output)?;
        let ghost p11 = output@;
        self.gravity.encode(output)?;
        let ghost p12 = output@;
        let canonical = [Krha::tag(), Krhb::tag(), Kral::tag(), Krco::tag(), Krtx::tag(), Krvs::tag()];
        assert(canonical@ =~= RibbonEmitterModel::canonical());
        encode_slots(self, &self.ordered, canonical.as_slice(), output)?;
        proof {
            let m = self.body_model();
            let w1 = Node::wire(m.node);
            let w2 = FloatBits::wire(m.height_above);
            let w3 = FloatBits::wire(m.height_below);
            let w4 = FloatBits::wire(m.alpha);
            let w5 = <[FloatBits; 3]>::wire(m.color);
            let w6 = FloatBits::wire(m.lifespan);
            let w7 = u32::wire(m.texture_slot);
            let w8 = u32::wire(m.emission_rate);
            let w9 = u32::wire(m.rows);
            let w10 = u32::wire(m.columns);
            let w11 = u32::wire(m.material_id);
            let w12 = FloatBits::wire(m.gravity);
            let w13 = wire_slots(m);
            let s12 = w12 + w13;
            let s11 = w11 + s12;
            let s10 = w10 + s11;
            let s9 = w9 + s10;
            let s8 = w8 + s9;
            let s7 = w7 + s8;
            let s6 = w6 + s7;
            let s5 = w5 + s6;
            let s4 = w4 + s5;
            let s3 = w3 + s4;
            let s2 = w2 + s3;
            lemma_append_assoc(p11, w12, w13);
            lemma_append_assoc(p10, w11, s12);
            lemma_append_assoc(p9, w10, s11);
            lemma_append_assoc(p8, w9, s10);
            lemma_append_assoc(p7, w8, s9);
            lemma_append_assoc(p6, w7, s8);
            lemma_append_assoc(p5, w6, s7);
            lemma_append_assoc(p4, w5, s6);
            lemma_append_assoc(p3, w4, s5);
            lemma_append_assoc(p2, w3, s4);
            lemma_append_assoc(p1, w2, s3);
            lemma_append_assoc(p0, w1, s2);
        }
        Ok(())
    }
}

impl LosslessBody for RibbonEmitter {
    open spec fn body_faithful(m: RibbonEmitterModel) -> bool {
        Node::faithful(m.node) && FloatBits::faithful(m.height_above) && FloatBits::faithful(m.height_below) && FloatBits::faithful(m.alpha) && <[FloatBits; 3]>::faithful(m.color) && FloatBits::faithful(m.lifespan) && u32::faithful(m.texture_slot) && u32::faithful(m.emission_rate) && u32::faithful(m.rows) && u32::faithful(m.columns) && u32::faithful(m.material_id) && FloatBits::faithful(m.gravity) && m.order().no_duplicates() && slots_faithful(m, m.order())
    }

    #[verifier::rlimit(50)]
    proof fn lemma_body_parse_wire(version: Option<u32>, input: Seq<u8>) {
        Node::lemma_parse_wire(None, input);
        match Node::spec_parse(None, input) {
            Ok((rest1, node)) => {
                assert(Node::faithful(node) ==> Node::encode_error(node) is None
                    && Node::wire(node) + rest1 == input);
                FloatBits::lemma_parse_wire(None, rest1);
                match FloatBits::spec_parse(None, rest1) {
                    Ok((rest2, height_above)) => {
                        assert(FloatBits::faithful(height_above) ==> FloatBits::encode_error(height_above) is None
                            && FloatBits::wire(height_above) + rest2 == rest1);
                        FloatBits::lemma_parse_wire(None, rest2);
                        match FloatBits::spec_parse(None, rest2) {
                            Ok((rest3, height_below)) => {
                                assert(FloatBits::faithful(height_below) ==> FloatBits::encode_error(height_below) is None
                                    && FloatBits::wire(height_below) + rest3 == rest2);
                                FloatBits::lemma_parse_wire(None, rest3);
                                match FloatBits::spec_parse(None, rest3) {
                                    Ok((rest4, alpha)) => {
                                        assert(FloatBits::faithful(alpha) ==> FloatBits::encode_error(alpha) is None
                                            && FloatBits::wire(alpha) + rest4 == rest3);
                                        <[FloatBits; 3]>::lemma_parse_wire(None, rest4);
                                        match <[FloatBits; 3]>::spec_parse(None, rest4) {
                                            Ok((rest5, color)) => {
                                                assert(<[FloatBits; 3]>::faithful(color) ==> <[FloatBits; 3]>::encode_error(color) is None
                                                    && <[FloatBits; 3]>::wire(color) + rest5 == rest4);
                                                FloatBits::lemma_parse_wire(None, rest5);
                                                match FloatBits::spec_parse(None, rest5) {
                                                    Ok((rest6, lifespan)) => {
                                                        assert(FloatBits::faithful(lifespan) ==> FloatBits::encode_error(lifespan) is None
                                                            && FloatBits::wire(lifespan) + rest6 == rest5);
                                                        u32::lemma_parse_wire(None, rest6);
                                                        match u32::spec_parse(None, rest6) {
                                                            Ok((rest7, texture_slot)) => {
                                                                assert(u32::faithful(texture_slot) ==> u32::encode_error(texture_slot) is None
                                                                    && u32::wire(texture_slot) + rest7 == rest6);
                                                                u32::lemma_parse_wire(None, rest7);
                                                                match u32::spec_parse(None, rest7) {
                                                                    Ok((rest8, emission_rate)) => {
                                                                        assert(u32::faithful(emission_rate) ==> u32::encode_error(emission_rate) is None
                                                                            && u32::wire(emission_rate) + rest8 == rest7);
                                                                        u32::lemma_parse_wire(None, rest8);
                                                                        match u32::spec_parse(None, rest8) {
                                                                            Ok((rest9, rows)) => {
                                                                                assert(u32::faithful(rows) ==> u32::encode_error(rows) is None
                                                                                    && u32::wire(rows) + rest9 == rest8);
                                                                                u32::lemma_parse_wire(None, rest9);
                                                                                match u32::spec_parse(None, rest9) {
                                                                                    Ok((rest10, columns)) => {
                                                                                        assert(u32::faithful(columns) ==> u32::encode_error(columns) is None
                                                                                            && u32::wire(columns) + rest10 == rest9);
                                                                                        u32::lemma_parse_wire(None, rest10);
                                                                                        match u32::spec_parse(None, rest10) {
                                                                                            Ok((rest11, material_id)) => {
                                                                                                assert(u32::faithful(material_id) ==> u32::encode_error(material_id) is None
                                                                                                    && u32::wire(material_id) + rest11 == rest10);
                                                                                                FloatBits::lemma_parse_wire(None, rest11);
                                                                                                match FloatBits::spec_parse(None, rest11) {
                                                                                                    Ok((rest12, gravity)) => {
                                                                                                        assert(FloatBits::faithful(gravity) ==> FloatBits::encode_error(gravity) is None
                                                                                                            && FloatBits::wire(gravity) + rest12 == rest11);
                                                                                                        lemma_tagged_parse_wire::<RibbonEmitter>(
                                                                                                            RibbonEmitterModel {
                                                                                                                node,
                                                                                                                height_above,
                                                                                                                height_below,
                                                                                                                alpha,
                                                                                                                color,
                                                                                                                lifespan,
                                                                                                                texture_slot,
                                                                                                                emission_rate,
                                                                                                                rows,
                                                                                                                columns,
                                                                                                                material_id,
                                                                                                                gravity,
                                                                                                                krha: None,
                                                                                                                krhb: None,
                                                                                                                kral: None,
                                                                                                                krco: None,
                                                                                                                krtx: None,
                                                                                                                krvs: None,
                                                                                                                ordered: Some(Seq::empty()),
                                                                                                            },
                                                                                                            rest12,
                                                                                                        );
                                                                                                        match spec_parse_tagged::<RibbonEmitter>(
                                                                                                            RibbonEmitterModel {
                                                                                                                node,
                                                                                                                height_above,
                                                                                                                height_below,
                                                                                                                alpha,
                                                                                                                color,
                                                                                                                lifespan,
                                                                                                                texture_slot,
                                                                                                                emission_rate,
                                                                                                                rows,
                                                                                                                columns,
                                                                                                                material_id,
                                                                                                                gravity,
                                                                                                                krha: None,
                                                                                                                krhb: None,
                                                                                                                kral: None,
                                                                                                                krco: None,
                                                                                                                krtx: None,
                                                                                                                krvs: None,
                                                                                                                ordered: Some(Seq::empty()),
                                                                                                            },
                                                                                                            rest12,
                                                                                                        ) {
                                                                                                            Ok((rest13, scanned)) => {
                                                                                                                let m = scanned;
                                                                                                                if Self::body_faithful(m) {
                                                                                                                    assert(scanned.order().skip(0) =~= scanned.order());
                                                                                                                    let w1 = Node::wire(m.node);
                                                                                                                    let w2 = FloatBits::wire(m.height_above);
                                                                                                                    let w3 = FloatBits::wire(m.height_below);
                                                                                                                    let w4 = FloatBits::wire(m.alpha);
                                                                                                                    let w5 = <[FloatBits; 3]>::wire(m.color);
                                                                                                                    let w6 = FloatBits::wire(m.lifespan);
                                                                                                                    let w7 = u32::wire(m.texture_slot);
                                                                                                                    let w8 = u32::wire(m.emission_rate);
                                                                                                                    let w9 = u32::wire(m.rows);
                                                                                                                    let w10 = u32::wire(m.columns);
                                                                                                                    let w11 = u32::wire(m.material_id);
                                                                                                                    let w12 = FloatBits::wire(m.gravity);
                                                                                                                    let w13 = wire_slots(m);
                                                                                                                    let s12 = w12 + w13;
                                                                                                                    let s11 = w11 + s12;
                                                                                                                    let s10 = w10 + s11;
                                                                                                                    let s9 = w9 + s10;
                                                                                                                    let s8 = w8 + s9;
                                                                                                                    let s7 = w7 + s8;
                                                                                                                    let s6 = w6 + s7;
                                                                                                                    let s5 = w5 + s6;
                                                                                                                    let s4 = w4 + s5;
                                                                                                                    let s3 = w3 + s4;
                                                                                                                    let s2 = w2 + s3;
                                                                                                                    lemma_append_assoc(w12, w13, rest13);
                                                                                                                    lemma_append_assoc(w11, s12, rest13);
                                                                                                                    lemma_append_assoc(w10, s11, rest13);
                                                                                                                    lemma_append_assoc(w9, s10, rest13);
                                                                                                                    lemma_append_assoc(w8, s9, rest13);
                                                                                                                    lemma_append_assoc(w7, s8, rest13);
                                                                                                                    lemma_append_assoc(w6, s7, rest13);
                                                                                                                    lemma_append_assoc(w5, s6, rest13);
                                                                                                                    lemma_append_assoc(w4, s5, rest13);
                                                                                                                    lemma_append_assoc(w3, s4, rest13);
                                                                                                                    lemma_append_assoc(w2, s3, rest13);
                                                                                                                    lemma_append_assoc(w1, s2, rest13);
                                                                                                                }
                                                                                                            },
                                                                                                            Err(_) => {},
                                                                                                        }
                                                                                                    },
                                                                                                    Err(_) => {},
                                                                                                }
                                                                                            },
                                                                                            Err(_) => {},
                                                                                        }
                                                                                    },
                                                                                    Err(_) => {},
                                                                                }
                                                                            },
                                                                            Err(_) => {},
                                                                        }
                                                                    },
                                                                    Err(_) => {},
                                                                }
                                                            },
                                                            Err(_) => {},
                                                        }
                                                    },
                                                    Err(_) => {},
                                                }
                                            },
                                            Err(_) => {},
                                        }
                                    },
                                    Err(_) => {},
                                }
                            },
                            Err(_) => {},
                        }
                    },
                    Err(_) => {},
                }
            },
            Err(_) => {},
        }
    }
}

impl Materialized for RibbonEmitter {
    type Version = u32;

    type Model = RibbonEmitterModel;

    open spec fn model(&self) -> RibbonEmitterModel {
        self.body_model()
    }

    open spec fn spec_parse(version: Option<u32>, input: Seq<u8>) -> Parsed<RibbonEmitterModel> {
        spec_parse_inclusive_sized::<RibbonEmitter>(version, input)
    }

    open spec fn wire(m: RibbonEmitterModel) -> Seq<u8> {
        wire_inclusive_sized::<RibbonEmitter>(m)
    }

    open spec fn encode_error(m: RibbonEmitterModel) -> Option<EncodeError> {
        encode_error_inclusive_sized::<RibbonEmitter>(m)
    }

    fn parse_versioned<'a>(version: Option<u32>, input: &'a [u8]) -> (r: Parser<'a, RibbonEmitter>) {
        parse_inclusive_sized::<RibbonEmitter>(version, input)
    }

    /// The record is encoded aside and then written with its size: if it
    /// fails, the output is left as it is.
    fn encode(&self, output: &mut Vec<u8>) -> (r: Result<(), EncodeError>)
        ensures
            r is Err ==> final(output)@ == old(output)@,
    {
        encode_inclusive_sized(output, self)
    }
}

impl Lossless for RibbonEmitter {
    open spec fn faithful(m: RibbonEmitterModel) -> bool {
        RibbonEmitter::body_faithful(m)
    }

    proof fn lemma_parse_wire(version: Option<u32>, input: Seq<u8>) {
        lemma_inclusive_parse_wire::<RibbonEmitter>(version, input);
    }
}

/// The tags of the blocks of [`RibbonEmitter`] differ from each other.
proof fn lemma_ribbonemitter_tags_differ()
    ensures
        Krha::spec_tag() != Krhb::spec_tag(),
        Krha::spec_tag() != Kral::spec_tag(),
        Krha::spec_tag() != Krco::spec_tag(),
        Krha::spec_tag() != Krtx::spec_tag(),
        Krha::spec_tag() != Krvs::spec_tag(),
        Krhb::spec_tag() != Kral::spec_tag(),
        Krhb::spec_tag() != Krco::spec_tag(),
        Krhb::spec_tag() != Krtx::spec_tag(),
        Krhb::spec_tag() != Krvs::spec_tag(),
        Kral::spec_tag() != Krco::spec_tag(),
        Kral::spec_tag() != Krtx::spec_tag(),
        Kral::spec_tag() != Krvs::spec_tag(),
        Krco::spec_tag() != Krtx::spec_tag(),
        Krco::spec_tag() != Krvs::spec_tag(),
        Krtx::spec_tag() != Krvs::spec_tag(),
{
    assert(Krha::spec_tag().0[3] != Krhb::spec_tag().0[3]);
    assert(Krha::spec_tag().0[2] != Kral::spec_tag().0[2]);
    assert(Krha::spec_tag().0[2] != Krco::spec_tag().0[2]);
    assert(Krha::spec_tag().0[2] != Krtx::spec_tag().0[2]);
    assert(Krha::spec_tag().0[2] != Krvs::spec_tag().0[2]);
    assert(Krhb::spec_tag().0[2] != Kral::spec_tag().0[2]);
    assert(Krhb::spec_tag().0[2] != Krco::spec_tag().0[2]);
    assert(Krhb::spec_tag().0[2] != Krtx::spec_tag().0[2]);
    assert(Krhb::spec_tag().0[2] != Krvs::spec_tag().0[2]);
    assert(Kral::spec_tag().0[2] != Krco::spec_tag().0[2]);
    assert(Kral::spec_tag().0[2] != Krtx::spec_tag().0[2]);
    assert(Kral::spec_tag().0[2] != Krvs::spec_tag().0[2]);
    assert(Krco::spec_tag().0[2] != Krtx::spec_tag().0[2]);
    assert(Krco::spec_tag().0[2] != Krvs::spec_tag().0[2]);
    assert(Krtx::spec_tag().0[2] != Krvs::spec_tag().0[2]);
}

impl ReparsableBlocks for RibbonEmitter {
    open spec fn slot_well_formed(m: RibbonEmitterModel, tag: Tag) -> bool {
        if tag == Krha::spec_tag() {
            m.krha is Some && Krha::well_formed(m.krha->0, None)
        } else if tag == Krhb::spec_tag() {
            m.krhb is Some && Krhb::well_formed(m.krhb->0, None)
        } else if tag == Kral::spec_tag() {
            m.kral is Some && Kral::well_formed(m.kral->0, None)
        } else if tag == Krco::spec_tag() {
            m.krco is Some && Krco::well_formed(m.krco->0, None)
        } else if tag == Krtx::spec_tag() {
            m.krtx is Some && Krtx::well_formed(m.krtx->0, None)
        } else if tag == Krvs::spec_tag() {
            m.krvs is Some && Krvs::well_formed(m.krvs->0, None)
        } else {
            false
        }
    }

    open spec fn refill(acc: RibbonEmitterModel, m: RibbonEmitterModel, tag: Tag) -> RibbonEmitterModel {
        if tag == Krha::spec_tag() {
            RibbonEmitterModel {
                node: acc.node,
                height_above: acc.height_above,
                height_below: acc.height_below,
                alpha: acc.alpha,
                color: acc.color,
                lifespan: acc.lifespan,
                texture_slot: acc.texture_slot,
                emission_rate: acc.emission_rate,
                rows: acc.rows,
                columns: acc.columns,
                material_id: acc.material_id,
                gravity: acc.gravity,
                krha: m.krha,
                krhb: acc.krhb,
                kral: acc.kral,
                krco: acc.krco,
                krtx: acc.krtx,
                krvs: acc.krvs,
                ordered: Some(acc.order().push(tag)),
            }
        } else if tag == Krhb::spec_tag() {
            RibbonEmitterModel {
                node: acc.node,
                height_above: acc.height_above,
                height_below: acc.height_below,
                alpha: acc.alpha,
                color: acc.color,
                lifespan: acc.lifespan,
                texture_slot: acc.texture_slot,
                emission_rate: acc.emission_rate,
                rows: acc.rows,
                columns: acc.columns,
                material_id: acc.material_id,
                gravity: acc.gravity,
                krha: acc.krha,
                krhb: m.krhb,
                kral: acc.kral,
                krco: acc.krco,
                krtx: acc.krtx,
                krvs: acc.krvs,
                ordered: Some(acc.order().push(tag)),
            }
        } else if tag == Kral::spec_tag() {
            RibbonEmitterModel {
                node: acc.node,
                height_above: acc.height_above,
                height_below: acc.height_below,
                alpha: acc.alpha,
                color: acc.color,
                lifespan: acc.lifespan,
                texture_slot: acc.texture_slot,
                emission_rate: acc.emission_rate,
                rows: acc.rows,
                columns: acc.columns,
                material_id: acc.material_id,
                gravity: acc.gravity,
                krha: acc.krha,
                krhb: acc.krhb,
                kral: m.kral,
                krco: acc.krco,
                krtx: acc.krtx,
                krvs: acc.krvs,
                ordered: Some(acc.order().push(tag)),
            }
        } else if tag == Krco::spec_tag() {
            RibbonEmitterModel {
                node: acc.node,
                height_above: acc.height_above,
                height_below: acc.height_below,
                alpha: acc.alpha,
                color: acc.color,
                lifespan: acc.lifespan,
                texture_slot: acc.texture_slot,
                emission_rate: acc.emission_rate,
                rows: acc.rows,
                columns: acc.columns,
                material_id: acc.material_id,
                gravity: acc.gravity,
                krha: acc.krha,
                krhb: acc.krhb,
                kral: acc.kral,
                krco: m.krco,
                krtx: acc.krtx,
                krvs: acc.krvs,
                ordered: Some(acc.order().push(tag)),
            }
        } else if tag == Krtx::spec_tag() {
            RibbonEmitterModel {
                node: acc.node,
                height_above: acc.height_above,
                height_below: acc.height_below,
                alpha: acc.alpha,
                color: acc.color,
                lifespan: acc.lifespan,
                texture_slot: acc.texture_slot,
                emission_rate: acc.emission_rate,
                rows: acc.rows,
                columns: acc.columns,
                material_id: acc.material_id,
                gravity: acc.gravity,
                krha: acc.krha,
                krhb: acc.krhb,
                kral: acc.kral,
                krco: acc.krco,
                krtx: m.krtx,
                krvs: acc.krvs,
                ordered: Some(acc.order().push(tag)),
            }
        } else if tag == Krvs::spec_tag() {
            RibbonEmitterModel {
                node: acc.node,
                height_above: acc.height_above,
                height_below: acc.height_below,
                alpha: acc.alpha,
                color: acc.color,
                lifespan: acc.lifespan,
                texture_slot: acc.texture_slot,
                emission_rate: acc.emission_rate,
                rows: acc.rows,
                columns: acc.columns,
                material_id: acc.material_id,
                gravity: acc.gravity,
                krha: acc.krha,
                krhb: acc.krhb,
                kral: acc.kral,
                krco: acc.krco,
                krtx: acc.krtx,
                krvs: m.krvs,
                ordered: Some(acc.order().push(tag)),
            }
        } else {
            acc
        }
    }

    proof fn lemma_block_refill(acc: RibbonEmitterModel, m: RibbonEmitterModel, tag: Tag, tail: Seq<u8>) {
        if tag == Krha::spec_tag() {
            Krha::lemma_wire_tag(m.krha->0);
            Krha::lemma_wire_parse(m.krha->0, None, tail);
        } else if tag == Krhb::spec_tag() {
            Krhb::lemma_wire_tag(m.krhb->0);
            Krhb::lemma_wire_parse(m.krhb->0, None, tail);
        } else if tag == Kral::spec_tag() {
            Kral::lemma_wire_tag(m.kral->0);
            Kral::lemma_wire_parse(m.kral->0, None, tail);
        } else if tag == Krco::spec_tag() {
            Krco::lemma_wire_tag(m.krco->0);
            Krco::lemma_wire_parse(m.krco->0, None, tail);
        } else if tag == Krtx::spec_tag() {
            Krtx::lemma_wire_tag(m.krtx->0);
            Krtx::lemma_wire_parse(m.krtx->0, None, tail);
        } else if tag == Krvs::spec_tag() {
            Krvs::lemma_wire_tag(m.krvs->0);
            Krvs::lemma_wire_parse(m.krvs->0, None, tail);
        }
    }
}

/// What the blocks of `m` under the tags make of `acc`: the other fields are
/// the ones of `acc`, the tags are recorded behind the ones of `acc`, and a
/// block is the one of `m` if its tag is among the tags.
proof fn lemma_ribbonemitter_refill(acc: RibbonEmitterModel, m: RibbonEmitterModel, tags: Seq<Tag>)
    requires
        acc.ordered is Some,
        forall|i: int| 0 <= i < tags.len() ==> RibbonEmitter::slot_well_formed(m, #[trigger] tags[i]),
    ensures
        ({
            let r = refill_all::<RibbonEmitter>(acc, m, tags);
            &&& r.ordered == Some(acc.order() + tags)
            &&& r.node == acc.node
            &&& r.height_above == acc.height_above
            &&& r.height_below == acc.height_below
            &&& r.alpha == acc.alpha
            &&& r.color == acc.color
            &&& r.lifespan == acc.lifespan
            &&& r.texture_slot == acc.texture_slot
            &&& r.emission_rate == acc.emission_rate
            &&& r.rows == acc.rows
            &&& r.columns == acc.columns
            &&& r.material_id == acc.material_id
            &&& r.gravity == acc.gravity
            &&& r.krha == if tags.contains(Krha::spec_tag()) {
                m.krha
            } else {
                acc.krha
            }
            &&& r.krhb == if tags.contains(Krhb::spec_tag()) {
                m.krhb
            } else {
                acc.krhb
            }
            &&& r.kral == if tags.contains(Kral::spec_tag()) {
                m.kral
            } else {
                acc.kral
            }
            &&& r.krco == if tags.contains(Krco::spec_tag()) {
                m.krco
            } else {
                acc.krco
            }
            &&& r.krtx == if tags.contains(Krtx::spec_tag()) {
                m.krtx
            } else {
                acc.krtx
            }
            &&& r.krvs == if tags.contains(Krvs::spec_tag()) {
                m.krvs
            } else {
                acc.krvs
            }
        }),
    decreases tags.len(),
{
    if tags.len() == 0 {
        assert(acc.order() + tags =~= acc.order());
    } else {
        let tag = tags[0];
        let next = RibbonEmitter::refill(acc, m, tag);
        assert(RibbonEmitter::slot_well_formed(m, tags[0]));
        assert forall|i: int| 0 <= i < tags.skip(1).len() implies RibbonEmitter::slot_well_formed(
            m,
            #[trigger] tags.skip(1)[i],
        ) by {
            assert(tags.skip(1)[i] == tags[i + 1]);
        }
        lemma_ribbonemitter_refill(next, m, tags.skip(1));
        assert(next.order() + tags.skip(1) =~= acc.order() + tags);
        lemma_ribbonemitter_tags_differ();
        lemma_contains_front(tags, Krha::spec_tag());
        lemma_contains_front(tags, Krhb::spec_tag());
        lemma_contains_front(tags, Kral::spec_tag());
        lemma_contains_front(tags, Krco::spec_tag());
        lemma_contains_front(tags, Krtx::spec_tag());
        lemma_contains_front(tags, Krvs::spec_tag());
    }
}

impl ReparsableBody for RibbonEmitter {
    open spec fn body_well_formed(m: RibbonEmitterModel, version: Option<u32>) -> bool {
        Node::well_formed(m.node, None)
        && FloatBits::well_formed(m.height_above, None)
        && FloatBits::well_formed(m.height_below, None)
        && FloatBits::well_formed(m.alpha, None)
        && <[FloatBits; 3]>::well_formed(m.color, None)
        && FloatBits::well_formed(m.lifespan, None)
        && u32::well_formed(m.texture_slot, None)
        && u32::well_formed(m.emission_rate, None)
        && u32::well_formed(m.rows, None)
        && u32::well_formed(m.columns, None)
        && u32::well_formed(m.material_id, None)
        && FloatBits::well_formed(m.gravity, None)
        && m.ordered is Some
        && (forall|i: int| 0 <= i < m.order().len() ==> RibbonEmitter::slot_well_formed(m, #[trigger] m.order()[i]))
        && (m.krha is Some ==> m.order().contains(Krha::spec_tag()))
        && (m.krhb is Some ==> m.order().contains(Krhb::spec_tag()))
        && (m.kral is Some ==> m.order().contains(Kral::spec_tag()))
        && (m.krco is Some ==> m.order().contains(Krco::spec_tag()))
        && (m.krtx is Some ==> m.order().contains(Krtx::spec_tag()))
        && (m.krvs is Some ==> m.order().contains(Krvs::spec_tag()))
    }

    #[verifier::rlimit(50)]
    proof fn lemma_body_wire_parse(m: RibbonEmitterModel, version: Option<u32>) {
        let w1 = Node::wire(m.node);
        let w2 = FloatBits::wire(m.height_above);
        let w3 = FloatBits::wire(m.height_below);
        let w4 = FloatBits::wire(m.alpha);
        let w5 = <[FloatBits; 3]>::wire(m.color);
        let w6 = FloatBits::wire(m.lifespan);
        let w7 = u32::wire(m.texture_slot);
        let w8 = u32::wire(m.emission_rate);
        let w9 = u32::wire(m.rows);
        let w10 = u32::wire(m.columns);
        let w11 = u32::wire(m.material_id);
        let w12 = FloatBits::wire(m.gravity);
        let w13 = wire_slots(m);
        let u14 = Seq::<u8>::empty();
        let u13 = w13 + u14;
        let u12 = w12 + u13;
        let u11 = w11 + u12;
        let u10 = w10 + u11;
        let u9 = w9 + u10;
        let u8 = w8 + u9;
        let u7 = w7 + u8;
        let u6 = w6 + u7;
        let u5 = w5 + u6;
        let u4 = w4 + u5;
        let u3 = w3 + u4;
        let u2 = w2 + u3;
        let u1 = w1 + u2;
        let s12 = w12 + w13;
        let s11 = w11 + s12;
        let s10 = w10 + s11;
        let s9 = w9 + s10;
        let s8 = w8 + s9;
        let s7 = w7 + s8;
        let s6 = w6 + s7;
        let s5 = w5 + s6;
        let s4 = w4 + s5;
        let s3 = w3 + s4;
        let s2 = w2 + s3;
        lemma_append_assoc(w12, w13, Seq::<u8>::empty());
        lemma_append_assoc(w11, s12, Seq::<u8>::empty());
        lemma_append_assoc(w10, s11, Seq::<u8>::empty());
        lemma_append_assoc(w9, s10, Seq::<u8>::empty());
        lemma_append_assoc(w8, s9, Seq::<u8>::empty());
        lemma_append_assoc(w7, s8, Seq::<u8>::empty());
        lemma_append_assoc(w6, s7, Seq::<u8>::empty());
        lemma_append_assoc(w5, s6, Seq::<u8>::empty());
        lemma_append_assoc(w4, s5, Seq::<u8>::empty());
        lemma_append_assoc(w3, s4, Seq::<u8>::empty());
        lemma_append_assoc(w2, s3, Seq::<u8>::empty());
        lemma_append_assoc(w1, s2, Seq::<u8>::empty());
        Node::lemma_wire_parse(m.node, None, u2);
        FloatBits::lemma_wire_parse(m.height_above, None, u3);
        FloatBits::lemma_wire_parse(m.height_below, None, u4);
        FloatBits::lemma_wire_parse(m.alpha, None, u5);
        <[FloatBits; 3]>::lemma_wire_parse(m.color, None, u6);
        FloatBits::lemma_wire_parse(m.lifespan, None, u7);
        u32::lemma_wire_parse(m.texture_slot, None, u8);
        u32::lemma_wire_parse(m.emission_rate, None, u9);
        u32::lemma_wire_parse(m.rows, None, u10);
        u32::lemma_wire_parse(m.columns, None, u11);
        u32::lemma_wire_parse(m.material_id, None, u12);
        FloatBits::lemma_wire_parse(m.gravity, None, u13);
        let start = RibbonEmitterModel {
            node: m.node,
            height_above: m.height_above,
            height_below: m.height_below,
            alpha: m.alpha,
            color: m.color,
            lifespan: m.lifespan,
            texture_slot: m.texture_slot,
            emission_rate: m.emission_rate,
            rows: m.rows,
            columns: m.columns,
            material_id: m.material_id,
            gravity: m.gravity,
            krha: None,
            krhb: None,
            kral: None,
            krco: None,
            krtx: None,
            krvs: None,
            ordered: Some(Seq::empty()),
        };
        lemma_tagged_wire_parse::<RibbonEmitter>(start, m, m.order(), u14);
        lemma_ribbonemitter_refill(start, m, m.order());
        assert(Seq::<Tag>::empty() + m.order() =~= m.order());
        assert(u1 =~= Self::body_wire(m));
    }
}

impl Reparsable for RibbonEmitter {
    open spec fn well_formed(m: RibbonEmitterModel, version: Option<u32>) -> bool {
        RibbonEmitter::body_well_formed(m, version) && RibbonEmitter::body_wire(m).len() + 4 <= u32::MAX
    }

    proof fn lemma_wire_parse(m: RibbonEmitterModel, version: Option<u32>, tail: Seq<u8>) {
        lemma_inclusive_wire_parse::<RibbonEmitter>(m, version, tail);
    }
}

/// Holds the track of the height of a ribbon above its emitter.
#[derive(Debug, Clone, PartialEq)]
pub struct Krha(pub TrackChunk<FloatBits>);

impl Chunk for Krha {
    open spec fn spec_tag() -> Tag {
        Tag([0x4B, 0x52, 0x48, 0x41])
    }

    fn tag() -> (t: Tag) {
        let t = Tag([0x4B, 0x52, 0x48, 0x41]);
        assert(t.0 =~= Self::spec_tag().0);
        t
    }
}

impl Materialized for Krha {
    type Version = u32;

    type Model = TrackChunkModel<FloatBits>;

    open spec fn model(&self) -> TrackChunkModel<FloatBits> {
        self.0.model()
    }

    open spec fn spec_parse(version: Option<u32>, input: Seq<u8>) -> Parsed<
        TrackChunkModel<FloatBits>,
    > {
        <TrackChunk<FloatBits>>::spec_parse(None, input)
    }

    open spec fn wire(m: TrackChunkModel<FloatBits>) -> Seq<u8> {
        <TrackChunk<FloatBits>>::wire(m)
    }

    open spec fn encode_error(m: TrackChunkModel<FloatBits>) -> Option<EncodeError> {
        <TrackChunk<FloatBits>>::encode_error(m)
    }

    fn parse_versioned<'a>(version: Option<u32>, input: &'a [u8]) -> (r: Parser<'a, Krha>) {
        let (input, chunk) = <TrackChunk<FloatBits>>::parse(input)?;
        Ok((input, Krha(chunk)))
    }

    fn encode(&self, output: &mut Vec<u8>) -> (r: Result<(), EncodeError>) {
        self.0.encode(output)
    }
}

impl Lossless for Krha {
    open spec fn faithful(m: TrackChunkModel<FloatBits>) -> bool {
        <TrackChunk<FloatBits>>::faithful(m)
    }

    proof fn lemma_parse_wire(version: Option<u32>, input: Seq<u8>) {
        <TrackChunk<FloatBits>>::lemma_parse_wire(None, input);
    }
}

impl Reparsable for Krha {
    open spec fn well_formed(m: TrackChunkModel<FloatBits>, version: Option<u32>) -> bool {
        <TrackChunk<FloatBits>>::well_formed(m, None) && m.tag == Self::spec_tag()
    }

    proof fn lemma_wire_parse(m: TrackChunkModel<FloatBits>, version: Option<u32>, tail: Seq<u8>) {
        <TrackChunk<FloatBits>>::lemma_wire_parse(m, None, tail);
    }
}

impl TaggedBlock for Krha {
    proof fn lemma_wire_tag(m: TrackChunkModel<FloatBits>) {
        lemma_tag_bytes(m.tag, m.tag.0@);
        assert(<TrackChunk<FloatBits>>::wire(m).take(4) =~= m.tag.0@);
    }
}

/// Holds the track of the height of a ribbon below its emitter.
#[derive(Debug, Clone, PartialEq)]
pub struct Krhb(pub TrackChunk<FloatBits>);

impl Chunk for Krhb {
    open spec fn spec_tag() -> Tag {
        Tag([0x4B, 0x52, 0x48, 0x42])
    }

    fn tag() -> (t: Tag) {
        let t = Tag([0x4B, 0x52, 0x48, 0x42]);
        assert(t.0 =~= Self::spec_tag().0);
        t
    }
}

impl Materialized for Krhb {
    type Version = u32;

    type Model = TrackChunkModel<FloatBits>;

    open spec fn model(&self) -> TrackChunkModel<FloatBits> {
        self.0.model()
    }

    open spec fn spec_parse(version: Option<u32>, input: Seq<u8>) -> Parsed<
        TrackChunkModel<FloatBits>,
    > {
        <TrackChunk<FloatBits>>::spec_parse(None, input)
    }

    open spec fn wire(m: TrackChunkModel<FloatBits>) -> Seq<u8> {
        <TrackChunk<FloatBits>>::wire(m)
    }

    open spec fn encode_error(m: TrackChunkModel<FloatBits>) -> Option<EncodeError> {
        <TrackChunk<FloatBits>>::encode_error(m)
    }

    fn parse_versioned<'a>(version: Option<u32>, input: &'a [u8]) -> (r: Parser<'a, Krhb>) {
        let (input, chunk) = <TrackChunk<FloatBits>>::parse(input)?;
        Ok((input, Krhb(chunk)))
    }

    fn encode(&self, output: &mut Vec<u8>) -> (r: Result<(), EncodeError>) {
        self.0.encode(output)
    }
}

impl Lossless for Krhb {
    open spec fn faithful(m: TrackChunkModel<FloatBits>) -> bool {
        <TrackChunk<FloatBits>>::faithful(m)
    }

    proof fn lemma_parse_wire(version: Option<u32>, input: Seq<u8>) {
        <TrackChunk<FloatBits>>::lemma_parse_wire(None, input);
    }
}

impl Reparsable for Krhb {
    open spec fn well_formed(m: TrackChunkModel<FloatBits>, version: Option<u32>) -> bool {
        <TrackChunk<FloatBits>>::well_formed(m, None) && m.tag == Self::spec_tag()
    }

    proof fn lemma_wire_parse(m: TrackChunkModel<FloatBits>, version: Option<u32>, tail: Seq<u8>) {
        <TrackChunk<FloatBits>>::lemma_wire_parse(m, None, tail);
    }
}

impl TaggedBlock for Krhb {
    proof fn lemma_wire_tag(m: TrackChunkModel<FloatBits>) {
        lemma_tag_bytes(m.tag, m.tag.0@);
        assert(<TrackChunk<FloatBits>>::wire(m).take(4) =~= m.tag.0@);
    }
}

/// Holds the track of the alpha of a ribbon.
#[derive(Debug, Clone, PartialEq)]
pub struct Kral(pub TrackChunk<FloatBits>);

impl Chunk for Kral {
    open spec fn spec_tag() -> Tag {
        Tag([0x4B, 0x52, 0x41, 0x4C])
    }

    fn tag() -> (t: Tag) {
        let t = Tag([0x4B, 0x52, 0x41, 0x4C]);
        assert(t.0 =~= Self::spec_tag().0);
        t
    }
}

impl Materialized for Kral {
    type Version = u32;

    type Model = TrackChunkModel<FloatBits>;

    open spec fn model(&self) -> TrackChunkModel<FloatBits> {
        self.0.model()
    }

    open spec fn spec_parse(version: Option<u32>, input: Seq<u8>) -> Parsed<
        TrackChunkModel<FloatBits>,
    > {
        <TrackChunk<FloatBits>>::spec_parse(None, input)
    }

    open spec fn wire(m: TrackChunkModel<FloatBits>) -> Seq<u8> {
        <TrackChunk<FloatBits>>::wire(m)
    }

    open spec fn encode_error(m: TrackChunkModel<FloatBits>) -> Option<EncodeError> {
        <TrackChunk<FloatBits>>::encode_error(m)
    }

    fn parse_versioned<'a>(version: Option<u32>, input: &'a [u8]) -> (r: Parser<'a, Kral>) {
        let (input, chunk) = <TrackChunk<FloatBits>>::parse(input)?;
        Ok((input, Kral(chunk)))
    }

    fn encode(&self, output: &mut Vec<u8>) -> (r: Result<(), EncodeError>) {
        self.0.encode(output)
    }
}

impl Lossless for Kral {
    open spec fn faithful(m: TrackChunkModel<FloatBits>) -> bool {
        <TrackChunk<FloatBits>>::faithful(m)
    }

    proof fn lemma_parse_wire(version: Option<u32>, input: Seq<u8>) {
        <TrackChunk<FloatBits>>::lemma_parse_wire(None, input);
    }
}

impl Reparsable for Kral {
    open spec fn well_formed(m: TrackChunkModel<FloatBits>, version: Option<u32>) -> bool {
        <TrackChunk<FloatBits>>::well_formed(m, None) && m.tag == Self::spec_tag()
    }

    proof fn lemma_wire_parse(m: TrackChunkModel<FloatBits>, version: Option<u32>, tail: Seq<u8>) {
        <TrackChunk<FloatBits>>::lemma_wire_parse(m, None, tail);
    }
}

impl TaggedBlock for Kral {
    proof fn lemma_wire_tag(m: TrackChunkModel<FloatBits>) {
        lemma_tag_bytes(m.tag, m.tag.0@);
        assert(<TrackChunk<FloatBits>>::wire(m).take(4) =~= m.tag.0@);
    }
}

/// Holds the track of the color of a ribbon.
#[derive(Debug, Clone, PartialEq)]
pub struct Krco(pub TrackChunk<[FloatBits; 3]>);

impl Chunk for Krco {
    open spec fn spec_tag() -> Tag {
        Tag([0x4B, 0x52, 0x43, 0x4F])
    }

    fn tag() -> (t: Tag) {
        let t = Tag([0x4B, 0x52, 0x43, 0x4F]);
        assert(t.0 =~= Self::spec_tag().0);
        t
    }
}

impl Materialized for Krco {
    type Version = u32;

    type Model = TrackChunkModel<Seq<FloatBits>>;

    open spec fn model(&self) -> TrackChunkModel<Seq<FloatBits>> {
        self.0.model()
    }

    open spec fn spec_parse(version: Option<u32>, input: Seq<u8>) -> Parsed<
        TrackChunkModel<Seq<FloatBits>>,
    > {
        <TrackChunk<[FloatBits; 3]>>::spec_parse(None, input)
    }

    open spec fn wire(m: TrackChunkModel<Seq<FloatBits>>) -> Seq<u8> {
        <TrackChunk<[FloatBits; 3]>>::wire(m)
    }

    open spec fn encode_error(m: TrackChunkModel<Seq<FloatBits>>) -> Option<EncodeError> {
        <TrackChunk<[FloatBits; 3]>>::encode_error(m)
    }

    fn parse_versioned<'a>(version: Option<u32>, input: &'a [u8]) -> (r: Parser<'a, Krco>) {
        let (input, chunk) = <TrackChunk<[FloatBits; 3]>>::parse(input)?;
        Ok((input, Krco(chunk)))
    }

    fn encode(&self, output: &mut Vec<u8>) -> (r: Result<(), EncodeError>) {
        self.0.encode(output)
    }
}

impl Lossless for Krco {
    open spec fn faithful(m: TrackChunkModel<Seq<FloatBits>>) -> bool {
        <TrackChunk<[FloatBits; 3]>>::faithful(m)
    }

    proof fn lemma_parse_wire(version: Option<u32>, input: Seq<u8>) {
        <TrackChunk<[FloatBits; 3]>>::lemma_parse_wire(None, input);
    }
}

impl Reparsable for Krco {
    open spec fn well_formed(m: TrackChunkModel<Seq<FloatBits>>, version: Option<u32>) -> bool {
        <TrackChunk<[FloatBits; 3]>>::well_formed(m, None) && m.tag == Self::spec_tag()
    }

    proof fn lemma_wire_parse(m: TrackChunkModel<Seq<FloatBits>>, version: Option<u32>, tail: Seq<u8>) {
        <TrackChunk<[FloatBits; 3]>>::lemma_wire_parse(m, None, tail);
    }
}

impl TaggedBlock for Krco {
    proof fn lemma_wire_tag(m: TrackChunkModel<Seq<FloatBits>>) {
        lemma_tag_bytes(m.tag, m.tag.0@);
        assert(<TrackChunk<[FloatBits; 3]>>::wire(m).take(4) =~= m.tag.0@);
    }
}

/// Holds the track of the texture slot of a ribbon.
#[derive(Debug, Clone, PartialEq)]
pub struct Krtx(pub TrackChunk<u32>);

impl Chunk for Krtx {
    open spec fn spec_tag() -> Tag {
        Tag([0x4B, 0x52, 0x54, 0x58])
    }

    fn tag() -> (t: Tag) {
        let t = Tag([0x4B, 0x52, 0x54, 0x58]);
        assert(t.0 =~= Self::spec_tag().0);
        t
    }
}

impl Materialized for Krtx {
    type Version = u32;

    type Model = TrackChunkModel<u32>;

    open spec fn model(&self) -> TrackChunkModel<u32> {
        self.0.model()
    }

    open spec fn spec_parse(version: Option<u32>, input: Seq<u8>) -> Parsed<
        TrackChunkModel<u32>,
    > {
        <TrackChunk<u32>>::spec_parse(None, input)
    }

    open spec fn wire(m: TrackChunkModel<u32>) -> Seq<u8> {
        <TrackChunk<u32>>::wire(m)
    }

    open spec fn encode_error(m: TrackChunkModel<u32>) -> Option<EncodeError> {
        <TrackChunk<u32>>::encode_error(m)
    }

    fn parse_versioned<'a>(version: Option<u32>, input: &'a [u8]) -> (r: Parser<'a, Krtx>) {
        let (input, chunk) = <TrackChunk<u32>>::parse(input)?;
        Ok((input, Krtx(chunk)))
    }

    fn encode(&self, output: &mut Vec<u8>) -> (r: Result<(), EncodeError>) {
        self.0.encode(output)
    }
}

impl Lossless for Krtx {
    open spec fn faithful(m: TrackChunkModel<u32>) -> bool {
        <TrackChunk<u32>>::faithful(m)
    }

    proof fn lemma_parse_wire(version: Option<u32>, input: Seq<u8>) {
        <TrackChunk<u32>>::lemma_parse_wire(None, input);
    }
}

impl Reparsable for Krtx {
    open spec fn well_formed(m: TrackChunkModel<u32>, version: Option<u32>) -> bool {
        <TrackChunk<u32>>::well_formed(m, None) && m.tag == Self::spec_tag()
    }

    proof fn lemma_wire_parse(m: TrackChunkModel<u32>, version: Option<u32>, tail: Seq<u8>) {
        <TrackChunk<u32>>::lemma_wire_parse(m, None, tail);
    }
}

impl TaggedBlock for Krtx {
    proof fn lemma_wire_tag(m: TrackChunkModel<u32>) {
        lemma_tag_bytes(m.tag, m.tag.0@);
        assert(<TrackChunk<u32>>::wire(m).take(4) =~= m.tag.0@);
    }
}

/// Holds the track of the visibility of a ribbon.
#[derive(Debug, Clone, PartialEq)]
pub struct Krvs(pub TrackChunk<FloatBits>);

impl Chunk for Krvs {
    open spec fn spec_tag() -> Tag {
        Tag([0x4B, 0x52, 0x56, 0x53])
    }

    fn tag() -> (t: Tag) {
        let t = Tag([0x4B, 0x52, 0x56, 0x53]);
        assert(t.0 =~= Self::spec_tag().0);
        t
    }
}

impl Materialized for Krvs {
    type Version = u32;

    type Model = TrackChunkModel<FloatBits>;

    open spec fn model(&self) -> TrackChunkModel<FloatBits> {
        self.0.model()
    }

    open spec fn spec_parse(version: Option<u32>, input: Seq<u8>) -> Parsed<
        TrackChunkModel<FloatBits>,
    > {
        <TrackChunk<FloatBits>>::spec_parse(None, input)
    }

    open spec fn wire(m: TrackChunkModel<FloatBits>) -> Seq<u8> {
        <TrackChunk<FloatBits>>::wire(m)
    }

    open spec fn encode_error(m: TrackChunkModel<FloatBits>) -> Option<EncodeError> {
        <TrackChunk<FloatBits>>::encode_error(m)
    }

    fn parse_versioned<'a>(version: Option<u32>, input: &'a [u8]) -> (r: Parser<'a, Krvs>) {
        let (input, chunk) = <TrackChunk<FloatBits>>::parse(input)?;
        Ok((input, Krvs(chunk)))
    }

    fn encode(&self, output: &mut Vec<u8>) -> (r: Result<(), EncodeError>) {
        self.0.encode(output)
    }
}

impl Lossless for Krvs {
    open spec fn faithful(m: TrackChunkModel<FloatBits>) -> bool {
        <TrackChunk<FloatBits>>::faithful(m)
    }

    proof fn lemma_parse_wire(version: Option<u32>, input: Seq<u8>) {
        <TrackChunk<FloatBits>>::lemma_parse_wire(None, input);
    }
}

impl Reparsable for Krvs {
    open spec fn well_formed(m: TrackChunkModel<FloatBits>, version: Option<u32>) -> bool {
        <TrackChunk<FloatBits>>::well_formed(m, None) && m.tag == Self::spec_tag()
    }

    proof fn lemma_wire_parse(m: TrackChunkModel<FloatBits>, version: Option<u32>, tail: Seq<u8>) {
        <TrackChunk<FloatBits>>::lemma_wire_parse(m, None, tail);
    }
}

impl TaggedBlock for Krvs {
    proof fn lemma_wire_tag(m: TrackChunkModel<FloatBits>) {
        lemma_tag_bytes(m.tag, m.tag.0@);
        assert(<TrackChunk<FloatBits>>::wire(m).take(4) =~= m.tag.0@);
    }
}

} // verus!
