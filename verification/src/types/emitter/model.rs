use crate::encoder::error::Error as EncodeError;
use crate::parser::error::MdxParseError;
use crate::parser::primitives::{Parsed, Parser};
use crate::types::chunk::{
    encode_error_slots, encode_slots, lemma_contains_front, lemma_tagged_parse_wire,
    lemma_tagged_wire_parse, order_of, opt_seq, parse_tagged, record_tag, refill_all,
    slots_faithful, spec_parse_tagged, wire_slots, BlockStep, Chunk, LosslessBlocks,
    OrderedSlots, Replay, ReparsableBlocks, TaggedBlock, TaggedBlocks,
};
use crate::types::chunk::utils::{lemma_tag_bytes, Literal, Tag};
use crate::types::materialize::{
    encode_error_inclusive_sized, encode_error_opt, encode_inclusive_sized, encode_opt,
    lemma_append_assoc, lemma_inclusive_parse_wire, lemma_inclusive_wire_parse, models,
    opt_faithful, opt_model, parse_inclusive_sized, spec_parse_inclusive_sized,
    wire_inclusive_sized, wire_opt, FloatBits, Lossless, LosslessBody, Materialized, Reparsable,
    ReparsableBody, SizedBody,
};
use crate::types::node::{Node, NodeModel};
use crate::types::tracks::{TrackChunk, TrackChunkModel};
use vstd::prelude::*;

verus! {

/// Length of the file name of the model that a particle emitter spawns.
pub const EMITTER_FILENAME_LENGTH: usize = 260;

/// An emitter of particles that are models.
#[derive(Debug, Clone, PartialEq)]
pub struct ParticleEmitter {
    pub node: Node,
    pub emission_rate: FloatBits,
    pub gravity: FloatBits,
    pub longitude: FloatBits,
    pub latitude: FloatBits,
    pub spawn_model_file_name: Literal<EMITTER_FILENAME_LENGTH>,
    pub lifespan: FloatBits,
    pub initial_velocity: FloatBits,
    pub kpee: Option<Kpee>,
    pub kpeg: Option<Kpeg>,
    pub kpln: Option<Kpln>,
    pub kplt: Option<Kplt>,
    pub kpel: Option<Kpel>,
    pub kpes: Option<Kpes>,
    pub kpev: Option<Kpev>,
    /// The order in which the optional blocks were met while parsing; `None`
    /// in a value that was not parsed, which is encoded in the order of the
    /// fields.
    pub ordered: Option<Vec<Tag>>,
}

/// What a value of [`ParticleEmitter`] stands for in specifications.
pub struct ParticleEmitterModel {
    pub node: NodeModel,
    pub emission_rate: FloatBits,
    pub gravity: FloatBits,
    pub longitude: FloatBits,
    pub latitude: FloatBits,
    pub spawn_model_file_name: Seq<char>,
    pub lifespan: FloatBits,
    pub initial_velocity: FloatBits,
    pub kpee: Option<TrackChunkModel<FloatBits>>,
    pub kpeg: Option<TrackChunkModel<FloatBits>>,
    pub kpln: Option<TrackChunkModel<FloatBits>>,
    pub kplt: Option<TrackChunkModel<FloatBits>>,
    pub kpel: Option<TrackChunkModel<FloatBits>>,
    pub kpes: Option<TrackChunkModel<FloatBits>>,
    pub kpev: Option<TrackChunkModel<FloatBits>>,
    pub ordered: Option<Seq<Tag>>,
}

impl OrderedSlots for ParticleEmitterModel {
    open spec fn canonical() -> Seq<Tag> {
        seq![Kpee::spec_tag(), Kpeg::spec_tag(), Kpln::spec_tag(), Kplt::spec_tag(), Kpel::spec_tag(), Kpes::spec_tag(), Kpev::spec_tag()]
    }

    open spec fn recorded(self) -> bool {
        self.ordered is Some
    }

    open spec fn order(self) -> Seq<Tag> {
        order_of(self.ordered)
    }

    open spec fn slot_wire(self, tag: Tag) -> Seq<u8> {
        if tag == Kpee::spec_tag() {
            wire_opt::<Kpee>(self.kpee)
        } else if tag == Kpeg::spec_tag() {
            wire_opt::<Kpeg>(self.kpeg)
        } else if tag == Kpln::spec_tag() {
            wire_opt::<Kpln>(self.kpln)
        } else if tag == Kplt::spec_tag() {
            wire_opt::<Kplt>(self.kplt)
        } else if tag == Kpel::spec_tag() {
            wire_opt::<Kpel>(self.kpel)
        } else if tag == Kpes::spec_tag() {
            wire_opt::<Kpes>(self.kpes)
        } else if tag == Kpev::spec_tag() {
            wire_opt::<Kpev>(self.kpev)
        } else {
            Seq::empty()
        }
    }

    open spec fn slot_error(self, tag: Tag) -> Option<EncodeError> {
        if tag == Kpee::spec_tag() {
            encode_error_opt::<Kpee>(self.kpee)
        } else if tag == Kpeg::spec_tag() {
            encode_error_opt::<Kpeg>(self.kpeg)
        } else if tag == Kpln::spec_tag() {
            encode_error_opt::<Kpln>(self.kpln)
        } else if tag == Kplt::spec_tag() {
            encode_error_opt::<Kplt>(self.kplt)
        } else if tag == Kpel::spec_tag() {
            encode_error_opt::<Kpel>(self.kpel)
        } else if tag == Kpes::spec_tag() {
            encode_error_opt::<Kpes>(self.kpes)
        } else if tag == Kpev::spec_tag() {
            encode_error_opt::<Kpev>(self.kpev)
        } else {
            None
        }
    }

    open spec fn slot_faithful(self, tag: Tag) -> bool {
        if tag == Kpee::spec_tag() {
            opt_faithful::<Kpee>(self.kpee)
        } else if tag == Kpeg::spec_tag() {
            opt_faithful::<Kpeg>(self.kpeg)
        } else if tag == Kpln::spec_tag() {
            opt_faithful::<Kpln>(self.kpln)
        } else if tag == Kplt::spec_tag() {
            opt_faithful::<Kplt>(self.kplt)
        } else if tag == Kpel::spec_tag() {
            opt_faithful::<Kpel>(self.kpel)
        } else if tag == Kpes::spec_tag() {
            opt_faithful::<Kpes>(self.kpes)
        } else if tag == Kpev::spec_tag() {
            opt_faithful::<Kpev>(self.kpev)
        } else {
            true
        }
    }

    open spec fn frame(self) -> ParticleEmitterModel {
        ParticleEmitterModel {
            node: self.node,
            emission_rate: self.emission_rate,
            gravity: self.gravity,
            longitude: self.longitude,
            latitude: self.latitude,
            spawn_model_file_name: self.spawn_model_file_name,
            lifespan: self.lifespan,
            initial_velocity: self.initial_velocity,
            kpee: None,
            kpeg: None,
            kpln: None,
            kplt: None,
            kpel: None,
            kpes: None,
            kpev: None,
            ordered: None,
        }
    }
}

impl Replay for ParticleEmitter {
    type Model = ParticleEmitterModel;

    open spec fn slots_model(&self) -> ParticleEmitterModel {
        ParticleEmitterModel {
            node: self.node.model(),
            emission_rate: self.emission_rate.model(),
            gravity: self.gravity.model(),
            longitude: self.longitude.model(),
            latitude: self.latitude.model(),
            spawn_model_file_name: self.spawn_model_file_name.model(),
            lifespan: self.lifespan.model(),
            initial_velocity: self.initial_velocity.model(),
            kpee: opt_model(self.kpee),
            kpeg: opt_model(self.kpeg),
            kpln: opt_model(self.kpln),
            kplt: opt_model(self.kplt),
            kpel: opt_model(self.kpel),
            kpes: opt_model(self.kpes),
            kpev: opt_model(self.kpev),
            ordered: opt_seq(self.ordered),
        }
    }

    fn encode_slot(&self, tag: Tag, output: &mut Vec<u8>) -> (r: Result<(), EncodeError>) {
        if tag.same_as(&Kpee::tag()) {
            assert(self.slots_model().slot_error(tag) == encode_error_opt::<Kpee>(
                opt_model(self.kpee),
            ));
            assert(self.slots_model().slot_wire(tag) == wire_opt::<Kpee>(opt_model(self.kpee)));
            encode_opt(&self.kpee, output)
        } else if tag.same_as(&Kpeg::tag()) {
            assert(self.slots_model().slot_error(tag) == encode_error_opt::<Kpeg>(
                opt_model(self.kpeg),
            ));
            assert(self.slots_model().slot_wire(tag) == wire_opt::<Kpeg>(opt_model(self.kpeg)));
            encode_opt(&self.kpeg, output)
        } else if tag.same_as(&Kpln::tag()) {
            assert(self.slots_model().slot_error(tag) == encode_error_opt::<Kpln>(
                opt_model(self.kpln),
            ));
            assert(self.slots_model().slot_wire(tag) == wire_opt::<Kpln>(opt_model(self.kpln)));
            encode_opt(&self.kpln, output)
        } else if tag.same_as(&Kplt::tag()) {
            assert(self.slots_model().slot_error(tag) == encode_error_opt::<Kplt>(
                opt_model(self.kplt),
            ));
            assert(self.slots_model().slot_wire(tag) == wire_opt::<Kplt>(opt_model(self.kplt)));
            encode_opt(&self.kplt, output)
        } else if tag.same_as(&Kpel::tag()) {
            assert(self.slots_model().slot_error(tag) == encode_error_opt::<Kpel>(
                opt_model(self.kpel),
            ));
            assert(self.slots_model().slot_wire(tag) == wire_opt::<Kpel>(opt_model(self.kpel)));
            encode_opt(&self.kpel, output)
        } else if tag.same_as(&Kpes::tag()) {
            assert(self.slots_model().slot_error(tag) == encode_error_opt::<Kpes>(
                opt_model(self.kpes),
            ));
            assert(self.slots_model().slot_wire(tag) == wire_opt::<Kpes>(opt_model(self.kpes)));
            encode_opt(&self.kpes, output)
        } else if tag.same_as(&Kpev::tag()) {
            assert(self.slots_model().slot_error(tag) == encode_error_opt::<Kpev>(
                opt_model(self.kpev),
            ));
            assert(self.slots_model().slot_wire(tag) == wire_opt::<Kpev>(opt_model(self.kpev)));
            encode_opt(&self.kpev, output)
        } else {
            assert(self.slots_model().slot_error(tag) is None);
            assert(output@ =~= old(output)@ + self.slots_model().slot_wire(tag));
            Ok(())
        }
    }
}

impl TaggedBlocks for ParticleEmitter {
    open spec fn spec_block(m: ParticleEmitterModel, tag: Tag, input: Seq<u8>) -> BlockStep<ParticleEmitterModel> {
        if tag == Kpee::spec_tag() {
            match Kpee::spec_parse(None, input) {
                Ok((rest, block)) => BlockStep::Parsed(
                    rest,
                    ParticleEmitterModel {
                        node: m.node,
                        emission_rate: m.emission_rate,
                        gravity: m.gravity,
                        longitude: m.longitude,
                        latitude: m.latitude,
                        spawn_model_file_name: m.spawn_model_file_name,
                        lifespan: m.lifespan,
                        initial_velocity: m.initial_velocity,
                        kpee: Some(block),
                        kpeg: m.kpeg,
                        kpln: m.kpln,
                        kplt: m.kplt,
                        kpel: m.kpel,
                        kpes: m.kpes,
                        kpev: m.kpev,
                        ordered: Some(m.order().push(tag)),
                    },
                ),
                Err(e) => BlockStep::Failed(e),
            }
        } else if tag == Kpeg::spec_tag() {
            match Kpeg::spec_parse(None, input) {
                Ok((rest, block)) => BlockStep::Parsed(
                    rest,
                    ParticleEmitterModel {
                        node: m.node,
                        emission_rate: m.emission_rate,
                        gravity: m.gravity,
                        longitude: m.longitude,
                        latitude: m.latitude,
                        spawn_model_file_name: m.spawn_model_file_name,
                        lifespan: m.lifespan,
                        initial_velocity: m.initial_velocity,
                        kpee: m.kpee,
                        kpeg: Some(block),
                        kpln: m.kpln,
                        kplt: m.kplt,
                        kpel: m.kpel,
                        kpes: m.kpes,
                        kpev: m.kpev,
                        ordered: Some(m.order().push(tag)),
                    },
                ),
                Err(e) => BlockStep::Failed(e),
            }
        } else if tag == Kpln::spec_tag() {
            match Kpln::spec_parse(None, input) {
                Ok((rest, block)) => BlockStep::Parsed(
                    rest,
                    ParticleEmitterModel {
                        node: m.node,
                        emission_rate: m.emission_rate,
                        gravity: m.gravity,
                        longitude: m.longitude,
                        latitude: m.latitude,
                        spawn_model_file_name: m.spawn_model_file_name,
                        lifespan: m.lifespan,
                        initial_velocity: m.initial_velocity,
                        kpee: m.kpee,
                        kpeg: m.kpeg,
                        kpln: Some(block),
                        kplt: m.kplt,
                        kpel: m.kpel,
                        kpes: m.kpes,
                        kpev: m.kpev,
                        ordered: Some(m.order().push(tag)),
                    },
                ),
                Err(e) => BlockStep::Failed(e),
            }
        } else if tag == Kplt::spec_tag() {
            match Kplt::spec_parse(None, input) {
                Ok((rest, block)) => BlockStep::Parsed(
                    rest,
                    ParticleEmitterModel {
                        node: m.node,
                        emission_rate: m.emission_rate,
                        gravity: m.gravity,
                        longitude: m.longitude,
                        latitude: m.latitude,
                        spawn_model_file_name: m.spawn_model_file_name,
                        lifespan: m.lifespan,
                        initial_velocity: m.initial_velocity,
                        kpee: m.kpee,
                        kpeg: m.kpeg,
                        kpln: m.kpln,
                        kplt: Some(block),
                        kpel: m.kpel,
                        kpes: m.kpes,
                        kpev: m.kpev,
                        ordered: Some(m.order().push(tag)),
                    },
                ),
                Err(e) => BlockStep::Failed(e),
            }
        } else if tag == Kpel::spec_tag() {
            match Kpel::spec_parse(None, input) {
                Ok((rest, block)) => BlockStep::Parsed(
                    rest,
                    ParticleEmitterModel {
                        node: m.node,
                        emission_rate: m.emission_rate,
                        gravity: m.gravity,
                        longitude: m.longitude,
                        latitude: m.latitude,
                        spawn_model_file_name: m.spawn_model_file_name,
                        lifespan: m.lifespan,
                        initial_velocity: m.initial_velocity,
                        kpee: m.kpee,
                        kpeg: m.kpeg,
                        kpln: m.kpln,
                        kplt: m.kplt,
                        kpel: Some(block),
                        kpes: m.kpes,
                        kpev: m.kpev,
                        ordered: Some(m.order().push(tag)),
                    },
                ),
                Err(e) => BlockStep::Failed(e),
            }
        } else if tag == Kpes::spec_tag() {
            match Kpes::spec_parse(None, input) {
                Ok((rest, block)) => BlockStep::Parsed(
                    rest,
                    ParticleEmitterModel {
                        node: m.node,
                        emission_rate: m.emission_rate,
                        gravity: m.gravity,
                        longitude: m.longitude,
                        latitude: m.latitude,
                        spawn_model_file_name: m.spawn_model_file_name,
                        lifespan: m.lifespan,
                        initial_velocity: m.initial_velocity,
                        kpee: m.kpee,
                        kpeg: m.kpeg,
                        kpln: m.kpln,
                        kplt: m.kplt,
                        kpel: m.kpel,
                        kpes: Some(block),
                        kpev: m.kpev,
                        ordered: Some(m.order().push(tag)),
                    },
                ),
                Err(e) => BlockStep::Failed(e),
            }
        } else if tag == Kpev::spec_tag() {
            match Kpev::spec_parse(None, input) {
                Ok((rest, block)) => BlockStep::Parsed(
                    rest,
                    ParticleEmitterModel {
                        node: m.node,
                        emission_rate: m.emission_rate,
                        gravity: m.gravity,
                        longitude: m.longitude,
                        latitude: m.latitude,
                        spawn_model_file_name: m.spawn_model_file_name,
                        lifespan: m.lifespan,
                        initial_velocity: m.initial_velocity,
                        kpee: m.kpee,
                        kpeg: m.kpeg,
                        kpln: m.kpln,
                        kplt: m.kplt,
                        kpel: m.kpel,
                        kpes: m.kpes,
                        kpev: Some(block),
                        ordered: Some(m.order().push(tag)),
                    },
                ),
                Err(e) => BlockStep::Failed(e),
            }
        } else {
            BlockStep::Failed(MdxParseError::UnknownTag(tag))
        }
    }

    fn parse_block<'a>(&mut self, tag: Tag, input: &'a [u8]) -> (r: Parser<'a, bool>) {
        if tag.same_as(&Kpee::tag()) {
            let (rest, block) = Kpee::parse(input)?;
            self.kpee = Some(block);
            record_tag(&mut self.ordered, tag);
            Ok((rest, false))
        } else if tag.same_as(&Kpeg::tag()) {
            let (rest, block) = Kpeg::parse(input)?;
            self.kpeg = Some(block);
            record_tag(&mut self.ordered, tag);
            Ok((rest, false))
        } else if tag.same_as(&Kpln::tag()) {
            let (rest, block) = Kpln::parse(input)?;
            self.kpln = Some(block);
            record_tag(&mut self.ordered, tag);
            Ok((rest, false))
        } else if tag.same_as(&Kplt::tag()) {
            let (rest, block) = Kplt::parse(input)?;
            self.kplt = Some(block);
            record_tag(&mut self.ordered, tag);
            Ok((rest, false))
        } else if tag.same_as(&Kpel::tag()) {
            let (rest, block) = Kpel::parse(input)?;
            self.kpel = Some(block);
            record_tag(&mut self.ordered, tag);
            Ok((rest, false))
        } else if tag.same_as(&Kpes::tag()) {
            let (rest, block) = Kpes::parse(input)?;
            self.kpes = Some(block);
            record_tag(&mut self.ordered, tag);
            Ok((rest, false))
        } else if tag.same_as(&Kpev::tag()) {
            let (rest, block) = Kpev::parse(input)?;
            self.kpev = Some(block);
            record_tag(&mut self.ordered, tag);
            Ok((rest, false))
        } else {
            Err(MdxParseError::UnknownTag(tag))
        }
    }
}

impl LosslessBlocks for ParticleEmitter {
    proof fn lemma_block_step(m: ParticleEmitterModel, tag: Tag, input: Seq<u8>) {
        if tag == Kpee::spec_tag() {
            Kpee::lemma_parse_wire(None, input);
        } else if tag == Kpeg::spec_tag() {
            Kpeg::lemma_parse_wire(None, input);
        } else if tag == Kpln::spec_tag() {
            Kpln::lemma_parse_wire(None, input);
        } else if tag == Kplt::spec_tag() {
            Kplt::lemma_parse_wire(None, input);
        } else if tag == Kpel::spec_tag() {
            Kpel::lemma_parse_wire(None, input);
        } else if tag == Kpes::spec_tag() {
            Kpes::lemma_parse_wire(None, input);
        } else if tag == Kpev::spec_tag() {
            Kpev::lemma_parse_wire(None, input);
        }
    }
}

impl SizedBody for ParticleEmitter {
    type Model = ParticleEmitterModel;

    open spec fn body_model(&self) -> ParticleEmitterModel {
        self.slots_model()
    }

    open spec fn spec_parse_body(version: Option<u32>, input: Seq<u8>) -> Parsed<ParticleEmitterModel> {
        match Node::spec_parse(None, input) {
            Ok((rest, node)) => match FloatBits::spec_parse(None, rest) {
                Ok((rest, emission_rate)) => match FloatBits::spec_parse(None, rest) {
                    Ok((rest, gravity)) => match FloatBits::spec_parse(None, rest) {
                        Ok((rest, longitude)) => match FloatBits::spec_parse(None, rest) {
                            Ok((rest, latitude)) => match <Literal<EMITTER_FILENAME_LENGTH>>::spec_parse(None, rest) {
                                Ok((rest, spawn_model_file_name)) => match FloatBits::spec_parse(None, rest) {
                                    Ok((rest, lifespan)) => match FloatBits::spec_parse(None, rest) {
                                        Ok((rest, initial_velocity)) => match spec_parse_tagged::<ParticleEmitter>(
                                            ParticleEmitterModel {
                                                node,
                                                emission_rate,
                                                gravity,
                                                longitude,
                                                latitude,
                                                spawn_model_file_name,
                                                lifespan,
                                                initial_velocity,
                                                kpee: None,
                                                kpeg: None,
                                                kpln: None,
                                                kplt: None,
                                                kpel: None,
                                                kpes: None,
                                                kpev: None,
                                                ordered: Some(Seq::empty()),
                                            },
                                            rest,
                                        ) {
                                            Ok((rest, scanned)) => Ok((rest, scanned)),
                                            Err(e) => Err(e),
                                        },
                                        Err(e) => Err(e),
                                    },
                                    Err(e) => Err(e),
                                },
                                Err(e) => Err(e),
                            },
                            Err(e) => Err(e),
                        },
                        Err(e) => Err(e),
                    },
                    Err(e) => Err(e),
                },
                Err(e) => Err(e),
            },
            Err(e) => Err(e),
        }
    }

    open spec fn body_wire(m: ParticleEmitterModel) -> Seq<u8> {
        Node::wire(m.node) + (FloatBits::wire(m.emission_rate) + (FloatBits::wire(m.gravity) + (FloatBits::wire(m.longitude) + (FloatBits::wire(m.latitude) + (<Literal<EMITTER_FILENAME_LENGTH>>::wire(m.spawn_model_file_name) + (FloatBits::wire(m.lifespan) + (FloatBits::wire(m.initial_velocity) + (wire_slots(m)))))))))
    }

    open spec fn body_encode_error(m: ParticleEmitterModel) -> Option<EncodeError> {
        match Node::encode_error(m.node) {
            Some(e) => Some(e),
            None => match FloatBits::encode_error(m.emission_rate) {
                Some(e) => Some(e),
                None => match FloatBits::encode_error(m.gravity) {
                    Some(e) => Some(e),
                    None => match FloatBits::encode_error(m.longitude) {
                        Some(e) => Some(e),
                        None => match FloatBits::encode_error(m.latitude) {
                            Some(e) => Some(e),
                            None => match <Literal<EMITTER_FILENAME_LENGTH>>::encode_error(m.spawn_model_file_name) {
                                Some(e) => Some(e),
                                None => match FloatBits::encode_error(m.lifespan) {
                                    Some(e) => Some(e),
                                    None => match FloatBits::encode_error(m.initial_velocity) {
                                        Some(e) => Some(e),
                                        None => encode_error_slots(m),
                                    },
                                },
                            },
                        },
                    },
                },
            },
        }
    }

    fn parse_body<'a>(version: Option<u32>, input: &'a [u8]) -> (r: Parser<'a, ParticleEmitter>) {
        let (input, node) = Node::parse(input)?;
        let (input, emission_rate) = FloatBits::parse(input)?;
        let (input, gravity) = FloatBits::parse(input)?;
        let (input, longitude) = FloatBits::parse(input)?;
        let (input, latitude) = FloatBits::parse(input)?;
        let (input, spawn_model_file_name) = <Literal<EMITTER_FILENAME_LENGTH>>::parse(input)?;
        let (input, lifespan) = FloatBits::parse(input)?;
        let (input, initial_velocity) = FloatBits::parse(input)?;
        let mut value = ParticleEmitter {
            node,
            emission_rate,
            gravity,
            longitude,
            latitude,
            spawn_model_file_name,
            lifespan,
            initial_velocity,
            kpee: None,
            kpeg: None,
            kpln: None,
            kplt: None,
            kpel: None,
            kpes: None,
            kpev: None,
            ordered: Some(Vec::new()),
        };
        let (input, _) = parse_tagged(&mut value, input)?;
        Ok((input, value))
    }

    fn encode_body(&self, output: &mut Vec<u8>) -> (r: Result<(), EncodeError>) {
        let ghost p0 = output@;
        self.node.encode(output)?;
        let ghost p1 = output@;
        self.emission_rate.encode(output)?;
        let ghost p2 = output@;
        self.gravity.encode(output)?;
        let ghost p3 = output@;
        self.longitude.encode(output)?;
        let ghost p4 = output@;
        self.latitude.encode(output)?;
        let ghost p5 = output@;
        self.spawn_model_file_name.encode(output)?;
        let ghost p6 = output@;
        self.lifespan.encode(output)?;
        let ghost p7 = output@;
        self.initial_velocity.encode(output)?;
        let ghost p8 = output@;
        let canonical = [Kpee::tag(), Kpeg::tag(), Kpln::tag(), Kplt::tag(), Kpel::tag(), Kpes::tag(), Kpev::tag()];
        assert(canonical@ =~= ParticleEmitterModel::canonical());
        encode_slots(self, &self.ordered, canonical.as_slice(), output)?;
        proof {
            let m = self.body_model();
            let w1 = Node::wire(m.node);
            let w2 = FloatBits::wire(m.emission_rate);
            let w3 = FloatBits::wire(m.gravity);
            let w4 = FloatBits::wire(m.longitude);
            let w5 = FloatBits::wire(m.latitude);
            let w6 = <Literal<EMITTER_FILENAME_LENGTH>>::wire(m.spawn_model_file_name);
            let w7 = FloatBits::wire(m.lifespan);
            let w8 = FloatBits::wire(m.initial_velocity);
            let w9 = wire_slots(m);
            let s8 = w8 + w9;
            let s7 = w7 + s8;
            let s6 = w6 + s7;
            let s5 = w5 + s6;
            let s4 = w4 + s5;
            let s3 = w3 + s4;
            let s2 = w2 + s3;
            lemma_append_assoc(p7, w8, w9);
            lemma_append_assoc(p6, w7, s8);
            lemma_append_assoc(p5, w6, s7);
            lemma_append_assoc(p4, w5, s6);
            lemma_append_assoc(p3, w4, s5);
            lemma_append_assoc(p2, w3, s4);
            lemma_append_assoc(p1, w2, s3);
            lemma_append_assoc(p0, w1, s2);
        }
        Ok(())
    }
}

impl LosslessBody for ParticleEmitter {
    open spec fn body_faithful(m: ParticleEmitterModel) -> bool {
        Node::faithful(m.node) && FloatBits::faithful(m.emission_rate) && FloatBits::faithful(m.gravity) && FloatBits::faithful(m.longitude) && FloatBits::faithful(m.latitude) && <Literal<EMITTER_FILENAME_LENGTH>>::faithful(m.spawn_model_file_name) && FloatBits::faithful(m.lifespan) && FloatBits::faithful(m.initial_velocity) && m.order().no_duplicates() && slots_faithful(m, m.order())
    }

    #[verifier::rlimit(50)]
    proof fn lemma_body_parse_wire(version: Option<u32>, input: Seq<u8>) {
        Node::lemma_parse_wire(None, input);
        match Node::spec_parse(None, input) {
            Ok((rest1, node)) => {
                assert(Node::faithful(node) ==> Node::encode_error(node) is None
                    && Node::wire(node) + rest1 == input);
                FloatBits::lemma_parse_wire(None, rest1);
                match FloatBits::spec_parse(None, rest1) {
                    Ok((rest2, emission_rate)) => {
                        assert(FloatBits::faithful(emission_rate) ==> FloatBits::encode_error(emission_rate) is None
                            && FloatBits::wire(emission_rate) + rest2 == rest1);
                        FloatBits::lemma_parse_wire(None, rest2);
                        match FloatBits::spec_parse(None, rest2) {
                            Ok((rest3, gravity)) => {
                                assert(FloatBits::faithful(gravity) ==> FloatBits::encode_error(gravity) is None
                                    && FloatBits::wire(gravity) + rest3 == rest2);
                                FloatBits::lemma_parse_wire(None, rest3);
                                match FloatBits::spec_parse(None, rest3) {
                                    Ok((rest4, longitude)) => {
                                        assert(FloatBits::faithful(longitude) ==> FloatBits::encode_error(longitude) is None
                                            && FloatBits::wire(longitude) + rest4 == rest3);
                                        FloatBits::lemma_parse_wire(None, rest4);
                                        match FloatBits::spec_parse(None, rest4) {
                                            Ok((rest5, latitude)) => {
                                                assert(FloatBits::faithful(latitude) ==> FloatBits::encode_error(latitude) is None
                                                    && FloatBits::wire(latitude) + rest5 == rest4);
                                                <Literal<EMITTER_FILENAME_LENGTH>>::lemma_parse_wire(None, rest5);
                                                match <Literal<EMITTER_FILENAME_LENGTH>>::spec_parse(None, rest5) {
                                                    Ok((rest6, spawn_model_file_name)) => {
                                                        assert(<Literal<EMITTER_FILENAME_LENGTH>>::faithful(spawn_model_file_name) ==> <Literal<EMITTER_FILENAME_LENGTH>>::encode_error(spawn_model_file_name) is None
                                                            && <Literal<EMITTER_FILENAME_LENGTH>>::wire(spawn_model_file_name) + rest6 == rest5);
                                                        FloatBits::lemma_parse_wire(None, rest6);
                                                        match FloatBits::spec_parse(None, rest6) {
                                                            Ok((rest7, lifespan)) => {
                                                                assert(FloatBits::faithful(lifespan) ==> FloatBits::encode_error(lifespan) is None
                                                                    && FloatBits::wire(lifespan) + rest7 == rest6);
                                                                FloatBits::lemma_parse_wire(None, rest7);
                                                                match FloatBits::spec_parse(None, rest7) {
                                                                    Ok((rest8, initial_velocity)) => {
                                                                        assert(FloatBits::faithful(initial_velocity) ==> FloatBits::encode_error(initial_velocity) is None
                                                                            && FloatBits::wire(initial_velocity) + rest8 == rest7);
                                                                        lemma_tagged_parse_wire::<ParticleEmitter>(
                                                                            ParticleEmitterModel {
                                                                                node,
                                                                                emission_rate,
                                                                                gravity,
                                                                                longitude,
                                                                                latitude,
                                                                                spawn_model_file_name,
                                                                                lifespan,
                                                                                initial_velocity,
                                                                                kpee: None,
                                                                                kpeg: None,
                                                                                kpln: None,
                                                                                kplt: None,
                                                                                kpel: None,
                                                                                kpes: None,
                                                                                kpev: None,
                                                                                ordered: Some(Seq::empty()),
                                                                            },
                                                                            rest8,
                                                                        );
                                                                        match spec_parse_tagged::<ParticleEmitter>(
                                                                            ParticleEmitterModel {
                                                                                node,
                                                                                emission_rate,
                                                                                gravity,
                                                                                longitude,
                                                                                latitude,
                                                                                spawn_model_file_name,
                                                                                lifespan,
                                                                                initial_velocity,
                                                                                kpee: None,
                                                                                kpeg: None,
                                                                                kpln: None,
                                                                                kplt: None,
                                                                                kpel: None,
                                                                                kpes: None,
                                                                                kpev: None,
                                                                                ordered: Some(Seq::empty()),
                                                                            },
                                                                            rest8,
                                                                        ) {
                                                                            Ok((rest9, scanned)) => {
                                                                                let m = scanned;
                                                                                if Self::body_faithful(m) {
                                                                                    assert(scanned.order().skip(0) =~= scanned.order());
                                                                                    let w1 = Node::wire(m.node);
                                                                                    let w2 = FloatBits::wire(m.emission_rate);
                                                                                    let w3 = FloatBits::wire(m.gravity);
                                                                                    let w4 = FloatBits::wire(m.longitude);
                                                                                    let w5 = FloatBits::wire(m.latitude);
                                                                                    let w6 = <Literal<EMITTER_FILENAME_LENGTH>>::wire(m.spawn_model_file_name);
                                                                                    let w7 = FloatBits::wire(m.lifespan);
                                                                                    let w8 = FloatBits::wire(m.initial_velocity);
                                                                                    let w9 = wire_slots(m);
                                                                                    let s8 = w8 + w9;
                                                                                    let s7 = w7 + s8;
                                                                                    let s6 = w6 + s7;
                                                                                    let s5 = w5 + s6;
                                                                                    let s4 = w4 + s5;
                                                                                    let s3 = w3 + s4;
                                                                                    let s2 = w2 + s3;
                                                                                    lemma_append_assoc(w8, w9, rest9);
                                                                                    lemma_append_assoc(w7, s8, rest9);
                                                                                    lemma_append_assoc(w6, s7, rest9);
                                                                                    lemma_append_assoc(w5, s6, rest9);
                                                                                    lemma_append_assoc(w4, s5, rest9);
                                                                                    lemma_append_assoc(w3, s4, rest9);
                                                                                    lemma_append_assoc(w2, s3, rest9);
                                                                                    lemma_append_assoc(w1, s2, rest9);
                                                                                }
                                                                            },
                                                                            Err(_) => {},
                                                                        }
                                                                    },
                                                                    Err(_) => {},
                                                                }
                                                            },
                                                            Err(_) => {},
                                                        }
                                                    },
                                                    Err(_) => {},
                                                }
                                            },
                                            Err(_) => {},
                                        }
                                    },
                                    Err(_) => {},
                                }
                            },
                            Err(_) => {},
                        }
                    },
                    Err(_) => {},
                }
            },
            Err(_) => {},
        }
    }
}

impl Materialized for ParticleEmitter {
    type Version = u32;

    type Model = ParticleEmitterModel;

    open spec fn model(&self) -> ParticleEmitterModel {
        self.body_model()
    }

    open spec fn spec_parse(version: Option<u32>, input: Seq<u8>) -> Parsed<ParticleEmitterModel> {
        spec_parse_inclusive_sized::<ParticleEmitter>(version, input)
    }

    open spec fn wire(m: ParticleEmitterModel) -> Seq<u8> {
        wire_inclusive_sized::<ParticleEmitter>(m)
    }

    open spec fn encode_error(m: ParticleEmitterModel) -> Option<EncodeError> {
        encode_error_inclusive_sized::<ParticleEmitter>(m)
    }

    fn parse_versioned<'a>(version: Option<u32>, input: &'a [u8]) -> (r: Parser<'a, ParticleEmitter>) {
        parse_inclusive_sized::<ParticleEmitter>(version, input)
    }

    /// The record is encoded aside and then written with its size: if it
    /// fails, the output is left as it is.
    fn encode(&self, output: &mut Vec<u8>) -> (r: Result<(), EncodeError>)
        ensures
            r is Err ==> final(output)@ == old(output)@,
    {
        encode_inclusive_sized(output, self)
    }
}

impl Lossless for ParticleEmitter {
    open spec fn faithful(m: ParticleEmitterModel) -> bool {
        ParticleEmitter::body_faithful(m)
    }

    proof fn lemma_parse_wire(version: Option<u32>, input: Seq<u8>) {
        lemma_inclusive_parse_wire::<ParticleEmitter>(version, input);
    }
}

/// The tags of the blocks of [`ParticleEmitter`] differ from each other.
proof fn lemma_particleemitter_tags_differ()
    ensures
        Kpee::spec_tag() != Kpeg::spec_tag(),
        Kpee::spec_tag() != Kpln::spec_tag(),
        Kpee::spec_tag() != Kplt::spec_tag(),
        Kpee::spec_tag() != Kpel::spec_tag(),
        Kpee::spec_tag() != Kpes::spec_tag(),
        Kpee::spec_tag() != Kpev::spec_tag(),
        Kpeg::spec_tag() != Kpln::spec_tag(),
        Kpeg::spec_tag() != Kplt::spec_tag(),
        Kpeg::spec_tag() != Kpel::spec_tag(),
        Kpeg::spec_tag() != Kpes::spec_tag(),
        Kpeg::spec_tag() != Kpev::spec_tag(),
        Kpln::spec_tag() != Kplt::spec_tag(),
        Kpln::spec_tag() != Kpel::spec_tag(),
        Kpln::spec_tag() != Kpes::spec_tag(),
        Kpln::spec_tag() != Kpev::spec_tag(),
        Kplt::spec_tag() != Kpel::spec_tag(),
        Kplt::spec_tag() != Kpes::spec_tag(),
        Kplt::spec_tag() != Kpev::spec_tag(),
        Kpel::spec_tag() != Kpes::spec_tag(),
        Kpel::spec_tag() != Kpev::spec_tag(),
        Kpes::spec_tag() != Kpev::spec_tag(),
{
    assert(Kpee::spec_tag().0[3] != Kpeg::spec_tag().0[3]);
    assert(Kpee::spec_tag().0[2] != Kpln::spec_tag().0[2]);
    assert(Kpee::spec_tag().0[2] != Kplt::spec_tag().0[2]);
    assert(Kpee::spec_tag().0[3] != Kpel::spec_tag().0[3]);
    assert(Kpee::spec_tag().0[3] != Kpes::spec_tag().0[3]);
    assert(Kpee::spec_tag().0[3] != Kpev::spec_tag().0[3]);
    assert(Kpeg::spec_tag().0[2] != Kpln::spec_tag().0[2]);
    assert(Kpeg::spec_tag().0[2] != Kplt::spec_tag().0[2]);
    assert(Kpeg::spec_tag().0[3] != Kpel::spec_tag().0[3]);
    assert(Kpeg::spec_tag().0[3] != Kpes::spec_tag().0[3]);
    assert(Kpeg::spec_tag().0[3] != Kpev::spec_tag().0[3]);
    assert(Kpln::spec_tag().0[3] != Kplt::spec_tag().0[3]);
    assert(Kpln::spec_tag().0[2] != Kpel::spec_tag().0[2]);
    assert(Kpln::spec_tag().0[2] != Kpes::spec_tag().0[2]);
    assert(Kpln::spec_tag().0[2] != Kpev::spec_tag().0[2]);
    assert(Kplt::spec_tag().0[2] != Kpel::spec_tag().0[2]);
    assert(Kplt::spec_tag().0[2] != Kpes::spec_tag().0[2]);
    assert(Kplt::spec_tag().0[2] != Kpev::spec_tag().0[2]);
    assert(Kpel::spec_tag().0[3] != Kpes::spec_tag().0[3]);
    assert(Kpel::spec_tag().0[3] != Kpev::spec_tag().0[3]);
    assert(Kpes::spec_tag().0[3] != Kpev::spec_tag().0[3]);
}

impl ReparsableBlocks for ParticleEmitter {
    open spec fn slot_well_formed(m: ParticleEmitterModel, tag: Tag) -> bool {
        if tag == Kpee::spec_tag() {
            m.kpee is Some && Kpee::well_formed(m.kpee->0, None)
        } else if tag == Kpeg::spec_tag() {
            m.kpeg is Some && Kpeg::well_formed(m.kpeg->0, None)
        } else if tag == Kpln::spec_tag() {
            m.kpln is Some && Kpln::well_formed(m.kpln->0, None)
        } else if tag == Kplt::spec_tag() {
            m.kplt is Some && Kplt::well_formed(m.kplt->0, None)
        } else if tag == Kpel::spec_tag() {
            m.kpel is Some && Kpel::well_formed(m.kpel->0, None)
        } else if tag == Kpes::spec_tag() {
            m.kpes is Some && Kpes::well_formed(m.kpes->0, None)
        } else if tag == Kpev::spec_tag() {
            m.kpev is Some && Kpev::well_formed(m.kpev->0, None)
        } else {
            false
        }
    }

    open spec fn refill(acc: ParticleEmitterModel, m: ParticleEmitterModel, tag: Tag) -> ParticleEmitterModel {
        if tag == Kpee::spec_tag() {
            ParticleEmitterModel {
                node: acc.node,
                emission_rate: acc.emission_rate,
                gravity: acc.gravity,
                longitude: acc.longitude,
                latitude: acc.latitude,
                spawn_model_file_name: acc.spawn_model_file_name,
                lifespan: acc.lifespan,
                initial_velocity: acc.initial_velocity,
                kpee: m.kpee,
                kpeg: acc.kpeg,
                kpln: acc.kpln,
                kplt: acc.kplt,
                kpel: acc.kpel,
                kpes: acc.kpes,
                kpev: acc.kpev,
                ordered: Some(acc.order().push(tag)),
            }
        } else if tag == Kpeg::spec_tag() {
            ParticleEmitterModel {
                node: acc.node,
                emission_rate: acc.emission_rate,
                gravity: acc.gravity,
                longitude: acc.longitude,
                latitude: acc.latitude,
                spawn_model_file_name: acc.spawn_model_file_name,
                lifespan: acc.lifespan,
                initial_velocity: acc.initial_velocity,
                kpee: acc.kpee,
                kpeg: m.kpeg,
                kpln: acc.kpln,
                kplt: acc.kplt,
                kpel: acc.kpel,
                kpes: acc.kpes,
                kpev: acc.kpev,
                ordered: Some(acc.order().push(tag)),
            }
        } else if tag == Kpln::spec_tag() {
            ParticleEmitterModel {
                node: acc.node,
                emission_rate: acc.emission_rate,
                gravity: acc.gravity,
                longitude: acc.longitude,
                latitude: acc.latitude,
                spawn_model_file_name: acc.spawn_model_file_name,
                lifespan: acc.lifespan,
                initial_velocity: acc.initial_velocity,
                kpee: acc.kpee,
                kpeg: acc.kpeg,
                kpln: m.kpln,
                kplt: acc.kplt,
                kpel: acc.kpel,
                kpes: acc.kpes,
                kpev: acc.kpev,
                ordered: Some(acc.order().push(tag)),
            }
        } else if tag == Kplt::spec_tag() {
            ParticleEmitterModel {
                node: acc.node,
                emission_rate: acc.emission_rate,
                gravity: acc.gravity,
                longitude: acc.longitude,
                latitude: acc.latitude,
                spawn_model_file_name: acc.spawn_model_file_name,
                lifespan: acc.lifespan,
                initial_velocity: acc.initial_velocity,
                kpee: acc.kpee,
                kpeg: acc.kpeg,
                kpln: acc.kpln,
                kplt: m.kplt,
                kpel: acc.kpel,
                kpes: acc.kpes,
                kpev: acc.kpev,
                ordered: Some(acc.order().push(tag)),
            }
        } else if tag == Kpel::spec_tag() {
            ParticleEmitterModel {
                node: acc.node,
                emission_rate: acc.emission_rate,
                gravity: acc.gravity,
                longitude: acc.longitude,
                latitude: acc.latitude,
                spawn_model_file_name: acc.spawn_model_file_name,
                lifespan: acc.lifespan,
                initial_velocity: acc.initial_velocity,
                kpee: acc.kpee,
                kpeg: acc.kpeg,
                kpln: acc.kpln,
                kplt: acc.kplt,
                kpel: m.kpel,
                kpes: acc.kpes,
                kpev: acc.kpev,
                ordered: Some(acc.order().push(tag)),
            }
        } else if tag == Kpes::spec_tag() {
            ParticleEmitterModel {
                node: acc.node,
                emission_rate: acc.emission_rate,
                gravity: acc.gravity,
                longitude: acc.longitude,
                latitude: acc.latitude,
                spawn_model_file_name: acc.spawn_model_file_name,
                lifespan: acc.lifespan,
                initial_velocity: acc.initial_velocity,
                kpee: acc.kpee,
                kpeg: acc.kpeg,
                kpln: acc.kpln,
                kplt: acc.kplt,
                kpel: acc.kpel,
                kpes: m.kpes,
                kpev: acc.kpev,
                ordered: Some(acc.order().push(tag)),
            }
        } else if tag == Kpev::spec_tag() {
            ParticleEmitterModel {
                node: acc.node,
                emission_rate: acc.emission_rate,
                gravity: acc.gravity,
                longitude: acc.longitude,
                latitude: acc.latitude,
                spawn_model_file_name: acc.spawn_model_file_name,
                lifespan: acc.lifespan,
                initial_velocity: acc.initial_velocity,
                kpee: acc.kpee,
                kpeg: acc.kpeg,
                kpln: acc.kpln,
                kplt: acc.kplt,
                kpel: acc.kpel,
                kpes: acc.kpes,
                kpev: m.kpev,
                ordered: Some(acc.order().push(tag)),
            }
        } else {
            acc
        }
    }

    proof fn lemma_block_refill(acc: ParticleEmitterModel, m: ParticleEmitterModel, tag: Tag, tail: Seq<u8>) {
        if tag == Kpee::spec_tag() {
            Kpee::lemma_wire_tag(m.kpee->0);
            Kpee::lemma_wire_parse(m.kpee->0, None, tail);
        } else if tag == Kpeg::spec_tag() {
            Kpeg::lemma_wire_tag(m.kpeg->0);
            Kpeg::lemma_wire_parse(m.kpeg->0, None, tail);
        } else if tag == Kpln::spec_tag() {
            Kpln::lemma_wire_tag(m.kpln->0);
            Kpln::lemma_wire_parse(m.kpln->0, None, tail);
        } else if tag == Kplt::spec_tag() {
            Kplt::lemma_wire_tag(m.kplt->0);
            Kplt::lemma_wire_parse(m.kplt->0, None, tail);
        } else if tag == Kpel::spec_tag() {
            Kpel::lemma_wire_tag(m.kpel->0);
            Kpel::lemma_wire_parse(m.kpel->0, None, tail);
        } else if tag == Kpes::spec_tag() {
            Kpes::lemma_wire_tag(m.kpes->0);
            Kpes::lemma_wire_parse(m.kpes->0, None, tail);
        } else if tag == Kpev::spec_tag() {
            Kpev::lemma_wire_tag(m.kpev->0);
            Kpev::lemma_wire_parse(m.kpev->0, None, tail);
        }
    }
}

/// What the blocks of `m` under the tags make of `acc`: the other fields are
/// the ones of `acc`, the tags are recorded behind the ones of `acc`, and a
/// block is the one of `m` if its tag is among the tags.
proof fn lemma_particleemitter_refill(acc: ParticleEmitterModel, m: ParticleEmitterModel, tags: Seq<Tag>)
    requires
        acc.ordered is Some,
        forall|i: int| 0 <= i < tags.len() ==> ParticleEmitter::slot_well_formed(m, #[trigger] tags[i]),
    ensures
        ({
            let r = refill_all::<ParticleEmitter>(acc, m, tags);
            &&& r.ordered == Some(acc.order() + tags)
            &&& r.node == acc.node
            &&& r.emission_rate == acc.emission_rate
            &&& r.gravity == acc.gravity
            &&& r.longitude == acc.longitude
            &&& r.latitude == acc.latitude
            &&& r.spawn_model_file_name == acc.spawn_model_file_name
            &&& r.lifespan == acc.lifespan
            &&& r.initial_velocity == acc.initial_velocity
            &&& r.kpee == if tags.contains(Kpee::spec_tag()) {
                m.kpee
            } else {
                acc.kpee
            }
            &&& r.kpeg == if tags.contains(Kpeg::spec_tag()) {
                m.kpeg
            } else {
                acc.kpeg
            }
            &&& r.kpln == if tags.contains(Kpln::spec_tag()) {
                m.kpln
            } else {
                acc.kpln
            }
            &&& r.kplt == if tags.contains(Kplt::spec_tag()) {
                m.kplt
            } else {
                acc.kplt
            }
            &&& r.kpel == if tags.contains(Kpel::spec_tag()) {
                m.kpel
            } else {
                acc.kpel
            }
            &&& r.kpes == if tags.contains(Kpes::spec_tag()) {
                m.kpes
            } else {
                acc.kpes
            }
            &&& r.kpev == if tags.contains(Kpev::spec_tag()) {
                m.kpev
            } else {
                acc.kpev
            }
        }),
    decreases tags.len(),
{
    if tags.len() == 0 {
        assert(acc.order() + tags =~= acc.order());
    } else {
        let tag = tags[0];
        let next = ParticleEmitter::refill(acc, m, tag);
        assert(ParticleEmitter::slot_well_formed(m, tags[0]));
        assert forall|i: int| 0 <= i < tags.skip(1).len() implies ParticleEmitter::slot_well_formed(
            m,
            #[trigger] tags.skip(1)[i],
        ) by {
            assert(tags.skip(1)[i] == tags[i + 1]);
        }
        lemma_particleemitter_refill(next, m, tags.skip(1));
        assert(next.order() + tags.skip(1) =~= acc.order() + tags);
        lemma_particleemitter_tags_differ();
        lemma_contains_front(tags, Kpee::spec_tag());
        lemma_contains_front(tags, Kpeg::spec_tag());
        lemma_contains_front(tags, Kpln::spec_tag());
        lemma_contains_front(tags, Kplt::spec_tag());
        lemma_contains_front(tags, Kpel::spec_tag());
        lemma_contains_front(tags, Kpes::spec_tag());
        lemma_contains_front(tags, Kpev::spec_tag());
    }
}

impl ReparsableBody for ParticleEmitter {
    open spec fn body_well_formed(m: ParticleEmitterModel, version: Option<u32>) -> bool {
        Node::well_formed(m.node, None)
        && FloatBits::well_formed(m.emission_rate, None)
        && FloatBits::well_formed(m.gravity, None)
        && FloatBits::well_formed(m.longitude, None)
        && FloatBits::well_formed(m.latitude, None)
        && <Literal<EMITTER_FILENAME_LENGTH>>::well_formed(m.spawn_model_file_name, None)
        && FloatBits::well_formed(m.lifespan, None)
        && FloatBits::well_formed(m.initial_velocity, None)
        && m.ordered is Some
        && (forall|i: int| 0 <= i < m.order().len() ==> ParticleEmitter::slot_well_formed(m, #[trigger] m.order()[i]))
        && (m.kpee is Some ==> m.order().contains(Kpee::spec_tag()))
        && (m.kpeg is Some ==> m.order().contains(Kpeg::spec_tag()))
        && (m.kpln is Some ==> m.order().contains(Kpln::spec_tag()))
        && (m.kplt is Some ==> m.order().contains(Kplt::spec_tag()))
        && (m.kpel is Some ==> m.order().contains(Kpel::spec_tag()))
        && (m.kpes is Some ==> m.order().contains(Kpes::spec_tag()))
        && (m.kpev is Some ==> m.order().contains(Kpev::spec_tag()))
    }

    #[verifier::rlimit(50)]
    proof fn lemma_body_wire_parse(m: ParticleEmitterModel, version: Option<u32>) {
        let w1 = Node::wire(m.node);
        let w2 = FloatBits::wire(m.emission_rate);
        let w3 = FloatBits::wire(m.gravity);
        let w4 = FloatBits::wire(m.longitude);
        let w5 = FloatBits::wire(m.latitude);
        let w6 = <Literal<EMITTER_FILENAME_LENGTH>>::wire(m.spawn_model_file_name);
        let w7 = FloatBits::wire(m.lifespan);
        let w8 = FloatBits::wire(m.initial_velocity);
        let w9 = wire_slots(m);
        let u10 = Seq::<u8>::empty();
        let u9 = w9 + u10;
        let u8 = w8 + u9;
        let u7 = w7 + u8;
        let u6 = w6 + u7;
        let u5 = w5 + u6;
        let u4 = w4 + u5;
        let u3 = w3 + u4;
        let u2 = w2 + u3;
        let u1 = w1 + u2;
        let s8 = w8 + w9;
        let s7 = w7 + s8;
        let s6 = w6 + s7;
        let s5 = w5 + s6;
        let s4 = w4 + s5;
        let s3 = w3 + s4;
        let s2 = w2 + s3;
        lemma_append_assoc(w8, w9, Seq::<u8>::empty());
        lemma_append_assoc(w7, s8, Seq::<u8>::empty());
        lemma_append_assoc(w6, s7, Seq::<u8>::empty());
        lemma_append_assoc(w5, s6, Seq::<u8>::empty());
        lemma_append_assoc(w4, s5, Seq::<u8>::empty());
        lemma_append_assoc(w3, s4, Seq::<u8>::empty());
        lemma_append_assoc(w2, s3, Seq::<u8>::empty());
        lemma_append_assoc(w1, s2, Seq::<u8>::empty());
        Node::lemma_wire_parse(m.node, None, u2);
        FloatBits::lemma_wire_parse(m.emission_rate, None, u3);
        FloatBits::lemma_wire_parse(m.gravity, None, u4);
        FloatBits::lemma_wire_parse(m.longitude, None, u5);
        FloatBits::lemma_wire_parse(m.latitude, None, u6);
        <Literal<EMITTER_FILENAME_LENGTH>>::lemma_wire_parse(m.spawn_model_file_name, None, u7);
        FloatBits::lemma_wire_parse(m.lifespan, None, u8);
        FloatBits::lemma_wire_parse(m.initial_velocity, None, u9);
        let start = ParticleEmitterModel {
            node: m.node,
            emission_rate: m.emission_rate,
            gravity: m.gravity,
            longitude: m.longitude,
            latitude: m.latitude,
            spawn_model_file_name: m.spawn_model_file_name,
            lifespan: m.lifespan,
            initial_velocity: m.initial_velocity,
            kpee: None,
            kpeg: None,
            kpln: None,
            kplt: None,
            kpel: None,
            kpes: None,
            kpev: None,
            ordered: Some(Seq::empty()),
        };
        lemma_tagged_wire_parse::<ParticleEmitter>(start, m, m.order(), u10);
        lemma_particleemitter_refill(start, m, m.order());
        assert(Seq::<Tag>::empty() + m.order() =~= m.order());
        assert(u1 =~= Self::body_wire(m));
    }
}

impl Reparsable for ParticleEmitter {
    open spec fn well_formed(m: ParticleEmitterModel, version: Option<u32>) -> bool {
        ParticleEmitter::body_well_formed(m, version) && ParticleEmitter::body_wire(m).len() + 4 <= u32::MAX
    }

    proof fn lemma_wire_parse(m: ParticleEmitterModel, version: Option<u32>, tail: Seq<u8>) {
        lemma_inclusive_wire_parse::<ParticleEmitter>(m, version, tail);
    }
}

/// Holds the track of the emission rate of a particle emitter.
#[derive(Debug, Clone, PartialEq)]
pub struct Kpee(pub TrackChunk<FloatBits>);

impl Chunk for Kpee {
    open spec fn spec_tag() -> Tag {
        Tag([0x4B, 0x50, 0x45, 0x45])
    }

    fn tag() -> (t: Tag) {
        let t = Tag([0x4B, 0x50, 0x45, 0x45]);
        assert(t.0 =~= Self::spec_tag().0);
        t
    }
}

impl Materialized for Kpee {
    type Version = u32;

    type Model = TrackChunkModel<FloatBits>;

    open spec fn model(&self) -> TrackChunkModel<FloatBits> {
        self.0.model()
    }

    open spec fn spec_parse(version: Option<u32>, input: Seq<u8>) -> Parsed<
        TrackChunkModel<FloatBits>,
    > {
        <TrackChunk<FloatBits>>::spec_parse(None, input)
    }

    open spec fn wire(m: TrackChunkModel<FloatBits>) -> Seq<u8> {
        <TrackChunk<FloatBits>>::wire(m)
    }

    open spec fn encode_error(m: TrackChunkModel<FloatBits>) -> Option<EncodeError> {
        <TrackChunk<FloatBits>>::encode_error(m)
    }

    fn parse_versioned<'a>(version: Option<u32>, input: &'a [u8]) -> (r: Parser<'a, Kpee>) {
        let (input, chunk) = <TrackChunk<FloatBits>>::parse(input)?;
        Ok((input, Kpee(chunk)))
    }

    fn encode(&self, output: &mut Vec<u8>) -> (r: Result<(), EncodeError>) {
        self.0.encode(output)
    }
}

impl Lossless for Kpee {
    open spec fn faithful(m: TrackChunkModel<FloatBits>) -> bool {
        <TrackChunk<FloatBits>>::faithful(m)
    }

    proof fn lemma_parse_wire(version: Option<u32>, input: Seq<u8>) {
        <TrackChunk<FloatBits>>::lemma_parse_wire(None, input);
    }
}

impl Reparsable for Kpee {
    open spec fn well_formed(m: TrackChunkModel<FloatBits>, version: Option<u32>) -> bool {
        <TrackChunk<FloatBits>>::well_formed(m, None) && m.tag == Self::spec_tag()
    }

    proof fn lemma_wire_parse(m: TrackChunkModel<FloatBits>, version: Option<u32>, tail: Seq<u8>) {
        <TrackChunk<FloatBits>>::lemma_wire_parse(m, None, tail);
    }
}

impl TaggedBlock for Kpee {
    proof fn lemma_wire_tag(m: TrackChunkModel<FloatBits>) {
        lemma_tag_bytes(m.tag, m.tag.0@);
        assert(<TrackChunk<FloatBits>>::wire(m).take(4) =~= m.tag.0@);
    }
}

/// Holds the track of the gravity of a particle emitter.
#[derive(Debug, Clone, PartialEq)]
pub struct Kpeg(pub TrackChunk<FloatBits>);

impl Chunk for Kpeg {
    open spec fn spec_tag() -> Tag {
        Tag([0x4B, 0x50, 0x45, 0x47])
    }

    fn tag() -> (t: Tag) {
        let t = Tag([0x4B, 0x50, 0x45, 0x47]);
        assert(t.0 =~= Self::spec_tag().0);
        t
    }
}

impl Materialized for Kpeg {
    type Version = u32;

    type Model = TrackChunkModel<FloatBits>;

    open spec fn model(&self) -> TrackChunkModel<FloatBits> {
        self.0.model()
    }

    open spec fn spec_parse(version: Option<u32>, input: Seq<u8>) -> Parsed<
        TrackChunkModel<FloatBits>,
    > {
        <TrackChunk<FloatBits>>::spec_parse(None, input)
    }

    open spec fn wire(m: TrackChunkModel<FloatBits>) -> Seq<u8> {
        <TrackChunk<FloatBits>>::wire(m)
    }

    open spec fn encode_error(m: TrackChunkModel<FloatBits>) -> Option<EncodeError> {
        <TrackChunk<FloatBits>>::encode_error(m)
    }

    fn parse_versioned<'a>(version: Option<u32>, input: &'a [u8]) -> (r: Parser<'a, Kpeg>) {
        let (input, chunk) = <TrackChunk<FloatBits>>::parse(input)?;
        Ok((input, Kpeg(chunk)))
    }

    fn encode(&self, output: &mut Vec<u8>) -> (r: Result<(), EncodeError>) {
        self.0.encode(output)
    }
}

impl Lossless for Kpeg {
    open spec fn faithful(m: TrackChunkModel<FloatBits>) -> bool {
        <TrackChunk<FloatBits>>::faithful(m)
    }

    proof fn lemma_parse_wire(version: Option<u32>, input: Seq<u8>) {
        <TrackChunk<FloatBits>>::lemma_parse_wire(None, input);
    }
}

impl Reparsable for Kpeg {
    open spec fn well_formed(m: TrackChunkModel<FloatBits>, version: Option<u32>) -> bool {
        <TrackChunk<FloatBits>>::well_formed(m, None) && m.tag == Self::spec_tag()
    }

    proof fn lemma_wire_parse(m: TrackChunkModel<FloatBits>, version: Option<u32>, tail: Seq<u8>) {
        <TrackChunk<FloatBits>>::lemma_wire_parse(m, None, tail);
    }
}

impl TaggedBlock for Kpeg {
    proof fn lemma_wire_tag(m: TrackChunkModel<FloatBits>) {
        lemma_tag_bytes(m.tag, m.tag.0@);
        assert(<TrackChunk<FloatBits>>::wire(m).take(4) =~= m.tag.0@);
    }
}

/// Holds the track of the longitude of a particle emitter.
#[derive(Debug, Clone, PartialEq)]
pub struct Kpln(pub TrackChunk<FloatBits>);

impl Chunk for Kpln {
    open spec fn spec_tag() -> Tag {
        Tag([0x4B, 0x50, 0x4C, 0x4E])
    }

    fn tag() -> (t: Tag) {
        let t = Tag([0x4B, 0x50, 0x4C, 0x4E]);
        assert(t.0 =~= Self::spec_tag().0);
        t
    }
}

impl Materialized for Kpln {
    type Version = u32;

    type Model = TrackChunkModel<FloatBits>;

    open spec fn model(&self) -> TrackChunkModel<FloatBits> {
        self.0.model()
    }

    open spec fn spec_parse(version: Option<u32>, input: Seq<u8>) -> Parsed<
        TrackChunkModel<FloatBits>,
    > {
        <TrackChunk<FloatBits>>::spec_parse(None, input)
    }

    open spec fn wire(m: TrackChunkModel<FloatBits>) -> Seq<u8> {
        <TrackChunk<FloatBits>>::wire(m)
    }

    open spec fn encode_error(m: TrackChunkModel<FloatBits>) -> Option<EncodeError> {
        <TrackChunk<FloatBits>>::encode_error(m)
    }

    fn parse_versioned<'a>(version: Option<u32>, input: &'a [u8]) -> (r: Parser<'a, Kpln>) {
        let (input, chunk) = <TrackChunk<FloatBits>>::parse(input)?;
        Ok((input, Kpln(chunk)))
    }

    fn encode(&self, output: &mut Vec<u8>) -> (r: Result<(), EncodeError>) {
        self.0.encode(output)
    }
}

impl Lossless for Kpln {
    open spec fn faithful(m: TrackChunkModel<FloatBits>) -> bool {
        <TrackChunk<FloatBits>>::faithful(m)
    }

    proof fn lemma_parse_wire(version: Option<u32>, input: Seq<u8>) {
        <TrackChunk<FloatBits>>::lemma_parse_wire(None, input);
    }
}

impl Reparsable for Kpln {
    open spec fn well_formed(m: TrackChunkModel<FloatBits>, version: Option<u32>) -> bool {
        <TrackChunk<FloatBits>>::well_formed(m, None) && m.tag == Self::spec_tag()
    }

    proof fn lemma_wire_parse(m: TrackChunkModel<FloatBits>, version: Option<u32>, tail: Seq<u8>) {
        <TrackChunk<FloatBits>>::lemma_wire_parse(m, None, tail);
    }
}

impl TaggedBlock for Kpln {
    proof fn lemma_wire_tag(m: TrackChunkModel<FloatBits>) {
        lemma_tag_bytes(m.tag, m.tag.0@);
        assert(<TrackChunk<FloatBits>>::wire(m).take(4) =~= m.tag.0@);
    }
}

/// Holds the track of the latitude of a particle emitter.
#[derive(Debug, Clone, PartialEq)]
pub struct Kplt(pub TrackChunk<FloatBits>);

impl Chunk for Kplt {
    open spec fn spec_tag() -> Tag {
        Tag([0x4B, 0x50, 0x4C, 0x54])
    }

    fn tag() -> (t: Tag) {
        let t = Tag([0x4B, 0x50, 0x4C, 0x54]);
        assert(t.0 =~= Self::spec_tag().0);
        t
    }
}

impl Materialized for Kplt {
    type Version = u32;

    type Model = TrackChunkModel<FloatBits>;

    open spec fn model(&self) -> TrackChunkModel<FloatBits> {
        self.0.model()
    }

    open spec fn spec_parse(version: Option<u32>, input: Seq<u8>) -> Parsed<
        TrackChunkModel<FloatBits>,
    > {
        <TrackChunk<FloatBits>>::spec_parse(None, input)
    }

    open spec fn wire(m: TrackChunkModel<FloatBits>) -> Seq<u8> {
        <TrackChunk<FloatBits>>::wire(m)
    }

    open spec fn encode_error(m: TrackChunkModel<FloatBits>) -> Option<EncodeError> {
        <TrackChunk<FloatBits>>::encode_error(m)
    }

    fn parse_versioned<'a>(version: Option<u32>, input: &'a [u8]) -> (r: Parser<'a, Kplt>) {
        let (input, chunk) = <TrackChunk<FloatBits>>::parse(input)?;
        Ok((input, Kplt(chunk)))
    }

    fn encode(&self, output: &mut Vec<u8>) -> (r: Result<(), EncodeError>) {
        self.0.encode(output)
    }
}

impl Lossless for Kplt {
    open spec fn faithful(m: TrackChunkModel<FloatBits>) -> bool {
        <TrackChunk<FloatBits>>::faithful(m)
    }

    proof fn lemma_parse_wire(version: Option<u32>, input: Seq<u8>) {
        <TrackChunk<FloatBits>>::lemma_parse_wire(None, input);
    }
}

impl Reparsable for Kplt {
    open spec fn well_formed(m: TrackChunkModel<FloatBits>, version: Option<u32>) -> bool {
        <TrackChunk<FloatBits>>::well_formed(m, None) && m.tag == Self::spec_tag()
    }

    proof fn lemma_wire_parse(m: TrackChunkModel<FloatBits>, version: Option<u32>, tail: Seq<u8>) {
        <TrackChunk<FloatBits>>::lemma_wire_parse(m, None, tail);
    }
}

impl TaggedBlock for Kplt {
    proof fn lemma_wire_tag(m: TrackChunkModel<FloatBits>) {
        lemma_tag_bytes(m.tag, m.tag.0@);
        assert(<TrackChunk<FloatBits>>::wire(m).take(4) =~= m.tag.0@);
    }
}

/// Holds the track of the lifespan of the particles of an emitter.
#[derive(Debug, Clone, PartialEq)]
pub struct Kpel(pub TrackChunk<FloatBits>);

impl Chunk for Kpel {
    open spec fn spec_tag() -> Tag {
        Tag([0x4B, 0x50, 0x45, 0x4C])
    }

    fn tag() -> (t: Tag) {
        let t = Tag([0x4B, 0x50, 0x45, 0x4C]);
        assert(t.0 =~= Self::spec_tag().0);
        t
    }
}

impl Materialized for Kpel {
    type Version = u32;

    type Model = TrackChunkModel<FloatBits>;

    open spec fn model(&self) -> TrackChunkModel<FloatBits> {
        self.0.model()
    }

    open spec fn spec_parse(version: Option<u32>, input: Seq<u8>) -> Parsed<
        TrackChunkModel<FloatBits>,
    > {
        <TrackChunk<FloatBits>>::spec_parse(None, input)
    }

    open spec fn wire(m: TrackChunkModel<FloatBits>) -> Seq<u8> {
        <TrackChunk<FloatBits>>::wire(m)
    }

    open spec fn encode_error(m: TrackChunkModel<FloatBits>) -> Option<EncodeError> {
        <TrackChunk<FloatBits>>::encode_error(m)
    }

    fn parse_versioned<'a>(version: Option<u32>, input: &'a [u8]) -> (r: Parser<'a, Kpel>) {
        let (input, chunk) = <TrackChunk<FloatBits>>::parse(input)?;
        Ok((input, Kpel(chunk)))
    }

    fn encode(&self, output: &mut Vec<u8>) -> (r: Result<(), EncodeError>) {
        self.0.encode(output)
    }
}

impl Lossless for Kpel {
    open spec fn faithful(m: TrackChunkModel<FloatBits>) -> bool {
        <TrackChunk<FloatBits>>::faithful(m)
    }

    proof fn lemma_parse_wire(version: Option<u32>, input: Seq<u8>) {
        <TrackChunk<FloatBits>>::lemma_parse_wire(None, input);
    }
}

impl Reparsable for Kpel {
    open spec fn well_formed(m: TrackChunkModel<FloatBits>, version: Option<u32>) -> bool {
        <TrackChunk<FloatBits>>::well_formed(m, None) && m.tag == Self::spec_tag()
    }

    proof fn lemma_wire_parse(m: TrackChunkModel<FloatBits>, version: Option<u32>, tail: Seq<u8>) {
        <TrackChunk<FloatBits>>::lemma_wire_parse(m, None, tail);
    }
}

impl TaggedBlock for Kpel {
    proof fn lemma_wire_tag(m: TrackChunkModel<FloatBits>) {
        lemma_tag_bytes(m.tag, m.tag.0@);
        assert(<TrackChunk<FloatBits>>::wire(m).take(4) =~= m.tag.0@);
    }
}

/// Holds the track of the speed of the particles of an emitter.
#[derive(Debug, Clone, PartialEq)]
pub struct Kpes(pub TrackChunk<FloatBits>);

impl Chunk for Kpes {
    open spec fn spec_tag() -> Tag {
        Tag([0x4B, 0x50, 0x45, 0x53])
    }

    fn tag() -> (t: Tag) {
        let t = Tag([0x4B, 0x50, 0x45, 0x53]);
        assert(t.0 =~= Self::spec_tag().0);
        t
    }
}

impl Materialized for Kpes {
    type Version = u32;

    type Model = TrackChunkModel<FloatBits>;

    open spec fn model(&self) -> TrackChunkModel<FloatBits> {
        self.0.model()
    }

    open spec fn spec_parse(version: Option<u32>, input: Seq<u8>) -> Parsed<
        TrackChunkModel<FloatBits>,
    > {
        <TrackChunk<FloatBits>>::spec_parse(None, input)
    }

    open spec fn wire(m: TrackChunkModel<FloatBits>) -> Seq<u8> {
        <TrackChunk<FloatBits>>::wire(m)
    }

    open spec fn encode_error(m: TrackChunkModel<FloatBits>) -> Option<EncodeError> {
        <TrackChunk<FloatBits>>::encode_error(m)
    }

    fn parse_versioned<'a>(version: Option<u32>, input: &'a [u8]) -> (r: Parser<'a, Kpes>) {
        let (input, chunk) = <TrackChunk<FloatBits>>::parse(input)?;
        Ok((input, Kpes(chunk)))
    }

    fn encode(&self, output: &mut Vec<u8>) -> (r: Result<(), EncodeError>) {
        self.0.encode(output)
    }
}

impl Lossless for Kpes {
    open spec fn faithful(m: TrackChunkModel<FloatBits>) -> bool {
        <TrackChunk<FloatBits>>::faithful(m)
    }

    proof fn lemma_parse_wire(version: Option<u32>, input: Seq<u8>) {
        <TrackChunk<FloatBits>>::lemma_parse_wire(None, input);
    }
}

impl Reparsable for Kpes {
    open spec fn well_formed(m: TrackChunkModel<FloatBits>, version: Option<u32>) -> bool {
        <TrackChunk<FloatBits>>::well_formed(m, None) && m.tag == Self::spec_tag()
    }

    proof fn lemma_wire_parse(m: TrackChunkModel<FloatBits>, version: Option<u32>, tail: Seq<u8>) {
        <TrackChunk<FloatBits>>::lemma_wire_parse(m, None, tail);
    }
}

impl TaggedBlock for Kpes {
    proof fn lemma_wire_tag(m: TrackChunkModel<FloatBits>) {
        lemma_tag_bytes(m.tag, m.tag.0@);
        assert(<TrackChunk<FloatBits>>::wire(m).take(4) =~= m.tag.0@);
    }
}

/// Holds the track of the visibility of a particle emitter.
#[derive(Debug, Clone, PartialEq)]
pub struct Kpev(pub TrackChunk<FloatBits>);

impl Chunk for Kpev {
    open spec fn spec_tag() -> Tag {
        Tag([0x4B, 0x50, 0x45, 0x56])
    }

    fn tag() -> (t: Tag) {
        let t = Tag([0x4B, 0x50, 0x45, 0x56]);
        assert(t.0 =~= Self::spec_tag().0);
        t
    }
}

impl Materialized for Kpev {
    type Version = u32;

    type Model = TrackChunkModel<FloatBits>;

    open spec fn model(&self) -> TrackChunkModel<FloatBits> {
        self.0.model()
    }

    open spec fn spec_parse(version: Option<u32>, input: Seq<u8>) -> Parsed<
        TrackChunkModel<FloatBits>,
    > {
        <TrackChunk<FloatBits>>::spec_parse(None, input)
    }

    open spec fn wire(m: TrackChunkModel<FloatBits>) -> Seq<u8> {
        <TrackChunk<FloatBits>>::wire(m)
    }

    open spec fn encode_error(m: TrackChunkModel<FloatBits>) -> Option<EncodeError> {
        <TrackChunk<FloatBits>>::encode_error(m)
    }

    fn parse_versioned<'a>(version: Option<u32>, input: &'a [u8]) -> (r: Parser<'a, Kpev>) {
        let (input, chunk) = <TrackChunk<FloatBits>>::parse(input)?;
        Ok((input, Kpev(chunk)))
    }

    fn encode(&self, output: &mut Vec<u8>) -> (r: Result<(), EncodeError>) {
        self.0.encode(output)
    }
}

impl Lossless for Kpev {
    open spec fn faithful(m: TrackChunkModel<FloatBits>) -> bool {
        <TrackChunk<FloatBits>>::faithful(m)
    }

    proof fn lemma_parse_wire(version: Option<u32>, input: Seq<u8>) {
        <TrackChunk<FloatBits>>::lemma_parse_wire(None, input);
    }
}

impl Reparsable for Kpev {
    open spec fn well_formed(m: TrackChunkModel<FloatBits>, version: Option<u32>) -> bool {
        <TrackChunk<FloatBits>>::well_formed(m, None) && m.tag == Self::spec_tag()
    }

    proof fn lemma_wire_parse(m: TrackChunkModel<FloatBits>, version: Option<u32>, tail: Seq<u8>) {
        <TrackChunk<FloatBits>>::lemma_wire_parse(m, None, tail);
    }
}

impl TaggedBlock for Kpev {
    proof fn lemma_wire_tag(m: TrackChunkModel<FloatBits>) {
        lemma_tag_bytes(m.tag, m.tag.0@);
        assert(<TrackChunk<FloatBits>>::wire(m).take(4) =~= m.tag.0@);
    }
}

} // verus!
