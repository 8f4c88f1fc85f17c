use crate::encoder::error::Error as EncodeError;
use crate::parser::error::MdxParseError;
use crate::parser::primitives::{Parsed, Parser};
use crate::types::chunk::{
    encode_error_slots, encode_slots, lemma_contains_front, lemma_tagged_parse_wire,
    lemma_tagged_wire_parse, order_of, opt_seq, parse_tagged, record_tag, refill_all,
    slots_faithful, spec_parse_tagged, wire_slots, BlockStep, Chunk, LosslessBlocks,
    OrderedSlots, Replay, ReparsableBlocks, TaggedBlock, TaggedBlocks,
};
use crate::types::chunk::utils::{lemma_tag_bytes, Literal, Tag};
use crate::types::materialize::{
    encode_error_inclusive_sized, encode_error_opt, encode_inclusive_sized, encode_opt,
    lemma_append_assoc, lemma_inclusive_parse_wire, lemma_inclusive_wire_parse, opt_faithful,
    opt_model, parse_inclusive_sized, spec_parse_inclusive_sized, wire_inclusive_sized,
    wire_opt, FloatBits, Lossless, LosslessBody, Materialized, Reparsable, ReparsableBody,
    SizedBody,
};
use crate::types::tracks::{TrackChunk, TrackChunkModel};
use vstd::prelude::*;

verus! {

/// Length of the name of a camera.
pub const CAMERA_NAME_LEN: usize = 80;

/// A camera: where it stands, what it looks at, and what it sees.
#[derive(Debug, Clone, PartialEq)]
pub struct Camera {
    pub name: Literal<CAMERA_NAME_LEN>,
    pub position: [FloatBits; 3],
    pub field_of_view: FloatBits,
    pub far_clipping_plane: FloatBits,
    pub near_clipping_plane: FloatBits,
    pub target_position: [FloatBits; 3],
    pub kctr: Option<Kctr>,
    pub kttr: Option<Kttr>,
    pub kcrl: Option<Kcrl>,
    /// The order in which the optional blocks were met while parsing; `None`
    /// in a value that was not parsed, which is encoded in the order of the
    /// fields.
    pub ordered: Option<Vec<Tag>>,
}

/// What a value of [`Camera`] stands for in specifications.
pub struct CameraModel {
    pub name: Seq<char>,
    pub position: Seq<FloatBits>,
    pub field_of_view: FloatBits,
    pub far_clipping_plane: FloatBits,
    pub near_clipping_plane: FloatBits,
    pub target_position: Seq<FloatBits>,
    pub kctr: Option<TrackChunkModel<Seq<FloatBits>>>,
    pub kttr: Option<TrackChunkModel<Seq<FloatBits>>>,
    pub kcrl: Option<TrackChunkModel<FloatBits>>,
    pub ordered: Option<Seq<Tag>>,
}

impl OrderedSlots for CameraModel {
    open spec fn canonical() -> Seq<Tag> {
        seq![Kctr::spec_tag(), Kttr::spec_tag(), Kcrl::spec_tag()]
    }

    open spec fn recorded(self) -> bool {
        self.ordered is Some
    }

    open spec fn order(self) -> Seq<Tag> {
        order_of(self.ordered)
    }

    open spec fn slot_wire(self, tag: Tag) -> Seq<u8> {
        if tag == Kctr::spec_tag() {
            wire_opt::<Kctr>(self.kctr)
        } else if tag == Kttr::spec_tag() {
            wire_opt::<Kttr>(self.kttr)
        } else if tag == Kcrl::spec_tag() {
            wire_opt::<Kcrl>(self.kcrl)
        } else {
            Seq::empty()
        }
    }

    open spec fn slot_error(self, tag: Tag) -> Option<EncodeError> {
        if tag == Kctr::spec_tag() {
            encode_error_opt::<Kctr>(self.kctr)
        } else if tag == Kttr::spec_tag() {
            encode_error_opt::<Kttr>(self.kttr)
        } else if tag == Kcrl::spec_tag() {
            encode_error_opt::<Kcrl>(self.kcrl)
        } else {
            None
        }
    }

    open spec fn slot_faithful(self, tag: Tag) -> bool {
        if tag == Kctr::spec_tag() {
            opt_faithful::<Kctr>(self.kctr)
        } else if tag == Kttr::spec_tag() {
            opt_faithful::<Kttr>(self.kttr)
        } else if tag == Kcrl::spec_tag() {
            opt_faithful::<Kcrl>(self.kcrl)
        } else {
            true
        }
    }

    open spec fn frame(self) -> CameraModel {
        CameraModel {
            name: self.name,
            position: self.position,
            field_of_view: self.field_of_view,
            far_clipping_plane: self.far_clipping_plane,
            near_clipping_plane: self.near_clipping_plane,
            target_position: self.target_position,
            kctr: None,
            kttr: None,
            kcrl: None,
            ordered: None,
        }
    }
}

impl Replay for Camera {
    type Model = CameraModel;

    open spec fn slots_model(&self) -> CameraModel {
        CameraModel {
            name: self.name.model(),
            position: self.position.model(),
            field_of_view: self.field_of_view.model(),
            far_clipping_plane: self.far_clipping_plane.model(),
            near_clipping_plane: self.near_clipping_plane.model(),
            target_position: self.target_position.model(),
            kctr: opt_model(self.kctr),
            kttr: opt_model(self.kttr),
            kcrl: opt_model(self.kcrl),
            ordered: opt_seq(self.ordered),
        }
    }

    fn encode_slot(&self, tag: Tag, output: &mut Vec<u8>) -> (r: Result<(), EncodeError>) {
        if tag.same_as(&Kctr::tag()) {
            assert(self.slots_model().slot_error(tag) == encode_error_opt::<Kctr>(
                opt_model(self.kctr),
            ));
            assert(self.slots_model().slot_wire(tag) == wire_opt::<Kctr>(opt_model(self.kctr)));
            encode_opt(&self.kctr, output)
        } else if tag.same_as(&Kttr::tag()) {
            assert(self.slots_model().slot_error(tag) == encode_error_opt::<Kttr>(
                opt_model(self.kttr),
            ));
            assert(self.slots_model().slot_wire(tag) == wire_opt::<Kttr>(opt_model(self.kttr)));
            encode_opt(&self.kttr, output)
        } else if tag.same_as(&Kcrl::tag()) {
            assert(self.slots_model().slot_error(tag) == encode_error_opt::<Kcrl>(
                opt_model(self.kcrl),
            ));
            assert(self.slots_model().slot_wire(tag) == wire_opt::<Kcrl>(opt_model(self.kcrl)));
            encode_opt(&self.kcrl, output)
        } else {
            assert(self.slots_model().slot_error(tag) is None);
            assert(output@ =~= old(output)@ + self.slots_model().slot_wire(tag));
            Ok(())
        }
    }
}

impl TaggedBlocks for Camera {
    open spec fn spec_block(m: CameraModel, tag: Tag, input: Seq<u8>) -> BlockStep<CameraModel> {
        if tag == Kctr::spec_tag() {
            match Kctr::spec_parse(None, input) {
                Ok((rest, block)) => BlockStep::Parsed(
                    rest,
                    CameraModel {
                        name: m.name,
                        position: m.position,
                        field_of_view: m.field_of_view,
                        far_clipping_plane: m.far_clipping_plane,
                        near_clipping_plane: m.near_clipping_plane,
                        target_position: m.target_position,
                        kctr: Some(block),
                        kttr: m.kttr,
                        kcrl: m.kcrl,
                        ordered: Some(m.order().push(tag)),
                    },
                ),
                Err(e) => BlockStep::Failed(e),
            }
        } else if tag == Kttr::spec_tag() {
            match Kttr::spec_parse(None, input) {
                Ok((rest, block)) => BlockStep::Parsed(
                    rest,
                    CameraModel {
                        name: m.name,
                        position: m.position,
                        field_of_view: m.field_of_view,
                        far_clipping_plane: m.far_clipping_plane,
                        near_clipping_plane: m.near_clipping_plane,
                        target_position: m.target_position,
                        kctr: m.kctr,
                        kttr: Some(block),
                        kcrl: m.kcrl,
                        ordered: Some(m.order().push(tag)),
                    },
                ),
                Err(e) => BlockStep::Failed(e),
            }
        } else if tag == Kcrl::spec_tag() {
            match Kcrl::spec_parse(None, input) {
                Ok((rest, block)) => BlockStep::Parsed(
                    rest,
                    CameraModel {
                        name: m.name,
                        position: m.position,
                        field_of_view: m.field_of_view,
                        far_clipping_plane: m.far_clipping_plane,
                        near_clipping_plane: m.near_clipping_plane,
                        target_position: m.target_position,
                        kctr: m.kctr,
                        kttr: m.kttr,
                        kcrl: Some(block),
                        ordered: Some(m.order().push(tag)),
                    },
                ),
                Err(e) => BlockStep::Failed(e),
            }
        } else {
            BlockStep::Failed(MdxParseError::UnknownTag(tag))
        }
    }

    fn parse_block<'a>(&mut self, tag: Tag, input: &'a [u8]) -> (r: Parser<'a, bool>) {
        if tag.same_as(&Kctr::tag()) {
            let (rest, block) = Kctr::parse(input)?;
            self.kctr = Some(block);
            record_tag(&mut self.ordered, tag);
            Ok((rest, false))
        } else if tag.same_as(&Kttr::tag()) {
            let (rest, block) = Kttr::parse(input)?;
            self.kttr = Some(block);
            record_tag(&mut self.ordered, tag);
            Ok((rest, false))
        } else if tag.same_as(&Kcrl::tag()) {
            let (rest, block) = Kcrl::parse(input)?;
            self.kcrl = Some(block);
            record_tag(&mut self.ordered, tag);
            Ok((rest, false))
        } else {
            Err(MdxParseError::UnknownTag(tag))
        }
    }
}

impl LosslessBlocks for Camera {
    proof fn lemma_block_step(m: CameraModel, tag: Tag, input: Seq<u8>) {
        if tag == Kctr::spec_tag() {
            Kctr::lemma_parse_wire(None, input);
        } else if tag == Kttr::spec_tag() {
            Kttr::lemma_parse_wire(None, input);
        } else if tag == Kcrl::spec_tag() {
            Kcrl::lemma_parse_wire(None, input);
        }
    }
}

impl SizedBody for Camera {
    type Model = CameraModel;

    open spec fn body_model(&self) -> CameraModel {
        self.slots_model()
    }

    open spec fn spec_parse_body(version: Option<u32>, input: Seq<u8>) -> Parsed<CameraModel> {
        match <Literal<CAMERA_NAME_LEN>>::spec_parse(None, input) {
            Ok((rest, name)) => match <[FloatBits; 3]>::spec_parse(None, rest) {
                Ok((rest, position)) => match FloatBits::spec_parse(None, rest) {
                    Ok((rest, field_of_view)) => match FloatBits::spec_parse(None, rest) {
                        Ok((rest, far_clipping_plane)) => match FloatBits::spec_parse(None, rest) {
                            Ok((rest, near_clipping_plane)) => match <[FloatBits; 3]>::spec_parse(None, rest) {
                                Ok((rest, target_position)) => match spec_parse_tagged::<Camera>(
                                    CameraModel {
                                        name,
                                        position,
                                        field_of_view,
                                        far_clipping_plane,
                                        near_clipping_plane,
                                        target_position,
                                        kctr: None,
                                        kttr: None,
                                        kcrl: None,
                                        ordered: Some(Seq::empty()),
                                    },
                                    rest,
                                ) {
                                    Ok((rest, scanned)) => Ok((rest, scanned)),
                                    Err(e) => Err(e),
                                },
                                Err(e) => Err(e),
                            },
                            Err(e) => Err(e),
                        },
                        Err(e) => Err(e),
                    },
                    Err(e) => Err(e),
                },
                Err(e) => Err(e),
            },
            Err(e) => Err(e),
        }
    }

    open spec fn body_wire(m: CameraModel) -> Seq<u8> {
        <Literal<CAMERA_NAME_LEN>>::wire(m.name) + (<[FloatBits; 3]>::wire(m.position) + (FloatBits::wire(m.field_of_view) + (FloatBits::wire(m.far_clipping_plane) + (FloatBits::wire(m.near_clipping_plane) + (<[FloatBits; 3]>::wire(m.target_position) + (wire_slots(m)))))))
    }

    open spec fn body_encode_error(m: CameraModel) -> Option<EncodeError> {
        match <Literal<CAMERA_NAME_LEN>>::encode_error(m.name) {
            Some(e) => Some(e),
            None => match <[FloatBits; 3]>::encode_error(m.position) {
                Some(e) => Some(e),
                None => match FloatBits::encode_error(m.field_of_view) {
                    Some(e) => Some(e),
                    None => match FloatBits::encode_error(m.far_clipping_plane) {
                        Some(e) => Some(e),
                        None => match FloatBits::encode_error(m.near_clipping_plane) {
                            Some(e) => Some(e),
                            None => match <[FloatBits; 3]>::encode_error(m.target_position) {
                                Some(e) => Some(e),
                                None => encode_error_slots(m),
                            },
                        },
                    },
                },
            },
        }
    }

    fn parse_body<'a>(version: Option<u32>, input: &'a [u8]) -> (r: Parser<'a, Camera>) {
        let (input, name) = <Literal<CAMERA_NAME_LEN>>::parse(input)?;
        let (input, position) = <[FloatBits; 3]>::parse(input)?;
        let (input, field_of_view) = FloatBits::parse(input)?;
        let (input, far_clipping_plane) = FloatBits::parse(input)?;
        let (input, near_clipping_plane) = FloatBits::parse(input)?;
        let (input, target_position) = <[FloatBits; 3]>::parse(input)?;
        let mut value = Camera {
            name,
            position,
            field_of_view,
            far_clipping_plane,
            near_clipping_plane,
            target_position,
            kctr: None,
            kttr: None,
            kcrl: None,
            ordered: Some(Vec::new()),
        };
        let (input, _) = parse_tagged(&mut value, input)?;
        Ok((input, value))
    }

    fn encode_body(&self, output: &mut Vec<u8>) -> (r: Result<(), EncodeError>) {
        let ghost p0 = output@;
        self.name.encode(output)?;
        let ghost p1 = output@;
        self.position.encode(output)?;
        let ghost p2 = output@;
        self.field_of_view.encode(output)?;
        let ghost p3 = output@;
        self.far_clipping_plane.encode(output)?;
        let ghost p4 = output@;
        self.near_clipping_plane.encode(output)?;
        let ghost p5 = output@;
        self.target_position.encode(output)?;
        let ghost p6 = output@;
        let canonical = [Kctr::tag(), Kttr::tag(), Kcrl::tag()];
        assert(canonical@ =~= CameraModel::canonical());
        encode_slots(self, &self.ordered, canonical.as_slice(), output)?;
        proof {
            let m = self.body_model();
            let w1 = <Literal<CAMERA_NAME_LEN>>::wire(m.name);
            let w2 = <[FloatBits; 3]>::wire(m.position);
            let w3 = FloatBits::wire(m.field_of_view);
            let w4 = FloatBits::wire(m.far_clipping_plane);
            let w5 = FloatBits::wire(m.near_clipping_plane);
            let w6 = <[FloatBits; 3]>::wire(m.target_position);
            let w7 = wire_slots(m);
            let s6 = w6 + w7;
            let s5 = w5 + s6;
            let s4 = w4 + s5;
            let s3 = w3 + s4;
            let s2 = w2 + s3;
            lemma_append_assoc(p5, w6, w7);
            lemma_append_assoc(p4, w5, s6);
            lemma_append_assoc(p3, w4, s5);
            lemma_append_assoc(p2, w3, s4);
            lemma_append_assoc(p1, w2, s3);
            lemma_append_assoc(p0, w1, s2);
        }
        Ok(())
    }
}

impl LosslessBody for Camera {
    open spec fn body_faithful(m: CameraModel) -> bool {
        <Literal<CAMERA_NAME_LEN>>::faithful(m.name) && <[FloatBits; 3]>::faithful(m.position) && FloatBits::faithful(m.field_of_view) && FloatBits::faithful(m.far_clipping_plane) && FloatBits::faithful(m.near_clipping_plane) && <[FloatBits; 3]>::faithful(m.target_position) && m.order().no_duplicates() && slots_faithful(m, m.order())
    }

    #[verifier::rlimit(50)]
    proof fn lemma_body_parse_wire(version: Option<u32>, input: Seq<u8>) {
        <Literal<CAMERA_NAME_LEN>>::lemma_parse_wire(None, input);
        match <Literal<CAMERA_NAME_LEN>>::spec_parse(None, input) {
            Ok((rest1, name)) => {
                assert(<Literal<CAMERA_NAME_LEN>>::faithful(name) ==> <Literal<CAMERA_NAME_LEN>>::encode_error(name) is None
                    && <Literal<CAMERA_NAME_LEN>>::wire(name) + rest1 == input);
                <[FloatBits; 3]>::lemma_parse_wire(None, rest1);
                match <[FloatBits; 3]>::spec_parse(None, rest1) {
                    Ok((rest2, position)) => {
                        assert(<[FloatBits; 3]>::faithful(position) ==> <[FloatBits; 3]>::encode_error(position) is None
                            && <[FloatBits; 3]>::wire(position) + rest2 == rest1);
                        FloatBits::lemma_parse_wire(None, rest2);
                        match FloatBits::spec_parse(None, rest2) {
                            Ok((rest3, field_of_view)) => {
                                assert(FloatBits::faithful(field_of_view) ==> FloatBits::encode_error(field_of_view) is None
                                    && FloatBits::wire(field_of_view) + rest3 == rest2);
                                FloatBits::lemma_parse_wire(None, rest3);
                                match FloatBits::spec_parse(None, rest3) {
                                    Ok((rest4, far_clipping_plane)) => {
                                        assert(FloatBits::faithful(far_clipping_plane) ==> FloatBits::encode_error(far_clipping_plane) is None
                                            && FloatBits::wire(far_clipping_plane) + rest4 == rest3);
                                        FloatBits::lemma_parse_wire(None, rest4);
                                        match FloatBits::spec_parse(None, rest4) {
                                            Ok((rest5, near_clipping_plane)) => {
                                                assert(FloatBits::faithful(near_clipping_plane) ==> FloatBits::encode_error(near_clipping_plane) is None
                                                    && FloatBits::wire(near_clipping_plane) + rest5 == rest4);
                                                <[FloatBits; 3]>::lemma_parse_wire(None, rest5);
                                                match <[FloatBits; 3]>::spec_parse(None, rest5) {
                                                    Ok((rest6, target_position)) => {
                                                        assert(<[FloatBits; 3]>::faithful(target_position) ==> <[FloatBits; 3]>::encode_error(target_position) is None
                                                            && <[FloatBits; 3]>::wire(target_position) + rest6 == rest5);
                                                        lemma_tagged_parse_wire::<Camera>(
                                                            CameraModel {
                                                                name,
                                                                position,
                                                                field_of_view,
                                                                far_clipping_plane,
                                                                near_clipping_plane,
                                                                target_position,
                                                                kctr: None,
                                                                kttr: None,
                                                                kcrl: None,
                                                                ordered: Some(Seq::empty()),
                                                            },
                                                            rest6,
                                                        );
                                                        match spec_parse_tagged::<Camera>(
                                                            CameraModel {
                                                                name,
                                                                position,
                                                                field_of_view,
                                                                far_clipping_plane,
                                                                near_clipping_plane,
                                                                target_position,
                                                                kctr: None,
                                                                kttr: None,
                                                                kcrl: None,
                                                                ordered: Some(Seq::empty()),
                                                            },
                                                            rest6,
                                                        ) {
                                                            Ok((rest7, scanned)) => {
                                                                let m = scanned;
                                                                if Self::body_faithful(m) {
                                                                    assert(scanned.order().skip(0) =~= scanned.order());
                                                                    let w1 = <Literal<CAMERA_NAME_LEN>>::wire(m.name);
                                                                    let w2 = <[FloatBits; 3]>::wire(m.position);
                                                                    let w3 = FloatBits::wire(m.field_of_view);
                                                                    let w4 = FloatBits::wire(m.far_clipping_plane);
                                                                    let w5 = FloatBits::wire(m.near_clipping_plane);
                                                                    let w6 = <[FloatBits; 3]>::wire(m.target_position);
                                                                    let w7 = wire_slots(m);
                                                                    let s6 = w6 + w7;
                                                                    let s5 = w5 + s6;
                                                                    let s4 = w4 + s5;
                                                                    let s3 = w3 + s4;
                                                                    let s2 = w2 + s3;
                                                                    lemma_append_assoc(w6, w7, rest7);
                                                                    lemma_append_assoc(w5, s6, rest7);
                                                                    lemma_append_assoc(w4, s5, rest7);
                                                                    lemma_append_assoc(w3, s4, rest7);
                                                                    lemma_append_assoc(w2, s3, rest7);
                                                                    lemma_append_assoc(w1, s2, rest7);
                                                                }
                                                            },
                                                            Err(_) => {},
                                                        }
                                                    },
                                                    Err(_) => {},
                                                }
                                            },
                                            Err(_) => {},
                                        }
                                    },
                                    Err(_) => {},
                                }
                            },
                            Err(_) => {},
                        }
                    },
                    Err(_) => {},
                }
            },
            Err(_) => {},
        }
    }
}

impl Materialized for Camera {
    type Version = u32;

    type Model = CameraModel;

    open spec fn model(&self) -> CameraModel {
        self.body_model()
    }

    open spec fn spec_parse(version: Option<u32>, input: Seq<u8>) -> Parsed<CameraModel> {
        spec_parse_inclusive_sized::<Camera>(version, input)
    }

    open spec fn wire(m: CameraModel) -> Seq<u8> {
        wire_inclusive_sized::<Camera>(m)
    }

    open spec fn encode_error(m: CameraModel) -> Option<EncodeError> {
        encode_error_inclusive_sized::<Camera>(m)
    }

    fn parse_versioned<'a>(version: Option<u32>, input: &'a [u8]) -> (r: Parser<'a, Camera>) {
        parse_inclusive_sized::<Camera>(version, input)
    }

    /// The record is encoded aside and then written with its size: if it
    /// fails, the output is left as it is.
    fn encode(&self, output: &mut Vec<u8>) -> (r: Result<(), EncodeError>)
        ensures
            r is Err ==> final(output)@ == old(output)@,
    {
        encode_inclusive_sized(output, self)
    }
}

impl Lossless for Camera {
    open spec fn faithful(m: CameraModel) -> bool {
        Camera::body_faithful(m)
    }

    proof fn lemma_parse_wire(version: Option<u32>, input: Seq<u8>) {
        lemma_inclusive_parse_wire::<Camera>(version, input);
    }
}

/// The tags of the blocks of [`Camera`] differ from each other.
proof fn lemma_camera_tags_differ()
    ensures
        Kctr::spec_tag() != Kttr::spec_tag(),
        Kctr::spec_tag() != Kcrl::spec_tag(),
        Kttr::spec_tag() != Kcrl::spec_tag(),
{
    assert(Kctr::spec_tag().0[1] != Kttr::spec_tag().0[1]);
    assert(Kctr::spec_tag().0[2] != Kcrl::spec_tag().0[2]);
    assert(Kttr::spec_tag().0[1] != Kcrl::spec_tag().0[1]);
}

impl ReparsableBlocks for Camera {
    open spec fn slot_well_formed(m: CameraModel, tag: Tag) -> bool {
        if tag == Kctr::spec_tag() {
            m.kctr is Some && Kctr::well_formed(m.kctr->0, None)
        } else if tag == Kttr::spec_tag() {
            m.kttr is Some && Kttr::well_formed(m.kttr->0, None)
        } else if tag == Kcrl::spec_tag() {
            m.kcrl is Some && Kcrl::well_formed(m.kcrl->0, None)
        } else {
            false
        }
    }

    open spec fn refill(acc: CameraModel, m: CameraModel, tag: Tag) -> CameraModel {
        if tag == Kctr::spec_tag() {
            CameraModel {
                name: acc.name,
                position: acc.position,
                field_of_view: acc.field_of_view,
                far_clipping_plane: acc.far_clipping_plane,
                near_clipping_plane: acc.near_clipping_plane,
                target_position: acc.target_position,
                kctr: m.kctr,
                kttr: acc.kttr,
                kcrl: acc.kcrl,
                ordered: Some(acc.order().push(tag)),
            }
        } else if tag == Kttr::spec_tag() {
            CameraModel {
                name: acc.name,
                position: acc.position,
                field_of_view: acc.field_of_view,
                far_clipping_plane: acc.far_clipping_plane,
                near_clipping_plane: acc.near_clipping_plane,
                target_position: acc.target_position,
                kctr: acc.kctr,
                kttr: m.kttr,
                kcrl: acc.kcrl,
                ordered: Some(acc.order().push(tag)),
            }
        } else if tag == Kcrl::spec_tag() {
            CameraModel {
                name: acc.name,
                position: acc.position,
                field_of_view: acc.field_of_view,
                far_clipping_plane: acc.far_clipping_plane,
                near_clipping_plane: acc.near_clipping_plane,
                target_position: acc.target_position,
                kctr: acc.kctr,
                kttr: acc.kttr,
                kcrl: m.kcrl,
                ordered: Some(acc.order().push(tag)),
            }
        } else {
            acc
        }
    }

    proof fn lemma_block_refill(acc: CameraModel, m: CameraModel, tag: Tag, tail: Seq<u8>) {
        if tag == Kctr::spec_tag() {
            Kctr::lemma_wire_tag(m.kctr->0);
            Kctr::lemma_wire_parse(m.kctr->0, None, tail);
        } else if tag == Kttr::spec_tag() {
            Kttr::lemma_wire_tag(m.kttr->0);
            Kttr::lemma_wire_parse(m.kttr->0, None, tail);
        } else if tag == Kcrl::spec_tag() {
            Kcrl::lemma_wire_tag(m.kcrl->0);
            Kcrl::lemma_wire_parse(m.kcrl->0, None, tail);
        }
    }
}

/// What the blocks of `m` under the tags make of `acc`: the other fields are
/// the ones of `acc`, the tags are recorded behind the ones of `acc`, and a
/// block is the one of `m` if its tag is among the tags.
proof fn lemma_camera_refill(acc: CameraModel, m: CameraModel, tags: Seq<Tag>)
    requires
        acc.ordered is Some,
        forall|i: int| 0 <= i < tags.len() ==> Camera::slot_well_formed(m, #[trigger] tags[i]),
    ensures
        ({
            let r = refill_all::<Camera>(acc, m, tags);
            &&& r.ordered == Some(acc.order() + tags)
            &&& r.name == acc.name
            &&& r.position == acc.position
            &&& r.field_of_view == acc.field_of_view
            &&& r.far_clipping_plane == acc.far_clipping_plane
            &&& r.near_clipping_plane == acc.near_clipping_plane
            &&& r.target_position == acc.target_position
            &&& r.kctr == if tags.contains(Kctr::spec_tag()) {
                m.kctr
            } else {
                acc.kctr
            }
            &&& r.kttr == if tags.contains(Kttr::spec_tag()) {
                m.kttr
            } else {
                acc.kttr
            }
            &&& r.kcrl == if tags.contains(Kcrl::spec_tag()) {
                m.kcrl
            } else {
                acc.kcrl
            }
        }),
    decreases tags.len(),
{
    if tags.len() == 0 {
        assert(acc.order() + tags =~= acc.order());
    } else {
        let tag = tags[0];
        let next = Camera::refill(acc, m, tag);
        assert(Camera::slot_well_formed(m, tags[0]));
        assert forall|i: int| 0 <= i < tags.skip(1).len() implies Camera::slot_well_formed(
            m,
            #[trigger] tags.skip(1)[i],
        ) by {
            assert(tags.skip(1)[i] == tags[i + 1]);
        }
        lemma_camera_refill(next, m, tags.skip(1));
        assert(next.order() + tags.skip(1) =~= acc.order() + tags);
        lemma_camera_tags_differ();
        lemma_contains_front(tags, Kctr::spec_tag());
        lemma_contains_front(tags, Kttr::spec_tag());
        lemma_contains_front(tags, Kcrl::spec_tag());
    }
}

impl ReparsableBody for Camera {
    open spec fn body_well_formed(m: CameraModel, version: Option<u32>) -> bool {
        <Literal<CAMERA_NAME_LEN>>::well_formed(m.name, None)
        && <[FloatBits; 3]>::well_formed(m.position, None)
        && FloatBits::well_formed(m.field_of_view, None)
        && FloatBits::well_formed(m.far_clipping_plane, None)
        && FloatBits::well_formed(m.near_clipping_plane, None)
        && <[FloatBits; 3]>::well_formed(m.target_position, None)
        && m.ordered is Some
        && (forall|i: int| 0 <= i < m.order().len() ==> Camera::slot_well_formed(m, #[trigger] m.order()[i]))
        && (m.kctr is Some ==> m.order().contains(Kctr::spec_tag()))
        && (m.kttr is Some ==> m.order().contains(Kttr::spec_tag()))
        && (m.kcrl is Some ==> m.order().contains(Kcrl::spec_tag()))
    }

    #[verifier::rlimit(50)]
    proof fn lemma_body_wire_parse(m: CameraModel, version: Option<u32>) {
        let w1 = <Literal<CAMERA_NAME_LEN>>::wire(m.name);
        let w2 = <[FloatBits; 3]>::wire(m.position);
        let w3 = FloatBits::wire(m.field_of_view);
        let w4 = FloatBits::wire(m.far_clipping_plane);
        let w5 = FloatBits::wire(m.near_clipping_plane);
        let w6 = <[FloatBits; 3]>::wire(m.target_position);
        let w7 = wire_slots(m);
        let u8 = Seq::<u8>::empty();
        let u7 = w7 + u8;
        let u6 = w6 + u7;
        let u5 = w5 + u6;
        let u4 = w4 + u5;
        let u3 = w3 + u4;
        let u2 = w2 + u3;
        let u1 = w1 + u2;
        let s6 = w6 + w7;
        let s5 = w5 + s6;
        let s4 = w4 + s5;
        let s3 = w3 + s4;
        let s2 = w2 + s3;
        lemma_append_assoc(w6, w7, Seq::<u8>::empty());
        lemma_append_assoc(w5, s6, Seq::<u8>::empty());
        lemma_append_assoc(w4, s5, Seq::<u8>::empty());
        lemma_append_assoc(w3, s4, Seq::<u8>::empty());
        lemma_append_assoc(w2, s3, Seq::<u8>::empty());
        lemma_append_assoc(w1, s2, Seq::<u8>::empty());
        <Literal<CAMERA_NAME_LEN>>::lemma_wire_parse(m.name, None, u2);
        <[FloatBits; 3]>::lemma_wire_parse(m.position, None, u3);
        FloatBits::lemma_wire_parse(m.field_of_view, None, u4);
        FloatBits::lemma_wire_parse(m.far_clipping_plane, None, u5);
        FloatBits::lemma_wire_parse(m.near_clipping_plane, None, u6);
        <[FloatBits; 3]>::lemma_wire_parse(m.target_position, None, u7);
        let start = CameraModel {
            name: m.name,
            position: m.position,
            field_of_view: m.field_of_view,
            far_clipping_plane: m.far_clipping_plane,
            near_clipping_plane: m.near_clipping_plane,
            target_position: m.target_position,
            kctr: None,
            kttr: None,
            kcrl: None,
            ordered: Some(Seq::empty()),
        };
        lemma_tagged_wire_parse::<Camera>(start, m, m.order(), u8);
        lemma_camera_refill(start, m, m.order());
        assert(Seq::<Tag>::empty() + m.order() =~= m.order());
        assert(u1 =~= Self::body_wire(m));
    }
}

impl Reparsable for Camera {
    open spec fn well_formed(m: CameraModel, version: Option<u32>) -> bool {
        Camera::body_well_formed(m, version) && Camera::body_wire(m).len() + 4 <= u32::MAX
    }

    proof fn lemma_wire_parse(m: CameraModel, version: Option<u32>, tail: Seq<u8>) {
        lemma_inclusive_wire_parse::<Camera>(m, version, tail);
    }
}

/// Holds the track of the translation of a camera.
#[derive(Debug, Clone, PartialEq)]
pub struct Kctr(pub TrackChunk<[FloatBits; 3]>);

impl Chunk for Kctr {
    open spec fn spec_tag() -> Tag {
        Tag([0x4B, 0x43, 0x54, 0x52])
    }

    fn tag() -> (t: Tag) {
        let t = Tag([0x4B, 0x43, 0x54, 0x52]);
        assert(t.0 =~= Self::spec_tag().0);
        t
    }
}

impl Materialized for Kctr {
    type Version = u32;

    type Model = TrackChunkModel<Seq<FloatBits>>;

    open spec fn model(&self) -> TrackChunkModel<Seq<FloatBits>> {
        self.0.model()
    }

    open spec fn spec_parse(version: Option<u32>, input: Seq<u8>) -> Parsed<
        TrackChunkModel<Seq<FloatBits>>,
    > {
        <TrackChunk<[FloatBits; 3]>>::spec_parse(None, input)
    }

    open spec fn wire(m: TrackChunkModel<Seq<FloatBits>>) -> Seq<u8> {
        <TrackChunk<[FloatBits; 3]>>::wire(m)
    }

    open spec fn encode_error(m: TrackChunkModel<Seq<FloatBits>>) -> Option<EncodeError> {
        <TrackChunk<[FloatBits; 3]>>::encode_error(m)
    }

    fn parse_versioned<'a>(version: Option<u32>, input: &'a [u8]) -> (r: Parser<'a, Kctr>) {
        let (input, chunk) = <TrackChunk<[FloatBits; 3]>>::parse(input)?;
        Ok((input, Kctr(chunk)))
    }

    fn encode(&self, output: &mut Vec<u8>) -> (r: Result<(), EncodeError>) {
        self.0.encode(output)
    }
}

impl Lossless for Kctr {
    open spec fn faithful(m: TrackChunkModel<Seq<FloatBits>>) -> bool {
        <TrackChunk<[FloatBits; 3]>>::faithful(m)
    }

    proof fn lemma_parse_wire(version: Option<u32>, input: Seq<u8>) {
        <TrackChunk<[FloatBits; 3]>>::lemma_parse_wire(None, input);
    }
}

impl Reparsable for Kctr {
    open spec fn well_formed(m: TrackChunkModel<Seq<FloatBits>>, version: Option<u32>) -> bool {
        <TrackChunk<[FloatBits; 3]>>::well_formed(m, None) && m.tag == Self::spec_tag()
    }

    proof fn lemma_wire_parse(m: TrackChunkModel<Seq<FloatBits>>, version: Option<u32>, tail: Seq<u8>) {
        <TrackChunk<[FloatBits; 3]>>::lemma_wire_parse(m, None, tail);
    }
}

impl TaggedBlock for Kctr {
    proof fn lemma_wire_tag(m: TrackChunkModel<Seq<FloatBits>>) {
        lemma_tag_bytes(m.tag, m.tag.0@);
        assert(<TrackChunk<[FloatBits; 3]>>::wire(m).take(4) =~= m.tag.0@);
    }
}

/// Holds the track of the translation of the target of a camera.
#[derive(Debug, Clone, PartialEq)]
pub struct Kttr(pub TrackChunk<[FloatBits; 3]>);

impl Chunk for Kttr {
    open spec fn spec_tag() -> Tag {
        Tag([0x4B, 0x54, 0x54, 0x52])
    }

    fn tag() -> (t: Tag) {
        let t = Tag([0x4B, 0x54, 0x54, 0x52]);
        assert(t.0 =~= Self::spec_tag().0);
        t
    }
}

impl Materialized for Kttr {
    type Version = u32;

    type Model = TrackChunkModel<Seq<FloatBits>>;

    open spec fn model(&self) -> TrackChunkModel<Seq<FloatBits>> {
        self.0.model()
    }

    open spec fn spec_parse(version: Option<u32>, input: Seq<u8>) -> Parsed<
        TrackChunkModel<Seq<FloatBits>>,
    > {
        <TrackChunk<[FloatBits; 3]>>::spec_parse(None, input)
    }

    open spec fn wire(m: TrackChunkModel<Seq<FloatBits>>) -> Seq<u8> {
        <TrackChunk<[FloatBits; 3]>>::wire(m)
    }

    open spec fn encode_error(m: TrackChunkModel<Seq<FloatBits>>) -> Option<EncodeError> {
        <TrackChunk<[FloatBits; 3]>>::encode_error(m)
    }

    fn parse_versioned<'a>(version: Option<u32>, input: &'a [u8]) -> (r: Parser<'a, Kttr>) {
        let (input, chunk) = <TrackChunk<[FloatBits; 3]>>::parse(input)?;
        Ok((input, Kttr(chunk)))
    }

    fn encode(&self, output: &mut Vec<u8>) -> (r: Result<(), EncodeError>) {
        self.0.encode(output)
    }
}

impl Lossless for Kttr {
    open spec fn faithful(m: TrackChunkModel<Seq<FloatBits>>) -> bool {
        <TrackChunk<[FloatBits; 3]>>::faithful(m)
    }

    proof fn lemma_parse_wire(version: Option<u32>, input: Seq<u8>) {
        <TrackChunk<[FloatBits; 3]>>::lemma_parse_wire(None, input);
    }
}

impl Reparsable for Kttr {
    open spec fn well_formed(m: TrackChunkModel<Seq<FloatBits>>, version: Option<u32>) -> bool {
        <TrackChunk<[FloatBits; 3]>>::well_formed(m, None) && m.tag == Self::spec_tag()
    }

    proof fn lemma_wire_parse(m: TrackChunkModel<Seq<FloatBits>>, version: Option<u32>, tail: Seq<u8>) {
        <TrackChunk<[FloatBits; 3]>>::lemma_wire_parse(m, None, tail);
    }
}

impl TaggedBlock for Kttr {
    proof fn lemma_wire_tag(m: TrackChunkModel<Seq<FloatBits>>) {
        lemma_tag_bytes(m.tag, m.tag.0@);
        assert(<TrackChunk<[FloatBits; 3]>>::wire(m).take(4) =~= m.tag.0@);
    }
}

/// Holds the track of the rotation of a camera.
#[derive(Debug, Clone, PartialEq)]
pub struct Kcrl(pub TrackChunk<FloatBits>);

impl Chunk for Kcrl {
    open spec fn spec_tag() -> Tag {
        Tag([0x4B, 0x43, 0x52, 0x4C])
    }

    fn tag() -> (t: Tag) {
        let t = Tag([0x4B, 0x43, 0x52, 0x4C]);
        assert(t.0 =~= Self::spec_tag().0);
        t
    }
}

impl Materialized for Kcrl {
    type Version = u32;

    type Model = TrackChunkModel<FloatBits>;

    open spec fn model(&self) -> TrackChunkModel<FloatBits> {
        self.0.model()
    }

    open spec fn spec_parse(version: Option<u32>, input: Seq<u8>) -> Parsed<
        TrackChunkModel<FloatBits>,
    > {
        <TrackChunk<FloatBits>>::spec_parse(None, input)
    }

    open spec fn wire(m: TrackChunkModel<FloatBits>) -> Seq<u8> {
        <TrackChunk<FloatBits>>::wire(m)
    }

    open spec fn encode_error(m: TrackChunkModel<FloatBits>) -> Option<EncodeError> {
        <TrackChunk<FloatBits>>::encode_error(m)
    }

    fn parse_versioned<'a>(version: Option<u32>, input: &'a [u8]) -> (r: Parser<'a, Kcrl>) {
        let (input, chunk) = <TrackChunk<FloatBits>>::parse(input)?;
        Ok((input, Kcrl(chunk)))
    }

    fn encode(&self, output: &mut Vec<u8>) -> (r: Result<(), EncodeError>) {
        self.0.encode(output)
    }
}

impl Lossless for Kcrl {
    open spec fn faithful(m: TrackChunkModel<FloatBits>) -> bool {
        <TrackChunk<FloatBits>>::faithful(m)
    }

    proof fn lemma_parse_wire(version: Option<u32>, input: Seq<u8>) {
        <TrackChunk<FloatBits>>::lemma_parse_wire(None, input);
    }
}

impl Reparsable for Kcrl {
    open spec fn well_formed(m: TrackChunkModel<FloatBits>, version: Option<u32>) -> bool {
        <TrackChunk<FloatBits>>::well_formed(m, None) && m.tag == Self::spec_tag()
    }

    proof fn lemma_wire_parse(m: TrackChunkModel<FloatBits>, version: Option<u32>, tail: Seq<u8>) {
        <TrackChunk<FloatBits>>::lemma_wire_parse(m, None, tail);
    }
}

impl TaggedBlock for Kcrl {
    proof fn lemma_wire_tag(m: TrackChunkModel<FloatBits>) {
        lemma_tag_bytes(m.tag, m.tag.0@);
        assert(<TrackChunk<FloatBits>>::wire(m).take(4) =~= m.tag.0@);
    }
}

} // verus!
