use crate::encoder::error::Error as EncodeError;
use crate::encoder::primitives::{push_le_u32, spec_u32_to_le_bytes};
use crate::parser::error::MdxParseError;
use crate::parser::primitives::{le_u32, spec_le_u32, Parsed, Parser};
use crate::types::chunk::{
    encode_error_slots, encode_slots, lemma_contains_front, lemma_peek_tag, lemma_replay_same,
    lemma_tagged_parse_wire, lemma_tagged_wire_parse, order_of, opt_seq, parse_tagged,
    record_tag, refill_all, same_slot, slots_faithful, spec_parse_tagged, wire_slots, BlockStep,
    Chunk, LosslessBlocks, OrderedSlots, Replay, ReparsableBlocks, TaggedBlock, TaggedBlocks,
};
use crate::types::chunk::utils::{
    lemma_expect_tag, lemma_expect_tag_wire, lemma_tag_bytes, spec_expect_tag, Literal, Tag,
};
use crate::types::extent::{Extent, ExtentModel};
use crate::types::materialize::{
    all_faithful, all_well_formed, encode_error_inclusive_sized, encode_error_len_vec,
    encode_error_opt, encode_inclusive_sized, encode_len_vec, encode_opt, lemma_append_assoc,
    lemma_inclusive_parse_wire, lemma_inclusive_wire_parse, lemma_len_vec_parse_wire,
    lemma_len_vec_wire_parse, lemma_versioned_greater_parse_wire,
    lemma_versioned_greater_wire_parse, models, opt_faithful, opt_model, opt_well_formed,
    parse_inclusive_sized, parse_len_vec, parse_versioned_greater, spec_parse_inclusive_sized,
    spec_parse_len_vec, spec_parse_versioned_greater, wire_inclusive_sized, wire_len_vec,
    wire_opt, FloatBits, Lossless, LosslessBody, Materialized, Reparsable, ReparsableBody,
    SizedBody,
};
use vstd::prelude::*;

verus! {

/// The kind of primitive that the faces of a group are made of, stored as a `u32` code.
#[derive(Debug, Clone, Copy, PartialEq, PartialOrd, Eq, Ord, Hash, Structural)]
pub enum FaceTypeGroup {
    Points,
    Lines,
    LineLoop,
    LineStrip,
    Triangles,
    TriangleStrip,
    TriangleFan,
    Quads,
    QuadStrip,
    Polygons,
}

/// A code that is not the code of any [`FaceTypeGroup`].
#[derive(Debug, Clone, Copy, PartialEq, PartialOrd, Eq, Ord, Hash, Structural)]
pub struct UnknownFaceTypeGroup(pub u32);

impl FaceTypeGroup {
    /// The value that a code stands for.
    pub open spec fn spec_from_code(v: u32) -> Result<FaceTypeGroup, UnknownFaceTypeGroup> {
        if v == 0 {
            Ok(FaceTypeGroup::Points)
        }         else if v == 1 {
            Ok(FaceTypeGroup::Lines)
        }         else if v == 2 {
            Ok(FaceTypeGroup::LineLoop)
        }         else if v == 3 {
            Ok(FaceTypeGroup::LineStrip)
        }         else if v == 4 {
            Ok(FaceTypeGroup::Triangles)
        }         else if v == 5 {
            Ok(FaceTypeGroup::TriangleStrip)
        }         else if v == 6 {
            Ok(FaceTypeGroup::TriangleFan)
        }         else if v == 7 {
            Ok(FaceTypeGroup::Quads)
        }         else if v == 8 {
            Ok(FaceTypeGroup::QuadStrip)
        }         else if v == 9 {
            Ok(FaceTypeGroup::Polygons)
        } else {
            Err(UnknownFaceTypeGroup(v))
        }
    }

    /// The code that stands for the value.
    pub open spec fn spec_code(self) -> u32 {
        match self {
            FaceTypeGroup::Points => 0,
            FaceTypeGroup::Lines => 1,
            FaceTypeGroup::LineLoop => 2,
            FaceTypeGroup::LineStrip => 3,
            FaceTypeGroup::Triangles => 4,
            FaceTypeGroup::TriangleStrip => 5,
            FaceTypeGroup::TriangleFan => 6,
            FaceTypeGroup::Quads => 7,
            FaceTypeGroup::QuadStrip => 8,
            FaceTypeGroup::Polygons => 9,
        }
    }
}

impl FaceTypeGroup {
    /// The value that a code stands for, or the code itself if it stands for
    /// none.
    pub fn try_from(value: u32) -> (r: Result<FaceTypeGroup, UnknownFaceTypeGroup>)
        ensures
            r == FaceTypeGroup::spec_from_code(value),
    {
        match value {
            0 => Ok(FaceTypeGroup::Points),
            1 => Ok(FaceTypeGroup::Lines),
            2 => Ok(FaceTypeGroup::LineLoop),
            3 => Ok(FaceTypeGroup::LineStrip),
            4 => Ok(FaceTypeGroup::Triangles),
            5 => Ok(FaceTypeGroup::TriangleStrip),
            6 => Ok(FaceTypeGroup::TriangleFan),
            7 => Ok(FaceTypeGroup::Quads),
            8 => Ok(FaceTypeGroup::QuadStrip),
            9 => Ok(FaceTypeGroup::Polygons),
            _ => Err(UnknownFaceTypeGroup(value)),
        }
    }

    /// The code that stands for the value.
    pub fn code(self) -> (r: u32)
        ensures
            r == self.spec_code(),
    {
        match self {
            FaceTypeGroup::Points => 0,
            FaceTypeGroup::Lines => 1,
            FaceTypeGroup::LineLoop => 2,
            FaceTypeGroup::LineStrip => 3,
            FaceTypeGroup::Triangles => 4,
            FaceTypeGroup::TriangleStrip => 5,
            FaceTypeGroup::TriangleFan => 6,
            FaceTypeGroup::Quads => 7,
            FaceTypeGroup::QuadStrip => 8,
            FaceTypeGroup::Polygons => 9,
        }
    }
}

impl Materialized for FaceTypeGroup {
    type Version = u32;

    type Model = FaceTypeGroup;

    open spec fn model(&self) -> FaceTypeGroup {
        *self
    }

    open spec fn spec_parse(version: Option<u32>, input: Seq<u8>) -> Parsed<FaceTypeGroup> {
        match spec_le_u32(input) {
            Ok((rest, flag)) => match FaceTypeGroup::spec_from_code(flag) {
                Ok(value) => Ok((rest, value)),
                Err(e) => Err(MdxParseError::UnknownFaceTypeGroup(e)),
            },
            Err(e) => Err(e),
        }
    }

    open spec fn wire(m: FaceTypeGroup) -> Seq<u8> {
        spec_u32_to_le_bytes(m.spec_code())
    }

    open spec fn encode_error(m: FaceTypeGroup) -> Option<EncodeError> {
        None
    }

    fn parse_versioned<'a>(version: Option<u32>, input: &'a [u8]) -> (r: Parser<'a, FaceTypeGroup>) {
        let (input, flag) = le_u32(input)?;
        match FaceTypeGroup::try_from(flag) {
            Ok(value) => Ok((input, value)),
            Err(e) => Err(MdxParseError::UnknownFaceTypeGroup(e)),
        }
    }

    fn encode(&self, output: &mut Vec<u8>) -> (r: Result<(), EncodeError>) {
        let flag: u32 = self.code();
        push_le_u32(flag, output);
        Ok(())
    }
}

impl Lossless for FaceTypeGroup {
    open spec fn faithful(m: FaceTypeGroup) -> bool {
        true
    }

    proof fn lemma_parse_wire(version: Option<u32>, input: Seq<u8>) {
        u32::lemma_parse_wire(None, input);
    }
}

impl Reparsable for FaceTypeGroup {
    open spec fn well_formed(m: FaceTypeGroup, version: Option<u32>) -> bool {
        true
    }

    proof fn lemma_wire_parse(m: FaceTypeGroup, version: Option<u32>, tail: Seq<u8>) {
        u32::lemma_wire_parse(m.spec_code(), None, tail);
    }
}

/// A mesh: vertices, faces, the groups of bones that move them, and the
/// texture coordinates. The fields of `lod_extra` are in the bytes only if the
/// version is greater than 800; the blocks of tangents and skin weights are
/// optional and end at the tag of the texture coordinates.
#[derive(Debug, Clone, PartialEq)]
pub struct Geoset {
    pub vertex_positions: Vec<[FloatBits; 3]>,
    pub vertex_normals: Vec<[FloatBits; 3]>,
    pub face_type_groups: Vec<FaceTypeGroup>,
    pub face_groups: Vec<u32>,
    pub faces: Vec<u16>,
    pub vertex_groups: Vec<u8>,
    pub matrix_groups: Vec<u32>,
    pub matrix_indicies: Vec<u32>,
    pub material_id: u32,
    pub selection_group: u32,
    pub selection_flags: u32,
    pub lod_extra: Option<LodExtra>,
    pub extent: Extent,
    pub sequence_extents: Vec<Extent>,
    pub tangents: Option<Tangents>,
    pub skin: Option<Skin>,
    /// The order in which the optional blocks were met while parsing; `None`
    /// in a value that was not parsed, which is encoded in the order of the
    /// fields.
    pub ordered: Option<Vec<Tag>>,
    pub texture_coordinate_sets: Vec<TextureCoordinateSet>,
}

/// What a value of [`Geoset`] stands for in specifications.
pub struct GeosetModel {
    pub vertex_positions: Seq<Seq<FloatBits>>,
    pub vertex_normals: Seq<Seq<FloatBits>>,
    pub face_type_groups: Seq<FaceTypeGroup>,
    pub face_groups: Seq<u32>,
    pub faces: Seq<u16>,
    pub vertex_groups: Seq<u8>,
    pub matrix_groups: Seq<u32>,
    pub matrix_indicies: Seq<u32>,
    pub material_id: u32,
    pub selection_group: u32,
    pub selection_flags: u32,
    pub lod_extra: Option<LodExtraModel>,
    pub extent: ExtentModel,
    pub sequence_extents: Seq<ExtentModel>,
    pub tangents: Option<TangentsModel>,
    pub skin: Option<SkinModel>,
    pub ordered: Option<Seq<Tag>>,
    pub texture_coordinate_sets: Seq<TextureCoordinateSetModel>,
}

impl Geoset {
    /// The tag `VRTX`, in specifications.
    pub open spec fn spec_vrtx_tag() -> Tag {
        Tag([0x56, 0x52, 0x54, 0x58])
    }

    /// The tag `VRTX` that stands before a part of the record.
    pub fn vrtx_tag() -> (t: Tag)
        ensures
            t == Self::spec_vrtx_tag(),
    {
        let t = Tag([0x56, 0x52, 0x54, 0x58]);
        assert(t.0 =~= Self::spec_vrtx_tag().0);
        t
    }

    /// The tag `NRMS`, in specifications.
    pub open spec fn spec_nrms_tag() -> Tag {
        Tag([0x4E, 0x52, 0x4D, 0x53])
    }

    /// The tag `NRMS` that stands before a part of the record.
    pub fn nrms_tag() -> (t: Tag)
        ensures
            t == Self::spec_nrms_tag(),
    {
        let t = Tag([0x4E, 0x52, 0x4D, 0x53]);
        assert(t.0 =~= Self::spec_nrms_tag().0);
        t
    }

    /// The tag `PTYP`, in specifications.
    pub open spec fn spec_ptyp_tag() -> Tag {
        Tag([0x50, 0x54, 0x59, 0x50])
    }

    /// The tag `PTYP` that stands before a part of the record.
    pub fn ptyp_tag() -> (t: Tag)
        ensures
            t == Self::spec_ptyp_tag(),
    {
        let t = Tag([0x50, 0x54, 0x59, 0x50]);
        assert(t.0 =~= Self::spec_ptyp_tag().0);
        t
    }

    /// The tag `PCNT`, in specifications.
    pub open spec fn spec_pcnt_tag() -> Tag {
        Tag([0x50, 0x43, 0x4E, 0x54])
    }

    /// The tag `PCNT` that stands before a part of the record.
    pub fn pcnt_tag() -> (t: Tag)
        ensures
            t == Self::spec_pcnt_tag(),
    {
        let t = Tag([0x50, 0x43, 0x4E, 0x54]);
        assert(t.0 =~= Self::spec_pcnt_tag().0);
        t
    }

    /// The tag `PVTX`, in specifications.
    pub open spec fn spec_pvtx_tag() -> Tag {
        Tag([0x50, 0x56, 0x54, 0x58])
    }

    /// The tag `PVTX` that stands before a part of the record.
    pub fn pvtx_tag() -> (t: Tag)
        ensures
            t == Self::spec_pvtx_tag(),
    {
        let t = Tag([0x50, 0x56, 0x54, 0x58]);
        assert(t.0 =~= Self::spec_pvtx_tag().0);
        t
    }

    /// The tag `GNDX`, in specifications.
    pub open spec fn spec_gndx_tag() -> Tag {
        Tag([0x47, 0x4E, 0x44, 0x58])
    }

    /// The tag `GNDX` that stands before a part of the record.
    pub fn gndx_tag() -> (t: Tag)
        ensures
            t == Self::spec_gndx_tag(),
    {
        let t = Tag([0x47, 0x4E, 0x44, 0x58]);
        assert(t.0 =~= Self::spec_gndx_tag().0);
        t
    }

    /// The tag `MTGC`, in specifications.
    pub open spec fn spec_mtgc_tag() -> Tag {
        Tag([0x4D, 0x54, 0x47, 0x43])
    }

    /// The tag `MTGC` that stands before a part of the record.
    pub fn mtgc_tag() -> (t: Tag)
        ensures
            t == Self::spec_mtgc_tag(),
    {
        let t = Tag([0x4D, 0x54, 0x47, 0x43]);
        assert(t.0 =~= Self::spec_mtgc_tag().0);
        t
    }

    /// The tag `MATS`, in specifications.
    pub open spec fn spec_mats_tag() -> Tag {
        Tag([0x4D, 0x41, 0x54, 0x53])
    }

    /// The tag `MATS` that stands before a part of the record.
    pub fn mats_tag() -> (t: Tag)
        ensures
            t == Self::spec_mats_tag(),
    {
        let t = Tag([0x4D, 0x41, 0x54, 0x53]);
        assert(t.0 =~= Self::spec_mats_tag().0);
        t
    }

    /// The tag `UVAS`, in specifications.
    pub open spec fn spec_uvas_tag() -> Tag {
        Tag([0x55, 0x56, 0x41, 0x53])
    }

    /// The tag `UVAS` that stands before a part of the record.
    pub fn uvas_tag() -> (t: Tag)
        ensures
            t == Self::spec_uvas_tag(),
    {
        let t = Tag([0x55, 0x56, 0x41, 0x53]);
        assert(t.0 =~= Self::spec_uvas_tag().0);
        t
    }
}

impl OrderedSlots for GeosetModel {
    open spec fn canonical() -> Seq<Tag> {
        seq![Tangents::spec_tag(), Skin::spec_tag()]
    }

    open spec fn recorded(self) -> bool {
        self.ordered is Some
    }

    open spec fn order(self) -> Seq<Tag> {
        order_of(self.ordered)
    }

    open spec fn slot_wire(self, tag: Tag) -> Seq<u8> {
        if tag == Tangents::spec_tag() {
            wire_opt::<Tangents>(self.tangents)
        } else if tag == Skin::spec_tag() {
            wire_opt::<Skin>(self.skin)
        } else {
            Seq::empty()
        }
    }

    open spec fn slot_error(self, tag: Tag) -> Option<EncodeError> {
        if tag == Tangents::spec_tag() {
            encode_error_opt::<Tangents>(self.tangents)
        } else if tag == Skin::spec_tag() {
            encode_error_opt::<Skin>(self.skin)
        } else {
            None
        }
    }

    open spec fn slot_faithful(self, tag: Tag) -> bool {
        if tag == Tangents::spec_tag() {
            opt_faithful::<Tangents>(self.tangents)
        } else if tag == Skin::spec_tag() {
            opt_faithful::<Skin>(self.skin)
        } else {
            true
        }
    }

    open spec fn frame(self) -> GeosetModel {
        GeosetModel {
            vertex_positions: self.vertex_positions,
            vertex_normals: self.vertex_normals,
            face_type_groups: self.face_type_groups,
            face_groups: self.face_groups,
            faces: self.faces,
            vertex_groups: self.vertex_groups,
            matrix_groups: self.matrix_groups,
            matrix_indicies: self.matrix_indicies,
            material_id: self.material_id,
            selection_group: self.selection_group,
            selection_flags: self.selection_flags,
            lod_extra: self.lod_extra,
            extent: self.extent,
            sequence_extents: self.sequence_extents,
            tangents: None,
            skin: None,
            ordered: None,
            texture_coordinate_sets: self.texture_coordinate_sets,
        }
    }
}

impl Replay for Geoset {
    type Model = GeosetModel;

    open spec fn slots_model(&self) -> GeosetModel {
        GeosetModel {
            vertex_positions: models(self.vertex_positions@),
            vertex_normals: models(self.vertex_normals@),
            face_type_groups: models(self.face_type_groups@),
            face_groups: models(self.face_groups@),
            faces: models(self.faces@),
            vertex_groups: models(self.vertex_groups@),
            matrix_groups: models(self.matrix_groups@),
            matrix_indicies: models(self.matrix_indicies@),
            material_id: self.material_id.model(),
            selection_group: self.selection_group.model(),
            selection_flags: self.selection_flags.model(),
            lod_extra: opt_model(self.lod_extra),
            extent: self.extent.model(),
            sequence_extents: models(self.sequence_extents@),
            tangents: opt_model(self.tangents),
            skin: opt_model(self.skin),
            ordered: opt_seq(self.ordered),
            texture_coordinate_sets: models(self.texture_coordinate_sets@),
        }
    }

    fn encode_slot(&self, tag: Tag, output: &mut Vec<u8>) -> (r: Result<(), EncodeError>) {
        if tag.same_as(&Tangents::tag()) {
            assert(self.slots_model().slot_error(tag) == encode_error_opt::<Tangents>(
                opt_model(self.tangents),
            ));
            assert(self.slots_model().slot_wire(tag) == wire_opt::<Tangents>(opt_model(self.tangents)));
            encode_opt(&self.tangents, output)
        } else if tag.same_as(&Skin::tag()) {
            assert(self.slots_model().slot_error(tag) == encode_error_opt::<Skin>(
                opt_model(self.skin),
            ));
            assert(self.slots_model().slot_wire(tag) == wire_opt::<Skin>(opt_model(self.skin)));
            encode_opt(&self.skin, output)
        } else {
            assert(self.slots_model().slot_error(tag) is None);
            assert(output@ =~= old(output)@ + self.slots_model().slot_wire(tag));
            Ok(())
        }
    }
}

impl TaggedBlocks for Geoset {
    open spec fn spec_block(m: GeosetModel, tag: Tag, input: Seq<u8>) -> BlockStep<GeosetModel> {
        if tag == Tangents::spec_tag() {
            match Tangents::spec_parse(None, input) {
                Ok((rest, block)) => BlockStep::Parsed(
                    rest,
                    GeosetModel {
                        vertex_positions: m.vertex_positions,
                        vertex_normals: m.vertex_normals,
                        face_type_groups: m.face_type_groups,
                        face_groups: m.face_groups,
                        faces: m.faces,
                        vertex_groups: m.vertex_groups,
                        matrix_groups: m.matrix_groups,
                        matrix_indicies: m.matrix_indicies,
                        material_id: m.material_id,
                        selection_group: m.selection_group,
                        selection_flags: m.selection_flags,
                        lod_extra: m.lod_extra,
                        extent: m.extent,
                        sequence_extents: m.sequence_extents,
                        tangents: Some(block),
                        skin: m.skin,
                        ordered: Some(m.order().push(tag)),
                        texture_coordinate_sets: m.texture_coordinate_sets,
                    },
                ),
                Err(e) => BlockStep::Failed(e),
            }
        } else if tag == Skin::spec_tag() {
            match Skin::spec_parse(None, input) {
                Ok((rest, block)) => BlockStep::Parsed(
                    rest,
                    GeosetModel {
                        vertex_positions: m.vertex_positions,
                        vertex_normals: m.vertex_normals,
                        face_type_groups: m.face_type_groups,
                        face_groups: m.face_groups,
                        faces: m.faces,
                        vertex_groups: m.vertex_groups,
                        matrix_groups: m.matrix_groups,
                        matrix_indicies: m.matrix_indicies,
                        material_id: m.material_id,
                        selection_group: m.selection_group,
                        selection_flags: m.selection_flags,
                        lod_extra: m.lod_extra,
                        extent: m.extent,
                        sequence_extents: m.sequence_extents,
                        tangents: m.tangents,
                        skin: Some(block),
                        ordered: Some(m.order().push(tag)),
                        texture_coordinate_sets: m.texture_coordinate_sets,
                    },
                ),
                Err(e) => BlockStep::Failed(e),
            }
        } else {
            BlockStep::Stop
        }
    }

    fn parse_block<'a>(&mut self, tag: Tag, input: &'a [u8]) -> (r: Parser<'a, bool>) {
        if tag.same_as(&Tangents::tag()) {
            let (rest, block) = Tangents::parse(input)?;
            self.tangents = Some(block);
            record_tag(&mut self.ordered, tag);
            Ok((rest, false))
        } else if tag.same_as(&Skin::tag()) {
            let (rest, block) = Skin::parse(input)?;
            self.skin = Some(block);
            record_tag(&mut self.ordered, tag);
            Ok((rest, false))
        } else {
            Ok((input, true))
        }
    }
}

impl LosslessBlocks for Geoset {
    proof fn lemma_block_step(m: GeosetModel, tag: Tag, input: Seq<u8>) {
        if tag == Tangents::spec_tag() {
            Tangents::lemma_parse_wire(None, input);
        } else if tag == Skin::spec_tag() {
            Skin::lemma_parse_wire(None, input);
        }
    }
}

impl SizedBody for Geoset {
    type Model = GeosetModel;

    open spec fn body_model(&self) -> GeosetModel {
        self.slots_model()
    }

    open spec fn spec_parse_body(version: Option<u32>, input: Seq<u8>) -> Parsed<GeosetModel> {
        match spec_expect_tag(Self::spec_vrtx_tag(), input) {
            Ok((rest, _)) => match spec_parse_len_vec::<[FloatBits; 3]>(None, rest) {
                Ok((rest, vertex_positions)) => match spec_expect_tag(Self::spec_nrms_tag(), rest) {
                    Ok((rest, _)) => match spec_parse_len_vec::<[FloatBits; 3]>(None, rest) {
                        Ok((rest, vertex_normals)) => match spec_expect_tag(Self::spec_ptyp_tag(), rest) {
                            Ok((rest, _)) => match spec_parse_len_vec::<FaceTypeGroup>(None, rest) {
                                Ok((rest, face_type_groups)) => match spec_expect_tag(Self::spec_pcnt_tag(), rest) {
                                    Ok((rest, _)) => match spec_parse_len_vec::<u32>(None, rest) {
                                        Ok((rest, face_groups)) => match spec_expect_tag(Self::spec_pvtx_tag(), rest) {
                                            Ok((rest, _)) => match spec_parse_len_vec::<u16>(None, rest) {
                                                Ok((rest, faces)) => match spec_expect_tag(Self::spec_gndx_tag(), rest) {
                                                    Ok((rest, _)) => match spec_parse_len_vec::<u8>(None, rest) {
                                                        Ok((rest, vertex_groups)) => match spec_expect_tag(Self::spec_mtgc_tag(), rest) {
                                                            Ok((rest, _)) => match spec_parse_len_vec::<u32>(None, rest) {
                                                                Ok((rest, matrix_groups)) => match spec_expect_tag(Self::spec_mats_tag(), rest) {
                                                                    Ok((rest, _)) => match spec_parse_len_vec::<u32>(None, rest) {
                                                                        Ok((rest, matrix_indicies)) => match u32::spec_parse(None, rest) {
                                                                            Ok((rest, material_id)) => match u32::spec_parse(None, rest) {
                                                                                Ok((rest, selection_group)) => match u32::spec_parse(None, rest) {
                                                                                    Ok((rest, selection_flags)) => match spec_parse_versioned_greater::<LodExtra>(version, 800, rest) {
                                                                                        Ok((rest, lod_extra)) => match Extent::spec_parse(None, rest) {
                                                                                            Ok((rest, extent)) => match spec_parse_len_vec::<Extent>(None, rest) {
                                                                                                Ok((rest, sequence_extents)) => match spec_parse_tagged::<Geoset>(
                                                                                                    GeosetModel {
                                                                                                        vertex_positions,
                                                                                                        vertex_normals,
                                                                                                        face_type_groups,
                                                                                                        face_groups,
                                                                                                        faces,
                                                                                                        vertex_groups,
                                                                                                        matrix_groups,
                                                                                                        matrix_indicies,
                                                                                                        material_id,
                                                                                                        selection_group,
                                                                                                        selection_flags,
                                                                                                        lod_extra,
                                                                                                        extent,
                                                                                                        sequence_extents,
                                                                                                        tangents: None,
                                                                                                        skin: None,
                                                                                                        ordered: Some(Seq::empty()),
                                                                                                        texture_coordinate_sets: Seq::empty(),
                                                                                                    },
                                                                                                    rest,
                                                                                                ) {
                                                                                                    Ok((rest, scanned)) => match spec_expect_tag(Self::spec_uvas_tag(), rest) {
                                                                                                        Ok((rest, _)) => match spec_parse_len_vec::<TextureCoordinateSet>(None, rest) {
                                                                                                            Ok((rest, texture_coordinate_sets)) => Ok((rest, GeosetModel {
                                                                                                                vertex_positions: scanned.vertex_positions,
                                                                                                                vertex_normals: scanned.vertex_normals,
                                                                                                                face_type_groups: scanned.face_type_groups,
                                                                                                                face_groups: scanned.face_groups,
                                                                                                                faces: scanned.faces,
                                                                                                                vertex_groups: scanned.vertex_groups,
                                                                                                                matrix_groups: scanned.matrix_groups,
                                                                                                                matrix_indicies: scanned.matrix_indicies,
                                                                                                                material_id: scanned.material_id,
                                                                                                                selection_group: scanned.selection_group,
                                                                                                                selection_flags: scanned.selection_flags,
                                                                                                                lod_extra: scanned.lod_extra,
                                                                                                                extent: scanned.extent,
                                                                                                                sequence_extents: scanned.sequence_extents,
                                                                                                                tangents: scanned.tangents,
                                                                                                                skin: scanned.skin,
                                                                                                                ordered: scanned.ordered,
                                                                                                                texture_coordinate_sets,
                                                                                                            })),
                                                                                                            Err(e) => Err(e),
                                                                                                        },
                                                                                                        Err(e) => Err(e),
                                                                                                    },
                                                                                                    Err(e) => Err(e),
                                                                                                },
                                                                                                Err(e) => Err(e),
                                                                                            },
                                                                                            Err(e) => Err(e),
                                                                                        },
                                                                                        Err(e) => Err(e),
                                                                                    },
                                                                                    Err(e) => Err(e),
                                                                                },
                                                                                Err(e) => Err(e),
                                                                            },
                                                                            Err(e) => Err(e),
                                                                        },
                                                                        Err(e) => Err(e),
                                                                    },
                                                                    Err(e) => Err(e),
                                                                },
                                                                Err(e) => Err(e),
                                                            },
                                                            Err(e) => Err(e),
                                                        },
                                                        Err(e) => Err(e),
                                                    },
                                                    Err(e) => Err(e),
                                                },
                                                Err(e) => Err(e),
                                            },
                                            Err(e) => Err(e),
                                        },
                                        Err(e) => Err(e),
                                    },
                                    Err(e) => Err(e),
                                },
                                Err(e) => Err(e),
                            },
                            Err(e) => Err(e),
                        },
                        Err(e) => Err(e),
                    },
                    Err(e) => Err(e),
                },
                Err(e) => Err(e),
            },
            Err(e) => Err(e),
        }
    }

    open spec fn body_wire(m: GeosetModel) -> Seq<u8> {
        Self::spec_vrtx_tag().0@ + (wire_len_vec::<[FloatBits; 3]>(m.vertex_positions) + (Self::spec_nrms_tag().0@ + (wire_len_vec::<[FloatBits; 3]>(m.vertex_normals) + (Self::spec_ptyp_tag().0@ + (wire_len_vec::<FaceTypeGroup>(m.face_type_groups) + (Self::spec_pcnt_tag().0@ + (wire_len_vec::<u32>(m.face_groups) + (Self::spec_pvtx_tag().0@ + (wire_len_vec::<u16>(m.faces) + (Self::spec_gndx_tag().0@ + (wire_len_vec::<u8>(m.vertex_groups) + (Self::spec_mtgc_tag().0@ + (wire_len_vec::<u32>(m.matrix_groups) + (Self::spec_mats_tag().0@ + (wire_len_vec::<u32>(m.matrix_indicies) + (u32::wire(m.material_id) + (u32::wire(m.selection_group) + (u32::wire(m.selection_flags) + (wire_opt::<LodExtra>(m.lod_extra) + (Extent::wire(m.extent) + (wire_len_vec::<Extent>(m.sequence_extents) + (wire_slots(m) + (Self::spec_uvas_tag().0@ + (wire_len_vec::<TextureCoordinateSet>(m.texture_coordinate_sets)))))))))))))))))))))))))
    }

    open spec fn body_encode_error(m: GeosetModel) -> Option<EncodeError> {
        match encode_error_len_vec::<[FloatBits; 3]>(m.vertex_positions) {
            Some(e) => Some(e),
            None => match encode_error_len_vec::<[FloatBits; 3]>(m.vertex_normals) {
                Some(e) => Some(e),
                None => match encode_error_len_vec::<FaceTypeGroup>(m.face_type_groups) {
                    Some(e) => Some(e),
                    None => match encode_error_len_vec::<u32>(m.face_groups) {
                        Some(e) => Some(e),
                        None => match encode_error_len_vec::<u16>(m.faces) {
                            Some(e) => Some(e),
                            None => match encode_error_len_vec::<u8>(m.vertex_groups) {
                                Some(e) => Some(e),
                                None => match encode_error_len_vec::<u32>(m.matrix_groups) {
                                    Some(e) => Some(e),
                                    None => match encode_error_len_vec::<u32>(m.matrix_indicies) {
                                        Some(e) => Some(e),
                                        None => match u32::encode_error(m.material_id) {
                                            Some(e) => Some(e),
                                            None => match u32::encode_error(m.selection_group) {
                                                Some(e) => Some(e),
                                                None => match u32::encode_error(m.selection_flags) {
                                                    Some(e) => Some(e),
                                                    None => match encode_error_opt::<LodExtra>(m.lod_extra) {
                                                        Some(e) => Some(e),
                                                        None => match Extent::encode_error(m.extent) {
                                                            Some(e) => Some(e),
                                                            None => match encode_error_len_vec::<Extent>(m.sequence_extents) {
                                                                Some(e) => Some(e),
                                                                None => match encode_error_slots(m) {
                                                                    Some(e) => Some(e),
                                                                    None => encode_error_len_vec::<TextureCoordinateSet>(m.texture_coordinate_sets),
                                                                },
                                                            },
                                                        },
                                                    },
                                                },
                                            },
                                        },
                                    },
                                },
                            },
                        },
                    },
                },
            },
        }
    }

    fn parse_body<'a>(version: Option<u32>, input: &'a [u8]) -> (r: Parser<'a, Geoset>) {
        let (input, _) = Self::vrtx_tag().expect(input)?;
        let (input, vertex_positions) = parse_len_vec::<[FloatBits; 3]>(None, input)?;
        let (input, _) = Self::nrms_tag().expect(input)?;
        let (input, vertex_normals) = parse_len_vec::<[FloatBits; 3]>(None, input)?;
        let (input, _) = Self::ptyp_tag().expect(input)?;
        let (input, face_type_groups) = parse_len_vec::<FaceTypeGroup>(None, input)?;
        let (input, _) = Self::pcnt_tag().expect(input)?;
        let (input, face_groups) = parse_len_vec::<u32>(None, input)?;
        let (input, _) = Self::pvtx_tag().expect(input)?;
        let (input, faces) = parse_len_vec::<u16>(None, input)?;
        let (input, _) = Self::gndx_tag().expect(input)?;
        let (input, vertex_groups) = parse_len_vec::<u8>(None, input)?;
        let (input, _) = Self::mtgc_tag().expect(input)?;
        let (input, matrix_groups) = parse_len_vec::<u32>(None, input)?;
        let (input, _) = Self::mats_tag().expect(input)?;
        let (input, matrix_indicies) = parse_len_vec::<u32>(None, input)?;
        let (input, material_id) = u32::parse(input)?;
        let (input, selection_group) = u32::parse(input)?;
        let (input, selection_flags) = u32::parse(input)?;
        let (input, lod_extra) = parse_versioned_greater::<LodExtra>(version, 800, input)?;
        let (input, extent) = Extent::parse(input)?;
        let (input, sequence_extents) = parse_len_vec::<Extent>(None, input)?;
        let mut value = Geoset {
            vertex_positions,
            vertex_normals,
            face_type_groups,
            face_groups,
            faces,
            vertex_groups,
            matrix_groups,
            matrix_indicies,
            material_id,
            selection_group,
            selection_flags,
            lod_extra,
            extent,
            sequence_extents,
            tangents: None,
            skin: None,
            ordered: Some(Vec::new()),
            texture_coordinate_sets: Vec::new(),
        };
        assert(models(value.texture_coordinate_sets@) =~= Seq::<TextureCoordinateSetModel>::empty());
        let (input, _) = parse_tagged(&mut value, input)?;
        let (input, _) = Self::uvas_tag().expect(input)?;
        let (input, texture_coordinate_sets) = parse_len_vec::<TextureCoordinateSet>(None, input)?;
        value.texture_coordinate_sets = texture_coordinate_sets;
        Ok((input, value))
    }

    fn encode_body(&self, output: &mut Vec<u8>) -> (r: Result<(), EncodeError>) {
        let ghost p0 = output@;
        Self::vrtx_tag().encode(output)?;
        let ghost p1 = output@;
        encode_len_vec(self.vertex_positions.as_slice(), output)?;
        let ghost p2 = output@;
        Self::nrms_tag().encode(output)?;
        let ghost p3 = output@;
        encode_len_vec(self.vertex_normals.as_slice(), output)?;
        let ghost p4 = output@;
        Self::ptyp_tag().encode(output)?;
        let ghost p5 = output@;
        encode_len_vec(self.face_type_groups.as_slice(), output)?;
        let ghost p6 = output@;
        Self::pcnt_tag().encode(output)?;
        let ghost p7 = output@;
        encode_len_vec(self.face_groups.as_slice(), output)?;
        let ghost p8 = output@;
        Self::pvtx_tag().encode(output)?;
        let ghost p9 = output@;
        encode_len_vec(self.faces.as_slice(), output)?;
        let ghost p10 = output@;
        Self::gndx_tag().encode(output)?;
        let ghost p11 = output@;
        encode_len_vec(self.vertex_groups.as_slice(), output)?;
        let ghost p12 = output@;
        Self::mtgc_tag().encode(output)?;
        let ghost p13 = output@;
        encode_len_vec(self.matrix_groups.as_slice(), output)?;
        let ghost p14 = output@;
        Self::mats_tag().encode(output)?;
        let ghost p15 = output@;
        encode_len_vec(self.matrix_indicies.as_slice(), output)?;
        let ghost p16 = output@;
        self.material_id.encode(output)?;
        let ghost p17 = output@;
        self.selection_group.encode(output)?;
        let ghost p18 = output@;
        self.selection_flags.encode(output)?;
        let ghost p19 = output@;
        encode_opt(&self.lod_extra, output)?;
        let ghost p20 = output@;
        self.extent.encode(output)?;
        let ghost p21 = output@;
        encode_len_vec(self.sequence_extents.as_slice(), output)?;
        let ghost p22 = output@;
        let canonical = [Tangents::tag(), Skin::tag()];
        assert(canonical@ =~= GeosetModel::canonical());
        encode_slots(self, &self.ordered, canonical.as_slice(), output)?;
        let ghost p23 = output@;
        Self::uvas_tag().encode(output)?;
        let ghost p24 = output@;
        encode_len_vec(self.texture_coordinate_sets.as_slice(), output)?;
        proof {
            let m = self.body_model();
            let w1 = Self::spec_vrtx_tag().0@;
            let w2 = wire_len_vec::<[FloatBits; 3]>(m.vertex_positions);
            let w3 = Self::spec_nrms_tag().0@;
            let w4 = wire_len_vec::<[FloatBits; 3]>(m.vertex_normals);
            let w5 = Self::spec_ptyp_tag().0@;
            let w6 = wire_len_vec::<FaceTypeGroup>(m.face_type_groups);
            let w7 = Self::spec_pcnt_tag().0@;
            let w8 = wire_len_vec::<u32>(m.face_groups);
            let w9 = Self::spec_pvtx_tag().0@;
            let w10 = wire_len_vec::<u16>(m.faces);
            let w11 = Self::spec_gndx_tag().0@;
            let w12 = wire_len_vec::<u8>(m.vertex_groups);
            let w13 = Self::spec_mtgc_tag().0@;
            let w14 = wire_len_vec::<u32>(m.matrix_groups);
            let w15 = Self::spec_mats_tag().0@;
            let w16 = wire_len_vec::<u32>(m.matrix_indicies);
            let w17 = u32::wire(m.material_id);
            let w18 = u32::wire(m.selection_group);
            let w19 = u32::wire(m.selection_flags);
            let w20 = wire_opt::<LodExtra>(m.lod_extra);
            let w21 = Extent::wire(m.extent);
            let w22 = wire_len_vec::<Extent>(m.sequence_extents);
            let w23 = wire_slots(m);
            let w24 = Self::spec_uvas_tag().0@;
            let w25 = wire_len_vec::<TextureCoordinateSet>(m.texture_coordinate_sets);
            let s24 = w24 + w25;
            let s23 = w23 + s24;
            let s22 = w22 + s23;
            let s21 = w21 + s22;
            let s20 = w20 + s21;
            let s19 = w19 + s20;
            let s18 = w18 + s19;
            let s17 = w17 + s18;
            let s16 = w16 + s17;
            let s15 = w15 + s16;
            let s14 = w14 + s15;
            let s13 = w13 + s14;
            let s12 = w12 + s13;
            let s11 = w11 + s12;
            let s10 = w10 + s11;
            let s9 = w9 + s10;
            let s8 = w8 + s9;
            let s7 = w7 + s8;
            let s6 = w6 + s7;
            let s5 = w5 + s6;
            let s4 = w4 + s5;
            let s3 = w3 + s4;
            let s2 = w2 + s3;
            lemma_append_assoc(p23, w24, w25);
            lemma_append_assoc(p22, w23, s24);
            lemma_append_assoc(p21, w22, s23);
            lemma_append_assoc(p20, w21, s22);
            lemma_append_assoc(p19, w20, s21);
            lemma_append_assoc(p18, w19, s20);
            lemma_append_assoc(p17, w18, s19);
            lemma_append_assoc(p16, w17, s18);
            lemma_append_assoc(p15, w16, s17);
            lemma_append_assoc(p14, w15, s16);
            lemma_append_assoc(p13, w14, s15);
            lemma_append_assoc(p12, w13, s14);
            lemma_append_assoc(p11, w12, s13);
            lemma_append_assoc(p10, w11, s12);
            lemma_append_assoc(p9, w10, s11);
            lemma_append_assoc(p8, w9, s10);
            lemma_append_assoc(p7, w8, s9);
            lemma_append_assoc(p6, w7, s8);
            lemma_append_assoc(p5, w6, s7);
            lemma_append_assoc(p4, w5, s6);
            lemma_append_assoc(p3, w4, s5);
            lemma_append_assoc(p2, w3, s4);
            lemma_append_assoc(p1, w2, s3);
            lemma_append_assoc(p0, w1, s2);
        }
        Ok(())
    }
}

impl LosslessBody for Geoset {
    open spec fn body_faithful(m: GeosetModel) -> bool {
        all_faithful::<[FloatBits; 3]>(m.vertex_positions) && all_faithful::<[FloatBits; 3]>(m.vertex_normals) && all_faithful::<FaceTypeGroup>(m.face_type_groups) && all_faithful::<u32>(m.face_groups) && all_faithful::<u16>(m.faces) && all_faithful::<u8>(m.vertex_groups) && all_faithful::<u32>(m.matrix_groups) && all_faithful::<u32>(m.matrix_indicies) && u32::faithful(m.material_id) && u32::faithful(m.selection_group) && u32::faithful(m.selection_flags) && opt_faithful::<LodExtra>(m.lod_extra) && Extent::faithful(m.extent) && all_faithful::<Extent>(m.sequence_extents) && m.order().no_duplicates() && slots_faithful(m, m.order()) && all_faithful::<TextureCoordinateSet>(m.texture_coordinate_sets)
    }

    #[verifier::rlimit(50)]
    proof fn lemma_body_parse_wire(version: Option<u32>, input: Seq<u8>) {
        lemma_expect_tag(Self::spec_vrtx_tag(), input);
        match spec_expect_tag(Self::spec_vrtx_tag(), input) {
            Ok((rest1, _)) => {
                assert(Self::spec_vrtx_tag().0@ + rest1 == input);
                lemma_len_vec_parse_wire::<[FloatBits; 3]>(None, rest1);
                match spec_parse_len_vec::<[FloatBits; 3]>(None, rest1) {
                    Ok((rest2, vertex_positions)) => {
                        assert(all_faithful::<[FloatBits; 3]>(vertex_positions) ==> encode_error_len_vec::<[FloatBits; 3]>(vertex_positions) is None
                            && wire_len_vec::<[FloatBits; 3]>(vertex_positions) + rest2 == rest1);
                        lemma_expect_tag(Self::spec_nrms_tag(), rest2);
                        match spec_expect_tag(Self::spec_nrms_tag(), rest2) {
                            Ok((rest3, _)) => {
                                assert(Self::spec_nrms_tag().0@ + rest3 == rest2);
                                lemma_len_vec_parse_wire::<[FloatBits; 3]>(None, rest3);
                                match spec_parse_len_vec::<[FloatBits; 3]>(None, rest3) {
                                    Ok((rest4, vertex_normals)) => {
                                        assert(all_faithful::<[FloatBits; 3]>(vertex_normals) ==> encode_error_len_vec::<[FloatBits; 3]>(vertex_normals) is None
                                            && wire_len_vec::<[FloatBits; 3]>(vertex_normals) + rest4 == rest3);
                                        lemma_expect_tag(Self::spec_ptyp_tag(), rest4);
                                        match spec_expect_tag(Self::spec_ptyp_tag(), rest4) {
                                            Ok((rest5, _)) => {
                                                assert(Self::spec_ptyp_tag().0@ + rest5 == rest4);
                                                lemma_len_vec_parse_wire::<FaceTypeGroup>(None, rest5);
                                                match spec_parse_len_vec::<FaceTypeGroup>(None, rest5) {
                                                    Ok((rest6, face_type_groups)) => {
                                                        assert(all_faithful::<FaceTypeGroup>(face_type_groups) ==> encode_error_len_vec::<FaceTypeGroup>(face_type_groups) is None
                                                            && wire_len_vec::<FaceTypeGroup>(face_type_groups) + rest6 == rest5);
                                                        lemma_expect_tag(Self::spec_pcnt_tag(), rest6);
                                                        match spec_expect_tag(Self::spec_pcnt_tag(), rest6) {
                                                            Ok((rest7, _)) => {
                                                                assert(Self::spec_pcnt_tag().0@ + rest7 == rest6);
                                                                lemma_len_vec_parse_wire::<u32>(None, rest7);
                                                                match spec_parse_len_vec::<u32>(None, rest7) {
                                                                    Ok((rest8, face_groups)) => {
                                                                        assert(all_faithful::<u32>(face_groups) ==> encode_error_len_vec::<u32>(face_groups) is None
                                                                            && wire_len_vec::<u32>(face_groups) + rest8 == rest7);
                                                                        lemma_expect_tag(Self::spec_pvtx_tag(), rest8);
                                                                        match spec_expect_tag(Self::spec_pvtx_tag(), rest8) {
                                                                            Ok((rest9, _)) => {
                                                                                assert(Self::spec_pvtx_tag().0@ + rest9 == rest8);
                                                                                lemma_len_vec_parse_wire::<u16>(None, rest9);
                                                                                match spec_parse_len_vec::<u16>(None, rest9) {
                                                                                    Ok((rest10, faces)) => {
                                                                                        assert(all_faithful::<u16>(faces) ==> encode_error_len_vec::<u16>(faces) is None
                                                                                            && wire_len_vec::<u16>(faces) + rest10 == rest9);
                                                                                        lemma_expect_tag(Self::spec_gndx_tag(), rest10);
                                                                                        match spec_expect_tag(Self::spec_gndx_tag(), rest10) {
                                                                                            Ok((rest11, _)) => {
                                                                                                assert(Self::spec_gndx_tag().0@ + rest11 == rest10);
                                                                                                lemma_len_vec_parse_wire::<u8>(None, rest11);
                                                                                                match spec_parse_len_vec::<u8>(None, rest11) {
                                                                                                    Ok((rest12, vertex_groups)) => {
                                                                                                        assert(all_faithful::<u8>(vertex_groups) ==> encode_error_len_vec::<u8>(vertex_groups) is None
                                                                                                            && wire_len_vec::<u8>(vertex_groups) + rest12 == rest11);
                                                                                                        lemma_expect_tag(Self::spec_mtgc_tag(), rest12);
                                                                                                        match spec_expect_tag(Self::spec_mtgc_tag(), rest12) {
                                                                                                            Ok((rest13, _)) => {
                                                                                                                assert(Self::spec_mtgc_tag().0@ + rest13 == rest12);
                                                                                                                lemma_len_vec_parse_wire::<u32>(None, rest13);
                                                                                                                match spec_parse_len_vec::<u32>(None, rest13) {
                                                                                                                    Ok((rest14, matrix_groups)) => {
                                                                                                                        assert(all_faithful::<u32>(matrix_groups) ==> encode_error_len_vec::<u32>(matrix_groups) is None
                                                                                                                            && wire_len_vec::<u32>(matrix_groups) + rest14 == rest13);
                                                                                                                        lemma_expect_tag(Self::spec_mats_tag(), rest14);
                                                                                                                        match spec_expect_tag(Self::spec_mats_tag(), rest14) {
                                                                                                                            Ok((rest15, _)) => {
                                                                                                                                assert(Self::spec_mats_tag().0@ + rest15 == rest14);
                                                                                                                                lemma_len_vec_parse_wire::<u32>(None, rest15);
                                                                                                                                match spec_parse_len_vec::<u32>(None, rest15) {
                                                                                                                                    Ok((rest16, matrix_indicies)) => {
                                                                                                                                        assert(all_faithful::<u32>(matrix_indicies) ==> encode_error_len_vec::<u32>(matrix_indicies) is None
                                                                                                                                            && wire_len_vec::<u32>(matrix_indicies) + rest16 == rest15);
                                                                                                                                        u32::lemma_parse_wire(None, rest16);
                                                                                                                                        match u32::spec_parse(None, rest16) {
                                                                                                                                            Ok((rest17, material_id)) => {
                                                                                                                                                assert(u32::faithful(material_id) ==> u32::encode_error(material_id) is None
                                                                                                                                                    && u32::wire(material_id) + rest17 == rest16);
                                                                                                                                                u32::lemma_parse_wire(None, rest17);
                                                                                                                                                match u32::spec_parse(None, rest17) {
                                                                                                                                                    Ok((rest18, selection_group)) => {
                                                                                                                                                        assert(u32::faithful(selection_group) ==> u32::encode_error(selection_group) is None
                                                                                                                                                            && u32::wire(selection_group) + rest18 == rest17);
                                                                                                                                                        u32::lemma_parse_wire(None, rest18);
                                                                                                                                                        match u32::spec_parse(None, rest18) {
                                                                                                                                                            Ok((rest19, selection_flags)) => {
                                                                                                                                                                assert(u32::faithful(selection_flags) ==> u32::encode_error(selection_flags) is None
                                                                                                                                                                    && u32::wire(selection_flags) + rest19 == rest18);
                                                                                                                                                                lemma_versioned_greater_parse_wire::<LodExtra>(version, 800, rest19);
                                                                                                                                                                match spec_parse_versioned_greater::<LodExtra>(version, 800, rest19) {
                                                                                                                                                                    Ok((rest20, lod_extra)) => {
                                                                                                                                                                        assert(opt_faithful::<LodExtra>(lod_extra) ==> encode_error_opt::<LodExtra>(lod_extra) is None
                                                                                                                                                                            && wire_opt::<LodExtra>(lod_extra) + rest20 == rest19);
                                                                                                                                                                        Extent::lemma_parse_wire(None, rest20);
                                                                                                                                                                        match Extent::spec_parse(None, rest20) {
                                                                                                                                                                            Ok((rest21, extent)) => {
                                                                                                                                                                                assert(Extent::faithful(extent) ==> Extent::encode_error(extent) is None
                                                                                                                                                                                    && Extent::wire(extent) + rest21 == rest20);
                                                                                                                                                                                lemma_len_vec_parse_wire::<Extent>(None, rest21);
                                                                                                                                                                                match spec_parse_len_vec::<Extent>(None, rest21) {
                                                                                                                                                                                    Ok((rest22, sequence_extents)) => {
                                                                                                                                                                                        assert(all_faithful::<Extent>(sequence_extents) ==> encode_error_len_vec::<Extent>(sequence_extents) is None
                                                                                                                                                                                            && wire_len_vec::<Extent>(sequence_extents) + rest22 == rest21);
                                                                                                                                                                                        lemma_tagged_parse_wire::<Geoset>(
                                                                                                                                                                                            GeosetModel {
                                                                                                                                                                                                vertex_positions,
                                                                                                                                                                                                vertex_normals,
                                                                                                                                                                                                face_type_groups,
                                                                                                                                                                                                face_groups,
                                                                                                                                                                                                faces,
                                                                                                                                                                                                vertex_groups,
                                                                                                                                                                                                matrix_groups,
                                                                                                                                                                                                matrix_indicies,
                                                                                                                                                                                                material_id,
                                                                                                                                                                                                selection_group,
                                                                                                                                                                                                selection_flags,
                                                                                                                                                                                                lod_extra,
                                                                                                                                                                                                extent,
                                                                                                                                                                                                sequence_extents,
                                                                                                                                                                                                tangents: None,
                                                                                                                                                                                                skin: None,
                                                                                                                                                                                                ordered: Some(Seq::empty()),
                                                                                                                                                                                                texture_coordinate_sets: Seq::empty(),
                                                                                                                                                                                            },
                                                                                                                                                                                            rest22,
                                                                                                                                                                                        );
                                                                                                                                                                                        match spec_parse_tagged::<Geoset>(
                                                                                                                                                                                            GeosetModel {
                                                                                                                                                                                                vertex_positions,
                                                                                                                                                                                                vertex_normals,
                                                                                                                                                                                                face_type_groups,
                                                                                                                                                                                                face_groups,
                                                                                                                                                                                                faces,
                                                                                                                                                                                                vertex_groups,
                                                                                                                                                                                                matrix_groups,
                                                                                                                                                                                                matrix_indicies,
                                                                                                                                                                                                material_id,
                                                                                                                                                                                                selection_group,
                                                                                                                                                                                                selection_flags,
                                                                                                                                                                                                lod_extra,
                                                                                                                                                                                                extent,
                                                                                                                                                                                                sequence_extents,
                                                                                                                                                                                                tangents: None,
                                                                                                                                                                                                skin: None,
                                                                                                                                                                                                ordered: Some(Seq::empty()),
                                                                                                                                                                                                texture_coordinate_sets: Seq::empty(),
                                                                                                                                                                                            },
                                                                                                                                                                                            rest22,
                                                                                                                                                                                        ) {
                                                                                                                                                                                            Ok((rest23, scanned)) => {
                                                                                                                                                                                                lemma_expect_tag(Self::spec_uvas_tag(), rest23);
                                                                                                                                                                                                match spec_expect_tag(Self::spec_uvas_tag(), rest23) {
                                                                                                                                                                                                    Ok((rest24, _)) => {
                                                                                                                                                                                                        assert(Self::spec_uvas_tag().0@ + rest24 == rest23);
                                                                                                                                                                                                        lemma_len_vec_parse_wire::<TextureCoordinateSet>(None, rest24);
                                                                                                                                                                                                        match spec_parse_len_vec::<TextureCoordinateSet>(None, rest24) {
                                                                                                                                                                                                            Ok((rest25, texture_coordinate_sets)) => {
                                                                                                                                                                                                                assert(all_faithful::<TextureCoordinateSet>(texture_coordinate_sets) ==> encode_error_len_vec::<TextureCoordinateSet>(texture_coordinate_sets) is None
                                                                                                                                                                                                                    && wire_len_vec::<TextureCoordinateSet>(texture_coordinate_sets) + rest25 == rest24);
                                                                                                                                                                                                                let m = GeosetModel {
                                                                                                                                                                                                                    vertex_positions: scanned.vertex_positions,
                                                                                                                                                                                                                    vertex_normals: scanned.vertex_normals,
                                                                                                                                                                                                                    face_type_groups: scanned.face_type_groups,
                                                                                                                                                                                                                    face_groups: scanned.face_groups,
                                                                                                                                                                                                                    faces: scanned.faces,
                                                                                                                                                                                                                    vertex_groups: scanned.vertex_groups,
                                                                                                                                                                                                                    matrix_groups: scanned.matrix_groups,
                                                                                                                                                                                                                    matrix_indicies: scanned.matrix_indicies,
                                                                                                                                                                                                                    material_id: scanned.material_id,
                                                                                                                                                                                                                    selection_group: scanned.selection_group,
                                                                                                                                                                                                                    selection_flags: scanned.selection_flags,
                                                                                                                                                                                                                    lod_extra: scanned.lod_extra,
                                                                                                                                                                                                                    extent: scanned.extent,
                                                                                                                                                                                                                    sequence_extents: scanned.sequence_extents,
                                                                                                                                                                                                                    tangents: scanned.tangents,
                                                                                                                                                                                                                    skin: scanned.skin,
                                                                                                                                                                                                                    ordered: scanned.ordered,
                                                                                                                                                                                                                    texture_coordinate_sets,
                                                                                                                                                                                                                };
                                                                                                                                                                                                                if Self::body_faithful(m) {
                                                                                                                                                                                                                    assert(scanned.order().skip(0) =~= scanned.order());
                                                                                                                                                                                                                    assert forall|i: int| 0 <= i < scanned.order().len() implies same_slot(
                                                                                                                                                                                                                        scanned,
                                                                                                                                                                                                                        m,
                                                                                                                                                                                                                        #[trigger] scanned.order()[i],
                                                                                                                                                                                                                    ) by {}
                                                                                                                                                                                                                    lemma_replay_same(scanned, m, scanned.order());
                                                                                                                                                                                                                    let w1 = Self::spec_vrtx_tag().0@;
                                                                                                                                                                                                                    let w2 = wire_len_vec::<[FloatBits; 3]>(m.vertex_positions);
                                                                                                                                                                                                                    let w3 = Self::spec_nrms_tag().0@;
                                                                                                                                                                                                                    let w4 = wire_len_vec::<[FloatBits; 3]>(m.vertex_normals);
                                                                                                                                                                                                                    let w5 = Self::spec_ptyp_tag().0@;
                                                                                                                                                                                                                    let w6 = wire_len_vec::<FaceTypeGroup>(m.face_type_groups);
                                                                                                                                                                                                                    let w7 = Self::spec_pcnt_tag().0@;
                                                                                                                                                                                                                    let w8 = wire_len_vec::<u32>(m.face_groups);
                                                                                                                                                                                                                    let w9 = Self::spec_pvtx_tag().0@;
                                                                                                                                                                                                                    let w10 = wire_len_vec::<u16>(m.faces);
                                                                                                                                                                                                                    let w11 = Self::spec_gndx_tag().0@;
                                                                                                                                                                                                                    let w12 = wire_len_vec::<u8>(m.vertex_groups);
                                                                                                                                                                                                                    let w13 = Self::spec_mtgc_tag().0@;
                                                                                                                                                                                                                    let w14 = wire_len_vec::<u32>(m.matrix_groups);
                                                                                                                                                                                                                    let w15 = Self::spec_mats_tag().0@;
                                                                                                                                                                                                                    let w16 = wire_len_vec::<u32>(m.matrix_indicies);
                                                                                                                                                                                                                    let w17 = u32::wire(m.material_id);
                                                                                                                                                                                                                    let w18 = u32::wire(m.selection_group);
                                                                                                                                                                                                                    let w19 = u32::wire(m.selection_flags);
                                                                                                                                                                                                                    let w20 = wire_opt::<LodExtra>(m.lod_extra);
                                                                                                                                                                                                                    let w21 = Extent::wire(m.extent);
                                                                                                                                                                                                                    let w22 = wire_len_vec::<Extent>(m.sequence_extents);
                                                                                                                                                                                                                    let w23 = wire_slots(m);
                                                                                                                                                                                                                    let w24 = Self::spec_uvas_tag().0@;
                                                                                                                                                                                                                    let w25 = wire_len_vec::<TextureCoordinateSet>(m.texture_coordinate_sets);
                                                                                                                                                                                                                    let s24 = w24 + w25;
                                                                                                                                                                                                                    let s23 = w23 + s24;
                                                                                                                                                                                                                    let s22 = w22 + s23;
                                                                                                                                                                                                                    let s21 = w21 + s22;
                                                                                                                                                                                                                    let s20 = w20 + s21;
                                                                                                                                                                                                                    let s19 = w19 + s20;
                                                                                                                                                                                                                    let s18 = w18 + s19;
                                                                                                                                                                                                                    let s17 = w17 + s18;
                                                                                                                                                                                                                    let s16 = w16 + s17;
                                                                                                                                                                                                                    let s15 = w15 + s16;
                                                                                                                                                                                                                    let s14 = w14 + s15;
                                                                                                                                                                                                                    let s13 = w13 + s14;
                                                                                                                                                                                                                    let s12 = w12 + s13;
                                                                                                                                                                                                                    let s11 = w11 + s12;
                                                                                                                                                                                                                    let s10 = w10 + s11;
                                                                                                                                                                                                                    let s9 = w9 + s10;
                                                                                                                                                                                                                    let s8 = w8 + s9;
                                                                                                                                                                                                                    let s7 = w7 + s8;
                                                                                                                                                                                                                    let s6 = w6 + s7;
                                                                                                                                                                                                                    let s5 = w5 + s6;
                                                                                                                                                                                                                    let s4 = w4 + s5;
                                                                                                                                                                                                                    let s3 = w3 + s4;
                                                                                                                                                                                                                    let s2 = w2 + s3;
                                                                                                                                                                                                                    lemma_append_assoc(w24, w25, rest25);
                                                                                                                                                                                                                    lemma_append_assoc(w23, s24, rest25);
                                                                                                                                                                                                                    lemma_append_assoc(w22, s23, rest25);
                                                                                                                                                                                                                    lemma_append_assoc(w21, s22, rest25);
                                                                                                                                                                                                                    lemma_append_assoc(w20, s21, rest25);
                                                                                                                                                                                                                    lemma_append_assoc(w19, s20, rest25);
                                                                                                                                                                                                                    lemma_append_assoc(w18, s19, rest25);
                                                                                                                                                                                                                    lemma_append_assoc(w17, s18, rest25);
                                                                                                                                                                                                                    lemma_append_assoc(w16, s17, rest25);
                                                                                                                                                                                                                    lemma_append_assoc(w15, s16, rest25);
                                                                                                                                                                                                                    lemma_append_assoc(w14, s15, rest25);
                                                                                                                                                                                                                    lemma_append_assoc(w13, s14, rest25);
                                                                                                                                                                                                                    lemma_append_assoc(w12, s13, rest25);
                                                                                                                                                                                                                    lemma_append_assoc(w11, s12, rest25);
                                                                                                                                                                                                                    lemma_append_assoc(w10, s11, rest25);
                                                                                                                                                                                                                    lemma_append_assoc(w9, s10, rest25);
                                                                                                                                                                                                                    lemma_append_assoc(w8, s9, rest25);
                                                                                                                                                                                                                    lemma_append_assoc(w7, s8, rest25);
                                                                                                                                                                                                                    lemma_append_assoc(w6, s7, rest25);
                                                                                                                                                                                                                    lemma_append_assoc(w5, s6, rest25);
                                                                                                                                                                                                                    lemma_append_assoc(w4, s5, rest25);
                                                                                                                                                                                                                    lemma_append_assoc(w3, s4, rest25);
                                                                                                                                                                                                                    lemma_append_assoc(w2, s3, rest25);
                                                                                                                                                                                                                    lemma_append_assoc(w1, s2, rest25);
                                                                                                                                                                                                                }
                                                                                                                                                                                                            },
                                                                                                                                                                                                            Err(_) => {},
                                                                                                                                                                                                        }
                                                                                                                                                                                                    },
                                                                                                                                                                                                    Err(_) => {},
                                                                                                                                                                                                }
                                                                                                                                                                                            },
                                                                                                                                                                                            Err(_) => {},
                                                                                                                                                                                        }
                                                                                                                                                                                    },
                                                                                                                                                                                    Err(_) => {},
                                                                                                                                                                                }
                                                                                                                                                                            },
                                                                                                                                                                            Err(_) => {},
                                                                                                                                                                        }
                                                                                                                                                                    },
                                                                                                                                                                    Err(_) => {},
                                                                                                                                                                }
                                                                                                                                                            },
                                                                                                                                                            Err(_) => {},
                                                                                                                                                        }
                                                                                                                                                    },
                                                                                                                                                    Err(_) => {},
                                                                                                                                                }
                                                                                                                                            },
                                                                                                                                            Err(_) => {},
                                                                                                                                        }
                                                                                                                                    },
                                                                                                                                    Err(_) => {},
                                                                                                                                }
                                                                                                                            },
                                                                                                                            Err(_) => {},
                                                                                                                        }
                                                                                                                    },
                                                                                                                    Err(_) => {},
                                                                                                                }
                                                                                                            },
                                                                                                            Err(_) => {},
                                                                                                        }
                                                                                                    },
                                                                                                    Err(_) => {},
                                                                                                }
                                                                                            },
                                                                                            Err(_) => {},
                                                                                        }
                                                                                    },
                                                                                    Err(_) => {},
                                                                                }
                                                                            },
                                                                            Err(_) => {},
                                                                        }
                                                                    },
                                                                    Err(_) => {},
                                                                }
                                                            },
                                                            Err(_) => {},
                                                        }
                                                    },
                                                    Err(_) => {},
                                                }
                                            },
                                            Err(_) => {},
                                        }
                                    },
                                    Err(_) => {},
                                }
                            },
                            Err(_) => {},
                        }
                    },
                    Err(_) => {},
                }
            },
            Err(_) => {},
        }
    }
}

impl Materialized for Geoset {
    type Version = u32;

    type Model = GeosetModel;

    open spec fn model(&self) -> GeosetModel {
        self.body_model()
    }

    open spec fn spec_parse(version: Option<u32>, input: Seq<u8>) -> Parsed<GeosetModel> {
        spec_parse_inclusive_sized::<Geoset>(version, input)
    }

    open spec fn wire(m: GeosetModel) -> Seq<u8> {
        wire_inclusive_sized::<Geoset>(m)
    }

    open spec fn encode_error(m: GeosetModel) -> Option<EncodeError> {
        encode_error_inclusive_sized::<Geoset>(m)
    }

    fn parse_versioned<'a>(version: Option<u32>, input: &'a [u8]) -> (r: Parser<'a, Geoset>) {
        parse_inclusive_sized::<Geoset>(version, input)
    }

    /// The record is encoded aside and then written with its size: if it
    /// fails, the output is left as it is.
    fn encode(&self, output: &mut Vec<u8>) -> (r: Result<(), EncodeError>)
        ensures
            r is Err ==> final(output)@ == old(output)@,
    {
        encode_inclusive_sized(output, self)
    }
}

impl Lossless for Geoset {
    open spec fn faithful(m: GeosetModel) -> bool {
        Geoset::body_faithful(m)
    }

    proof fn lemma_parse_wire(version: Option<u32>, input: Seq<u8>) {
        lemma_inclusive_parse_wire::<Geoset>(version, input);
    }
}

/// The tags of the blocks of [`Geoset`] differ from each other and from the tag that ends them.
proof fn lemma_geoset_tags_differ()
    ensures
        Tangents::spec_tag() != Skin::spec_tag(),
        Tangents::spec_tag() != Geoset::spec_uvas_tag(),
        Skin::spec_tag() != Geoset::spec_uvas_tag(),
{
    assert(Tangents::spec_tag().0[0] != Skin::spec_tag().0[0]);
    assert(Tangents::spec_tag().0[0] != Geoset::spec_uvas_tag().0[0]);
    assert(Skin::spec_tag().0[0] != Geoset::spec_uvas_tag().0[0]);
}

impl ReparsableBlocks for Geoset {
    open spec fn slot_well_formed(m: GeosetModel, tag: Tag) -> bool {
        if tag == Tangents::spec_tag() {
            m.tangents is Some && Tangents::well_formed(m.tangents->0, None)
        } else if tag == Skin::spec_tag() {
            m.skin is Some && Skin::well_formed(m.skin->0, None)
        } else {
            false
        }
    }

    open spec fn refill(acc: GeosetModel, m: GeosetModel, tag: Tag) -> GeosetModel {
        if tag == Tangents::spec_tag() {
            GeosetModel {
                vertex_positions: acc.vertex_positions,
                vertex_normals: acc.vertex_normals,
                face_type_groups: acc.face_type_groups,
                face_groups: acc.face_groups,
                faces: acc.faces,
                vertex_groups: acc.vertex_groups,
                matrix_groups: acc.matrix_groups,
                matrix_indicies: acc.matrix_indicies,
                material_id: acc.material_id,
                selection_group: acc.selection_group,
                selection_flags: acc.selection_flags,
                lod_extra: acc.lod_extra,
                extent: acc.extent,
                sequence_extents: acc.sequence_extents,
                tangents: m.tangents,
                skin: acc.skin,
                ordered: Some(acc.order().push(tag)),
                texture_coordinate_sets: acc.texture_coordinate_sets,
            }
        } else if tag == Skin::spec_tag() {
            GeosetModel {
                vertex_positions: acc.vertex_positions,
                vertex_normals: acc.vertex_normals,
                face_type_groups: acc.face_type_groups,
                face_groups: acc.face_groups,
                faces: acc.faces,
                vertex_groups: acc.vertex_groups,
                matrix_groups: acc.matrix_groups,
                matrix_indicies: acc.matrix_indicies,
                material_id: acc.material_id,
                selection_group: acc.selection_group,
                selection_flags: acc.selection_flags,
                lod_extra: acc.lod_extra,
                extent: acc.extent,
                sequence_extents: acc.sequence_extents,
                tangents: acc.tangents,
                skin: m.skin,
                ordered: Some(acc.order().push(tag)),
                texture_coordinate_sets: acc.texture_coordinate_sets,
            }
        } else {
            acc
        }
    }

    proof fn lemma_block_refill(acc: GeosetModel, m: GeosetModel, tag: Tag, tail: Seq<u8>) {
        if tag == Tangents::spec_tag() {
            Tangents::lemma_wire_tag(m.tangents->0);
            Tangents::lemma_wire_parse(m.tangents->0, None, tail);
        } else if tag == Skin::spec_tag() {
            Skin::lemma_wire_tag(m.skin->0);
            Skin::lemma_wire_parse(m.skin->0, None, tail);
        }
    }
}

/// What the blocks of `m` under the tags make of `acc`: the other fields are
/// the ones of `acc`, the tags are recorded behind the ones of `acc`, and a
/// block is the one of `m` if its tag is among the tags.
proof fn lemma_geoset_refill(acc: GeosetModel, m: GeosetModel, tags: Seq<Tag>)
    requires
        acc.ordered is Some,
        forall|i: int| 0 <= i < tags.len() ==> Geoset::slot_well_formed(m, #[trigger] tags[i]),
    ensures
        ({
            let r = refill_all::<Geoset>(acc, m, tags);
            &&& r.ordered == Some(acc.order() + tags)
            &&& r.vertex_positions == acc.vertex_positions
            &&& r.vertex_normals == acc.vertex_normals
            &&& r.face_type_groups == acc.face_type_groups
            &&& r.face_groups == acc.face_groups
            &&& r.faces == acc.faces
            &&& r.vertex_groups == acc.vertex_groups
            &&& r.matrix_groups == acc.matrix_groups
            &&& r.matrix_indicies == acc.matrix_indicies
            &&& r.material_id == acc.material_id
            &&& r.selection_group == acc.selection_group
            &&& r.selection_flags == acc.selection_flags
            &&& r.lod_extra == acc.lod_extra
            &&& r.extent == acc.extent
            &&& r.sequence_extents == acc.sequence_extents
            &&& r.tangents == if tags.contains(Tangents::spec_tag()) {
                m.tangents
            } else {
                acc.tangents
            }
            &&& r.skin == if tags.contains(Skin::spec_tag()) {
                m.skin
            } else {
                acc.skin
            }
            &&& r.texture_coordinate_sets == acc.texture_coordinate_sets
        }),
    decreases tags.len(),
{
    if tags.len() == 0 {
        assert(acc.order() + tags =~= acc.order());
    } else {
        let tag = tags[0];
        let next = Geoset::refill(acc, m, tag);
        assert(Geoset::slot_well_formed(m, tags[0]));
        assert forall|i: int| 0 <= i < tags.skip(1).len() implies Geoset::slot_well_formed(
            m,
            #[trigger] tags.skip(1)[i],
        ) by {
            assert(tags.skip(1)[i] == tags[i + 1]);
        }
        lemma_geoset_refill(next, m, tags.skip(1));
        assert(next.order() + tags.skip(1) =~= acc.order() + tags);
        lemma_geoset_tags_differ();
        lemma_contains_front(tags, Tangents::spec_tag());
        lemma_contains_front(tags, Skin::spec_tag());
    }
}

impl ReparsableBody for Geoset {
    open spec fn body_well_formed(m: GeosetModel, version: Option<u32>) -> bool {
        m.vertex_positions.len() <= u32::MAX && all_well_formed::<[FloatBits; 3]>(m.vertex_positions, None)
        && m.vertex_normals.len() <= u32::MAX && all_well_formed::<[FloatBits; 3]>(m.vertex_normals, None)
        && m.face_type_groups.len() <= u32::MAX && all_well_formed::<FaceTypeGroup>(m.face_type_groups, None)
        && m.face_groups.len() <= u32::MAX && all_well_formed::<u32>(m.face_groups, None)
        && m.faces.len() <= u32::MAX && all_well_formed::<u16>(m.faces, None)
        && m.vertex_groups.len() <= u32::MAX && all_well_formed::<u8>(m.vertex_groups, None)
        && m.matrix_groups.len() <= u32::MAX && all_well_formed::<u32>(m.matrix_groups, None)
        && m.matrix_indicies.len() <= u32::MAX && all_well_formed::<u32>(m.matrix_indicies, None)
        && u32::well_formed(m.material_id, None)
        && u32::well_formed(m.selection_group, None)
        && u32::well_formed(m.selection_flags, None)
        && opt_well_formed::<LodExtra>(m.lod_extra, version, 800)
        && Extent::well_formed(m.extent, None)
        && m.sequence_extents.len() <= u32::MAX && all_well_formed::<Extent>(m.sequence_extents, None)
        && m.ordered is Some
        && (forall|i: int| 0 <= i < m.order().len() ==> Geoset::slot_well_formed(m, #[trigger] m.order()[i]))
        && (m.tangents is Some ==> m.order().contains(Tangents::spec_tag()))
        && (m.skin is Some ==> m.order().contains(Skin::spec_tag()))
        && m.texture_coordinate_sets.len() <= u32::MAX && all_well_formed::<TextureCoordinateSet>(m.texture_coordinate_sets, None)
    }

    #[verifier::rlimit(50)]
    proof fn lemma_body_wire_parse(m: GeosetModel, version: Option<u32>) {
        let w1 = Self::spec_vrtx_tag().0@;
        let w2 = wire_len_vec::<[FloatBits; 3]>(m.vertex_positions);
        let w3 = Self::spec_nrms_tag().0@;
        let w4 = wire_len_vec::<[FloatBits; 3]>(m.vertex_normals);
        let w5 = Self::spec_ptyp_tag().0@;
        let w6 = wire_len_vec::<FaceTypeGroup>(m.face_type_groups);
        let w7 = Self::spec_pcnt_tag().0@;
        let w8 = wire_len_vec::<u32>(m.face_groups);
        let w9 = Self::spec_pvtx_tag().0@;
        let w10 = wire_len_vec::<u16>(m.faces);
        let w11 = Self::spec_gndx_tag().0@;
        let w12 = wire_len_vec::<u8>(m.vertex_groups);
        let w13 = Self::spec_mtgc_tag().0@;
        let w14 = wire_len_vec::<u32>(m.matrix_groups);
        let w15 = Self::spec_mats_tag().0@;
        let w16 = wire_len_vec::<u32>(m.matrix_indicies);
        let w17 = u32::wire(m.material_id);
        let w18 = u32::wire(m.selection_group);
        let w19 = u32::wire(m.selection_flags);
        let w20 = wire_opt::<LodExtra>(m.lod_extra);
        let w21 = Extent::wire(m.extent);
        let w22 = wire_len_vec::<Extent>(m.sequence_extents);
        let w23 = wire_slots(m);
        let w24 = Self::spec_uvas_tag().0@;
        let w25 = wire_len_vec::<TextureCoordinateSet>(m.texture_coordinate_sets);
        let u26 = Seq::<u8>::empty();
        let u25 = w25 + u26;
        let u24 = w24 + u25;
        let u23 = w23 + u24;
        let u22 = w22 + u23;
        let u21 = w21 + u22;
        let u20 = w20 + u21;
        let u19 = w19 + u20;
        let u18 = w18 + u19;
        let u17 = w17 + u18;
        let u16 = w16 + u17;
        let u15 = w15 + u16;
        let u14 = w14 + u15;
        let u13 = w13 + u14;
        let u12 = w12 + u13;
        let u11 = w11 + u12;
        let u10 = w10 + u11;
        let u9 = w9 + u10;
        let u8 = w8 + u9;
        let u7 = w7 + u8;
        let u6 = w6 + u7;
        let u5 = w5 + u6;
        let u4 = w4 + u5;
        let u3 = w3 + u4;
        let u2 = w2 + u3;
        let u1 = w1 + u2;
        let s24 = w24 + w25;
        let s23 = w23 + s24;
        let s22 = w22 + s23;
        let s21 = w21 + s22;
        let s20 = w20 + s21;
        let s19 = w19 + s20;
        let s18 = w18 + s19;
        let s17 = w17 + s18;
        let s16 = w16 + s17;
        let s15 = w15 + s16;
        let s14 = w14 + s15;
        let s13 = w13 + s14;
        let s12 = w12 + s13;
        let s11 = w11 + s12;
        let s10 = w10 + s11;
        let s9 = w9 + s10;
        let s8 = w8 + s9;
        let s7 = w7 + s8;
        let s6 = w6 + s7;
        let s5 = w5 + s6;
        let s4 = w4 + s5;
        let s3 = w3 + s4;
        let s2 = w2 + s3;
        lemma_append_assoc(w24, w25, Seq::<u8>::empty());
        lemma_append_assoc(w23, s24, Seq::<u8>::empty());
        lemma_append_assoc(w22, s23, Seq::<u8>::empty());
        lemma_append_assoc(w21, s22, Seq::<u8>::empty());
        lemma_append_assoc(w20, s21, Seq::<u8>::empty());
        lemma_append_assoc(w19, s20, Seq::<u8>::empty());
        lemma_append_assoc(w18, s19, Seq::<u8>::empty());
        lemma_append_assoc(w17, s18, Seq::<u8>::empty());
        lemma_append_assoc(w16, s17, Seq::<u8>::empty());
        lemma_append_assoc(w15, s16, Seq::<u8>::empty());
        lemma_append_assoc(w14, s15, Seq::<u8>::empty());
        lemma_append_assoc(w13, s14, Seq::<u8>::empty());
        lemma_append_assoc(w12, s13, Seq::<u8>::empty());
        lemma_append_assoc(w11, s12, Seq::<u8>::empty());
        lemma_append_assoc(w10, s11, Seq::<u8>::empty());
        lemma_append_assoc(w9, s10, Seq::<u8>::empty());
        lemma_append_assoc(w8, s9, Seq::<u8>::empty());
        lemma_append_assoc(w7, s8, Seq::<u8>::empty());
        lemma_append_assoc(w6, s7, Seq::<u8>::empty());
        lemma_append_assoc(w5, s6, Seq::<u8>::empty());
        lemma_append_assoc(w4, s5, Seq::<u8>::empty());
        lemma_append_assoc(w3, s4, Seq::<u8>::empty());
        lemma_append_assoc(w2, s3, Seq::<u8>::empty());
        lemma_append_assoc(w1, s2, Seq::<u8>::empty());
        lemma_expect_tag_wire(Self::spec_vrtx_tag(), u2);
        lemma_len_vec_wire_parse::<[FloatBits; 3]>(None, m.vertex_positions, u3);
        lemma_expect_tag_wire(Self::spec_nrms_tag(), u4);
        lemma_len_vec_wire_parse::<[FloatBits; 3]>(None, m.vertex_normals, u5);
        lemma_expect_tag_wire(Self::spec_ptyp_tag(), u6);
        lemma_len_vec_wire_parse::<FaceTypeGroup>(None, m.face_type_groups, u7);
        lemma_expect_tag_wire(Self::spec_pcnt_tag(), u8);
        lemma_len_vec_wire_parse::<u32>(None, m.face_groups, u9);
        lemma_expect_tag_wire(Self::spec_pvtx_tag(), u10);
        lemma_len_vec_wire_parse::<u16>(None, m.faces, u11);
        lemma_expect_tag_wire(Self::spec_gndx_tag(), u12);
        lemma_len_vec_wire_parse::<u8>(None, m.vertex_groups, u13);
        lemma_expect_tag_wire(Self::spec_mtgc_tag(), u14);
        lemma_len_vec_wire_parse::<u32>(None, m.matrix_groups, u15);
        lemma_expect_tag_wire(Self::spec_mats_tag(), u16);
        lemma_len_vec_wire_parse::<u32>(None, m.matrix_indicies, u17);
        u32::lemma_wire_parse(m.material_id, None, u18);
        u32::lemma_wire_parse(m.selection_group, None, u19);
        u32::lemma_wire_parse(m.selection_flags, None, u20);
        lemma_versioned_greater_wire_parse::<LodExtra>(version, 800, m.lod_extra, u21);
        Extent::lemma_wire_parse(m.extent, None, u22);
        lemma_len_vec_wire_parse::<Extent>(None, m.sequence_extents, u23);
        let start = GeosetModel {
            vertex_positions: m.vertex_positions,
            vertex_normals: m.vertex_normals,
            face_type_groups: m.face_type_groups,
            face_groups: m.face_groups,
            faces: m.faces,
            vertex_groups: m.vertex_groups,
            matrix_groups: m.matrix_groups,
            matrix_indicies: m.matrix_indicies,
            material_id: m.material_id,
            selection_group: m.selection_group,
            selection_flags: m.selection_flags,
            lod_extra: m.lod_extra,
            extent: m.extent,
            sequence_extents: m.sequence_extents,
            tangents: None,
            skin: None,
            ordered: Some(Seq::empty()),
            texture_coordinate_sets: Seq::empty(),
        };
        lemma_geoset_tags_differ();
        lemma_tag_bytes(Self::spec_uvas_tag(), Self::spec_uvas_tag().0@);
        assert(Self::spec_uvas_tag().0@.take(4) =~= Self::spec_uvas_tag().0@);
        lemma_peek_tag(Self::spec_uvas_tag(), Self::spec_uvas_tag().0@, u25);
        assert forall|acc: GeosetModel| #[trigger] Geoset::spec_block(
            acc,
            Tag::spec_parse(None, u24)->Ok_0.1,
            u24,
        ) is Stop by {}
        lemma_tagged_wire_parse::<Geoset>(start, m, m.order(), u24);
        lemma_geoset_refill(start, m, m.order());
        assert(Seq::<Tag>::empty() + m.order() =~= m.order());
        lemma_expect_tag_wire(Self::spec_uvas_tag(), u25);
        lemma_len_vec_wire_parse::<TextureCoordinateSet>(None, m.texture_coordinate_sets, u26);
        assert(u1 =~= Self::body_wire(m));
    }
}

impl Reparsable for Geoset {
    open spec fn well_formed(m: GeosetModel, version: Option<u32>) -> bool {
        Geoset::body_well_formed(m, version) && Geoset::body_wire(m).len() + 4 <= u32::MAX
    }

    proof fn lemma_wire_parse(m: GeosetModel, version: Option<u32>, tail: Seq<u8>) {
        lemma_inclusive_wire_parse::<Geoset>(m, version, tail);
    }
}

/// Maximum length of the name of the level of detail of a geoset.
pub const GEOSET_LOD_NAME_LEN: usize = 80;

/// The level of detail of a geoset, which only versions greater than 800 have.
#[derive(Debug, Clone, PartialEq)]
pub struct LodExtra {
    pub lod: u32,
    pub lod_name: Literal<GEOSET_LOD_NAME_LEN>,
}

/// What a value of [`LodExtra`] stands for in specifications.
pub struct LodExtraModel {
    pub lod: u32,
    pub lod_name: Seq<char>,
}

impl Materialized for LodExtra {
    type Version = u32;

    type Model = LodExtraModel;

    open spec fn model(&self) -> LodExtraModel {
        LodExtraModel {
            lod: self.lod.model(),
            lod_name: self.lod_name.model(),
        }
    }

    open spec fn spec_parse(version: Option<u32>, input: Seq<u8>) -> Parsed<LodExtraModel> {
        match u32::spec_parse(None, input) {
            Ok((rest, lod)) => match <Literal<GEOSET_LOD_NAME_LEN>>::spec_parse(None, rest) {
                Ok((rest, lod_name)) => Ok((rest, LodExtraModel { lod, lod_name })),
                Err(e) => Err(e),
            },
            Err(e) => Err(e),
        }
    }

    open spec fn wire(m: LodExtraModel) -> Seq<u8> {
        u32::wire(m.lod) + (<Literal<GEOSET_LOD_NAME_LEN>>::wire(m.lod_name))
    }

    open spec fn encode_error(m: LodExtraModel) -> Option<EncodeError> {
        match u32::encode_error(m.lod) {
            Some(e) => Some(e),
            None => <Literal<GEOSET_LOD_NAME_LEN>>::encode_error(m.lod_name),
        }
    }

    fn parse_versioned<'a>(version: Option<u32>, input: &'a [u8]) -> (r: Parser<'a, LodExtra>) {
        let (input, lod) = u32::parse(input)?;
        let (input, lod_name) = <Literal<GEOSET_LOD_NAME_LEN>>::parse(input)?;
        Ok((input, LodExtra { lod, lod_name }))
    }

    fn encode(&self, output: &mut Vec<u8>) -> (r: Result<(), EncodeError>) {
        let ghost p0 = output@;
        self.lod.encode(output)?;
        let ghost p1 = output@;
        self.lod_name.encode(output)?;
        proof {
            let m = self.model();
            let w1 = u32::wire(m.lod);
            let w2 = <Literal<GEOSET_LOD_NAME_LEN>>::wire(m.lod_name);
            lemma_append_assoc(p0, w1, w2);
        }
        Ok(())
    }
}

impl Lossless for LodExtra {
    open spec fn faithful(m: LodExtraModel) -> bool {
        u32::faithful(m.lod) && <Literal<GEOSET_LOD_NAME_LEN>>::faithful(m.lod_name)
    }

    proof fn lemma_parse_wire(version: Option<u32>, input: Seq<u8>) {
        u32::lemma_parse_wire(None, input);
        match u32::spec_parse(None, input) {
            Ok((rest1, lod)) => {
                assert(u32::faithful(lod) ==> u32::encode_error(lod) is None
                    && u32::wire(lod) + rest1 == input);
                <Literal<GEOSET_LOD_NAME_LEN>>::lemma_parse_wire(None, rest1);
                match <Literal<GEOSET_LOD_NAME_LEN>>::spec_parse(None, rest1) {
                    Ok((rest2, lod_name)) => {
                        assert(<Literal<GEOSET_LOD_NAME_LEN>>::faithful(lod_name) ==> <Literal<GEOSET_LOD_NAME_LEN>>::encode_error(lod_name) is None
                            && <Literal<GEOSET_LOD_NAME_LEN>>::wire(lod_name) + rest2 == rest1);
                        let m = LodExtraModel { lod, lod_name };
                        if Self::faithful(m) {
                            let w1 = u32::wire(m.lod);
                            let w2 = <Literal<GEOSET_LOD_NAME_LEN>>::wire(m.lod_name);
                            lemma_append_assoc(w1, w2, rest2);
                        }
                    },
                    Err(_) => {},
                }
            },
            Err(_) => {},
        }
    }
}

impl Reparsable for LodExtra {
    open spec fn well_formed(m: LodExtraModel, version: Option<u32>) -> bool {
        u32::well_formed(m.lod, None)
        && <Literal<GEOSET_LOD_NAME_LEN>>::well_formed(m.lod_name, None)
    }

    proof fn lemma_wire_parse(m: LodExtraModel, version: Option<u32>, tail: Seq<u8>) {
        let w1 = u32::wire(m.lod);
        let w2 = <Literal<GEOSET_LOD_NAME_LEN>>::wire(m.lod_name);
        let u3 = tail;
        let u2 = w2 + u3;
        let u1 = w1 + u2;
        lemma_append_assoc(w1, w2, tail);
        u32::lemma_wire_parse(m.lod, None, u2);
        <Literal<GEOSET_LOD_NAME_LEN>>::lemma_wire_parse(m.lod_name, None, u3);
    }
}

/// The tangents of the vertices of a geoset.
#[derive(Debug, Clone, PartialEq)]
pub struct Tangents {
    pub tangents: Vec<[FloatBits; 4]>,
}

/// What a value of [`Tangents`] stands for in specifications.
pub struct TangentsModel {
    pub tangents: Seq<Seq<FloatBits>>,
}

impl Chunk for Tangents {
    open spec fn spec_tag() -> Tag {
        Tag([0x54, 0x41, 0x4E, 0x47])
    }

    fn tag() -> (t: Tag) {
        let t = Tag([0x54, 0x41, 0x4E, 0x47]);
        assert(t.0 =~= Self::spec_tag().0);
        t
    }
}

impl Materialized for Tangents {
    type Version = u32;

    type Model = TangentsModel;

    open spec fn model(&self) -> TangentsModel {
        TangentsModel { tangents: models(self.tangents@) }
    }

    open spec fn spec_parse(version: Option<u32>, input: Seq<u8>) -> Parsed<TangentsModel> {
        match spec_expect_tag(Self::spec_tag(), input) {
            Ok((rest, _)) => match spec_parse_len_vec::<[FloatBits; 4]>(None, rest) {
                Ok((rest, tangents)) => Ok((rest, TangentsModel { tangents })),
                Err(e) => Err(e),
            },
            Err(e) => Err(e),
        }
    }

    open spec fn wire(m: TangentsModel) -> Seq<u8> {
        Self::spec_tag().0@ + (wire_len_vec::<[FloatBits; 4]>(m.tangents))
    }

    open spec fn encode_error(m: TangentsModel) -> Option<EncodeError> {
        encode_error_len_vec::<[FloatBits; 4]>(m.tangents)
    }

    fn parse_versioned<'a>(version: Option<u32>, input: &'a [u8]) -> (r: Parser<'a, Tangents>) {
        let (input, _) = Self::tag().expect(input)?;
        let (input, tangents) = parse_len_vec::<[FloatBits; 4]>(None, input)?;
        Ok((input, Tangents { tangents }))
    }

    fn encode(&self, output: &mut Vec<u8>) -> (r: Result<(), EncodeError>) {
        let ghost p0 = output@;
        Self::tag().encode(output)?;
        let ghost p1 = output@;
        encode_len_vec(self.tangents.as_slice(), output)?;
        proof {
            let m = self.model();
            let w1 = Self::spec_tag().0@;
            let w2 = wire_len_vec::<[FloatBits; 4]>(m.tangents);
            lemma_append_assoc(p0, w1, w2);
        }
        Ok(())
    }
}

impl Lossless for Tangents {
    open spec fn faithful(m: TangentsModel) -> bool {
        all_faithful::<[FloatBits; 4]>(m.tangents)
    }

    proof fn lemma_parse_wire(version: Option<u32>, input: Seq<u8>) {
        lemma_expect_tag(Self::spec_tag(), input);
        match spec_expect_tag(Self::spec_tag(), input) {
            Ok((rest1, _)) => {
                assert(Self::spec_tag().0@ + rest1 == input);
                lemma_len_vec_parse_wire::<[FloatBits; 4]>(None, rest1);
                match spec_parse_len_vec::<[FloatBits; 4]>(None, rest1) {
                    Ok((rest2, tangents)) => {
                        assert(all_faithful::<[FloatBits; 4]>(tangents) ==> encode_error_len_vec::<[FloatBits; 4]>(tangents) is None
                            && wire_len_vec::<[FloatBits; 4]>(tangents) + rest2 == rest1);
                        let m = TangentsModel { tangents };
                        if Self::faithful(m) {
                            let w1 = Self::spec_tag().0@;
                            let w2 = wire_len_vec::<[FloatBits; 4]>(m.tangents);
                            lemma_append_assoc(w1, w2, rest2);
                        }
                    },
                    Err(_) => {},
                }
            },
            Err(_) => {},
        }
    }
}

impl Reparsable for Tangents {
    open spec fn well_formed(m: TangentsModel, version: Option<u32>) -> bool {
        m.tangents.len() <= u32::MAX && all_well_formed::<[FloatBits; 4]>(m.tangents, None)
    }

    proof fn lemma_wire_parse(m: TangentsModel, version: Option<u32>, tail: Seq<u8>) {
        let w1 = Self::spec_tag().0@;
        let w2 = wire_len_vec::<[FloatBits; 4]>(m.tangents);
        let u3 = tail;
        let u2 = w2 + u3;
        let u1 = w1 + u2;
        lemma_append_assoc(w1, w2, tail);
        lemma_expect_tag_wire(Self::spec_tag(), u2);
        lemma_len_vec_wire_parse::<[FloatBits; 4]>(None, m.tangents, u3);
    }
}

impl TaggedBlock for Tangents {
    proof fn lemma_wire_tag(m: TangentsModel) {
        lemma_tag_bytes(Self::spec_tag(), Self::spec_tag().0@);
        assert(Self::wire(m).take(4) =~= Self::spec_tag().0@);
    }
}

/// The skin weights of the vertices of a geoset.
#[derive(Debug, Clone, PartialEq)]
pub struct Skin {
    pub skin: Vec<u8>,
}

/// What a value of [`Skin`] stands for in specifications.
pub struct SkinModel {
    pub skin: Seq<u8>,
}

impl Chunk for Skin {
    open spec fn spec_tag() -> Tag {
        Tag([0x53, 0x4B, 0x49, 0x4E])
    }

    fn tag() -> (t: Tag) {
        let t = Tag([0x53, 0x4B, 0x49, 0x4E]);
        assert(t.0 =~= Self::spec_tag().0);
        t
    }
}

impl Materialized for Skin {
    type Version = u32;

    type Model = SkinModel;

    open spec fn model(&self) -> SkinModel {
        SkinModel { skin: models(self.skin@) }
    }

    open spec fn spec_parse(version: Option<u32>, input: Seq<u8>) -> Parsed<SkinModel> {
        match spec_expect_tag(Self::spec_tag(), input) {
            Ok((rest, _)) => match spec_parse_len_vec::<u8>(None, rest) {
                Ok((rest, skin)) => Ok((rest, SkinModel { skin })),
                Err(e) => Err(e),
            },
            Err(e) => Err(e),
        }
    }

    open spec fn wire(m: SkinModel) -> Seq<u8> {
        Self::spec_tag().0@ + (wire_len_vec::<u8>(m.skin))
    }

    open spec fn encode_error(m: SkinModel) -> Option<EncodeError> {
        encode_error_len_vec::<u8>(m.skin)
    }

    fn parse_versioned<'a>(version: Option<u32>, input: &'a [u8]) -> (r: Parser<'a, Skin>) {
        let (input, _) = Self::tag().expect(input)?;
        let (input, skin) = parse_len_vec::<u8>(None, input)?;
        Ok((input, Skin { skin }))
    }

    fn encode(&self, output: &mut Vec<u8>) -> (r: Result<(), EncodeError>) {
        let ghost p0 = output@;
        Self::tag().encode(output)?;
        let ghost p1 = output@;
        encode_len_vec(self.skin.as_slice(), output)?;
        proof {
            let m = self.model();
            let w1 = Self::spec_tag().0@;
            let w2 = wire_len_vec::<u8>(m.skin);
            lemma_append_assoc(p0, w1, w2);
        }
        Ok(())
    }
}

impl Lossless for Skin {
    open spec fn faithful(m: SkinModel) -> bool {
        all_faithful::<u8>(m.skin)
    }

    proof fn lemma_parse_wire(version: Option<u32>, input: Seq<u8>) {
        lemma_expect_tag(Self::spec_tag(), input);
        match spec_expect_tag(Self::spec_tag(), input) {
            Ok((rest1, _)) => {
                assert(Self::spec_tag().0@ + rest1 == input);
                lemma_len_vec_parse_wire::<u8>(None, rest1);
                match spec_parse_len_vec::<u8>(None, rest1) {
                    Ok((rest2, skin)) => {
                        assert(all_faithful::<u8>(skin) ==> encode_error_len_vec::<u8>(skin) is None
                            && wire_len_vec::<u8>(skin) + rest2 == rest1);
                        let m = SkinModel { skin };
                        if Self::faithful(m) {
                            let w1 = Self::spec_tag().0@;
                            let w2 = wire_len_vec::<u8>(m.skin);
                            lemma_append_assoc(w1, w2, rest2);
                        }
                    },
                    Err(_) => {},
                }
            },
            Err(_) => {},
        }
    }
}

impl Reparsable for Skin {
    open spec fn well_formed(m: SkinModel, version: Option<u32>) -> bool {
        m.skin.len() <= u32::MAX && all_well_formed::<u8>(m.skin, None)
    }

    proof fn lemma_wire_parse(m: SkinModel, version: Option<u32>, tail: Seq<u8>) {
        let w1 = Self::spec_tag().0@;
        let w2 = wire_len_vec::<u8>(m.skin);
        let u3 = tail;
        let u2 = w2 + u3;
        let u1 = w1 + u2;
        lemma_append_assoc(w1, w2, tail);
        lemma_expect_tag_wire(Self::spec_tag(), u2);
        lemma_len_vec_wire_parse::<u8>(None, m.skin, u3);
    }
}

impl TaggedBlock for Skin {
    proof fn lemma_wire_tag(m: SkinModel) {
        lemma_tag_bytes(Self::spec_tag(), Self::spec_tag().0@);
        assert(Self::wire(m).take(4) =~= Self::spec_tag().0@);
    }
}

/// One set of texture coordinates of the vertices of a geoset.
#[derive(Debug, Clone, PartialEq)]
pub struct TextureCoordinateSet {
    pub texture_coordinates: Vec<[FloatBits; 2]>,
}

/// What a value of [`TextureCoordinateSet`] stands for in specifications.
pub struct TextureCoordinateSetModel {
    pub texture_coordinates: Seq<Seq<FloatBits>>,
}

impl Chunk for TextureCoordinateSet {
    open spec fn spec_tag() -> Tag {
        Tag([0x55, 0x56, 0x42, 0x53])
    }

    fn tag() -> (t: Tag) {
        let t = Tag([0x55, 0x56, 0x42, 0x53]);
        assert(t.0 =~= Self::spec_tag().0);
        t
    }
}

impl Materialized for TextureCoordinateSet {
    type Version = u32;

    type Model = TextureCoordinateSetModel;

    open spec fn model(&self) -> TextureCoordinateSetModel {
        TextureCoordinateSetModel {
            texture_coordinates: models(self.texture_coordinates@),
        }
    }

    open spec fn spec_parse(version: Option<u32>, input: Seq<u8>) -> Parsed<TextureCoordinateSetModel> {
        match spec_expect_tag(Self::spec_tag(), input) {
            Ok((rest, _)) => match spec_parse_len_vec::<[FloatBits; 2]>(None, rest) {
                Ok((rest, texture_coordinates)) => Ok((rest, TextureCoordinateSetModel { texture_coordinates })),
                Err(e) => Err(e),
            },
            Err(e) => Err(e),
        }
    }

    open spec fn wire(m: TextureCoordinateSetModel) -> Seq<u8> {
        Self::spec_tag().0@ + (wire_len_vec::<[FloatBits; 2]>(m.texture_coordinates))
    }

    open spec fn encode_error(m: TextureCoordinateSetModel) -> Option<EncodeError> {
        encode_error_len_vec::<[FloatBits; 2]>(m.texture_coordinates)
    }

    fn parse_versioned<'a>(version: Option<u32>, input: &'a [u8]) -> (r: Parser<'a, TextureCoordinateSet>) {
        let (input, _) = Self::tag().expect(input)?;
        let (input, texture_coordinates) = parse_len_vec::<[FloatBits; 2]>(None, input)?;
        Ok((input, TextureCoordinateSet { texture_coordinates }))
    }

    fn encode(&self, output: &mut Vec<u8>) -> (r: Result<(), EncodeError>) {
        let ghost p0 = output@;
        Self::tag().encode(output)?;
        let ghost p1 = output@;
        encode_len_vec(self.texture_coordinates.as_slice(), output)?;
        proof {
            let m = self.model();
            let w1 = Self::spec_tag().0@;
            let w2 = wire_len_vec::<[FloatBits; 2]>(m.texture_coordinates);
            lemma_append_assoc(p0, w1, w2);
        }
        Ok(())
    }
}

impl Lossless for TextureCoordinateSet {
    open spec fn faithful(m: TextureCoordinateSetModel) -> bool {
        all_faithful::<[FloatBits; 2]>(m.texture_coordinates)
    }

    proof fn lemma_parse_wire(version: Option<u32>, input: Seq<u8>) {
        lemma_expect_tag(Self::spec_tag(), input);
        match spec_expect_tag(Self::spec_tag(), input) {
            Ok((rest1, _)) => {
                assert(Self::spec_tag().0@ + rest1 == input);
                lemma_len_vec_parse_wire::<[FloatBits; 2]>(None, rest1);
                match spec_parse_len_vec::<[FloatBits; 2]>(None, rest1) {
                    Ok((rest2, texture_coordinates)) => {
                        assert(all_faithful::<[FloatBits; 2]>(texture_coordinates) ==> encode_error_len_vec::<[FloatBits; 2]>(texture_coordinates) is None
                            && wire_len_vec::<[FloatBits; 2]>(texture_coordinates) + rest2 == rest1);
                        let m = TextureCoordinateSetModel { texture_coordinates };
                        if Self::faithful(m) {
                            let w1 = Self::spec_tag().0@;
                            let w2 = wire_len_vec::<[FloatBits; 2]>(m.texture_coordinates);
                            lemma_append_assoc(w1, w2, rest2);
                        }
                    },
                    Err(_) => {},
                }
            },
            Err(_) => {},
        }
    }
}

impl Reparsable for TextureCoordinateSet {
    open spec fn well_formed(m: TextureCoordinateSetModel, version: Option<u32>) -> bool {
        m.texture_coordinates.len() <= u32::MAX && all_well_formed::<[FloatBits; 2]>(m.texture_coordinates, None)
    }

    proof fn lemma_wire_parse(m: TextureCoordinateSetModel, version: Option<u32>, tail: Seq<u8>) {
        let w1 = Self::spec_tag().0@;
        let w2 = wire_len_vec::<[FloatBits; 2]>(m.texture_coordinates);
        let u3 = tail;
        let u2 = w2 + u3;
        let u1 = w1 + u2;
        lemma_append_assoc(w1, w2, tail);
        lemma_expect_tag_wire(Self::spec_tag(), u2);
        lemma_len_vec_wire_parse::<[FloatBits; 2]>(None, m.texture_coordinates, u3);
    }
}

impl TaggedBlock for TextureCoordinateSet {
    proof fn lemma_wire_tag(m: TextureCoordinateSetModel) {
        lemma_tag_bytes(Self::spec_tag(), Self::spec_tag().0@);
        assert(Self::wire(m).take(4) =~= Self::spec_tag().0@);
    }
}

} // verus!
